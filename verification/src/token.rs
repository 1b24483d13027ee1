//! The words of the language: mnemonics, register names and integer literals.

use crate::isa::{HexSize, JmpKind, Register};
use crate::scan::{DigitBase, UNDERSCORE};
use vstd::prelude::*;
use vstd::string::StringSliceAdditionalSpecFns;
use vstd::utf8::encode_utf8_decode_utf8;

verus! {

/// Whether two texts are the same.
pub fn same_text(a: &str, b: &str) -> (same: bool)
    ensures
        same == (a@ == b@),
{
    let x = a.as_bytes();
    let y = b.as_bytes();
    proof {
        encode_utf8_decode_utf8(a@);
        encode_utf8_decode_utf8(b@);
    }
    if x.len() != y.len() {
        return false;
    }
    let mut i: usize = 0;
    while i < x.len()
        invariant
            i <= x@.len() == y@.len(),
            x@ == a.spec_bytes(),
            y@ == b.spec_bytes(),
            forall|k: int| 0 <= k < i ==> x@[k] == y@[k],
        decreases x@.len() - i,
    {
        if x[i] != y[i] {
            return false;
        }
        i += 1;
    }
    assert(x@ =~= y@);
    true
}

/// The operation that the first word of an instruction line names.
#[derive(Debug, Clone, Copy, PartialEq, Eq, Structural)]
pub enum Mnemonic {
    Mov,
    Compare,
    Jump(JmpKind),
    Call,
    Ret,
    Push,
    Pop,
    Add,
    Sub,
    Inc,
    Dec,
    Mul,
    Div,
    Mod,
    Str,
    Print,
}

/// The mnemonic that `name` spells.
pub open spec fn mnemonic_of(name: Seq<char>) -> Option<Mnemonic> {
    if name == "push"@ {
        Some(Mnemonic::Push)
    } else if name == "jmp"@ {
        Some(Mnemonic::Jump(JmpKind::Jmp))
    } else if name == "je"@ {
        Some(Mnemonic::Jump(JmpKind::Je))
    } else if name == "jne"@ {
        Some(Mnemonic::Jump(JmpKind::Jne))
    } else if name == "jl"@ {
        Some(Mnemonic::Jump(JmpKind::Jl))
    } else if name == "jle"@ {
        Some(Mnemonic::Jump(JmpKind::Jle))
    } else if name == "jg"@ {
        Some(Mnemonic::Jump(JmpKind::Jg))
    } else if name == "jge"@ {
        Some(Mnemonic::Jump(JmpKind::Jge))
    } else if name == "call"@ {
        Some(Mnemonic::Call)
    } else if name == "ret"@ {
        Some(Mnemonic::Ret)
    } else if name == "mul"@ {
        Some(Mnemonic::Mul)
    } else if name == "div"@ {
        Some(Mnemonic::Div)
    } else if name == "mod"@ {
        Some(Mnemonic::Mod)
    } else if name == "pop"@ {
        Some(Mnemonic::Pop)
    } else if name == "inc"@ {
        Some(Mnemonic::Inc)
    } else if name == "dec"@ {
        Some(Mnemonic::Dec)
    } else if name == "str"@ {
        Some(Mnemonic::Str)
    } else if name == "mov"@ {
        Some(Mnemonic::Mov)
    } else if name == "cmp"@ {
        Some(Mnemonic::Compare)
    } else if name == "add"@ {
        Some(Mnemonic::Add)
    } else if name == "sub"@ {
        Some(Mnemonic::Sub)
    } else if name == "print"@ {
        Some(Mnemonic::Print)
    } else {
        None
    }
}

/// Looks a word up in the table of mnemonics.
pub fn mnemonic(name: &str) -> (found: Option<Mnemonic>)
    ensures
        found == mnemonic_of(name@),
{
    if same_text(name, "push") {
        Some(Mnemonic::Push)
    } else if same_text(name, "jmp") {
        Some(Mnemonic::Jump(JmpKind::Jmp))
    } else if same_text(name, "je") {
        Some(Mnemonic::Jump(JmpKind::Je))
    } else if same_text(name, "jne") {
        Some(Mnemonic::Jump(JmpKind::Jne))
    } else if same_text(name, "jl") {
        Some(Mnemonic::Jump(JmpKind::Jl))
    } else if same_text(name, "jle") {
        Some(Mnemonic::Jump(JmpKind::Jle))
    } else if same_text(name, "jg") {
        Some(Mnemonic::Jump(JmpKind::Jg))
    } else if same_text(name, "jge") {
        Some(Mnemonic::Jump(JmpKind::Jge))
    } else if same_text(name, "call") {
        Some(Mnemonic::Call)
    } else if same_text(name, "ret") {
        Some(Mnemonic::Ret)
    } else if same_text(name, "mul") {
        Some(Mnemonic::Mul)
    } else if same_text(name, "div") {
        Some(Mnemonic::Div)
    } else if same_text(name, "mod") {
        Some(Mnemonic::Mod)
    } else if same_text(name, "pop") {
        Some(Mnemonic::Pop)
    } else if same_text(name, "inc") {
        Some(Mnemonic::Inc)
    } else if same_text(name, "dec") {
        Some(Mnemonic::Dec)
    } else if same_text(name, "str") {
        Some(Mnemonic::Str)
    } else if same_text(name, "mov") {
        Some(Mnemonic::Mov)
    } else if same_text(name, "cmp") {
        Some(Mnemonic::Compare)
    } else if same_text(name, "add") {
        Some(Mnemonic::Add)
    } else if same_text(name, "sub") {
        Some(Mnemonic::Sub)
    } else if same_text(name, "print") {
        Some(Mnemonic::Print)
    } else {
        None
    }
}

/// The register that `name` names.
pub open spec fn register_of(name: Seq<char>) -> Option<Register> {
    if name == "ax"@ {
        Some(Register::Ax)
    } else if name == "bx"@ {
        Some(Register::Bx)
    } else if name == "cx"@ {
        Some(Register::Cx)
    } else if name == "dx"@ {
        Some(Register::Dx)
    } else if name == "si"@ {
        Some(Register::Si)
    } else if name == "di"@ {
        Some(Register::Di)
    } else if name == "sp"@ {
        Some(Register::Sp)
    } else if name == "bp"@ {
        Some(Register::Bp)
    } else if name == "ip"@ {
        Some(Register::Ip)
    } else {
        None
    }
}

/// Looks a word up in the set of register names.
pub fn register(name: &str) -> (found: Option<Register>)
    ensures
        found == register_of(name@),
{
    if same_text(name, "ax") {
        Some(Register::Ax)
    } else if same_text(name, "bx") {
        Some(Register::Bx)
    } else if same_text(name, "cx") {
        Some(Register::Cx)
    } else if same_text(name, "dx") {
        Some(Register::Dx)
    } else if same_text(name, "si") {
        Some(Register::Si)
    } else if same_text(name, "di") {
        Some(Register::Di)
    } else if same_text(name, "sp") {
        Some(Register::Sp)
    } else if same_text(name, "bp") {
        Some(Register::Bp)
    } else if same_text(name, "ip") {
        Some(Register::Ip)
    } else {
        None
    }
}

impl DigitBase {
    /// The number of digits of the base.
    pub open spec fn radix_of(self) -> int {
        match self {
            DigitBase::Binary => 2,
            DigitBase::Octal => 8,
            DigitBase::Decimal => 10,
            DigitBase::Hex => 16,
        }
    }

    pub fn radix(self) -> (radix: u32)
        ensures
            radix == self.radix_of(),
    {
        match self {
            DigitBase::Binary => 2,
            DigitBase::Octal => 8,
            DigitBase::Decimal => 10,
            DigitBase::Hex => 16,
        }
    }
}

/// The value of a digit, 16 or more for a byte that is none.
pub open spec fn digit_value(b: u8) -> int {
    if 0x30 <= b <= 0x39 {
        b - 0x30
    } else if 0x61 <= b <= 0x66 {
        b - 0x61 + 10
    } else if 0x41 <= b <= 0x46 {
        b - 0x41 + 10
    } else {
        255
    }
}

/// The number that the digits `ds` spell in the given radix, underscores
/// passed over; `None` if a byte is no digit of the radix.
pub open spec fn digits_value(ds: Seq<u8>, radix: int) -> Option<int>
    decreases ds.len(),
{
    if ds.len() == 0 {
        Some(0)
    } else {
        match digits_value(ds.drop_last(), radix) {
            None => None,
            Some(v) => if ds.last() == UNDERSCORE {
                Some(v)
            } else if digit_value(ds.last()) < radix {
                Some(v * radix + digit_value(ds.last()))
            } else {
                None
            },
        }
    }
}

/// The digits of a literal: all of it in base ten, what follows the
/// two-byte prefix in the other bases.
pub open spec fn literal_digits(text: Seq<u8>, base: DigitBase) -> Seq<u8> {
    if base == DigitBase::Decimal || text.len() < 2 {
        text
    } else {
        text.skip(2)
    }
}

/// The word that an integer literal stands for; `None` if a digit does not
/// belong to the base or the number does not fit in a word.
pub open spec fn literal(text: Seq<u8>, base: DigitBase) -> Option<HexSize> {
    match digits_value(literal_digits(text, base), base.radix_of()) {
        Some(v) => if v <= HexSize::MAX {
            Some(v as HexSize)
        } else {
            None
        },
        None => None,
    }
}

/// A number only grows, or stops being one, as digits are added.
proof fn lemma_digits_grow(ds: Seq<u8>, n: int, radix: int)
    requires
        0 <= n <= ds.len(),
        2 <= radix,
    ensures
        digits_value(ds.take(n), radix) is None ==> digits_value(ds, radix) is None,
        digits_value(ds, radix) is Some ==> 0 <= digits_value(ds.take(n), radix)->0 <= digits_value(
            ds,
            radix,
        )->0,
    decreases ds.len() - n,
{
    if n == ds.len() {
        assert(ds.take(n) =~= ds);
        lemma_digits_nonneg(ds, radix);
    } else {
        lemma_digits_grow(ds, n + 1, radix);
        assert(ds.take(n + 1).drop_last() =~= ds.take(n));
        lemma_digits_nonneg(ds.take(n), radix);
        if digits_value(ds.take(n), radix) is Some && digits_value(ds.take(n + 1), radix) is Some {
            let v = digits_value(ds.take(n), radix)->0;
            assert(v * radix >= v) by (nonlinear_arith)
                requires
                    v >= 0,
                    radix >= 2,
            ;
        }
    }
}

proof fn lemma_digits_nonneg(ds: Seq<u8>, radix: int)
    requires
        2 <= radix,
    ensures
        digits_value(ds, radix) is Some ==> digits_value(ds, radix)->0 >= 0,
    decreases ds.len(),
{
    if ds.len() > 0 {
        lemma_digits_nonneg(ds.drop_last(), radix);
        if digits_value(ds.drop_last(), radix) is Some {
            let v = digits_value(ds.drop_last(), radix)->0;
            assert(v * radix >= 0) by (nonlinear_arith)
                requires
                    v >= 0,
                    radix >= 2,
            ;
        }
    }
}

fn digit_of(b: u8) -> (d: u64)
    ensures
        d == digit_value(b),
{
    if 0x30 <= b && b <= 0x39 {
        (b - 0x30) as u64
    } else if 0x61 <= b && b <= 0x66 {
        (b - 0x61 + 10) as u64
    } else if 0x41 <= b && b <= 0x46 {
        (b - 0x41 + 10) as u64
    } else {
        255
    }
}

/// Reads an integer literal in the given base.
pub fn number(text: &str, base: DigitBase) -> (n: Option<HexSize>)
    ensures
        n == literal(text.spec_bytes(), base),
{
    let bytes = text.as_bytes();
    let radix = base.radix() as u64;
    let start: usize = match base {
        DigitBase::Decimal => 0,
        _ => if bytes.len() < 2 {
            0
        } else {
            2
        },
    };
    let ghost ds = literal_digits(bytes@, base);
    let mut acc: u64 = 0;
    let mut i: usize = start;
    assert(ds.take(0) =~= Seq::<u8>::empty());
    while i < bytes.len()
        invariant
            start <= i <= bytes@.len(),
            bytes@ == text.spec_bytes(),
            ds == literal_digits(bytes@, base),
            ds == bytes@.skip(start as int),
            radix == base.radix_of(),
            digits_value(ds.take(i - start), radix as int) == Some(acc as int),
        decreases bytes@.len() - i,
    {
        let b = bytes[i];
        let ghost k = i - start;
        proof {
            assert(ds.take(k + 1).drop_last() =~= ds.take(k));
            assert(ds.take(k + 1).last() == b);
            lemma_digits_grow(ds, k + 1, radix as int);
        }
        if b != UNDERSCORE {
            let d = digit_of(b);
            if d >= radix {
                return None;
            }
            let scaled = match acc.checked_mul(radix) {
                Some(scaled) => scaled,
                None => {
                    return None;
                },
            };
            acc = match scaled.checked_add(d) {
                Some(sum) => sum,
                None => {
                    return None;
                },
            };
        }
        i += 1;
    }
    assert(ds.take(i - start) =~= ds);
    Some(acc)
}

} // verus!
