//! The mathematical model of the engine: what a machine is and what one
//! instruction makes of it.

use crate::alu::result;
use crate::intern::Symbol;
use crate::isa::{Address, HexSize, IHexSize, JmpKind, Op, Register, Sequence, Value};
use crate::stack::{Fault, FlagSet, RegisterSet, Stack};
use vstd::prelude::*;

verus! {

/// The state of a machine.
#[verifier::ext_equal]
pub struct Machine {
    pub reg: RegisterSet,
    pub flg: FlagSet,
    /// The words of memory; the stack lies at its upper end.
    pub mem: Seq<HexSize>,
    /// The label table: the cell that belongs to each defined name.
    pub labels: Map<Symbol, HexSize>,
    /// The program.
    pub seq: Seq<Sequence>,
    /// The symbol table: the text behind each id.
    pub strings: Seq<Seq<char>>,
    /// Everything printed so far.
    pub out: Seq<char>,
}

/// A machine after an attempt to run part of a program, and the fault that
/// stopped it, if one did. A fault undoes nothing: the state is what it was
/// when the fault struck.
#[verifier::ext_equal]
pub struct Outcome {
    pub state: Machine,
    pub fault: Option<Fault>,
}

impl Outcome {
    pub open spec fn good(state: Machine) -> Outcome {
        Outcome { state, fault: None }
    }

    pub open spec fn bad(state: Machine, fault: Fault) -> Outcome {
        Outcome { state, fault: Some(fault) }
    }

    /// The outcome as a result without the state.
    pub open spec fn status(self) -> Result<(), Fault> {
        match self.fault {
            None => Ok(()),
            Some(fault) => Err(fault),
        }
    }
}

/// Whether a jump of the given kind is taken under the given flags.
pub open spec fn taken(flg: FlagSet, kind: JmpKind) -> bool {
    match kind {
        JmpKind::Jmp => true,
        JmpKind::Je => flg.zf,
        JmpKind::Jne => !flg.zf,
        JmpKind::Jl => !flg.zf && flg.sf,
        JmpKind::Jle => flg.zf || flg.sf,
        JmpKind::Jg => !flg.zf && !flg.sf,
        JmpKind::Jge => flg.zf || !flg.sf,
    }
}

/// A signed immediate read as a word: the word that is congruent to it
/// modulo the word size.
pub open spec fn unsigned(ih: IHexSize) -> HexSize {
    0u64.wrapping_add_signed(ih)
}

/// Byte `i` of `bytes` as a number, zero past the end.
pub open spec fn byte_or_zero(bytes: Seq<u8>, i: int) -> int {
    if 0 <= i < bytes.len() {
        bytes[i] as int
    } else {
        0
    }
}

/// The word that holds bytes `8k .. 8k + 8` of `bytes`, the first byte in
/// the most significant place; bytes past the end count as zero.
pub open spec fn packed(bytes: Seq<u8>, k: int) -> HexSize {
    (byte_or_zero(bytes, 8 * k) * 0x100_0000_0000_0000 + byte_or_zero(bytes, 8 * k + 1)
        * 0x1_0000_0000_0000 + byte_or_zero(bytes, 8 * k + 2) * 0x100_0000_0000 + byte_or_zero(
        bytes,
        8 * k + 3,
    ) * 0x1_0000_0000 + byte_or_zero(bytes, 8 * k + 4) * 0x100_0000 + byte_or_zero(
        bytes,
        8 * k + 5,
    ) * 0x1_0000 + byte_or_zero(bytes, 8 * k + 6) * 0x100 + byte_or_zero(bytes, 8 * k + 7)) as HexSize
}

/// The number of words that `n` bytes take.
pub open spec fn words_for(n: int) -> int {
    (n + 7) / 8
}

/// The words that hold `bytes`, eight bytes to a word.
pub open spec fn packed_words(bytes: Seq<u8>) -> Seq<HexSize> {
    Seq::new(words_for(bytes.len() as int) as nat, |k: int| packed(bytes, k))
}

/// Byte `j` of a word, counted from the most significant one.
pub open spec fn word_byte(w: HexSize, j: int) -> u8 {
    if j == 0 {
        (w / 0x100_0000_0000_0000) as u8
    } else if j == 1 {
        (w / 0x1_0000_0000_0000 % 256) as u8
    } else if j == 2 {
        (w / 0x100_0000_0000 % 256) as u8
    } else if j == 3 {
        (w / 0x1_0000_0000 % 256) as u8
    } else if j == 4 {
        (w / 0x100_0000 % 256) as u8
    } else if j == 5 {
        (w / 0x1_0000 % 256) as u8
    } else if j == 6 {
        (w / 0x100 % 256) as u8
    } else {
        (w % 256) as u8
    }
}

impl Machine {
    /// A machine that has not run yet: the given program, label table and
    /// symbol table, memory all zero, nothing printed.
    pub open spec fn boot(
        seq: Seq<Sequence>,
        labels: Map<Symbol, HexSize>,
        strings: Seq<Seq<char>>,
    ) -> Machine {
        Machine {
            reg: RegisterSet::initial(),
            flg: FlagSet::cleared(),
            mem: Seq::new(0xEEEE, |i: int| 0u64),
            labels,
            seq,
            strings,
            out: Seq::empty(),
        }
    }

    /// The program has run to its end.
    pub open spec fn halted(self) -> bool {
        self.reg.ip >= self.seq.len()
    }

    /// The stack of the machine.
    pub open spec fn stack(self) -> Stack {
        Stack { sp: self.reg.sp, mem: self.mem }
    }

    /// The machine with the given stack in place of its own.
    pub open spec fn with_stack(self, stack: Stack) -> Machine {
        Machine { reg: RegisterSet { sp: stack.sp, ..self.reg }, mem: stack.mem, ..self }
    }

    /// The memory cell at `index`.
    pub open spec fn cell(self, index: HexSize) -> Result<HexSize, Fault> {
        if index < self.mem.len() {
            Ok(self.mem[index as int])
        } else {
            Err(Fault::BadAddress)
        }
    }

    /// The machine with `x` in the memory cell at `index`.
    pub open spec fn with_cell(self, index: HexSize, x: HexSize) -> Result<Machine, Fault> {
        if index < self.mem.len() {
            Ok(Machine { mem: self.mem.update(index as int, x), ..self })
        } else {
            Err(Fault::BadAddress)
        }
    }

    /// The word at an address.
    pub open spec fn load(self, add: Address) -> Result<HexSize, Fault> {
        match add {
            Address::Register(r, deref) => if deref {
                self.cell(self.reg.get(r))
            } else {
                Ok(self.reg.get(r))
            },
            Address::Stack(index) => self.cell(index),
            Address::Ident(sym) => if self.labels.contains_key(sym) {
                Ok(self.labels[sym])
            } else {
                Err(Fault::UndefinedLabel)
            },
        }
    }

    /// The machine with `x` at an address.
    pub open spec fn store(self, add: Address, x: HexSize) -> Result<Machine, Fault> {
        match add {
            Address::Register(r, deref) => if deref {
                self.with_cell(self.reg.get(r), x)
            } else {
                Ok(Machine { reg: self.reg.set(r, x), ..self })
            },
            Address::Stack(index) => self.with_cell(index, x),
            Address::Ident(sym) => if self.labels.contains_key(sym) {
                Ok(Machine { labels: self.labels.insert(sym, x), ..self })
            } else {
                Err(Fault::UndefinedLabel)
            },
        }
    }

    /// The word that an operand stands for.
    pub open spec fn eval(self, value: Value) -> Result<HexSize, Fault> {
        match value {
            Value::Address(add) => self.load(add),
            Value::Hex(hx) => Ok(hx),
            Value::IHex(ih) => Ok(unsigned(ih)),
        }
    }

    /// The instruction index that a jump operand names: a signed immediate
    /// counts from the current instruction, anything else is the index itself.
    pub open spec fn target(self, value: Value) -> Result<HexSize, Fault> {
        match value {
            Value::IHex(diff) => Ok(self.reg.ip.wrapping_add_signed(diff)),
            _ => self.eval(value),
        }
    }

    /// A jump: under flags that take it, the instruction pointer goes to the
    /// target; otherwise nothing changes and the operand is not looked at.
    pub open spec fn jumped(self, value: Value, kind: JmpKind) -> Outcome {
        if taken(self.flg, kind) {
            match self.target(value) {
                Ok(ip) => Outcome::good(Machine { reg: RegisterSet { ip, ..self.reg }, ..self }),
                Err(fault) => Outcome::bad(self, fault),
            }
        } else {
            Outcome::good(self)
        }
    }

    /// A push of `word`.
    pub open spec fn pushed(self, word: HexSize) -> Outcome {
        match self.stack().push(word) {
            Ok(stack) => Outcome::good(self.with_stack(stack)),
            Err(fault) => Outcome::bad(self, fault),
        }
    }

    /// Pushes of the first `n` words of `words`, the last of them first, so
    /// that afterwards they lie in memory in their order, the first on top.
    pub open spec fn pushed_words(self, words: Seq<HexSize>, n: nat) -> Outcome
        decreases n,
    {
        if n == 0 {
            Outcome::good(self)
        } else {
            let o = self.pushed(words[n - 1]);
            if o.fault is Some {
                o
            } else {
                o.state.pushed_words(words, (n - 1) as nat)
            }
        }
    }

    /// An arithmetic instruction on the cell at `add`: the cell is read, the
    /// flags are set, and the result is written back.
    pub open spec fn applied(self, add: Address, b: HexSize, op: Op) -> Outcome {
        match self.load(add) {
            Err(fault) => Outcome::bad(self, fault),
            Ok(a) => match result(a, b, op) {
                Err(fault) => Outcome::bad(self, fault),
                Ok(v) => {
                    let flagged = Machine { flg: self.flg.after(a, b, op, v), ..self };
                    match flagged.store(add, v) {
                        Ok(after) => Outcome::good(after),
                        Err(fault) => Outcome::bad(flagged, fault),
                    }
                },
            },
        }
    }

    /// An arithmetic instruction on the accumulator.
    pub open spec fn accumulated(self, b: HexSize, op: Op) -> Outcome {
        match result(self.reg.ax, b, op) {
            Err(fault) => Outcome::bad(self, fault),
            Ok(v) => Outcome::good(
                Machine {
                    flg: self.flg.after(self.reg.ax, b, op, v),
                    reg: RegisterSet { ax: v, ..self.reg },
                    ..self
                },
            ),
        }
    }

    /// The `n` bytes that lie in memory from the word at `start` on, each
    /// word giving eight bytes, the most significant first.
    pub open spec fn bytes_at(self, start: HexSize, n: HexSize) -> Seq<u8> {
        Seq::new(n as nat, |i: int| word_byte(self.mem[start + i / 8], i % 8))
    }

    /// A print of `n` bytes from the word at `start` on: the bytes must lie
    /// inside memory and be UTF-8 text, which goes to the output.
    pub open spec fn printed(self, start: HexSize, n: HexSize) -> Outcome {
        if start > self.mem.len() || words_for(n as int) > self.mem.len() - start {
            Outcome::bad(self, Fault::BadAddress)
        } else if !vstd::utf8::valid_utf8(self.bytes_at(start, n)) {
            Outcome::bad(self, Fault::InvalidText)
        } else {
            Outcome::good(
                Machine { out: self.out + vstd::utf8::decode_utf8(self.bytes_at(start, n)), ..self },
            )
        }
    }
}

impl Machine {
    /// `mov`: the operand is read first, then written to the address.
    pub open spec fn moved(self, add: Address, value: Value) -> Outcome {
        match self.eval(value) {
            Err(fault) => Outcome::bad(self, fault),
            Ok(x) => match self.store(add, x) {
                Ok(after) => Outcome::good(after),
                Err(fault) => Outcome::bad(self, fault),
            },
        }
    }

    /// The flags set by a three-way comparison of two operands.
    pub open spec fn flagged(self, a: Value, b: Value) -> Outcome {
        match self.eval(a) {
            Err(fault) => Outcome::bad(self, fault),
            Ok(x) => match self.eval(b) {
                Err(fault) => Outcome::bad(self, fault),
                Ok(y) => Outcome::good(Machine { flg: FlagSet::compared(x, y), ..self }),
            },
        }
    }

    /// `call`: the index of the call itself is pushed, then the instruction
    /// pointer goes to the cell of the label.
    pub open spec fn called(self, sym: Symbol) -> Outcome {
        let o = self.pushed(self.reg.ip);
        if o.fault is Some {
            o
        } else if o.state.labels.contains_key(sym) {
            Outcome::good(
                Machine { reg: RegisterSet { ip: o.state.labels[sym], ..o.state.reg }, ..o.state },
            )
        } else {
            Outcome::bad(o.state, Fault::UndefinedLabel)
        }
    }

    /// `ret`: the instruction pointer is popped off the stack.
    pub open spec fn returned(self) -> Outcome {
        match self.stack().pop() {
            Ok((ip, stack)) => Outcome::good(
                Machine { reg: RegisterSet { ip, sp: stack.sp, ..self.reg }, ..self },
            ),
            Err(fault) => Outcome::bad(self, fault),
        }
    }

    /// `push` of an operand.
    pub open spec fn pushed_value(self, value: Value) -> Outcome {
        match self.eval(value) {
            Ok(word) => self.pushed(word),
            Err(fault) => Outcome::bad(self, fault),
        }
    }

    /// `pop`: the word comes off the stack first, then goes to the address,
    /// which is resolved in the machine as the pop left it.
    pub open spec fn popped(self, add: Address) -> Outcome {
        match self.stack().pop() {
            Ok((word, stack)) => {
                let lower = self.with_stack(stack);
                match lower.store(add, word) {
                    Ok(after) => Outcome::good(after),
                    Err(fault) => Outcome::bad(lower, fault),
                }
            },
            Err(fault) => Outcome::bad(self, fault),
        }
    }

    /// `add` and `sub` with an operand.
    pub open spec fn applied_value(self, add: Address, value: Value, op: Op) -> Outcome {
        match self.eval(value) {
            Ok(b) => self.applied(add, b, op),
            Err(fault) => Outcome::bad(self, fault),
        }
    }

    /// `mul`, `div` and `mod` with an operand.
    pub open spec fn accumulated_value(self, value: Value, op: Op) -> Outcome {
        match self.eval(value) {
            Ok(b) => self.accumulated(b, op),
            Err(fault) => Outcome::bad(self, fault),
        }
    }

    /// `str`: the bytes of the text behind `sym` are packed into words and
    /// pushed, so that the first word ends on top of the stack.
    pub open spec fn staged(self, sym: Symbol) -> Outcome {
        if sym < self.strings.len() {
            let words = packed_words(vstd::utf8::encode_utf8(self.strings[sym as int]));
            self.pushed_words(words, words.len())
        } else {
            Outcome::bad(self, Fault::UnknownString)
        }
    }

    /// `print`: the address holds the index of the first word.
    pub open spec fn printed_from(self, add: Address, n: HexSize) -> Outcome {
        match self.load(add) {
            Ok(start) => self.printed(start, n),
            Err(fault) => Outcome::bad(self, fault),
        }
    }

    /// What an instruction does, but for the step to the next instruction.
    pub open spec fn execute(self, ins: Sequence) -> Outcome {
        match ins {
            Sequence::Mov(add, value) => self.moved(add, value),
            Sequence::Cmp(a, b) => self.flagged(a, b),
            Sequence::Jmp(value) => self.jumped(value, JmpKind::Jmp),
            Sequence::Je(value) => self.jumped(value, JmpKind::Je),
            Sequence::Jne(value) => self.jumped(value, JmpKind::Jne),
            Sequence::Jl(value) => self.jumped(value, JmpKind::Jl),
            Sequence::Jle(value) => self.jumped(value, JmpKind::Jle),
            Sequence::Jg(value) => self.jumped(value, JmpKind::Jg),
            Sequence::Jge(value) => self.jumped(value, JmpKind::Jge),
            Sequence::Call(sym) => self.called(sym),
            Sequence::Ret => self.returned(),
            Sequence::Push(value) => self.pushed_value(value),
            Sequence::Pop(add) => self.popped(add),
            Sequence::Add(add, value) => self.applied_value(add, value, Op::Add),
            Sequence::Sub(add, value) => self.applied_value(add, value, Op::Sub),
            Sequence::Inc(add) => self.applied(add, 1, Op::Add),
            Sequence::Dec(add) => self.applied(add, 1, Op::Sub),
            Sequence::Mul(value) => self.accumulated_value(value, Op::Mul),
            Sequence::Div(value) => self.accumulated_value(value, Op::Div),
            Sequence::Mod(value) => self.accumulated_value(value, Op::Mod),
            Sequence::Str(sym) => self.staged(sym),
            Sequence::Print(add, n) => self.printed_from(add, n),
        }
    }

    /// Whether instruction `ins` sets the instruction pointer itself in this
    /// machine: a jump that the flags take, a call or a return.
    pub open spec fn transfers(self, ins: Sequence) -> bool {
        match ins {
            Sequence::Call(_) | Sequence::Ret => true,
            _ => match ins.jump_kind() {
                Some(kind) => taken(self.flg, kind),
                None => false,
            },
        }
    }

    /// The machine with the instruction pointer moved on by one.
    pub open spec fn advanced(self) -> Machine {
        Machine { reg: RegisterSet { ip: self.reg.ip.wrapping_add(1), ..self.reg }, ..self }
    }

    /// One fetch-decode-execute cycle of a machine that has not halted. An
    /// instruction that sets the instruction pointer itself has the last
    /// word on it, also where it sets the pointer to its own index: no
    /// instruction both jumps and falls through. After any other instruction
    /// the pointer moves on by one, unless the instruction wrote another
    /// value to it.
    pub open spec fn step(self) -> Outcome {
        let ins = self.seq[self.reg.ip as int];
        let o = self.execute(ins);
        if o.fault is Some || self.transfers(ins) || o.state.reg.ip != self.reg.ip {
            o
        } else {
            Outcome::good(o.state.advanced())
        }
    }

    /// The machine run until it halts, faults, or has made `limit` steps.
    pub open spec fn run_for(self, limit: nat) -> Outcome
        decreases limit,
    {
        if limit == 0 || self.halted() {
            Outcome::good(self)
        } else {
            let o = self.step();
            if o.fault is Some {
                o
            } else {
                o.state.run_for((limit - 1) as nat)
            }
        }
    }
}

/// Determinism: two machines in the same state are in the same state after
/// any number of steps, and stop on the same fault if they stop on one.
pub proof fn lemma_run_deterministic(a: Machine, b: Machine, limit: nat)
    requires
        a.reg == b.reg,
        a.flg == b.flg,
        a.mem =~= b.mem,
        a.labels =~= b.labels,
        a.seq =~= b.seq,
        a.strings =~= b.strings,
        a.out =~= b.out,
    ensures
        a.run_for(limit) == b.run_for(limit),
{
    assert(a =~= b);
}

/// No instruction both jumps and falls through: after a jump that the flags
/// take the instruction pointer is the target of the jump, after a call it
/// is the cell of the label, and after a return it is the word that was on
/// top of the stack, also where that is the index of the instruction itself.
pub proof fn lemma_transfer_lands(m: Machine)
    requires
        !m.halted(),
        m.transfers(m.seq[m.reg.ip as int]),
        m.step().fault is None,
    ensures
        match m.seq[m.reg.ip as int] {
            Sequence::Call(sym) => m.labels.contains_key(sym) && m.step().state.reg.ip
                == m.labels[sym],
            Sequence::Ret => m.stack().pop() is Ok && m.step().state.reg.ip == m.stack().pop()->Ok_0.0,
            Sequence::Jmp(v)
            | Sequence::Je(v)
            | Sequence::Jne(v)
            | Sequence::Jl(v)
            | Sequence::Jle(v)
            | Sequence::Jg(v)
            | Sequence::Jge(v) => m.target(v) == Ok::<HexSize, Fault>(m.step().state.reg.ip),
            _ => false,
        },
{
}

/// Indirect addressing: a word written through a register that holds an
/// index inside memory is the word read at that index, directly or through
/// the register.
pub proof fn lemma_indirect_write(m: Machine, r: Register, x: HexSize)
    requires
        m.reg.get(r) < m.mem.len(),
    ensures
        m.store(Address::Register(r, true), x) is Ok,
        m.store(Address::Register(r, true), x)->Ok_0.load(Address::Stack(m.reg.get(r))) == Ok::<
            HexSize,
            Fault,
        >(x),
        m.store(Address::Register(r, true), x)->Ok_0.load(Address::Register(r, true)) == Ok::<
            HexSize,
            Fault,
        >(x),
{
}

/// Running splits: a run of `n + m` steps is a run of `n` steps followed,
/// unless it faulted, by a run of `m` steps from where it stopped.
pub proof fn lemma_run_split(m0: Machine, n: nat, m: nat)
    ensures
        m0.run_for(n + m) == if m0.run_for(n).fault is Some {
            m0.run_for(n)
        } else {
            m0.run_for(n).state.run_for(m)
        },
    decreases n,
{
    if n == 0 {
    } else if m0.halted() {
        assert(m0.run_for(n + m) == Outcome::good(m0));
        assert(m0.run_for(m) == Outcome::good(m0)) by {
            if m > 0 {
            }
        }
    } else {
        let o = m0.step();
        if o.fault is None {
            lemma_run_split(o.state, (n - 1) as nat, m);
            assert(((n + m) - 1) as nat == (n - 1) as nat + m);
        }
    }
}

} // verus!
