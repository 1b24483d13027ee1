//! The engine: a machine in memory and the fetch-decode-execute loop on it.

use crate::intern::{interned, new_interner, resolve, Symbol, SymbolTable};
use crate::isa::{
    Address, HexSize, JmpKind, Op, Register, Sequence, Value, HEX_MEM_SIZE, MEM_SIZE,
};
use crate::machine::{packed, packed_words, taken, word_byte, words_for, Machine};
use crate::stack::{pop, push, Fault, FlagSet, RegisterSet};
use std::collections::HashMap;
use vstd::prelude::*;
use vstd::string::{StringExecFns, StringSliceAdditionalSpecFns};
use vstd::utf8::{decode_utf8, valid_utf8};

verus! {

broadcast use vstd::std_specs::hash::group_hash_axioms;

/// A machine: the program, its tables, and the state that running changes.
#[derive(Debug, PartialEq, Eq)]
pub struct HexVm {
    pub si: SymbolTable,
    pub labels: HashMap<Symbol, HexSize>,
    pub flg: FlagSet,
    pub reg: RegisterSet,
    pub seq: Vec<Sequence>,
    pub mem: [HexSize; MEM_SIZE],
    /// The text that `print` instructions have written.
    pub out: String,
}

impl View for HexVm {
    type V = Machine;

    open spec fn view(&self) -> Machine {
        Machine {
            reg: self.reg,
            flg: self.flg,
            mem: self.mem@,
            labels: self.labels@,
            seq: self.seq@,
            strings: interned(self.si),
            out: self.out@,
        }
    }
}

/// `String::from_utf8`: the text that the bytes encode, or `None` when they
/// are not UTF-8.
#[verifier::external_body]
fn text_of(bytes: Vec<u8>) -> (text: Option<String>)
    ensures
        text is Some <==> valid_utf8(bytes@),
        text is Some ==> text->0@ == decode_utf8(bytes@),
{
    String::from_utf8(bytes).ok()
}

/// Byte `i` of `bytes` as a word, zero past the end.
fn byte_at(bytes: &[u8], i: usize) -> (b: HexSize)
    ensures
        b == crate::machine::byte_or_zero(bytes@, i as int),
{
    if i < bytes.len() {
        bytes[i] as HexSize
    } else {
        0
    }
}

/// Packs bytes `8k .. 8k + 8` of `bytes` into a word.
fn pack(bytes: &[u8], k: usize) -> (w: HexSize)
    requires
        8 * k + 7 <= usize::MAX,
    ensures
        w == packed(bytes@, k as int),
{
    let at = 8 * k;
    byte_at(bytes, at) * 0x100_0000_0000_0000 + byte_at(bytes, at + 1) * 0x1_0000_0000_0000
        + byte_at(bytes, at + 2) * 0x100_0000_0000 + byte_at(bytes, at + 3) * 0x1_0000_0000
        + byte_at(bytes, at + 4) * 0x100_0000 + byte_at(bytes, at + 5) * 0x1_0000 + byte_at(
        bytes,
        at + 6,
    ) * 0x100 + byte_at(bytes, at + 7)
}

/// Byte `j` of a word, counted from the most significant one.
fn unpack(w: HexSize, j: usize) -> (b: u8)
    requires
        j < 8,
    ensures
        b == word_byte(w, j as int),
{
    if j == 0 {
        (w / 0x100_0000_0000_0000) as u8
    } else if j == 1 {
        (w / 0x1_0000_0000_0000 % 256) as u8
    } else if j == 2 {
        (w / 0x100_0000_0000 % 256) as u8
    } else if j == 3 {
        (w / 0x1_0000_0000 % 256) as u8
    } else if j == 4 {
        (w / 0x100_0000 % 256) as u8
    } else if j == 5 {
        (w / 0x1_0000 % 256) as u8
    } else if j == 6 {
        (w / 0x100 % 256) as u8
    } else {
        (w % 256) as u8
    }
}

impl HexVm {
    /// A machine that is about to run `seq` with the label table `labels`
    /// and an empty symbol table.
    pub fn new(seq: Vec<Sequence>, labels: HashMap<Symbol, HexSize>) -> (vm: HexVm)
        ensures
            vm@ == Machine::boot(seq@, labels@, Seq::empty()),
    {
        HexVm::with_symbols(new_interner(), seq, labels)
    }

    /// A machine that is about to run `seq` with the given tables.
    pub fn with_symbols(si: SymbolTable, seq: Vec<Sequence>, labels: HashMap<Symbol, HexSize>) -> (vm:
        HexVm)
        ensures
            vm@ == Machine::boot(seq@, labels@, interned(si)),
    {
        let vm = HexVm {
            si,
            labels,
            flg: FlagSet { sf: false, cf: false, zf: false, of: false },
            reg: RegisterSet {
                ax: 0,
                bx: 0,
                cx: 0,
                dx: 0,
                si: 0,
                di: 0,
                sp: HEX_MEM_SIZE,
                bp: HEX_MEM_SIZE,
                ip: 0,
            },
            seq,
            mem: [0;MEM_SIZE],
            out: String::new(),
        };
        assert(vm@.mem =~= Seq::new(0xEEEE, |i: int| 0u64));
        vm
    }

    /// Whether the program has run to its end.
    pub fn halted(&self) -> (halted: bool)
        ensures
            halted == self@.halted(),
    {
        self.reg.ip >= self.seq.len() as u64
    }

    fn reg(&self, r: Register) -> (x: HexSize)
        ensures
            x == self.reg.get(r),
    {
        match r {
            Register::Ax => self.reg.ax,
            Register::Bx => self.reg.bx,
            Register::Cx => self.reg.cx,
            Register::Dx => self.reg.dx,
            Register::Si => self.reg.si,
            Register::Di => self.reg.di,
            Register::Sp => self.reg.sp,
            Register::Bp => self.reg.bp,
            Register::Ip => self.reg.ip,
        }
    }

    fn reg_mut(&mut self, r: Register) -> (slot: &mut HexSize)
        ensures
            *slot == old(self).reg.get(r),
            *final(self) == (HexVm { reg: old(self).reg.set(r, *final(slot)), ..*old(self) }),
    {
        match r {
            Register::Ax => &mut self.reg.ax,
            Register::Bx => &mut self.reg.bx,
            Register::Cx => &mut self.reg.cx,
            Register::Dx => &mut self.reg.dx,
            Register::Si => &mut self.reg.si,
            Register::Di => &mut self.reg.di,
            Register::Sp => &mut self.reg.sp,
            Register::Bp => &mut self.reg.bp,
            Register::Ip => &mut self.reg.ip,
        }
    }

    fn mem_at(&self, add: HexSize) -> (x: Result<HexSize, Fault>)
        ensures
            x == self@.cell(add),
    {
        if add < HEX_MEM_SIZE {
            Ok(self.mem[add as usize])
        } else {
            Err(Fault::BadAddress)
        }
    }

    fn mem_mut(&mut self, add: HexSize, x: HexSize) -> (done: Result<(), Fault>)
        ensures
            match old(self)@.with_cell(add, x) {
                Ok(after) => done == Ok::<(), Fault>(()) && final(self)@ == after,
                Err(fault) => done == Err::<(), Fault>(fault) && *final(self) == *old(self),
            },
    {
        if add < HEX_MEM_SIZE {
            self.mem[add as usize] = x;
            Ok(())
        } else {
            Err(Fault::BadAddress)
        }
    }

    /// Reads the word at an address.
    fn address(&self, add: Address) -> (x: Result<HexSize, Fault>)
        ensures
            x == self@.load(add),
    {
        match add {
            Address::Register(r, d) => {
                if d {
                    self.mem_at(self.reg(r))
                } else {
                    Ok(self.reg(r))
                }
            },
            Address::Stack(index) => self.mem_at(index),
            Address::Ident(sym) => match self.labels.get(&sym) {
                Some(entry) => Ok(*entry),
                None => Err(Fault::UndefinedLabel),
            },
        }
    }

    /// Writes a word to an address.
    fn address_mut(&mut self, add: Address, x: HexSize) -> (done: Result<(), Fault>)
        ensures
            match old(self)@.store(add, x) {
                Ok(after) => done == Ok::<(), Fault>(()) && final(self)@ == after,
                Err(fault) => done == Err::<(), Fault>(fault) && *final(self) == *old(self),
            },
    {
        match add {
            Address::Register(r, d) => {
                if d {
                    let index = self.reg(r);
                    self.mem_mut(index, x)
                } else {
                    *self.reg_mut(r) = x;
                    Ok(())
                }
            },
            Address::Stack(index) => self.mem_mut(index, x),
            Address::Ident(sym) => {
                if self.labels.contains_key(&sym) {
                    self.labels.insert(sym, x);
                    Ok(())
                } else {
                    Err(Fault::UndefinedLabel)
                }
            },
        }
    }

    /// Reads the word that an operand stands for.
    fn value(&self, value: Value) -> (x: Result<HexSize, Fault>)
        ensures
            x == self@.eval(value),
    {
        match value {
            Value::Address(add) => self.address(add),
            Value::Hex(hx) => Ok(hx),
            Value::IHex(ih) => Ok(0u64.wrapping_add_signed(ih)),
        }
    }

    fn jump_ord(&mut self, value: Value, jmp: JmpKind) -> (done: Result<(), Fault>)
        ensures
            final(self)@ == old(self)@.jumped(value, jmp).state,
            done == old(self)@.jumped(value, jmp).status(),
    {
        if self.takes(jmp) {
            let ip = match value {
                Value::IHex(diff) => self.reg.ip.wrapping_add_signed(diff),
                value => self.value(value)?,
            };
            self.reg.ip = ip;
        }
        Ok(())
    }

    fn push_word(&mut self, word: HexSize) -> (done: Result<(), Fault>)
        ensures
            final(self)@ == old(self)@.pushed(word).state,
            done == old(self)@.pushed(word).status(),
    {
        push(&mut self.reg.sp, &mut self.mem, word)
    }

    fn apply_math(&mut self, add: Address, b: HexSize, op: Op) -> (done: Result<(), Fault>)
        ensures
            final(self)@ == old(self)@.applied(add, b, op).state,
            done == old(self)@.applied(add, b, op).status(),
    {
        let a = self.address(add)?;
        let v = self.flg.math(a, b, op)?;
        self.address_mut(add, v)
    }

    fn accumulate(&mut self, b: HexSize, op: Op) -> (done: Result<(), Fault>)
        ensures
            final(self)@ == old(self)@.accumulated(b, op).state,
            done == old(self)@.accumulated(b, op).status(),
    {
        let v = self.flg.math(self.reg.ax, b, op)?;
        self.reg.ax = v;
        Ok(())
    }

    fn call(&mut self, sym: Symbol) -> (done: Result<(), Fault>)
        ensures
            final(self)@ == old(self)@.called(sym).state,
            done == old(self)@.called(sym).status(),
    {
        self.push_word(self.reg.ip)?;
        match self.labels.get(&sym) {
            Some(entry) => {
                self.reg.ip = *entry;
                Ok(())
            },
            None => Err(Fault::UndefinedLabel),
        }
    }

    fn ret(&mut self) -> (done: Result<(), Fault>)
        ensures
            final(self)@ == old(self)@.returned().state,
            done == old(self)@.returned().status(),
    {
        let ip = pop(&mut self.reg.sp, &self.mem)?;
        self.reg.ip = ip;
        Ok(())
    }

    fn pop_to(&mut self, add: Address) -> (done: Result<(), Fault>)
        ensures
            final(self)@ == old(self)@.popped(add).state,
            done == old(self)@.popped(add).status(),
    {
        let word = pop(&mut self.reg.sp, &self.mem)?;
        self.address_mut(add, word)
    }

    /// Stages the text behind `sym` on the stack, packed into words.
    fn stage(&mut self, sym: Symbol) -> (done: Result<(), Fault>)
        ensures
            final(self)@ == old(self)@.staged(sym).state,
            done == old(self)@.staged(sym).status(),
    {
        let text = match resolve(&self.si, sym) {
            Some(text) => text,
            None => {
                return Err(Fault::UnknownString);
            },
        };
        let bytes = text.as_bytes();
        let n = bytes.len();
        let count = n / 8 + if n % 8 != 0 {
            1usize
        } else {
            0usize
        };
        let ghost words = packed_words(bytes@);
        let mut i = count;
        assert(old(self)@.staged(sym) == self@.pushed_words(words, count as nat));
        while i > 0
            invariant
                i <= count,
                count == words.len(),
                8 * count < n + 8,
                n == bytes@.len(),
                words == packed_words(bytes@),
                old(self)@.staged(sym) == self@.pushed_words(words, i as nat),
            decreases i,
        {
            let word = pack(bytes, i - 1);
            let ghost before = self@;
            match push(&mut self.reg.sp, &mut self.mem, word) {
                Ok(()) => {},
                Err(fault) => {
                    assert(self@ == before);
                    return Err(fault);
                },
            }
            assert(self@ == before.pushed(words[i - 1]).state);
            i -= 1;
        }
        Ok(())
    }

    /// Prints the `n` bytes that lie in memory from the word at `start` on.
    fn print(&mut self, start: HexSize, n: HexSize) -> (done: Result<(), Fault>)
        ensures
            final(self)@ == old(self)@.printed(start, n).state,
            done == old(self)@.printed(start, n).status(),
    {
        if start > HEX_MEM_SIZE {
            return Err(Fault::BadAddress);
        }
        let count = n / 8 + if n % 8 != 0 {
            1u64
        } else {
            0u64
        };
        if count > HEX_MEM_SIZE - start {
            return Err(Fault::BadAddress);
        }
        let mut bytes: Vec<u8> = Vec::new();
        let mut i: u64 = 0;
        while i < n
            invariant
                i <= n,
                start + words_for(n as int) <= HEX_MEM_SIZE,
                bytes@ == self@.bytes_at(start, i),
            decreases n - i,
        {
            let w = self.mem[(start + i / 8) as usize];
            bytes.push(unpack(w, (i % 8) as usize));
            i += 1;
            assert(bytes@ =~= self@.bytes_at(start, i));
        }
        match text_of(bytes) {
            Some(text) => {
                self.out.append(text.as_str());
                Ok(())
            },
            None => Err(Fault::InvalidText),
        }
    }

    fn print_from(&mut self, add: Address, n: HexSize) -> (done: Result<(), Fault>)
        ensures
            final(self)@ == old(self)@.printed_from(add, n).state,
            done == old(self)@.printed_from(add, n).status(),
    {
        let start = self.address(add)?;
        self.print(start, n)
    }

    /// The instruction that the instruction pointer points at.
    fn fetch(&self) -> (ins: Sequence)
        requires
            !self@.halted(),
        ensures
            ins == self@.seq[self.reg.ip as int],
    {
        let len = self.seq.len();
        assert(self.reg.ip < len);
        self.seq[self.reg.ip as usize]
    }

    /// Carries out the instruction `ins`, but for the step to the next one.
    fn execute(&mut self, ins: Sequence) -> (done: Result<(), Fault>)
        ensures
            final(self)@ == old(self)@.execute(ins).state,
            done == old(self)@.execute(ins).status(),
    {
        match ins {
            Sequence::Mov(add, value) => {
                let x = self.value(value)?;
                self.address_mut(add, x)
            },
            Sequence::Cmp(a, b) => {
                let x = self.value(a)?;
                let y = self.value(b)?;
                self.flg.do_cmp(x, y);
                Ok(())
            },
            Sequence::Jmp(value) => self.jump_ord(value, JmpKind::Jmp),
            Sequence::Je(value) => self.jump_ord(value, JmpKind::Je),
            Sequence::Jne(value) => self.jump_ord(value, JmpKind::Jne),
            Sequence::Jl(value) => self.jump_ord(value, JmpKind::Jl),
            Sequence::Jle(value) => self.jump_ord(value, JmpKind::Jle),
            Sequence::Jg(value) => self.jump_ord(value, JmpKind::Jg),
            Sequence::Jge(value) => self.jump_ord(value, JmpKind::Jge),
            Sequence::Call(sym) => self.call(sym),
            Sequence::Ret => self.ret(),
            Sequence::Push(value) => {
                let word = self.value(value)?;
                self.push_word(word)
            },
            Sequence::Pop(add) => self.pop_to(add),
            Sequence::Inc(add) => self.apply_math(add, 1, Op::Add),
            Sequence::Dec(add) => self.apply_math(add, 1, Op::Sub),
            Sequence::Add(add, value) => {
                let b = self.value(value)?;
                self.apply_math(add, b, Op::Add)
            },
            Sequence::Sub(add, value) => {
                let b = self.value(value)?;
                self.apply_math(add, b, Op::Sub)
            },
            Sequence::Mul(value) => {
                let b = self.value(value)?;
                self.accumulate(b, Op::Mul)
            },
            Sequence::Div(value) => {
                let b = self.value(value)?;
                self.accumulate(b, Op::Div)
            },
            Sequence::Mod(value) => {
                let b = self.value(value)?;
                self.accumulate(b, Op::Mod)
            },
            Sequence::Str(sym) => self.stage(sym),
            Sequence::Print(add, n) => self.print_from(add, n),
        }
    }

    /// Whether the flags take a jump of the given kind.
    fn takes(&self, jmp: JmpKind) -> (take: bool)
        ensures
            take == taken(self.flg, jmp),
    {
        match jmp {
            JmpKind::Jmp => true,
            JmpKind::Je => self.flg.zf,
            JmpKind::Jne => !self.flg.zf,
            JmpKind::Jl => !self.flg.zf && self.flg.sf,
            JmpKind::Jle => self.flg.zf || self.flg.sf,
            JmpKind::Jg => !self.flg.zf && !self.flg.sf,
            JmpKind::Jge => self.flg.zf || !self.flg.sf,
        }
    }

    /// Whether instruction `ins` sets the instruction pointer itself: a jump
    /// that the flags take, a call or a return.
    fn transfers(&self, ins: Sequence) -> (sets: bool)
        ensures
            sets == self@.transfers(ins),
    {
        match ins {
            Sequence::Jmp(_) => self.takes(JmpKind::Jmp),
            Sequence::Je(_) => self.takes(JmpKind::Je),
            Sequence::Jne(_) => self.takes(JmpKind::Jne),
            Sequence::Jl(_) => self.takes(JmpKind::Jl),
            Sequence::Jle(_) => self.takes(JmpKind::Jle),
            Sequence::Jg(_) => self.takes(JmpKind::Jg),
            Sequence::Jge(_) => self.takes(JmpKind::Jge),
            Sequence::Call(_) | Sequence::Ret => true,
            _ => false,
        }
    }

    /// One fetch-decode-execute cycle: carries out the instruction at the
    /// instruction pointer and then moves the pointer on by one, unless the
    /// instruction set the pointer itself, as a taken jump, a call and a
    /// return do, or wrote another value to it. A fault stops the cycle
    /// where it strikes.
    pub fn sequence(&mut self) -> (done: Result<(), Fault>)
        requires
            !old(self)@.halted(),
        ensures
            final(self)@ == old(self)@.step().state,
            done == old(self)@.step().status(),
    {
        let before = self.reg.ip;
        let ins = self.fetch();
        let transfers = self.transfers(ins);
        self.execute(ins)?;
        if !transfers && self.reg.ip == before {
            self.reg.ip = self.reg.ip.wrapping_add(1);
        }
        Ok(())
    }

    /// Runs the program until it halts, faults, or has made `limit` steps.
    /// Returns whether it halted, or the fault that stopped it; a caller that
    /// wants no bound on the steps calls again while the answer is `false`.
    pub fn run(&mut self, limit: u64) -> (done: Result<bool, Fault>)
        ensures
            final(self)@ == old(self)@.run_for(limit as nat).state,
            done == match old(self)@.run_for(limit as nat).fault {
                Some(fault) => Err::<bool, Fault>(fault),
                None => Ok::<bool, Fault>(final(self)@.halted()),
            },
    {
        let mut left = limit;
        while left > 0 && !self.halted()
            invariant
                old(self)@.run_for(limit as nat) == self@.run_for(left as nat),
            decreases left,
        {
            match self.sequence() {
                Ok(()) => {},
                Err(fault) => {
                    return Err(fault);
                },
            }
            left -= 1;
        }
        Ok(self.halted())
    }
}

} // verus!
