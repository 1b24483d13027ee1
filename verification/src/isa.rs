//! The instruction set: words, registers, operands and instructions.

use crate::intern::Symbol;
use vstd::prelude::*;
use vstd::std_specs::convert::FromSpecImpl;

verus! {

/// The machine word: registers, memory cells and immediates all hold one.
pub type HexSize = u64;

pub type ValIndex = u64;

/// A word read as a signed number, for relative jumps.
pub type IHexSize = i64;

/// The number of words of memory, as a word.
pub const HEX_MEM_SIZE: HexSize = 0xEEEE;

/// The number of words of memory.
pub const MEM_SIZE: usize = 0xEEEE;

/// The condition under which a jump is taken.
#[derive(Debug, Clone, Copy, PartialEq, Eq, Structural)]
pub enum JmpKind {
    Jmp,
    Je,
    Jne,
    Jl,
    Jle,
    Jg,
    Jge,
}

#[derive(Debug, Clone, Copy, PartialEq, Eq, Structural)]
pub enum Register {
    /// accumulator, volatile, return value
    Ax,
    /// base, stable, storage
    Bx,
    /// counter, volatile, arg 4
    Cx,
    /// data, volatile, arg 3
    Dx,
    /// source, volatile, arg 2
    Si,
    /// destination, volatile, arg 1
    Di,
    /// stack pointer, stable, stack top
    Sp,
    /// base pointer, stable, stack bot
    Bp,
    /// instruction pointer, stable, next instruction
    Ip,
}

/// Where an operand lives.
#[derive(Debug, Clone, Copy, PartialEq, Eq, Structural)]
pub enum Address {
    /// A register, or with `true` the memory cell whose index the register holds.
    Register(Register, bool),
    /// The memory cell at a fixed index.
    Stack(HexSize),
    /// The cell of the label table that belongs to a name.
    Ident(Symbol),
}

/// Where an operand's content comes from.
#[derive(Debug, Clone, Copy, PartialEq, Eq, Structural)]
pub enum Value {
    Address(Address),
    Hex(HexSize),
    IHex(IHexSize),
}

/// One instruction. The operand kinds are fixed by the opcode.
#[derive(Debug, Clone, Copy, PartialEq, Eq, Structural)]
pub enum Sequence {
    Mov(Address, Value),
    Cmp(Value, Value),
    Jmp(Value),
    Je(Value),
    Jne(Value),
    Jl(Value),
    Jle(Value),
    Jg(Value),
    Jge(Value),
    Call(Symbol),
    Ret,
    Push(Value),
    Pop(Address),
    Add(Address, Value),
    Sub(Address, Value),
    Inc(Address),
    Dec(Address),
    Mul(Value),
    Div(Value),
    Mod(Value),
    Str(Symbol),
    Print(Address, HexSize),
}

#[derive(Debug, Clone, Copy, PartialEq, Eq, Structural)]
pub enum Op {
    Add,
    Sub,
    Div,
    Mul,
    Mod,
}

impl Sequence {
    /// The condition of a jump instruction, `None` for every other instruction.
    pub open spec fn jump_kind(self) -> Option<JmpKind> {
        match self {
            Sequence::Jmp(_) => Some(JmpKind::Jmp),
            Sequence::Je(_) => Some(JmpKind::Je),
            Sequence::Jne(_) => Some(JmpKind::Jne),
            Sequence::Jl(_) => Some(JmpKind::Jl),
            Sequence::Jle(_) => Some(JmpKind::Jle),
            Sequence::Jg(_) => Some(JmpKind::Jg),
            Sequence::Jge(_) => Some(JmpKind::Jge),
            _ => None,
        }
    }

    pub fn is_jump(&self) -> (jump: bool)
        ensures
            jump == self.jump_kind().is_some(),
    {
        match self {
            Sequence::Jmp(_)
            | Sequence::Je(_)
            | Sequence::Jne(_)
            | Sequence::Jl(_)
            | Sequence::Jle(_)
            | Sequence::Jg(_)
            | Sequence::Jge(_) => true,
            _ => false,
        }
    }
}

impl From<Register> for Address {
    fn from(value: Register) -> (address: Address) {
        Address::Register(value, false)
    }
}

impl FromSpecImpl<Register> for Address {
    open spec fn obeys_from_spec() -> bool {
        true
    }

    open spec fn from_spec(value: Register) -> Address {
        Address::Register(value, false)
    }
}

impl From<Register> for Value {
    fn from(value: Register) -> (v: Value) {
        Value::Address(Address::Register(value, false))
    }
}

impl FromSpecImpl<Register> for Value {
    open spec fn obeys_from_spec() -> bool {
        true
    }

    open spec fn from_spec(value: Register) -> Value {
        Value::Address(Address::Register(value, false))
    }
}

impl From<Address> for Value {
    fn from(value: Address) -> (v: Value) {
        Value::Address(value)
    }
}

impl FromSpecImpl<Address> for Value {
    open spec fn obeys_from_spec() -> bool {
        true
    }

    open spec fn from_spec(value: Address) -> Value {
        Value::Address(value)
    }
}

/// The address of the memory cell at index `add`.
pub fn mem(add: HexSize) -> (address: Address)
    ensures
        address == Address::Stack(add),
{
    Address::Stack(add)
}

/// The address of register `r`, or with `deref` of the memory cell it points to.
pub fn reg(r: Register, deref: bool) -> (address: Address)
    ensures
        address == Address::Register(r, deref),
{
    Address::Register(r, deref)
}

} // verus!
