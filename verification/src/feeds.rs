//! Ready-made programs, written as instruction sequences. They use no label:
//! every jump names an instruction index or a distance.

use crate::isa::{Address, Register, Sequence, Value};
use vstd::prelude::*;

verus! {

/// The operand that reads register `r`.
pub open spec fn r(r: Register) -> Value {
    Value::Address(Address::Register(r, false))
}

/// The address of register `r`.
pub open spec fn a(r: Register) -> Address {
    Address::Register(r, false)
}

fn val(reg: Register) -> (value: Value)
    ensures
        value == r(reg),
{
    Value::Address(Address::Register(reg, false))
}

fn adr(reg: Register) -> (address: Address)
    ensures
        address == a(reg),
{
    Address::Register(reg, false)
}

/// Sums in `dx` every number below 1000 that 3 or 5 divides.
pub open spec fn sum_of_multiples() -> Seq<Sequence> {
    seq![
        Sequence::Mov(a(Register::Ax), Value::Hex(0)),
        Sequence::Mov(a(Register::Cx), Value::Hex(0)),
        Sequence::Mov(a(Register::Dx), Value::Hex(0)),
        Sequence::Mov(a(Register::Ax), r(Register::Cx)),
        Sequence::Mod(Value::Hex(3)),
        Sequence::Je(Value::Hex(13)),
        Sequence::Mov(a(Register::Ax), r(Register::Cx)),
        Sequence::Mod(Value::Hex(5)),
        Sequence::Je(Value::Hex(13)),
        Sequence::Inc(a(Register::Cx)),
        Sequence::Cmp(r(Register::Cx), Value::Hex(1000)),
        Sequence::Jl(Value::Hex(3)),
        Sequence::Jmp(Value::Hex(15)),
        Sequence::Add(a(Register::Dx), r(Register::Cx)),
        Sequence::Jmp(Value::Hex(9)),
    ]
}

/// Sums in `dx` the even Fibonacci numbers below four million.
pub open spec fn even_fibonacci_sum() -> Seq<Sequence> {
    seq![
        Sequence::Mov(a(Register::Dx), Value::Hex(2)),
        Sequence::Push(Value::Hex(1)),
        Sequence::Push(Value::Hex(2)),
        Sequence::Pop(a(Register::Cx)),
        Sequence::Pop(a(Register::Bx)),
        Sequence::Mov(a(Register::Ax), Value::Hex(0)),
        Sequence::Add(a(Register::Ax), r(Register::Cx)),
        Sequence::Add(a(Register::Ax), r(Register::Bx)),
        Sequence::Push(r(Register::Cx)),
        Sequence::Push(r(Register::Ax)),
        Sequence::Push(r(Register::Ax)),
        Sequence::Mod(Value::Hex(2)),
        Sequence::Cmp(r(Register::Ax), Value::Hex(0)),
        Sequence::Pop(a(Register::Ax)),
        Sequence::Je(Value::Hex(18)),
        Sequence::Cmp(r(Register::Ax), Value::Hex(4_000_000)),
        Sequence::Jl(Value::Hex(3)),
        Sequence::Jmp(Value::Hex(100)),
        Sequence::Add(a(Register::Dx), r(Register::Ax)),
        Sequence::Jmp(Value::Hex(15)),
    ]
}

/// Leaves in `cx` the largest prime factor of 600851475143, found by trial
/// division.
pub open spec fn largest_prime_factor() -> Seq<Sequence> {
    seq![
        Sequence::Mov(a(Register::Cx), Value::Hex(600_851_475_143)),
        Sequence::Mov(a(Register::Bx), Value::Hex(2)),
        Sequence::Mov(a(Register::Ax), r(Register::Bx)),
        Sequence::Mul(r(Register::Ax)),
        Sequence::Cmp(r(Register::Ax), r(Register::Cx)),
        Sequence::Jge(Value::Hex(16)),
        Sequence::Mov(a(Register::Ax), r(Register::Cx)),
        Sequence::Mod(r(Register::Bx)),
        Sequence::Cmp(r(Register::Ax), Value::Hex(0)),
        Sequence::Jne(Value::IHex(5)),
        Sequence::Mov(a(Register::Ax), r(Register::Cx)),
        Sequence::Div(r(Register::Bx)),
        Sequence::Mov(a(Register::Cx), r(Register::Ax)),
        Sequence::Jne(Value::IHex(2)),
        Sequence::Inc(a(Register::Bx)),
        Sequence::Jmp(Value::Hex(2)),
    ]
}

pub fn pe1() -> (program: Vec<Sequence>)
    ensures
        program@ == sum_of_multiples(),
{
    let program = vec![
        Sequence::Mov(adr(Register::Ax), Value::Hex(0)),
        Sequence::Mov(adr(Register::Cx), Value::Hex(0)),
        Sequence::Mov(adr(Register::Dx), Value::Hex(0)),
        Sequence::Mov(adr(Register::Ax), val(Register::Cx)),
        Sequence::Mod(Value::Hex(3)),
        Sequence::Je(Value::Hex(13)),
        Sequence::Mov(adr(Register::Ax), val(Register::Cx)),
        Sequence::Mod(Value::Hex(5)),
        Sequence::Je(Value::Hex(13)),
        Sequence::Inc(adr(Register::Cx)),
        Sequence::Cmp(val(Register::Cx), Value::Hex(1000)),
        Sequence::Jl(Value::Hex(3)),
        Sequence::Jmp(Value::Hex(15)),
        Sequence::Add(adr(Register::Dx), val(Register::Cx)),
        Sequence::Jmp(Value::Hex(9)),
    ];
    assert(program@ =~= sum_of_multiples());
    program
}

pub fn pe2() -> (program: Vec<Sequence>)
    ensures
        program@ == even_fibonacci_sum(),
{
    let program = vec![
        Sequence::Mov(adr(Register::Dx), Value::Hex(2)),
        Sequence::Push(Value::Hex(1)),
        Sequence::Push(Value::Hex(2)),
        Sequence::Pop(adr(Register::Cx)),
        Sequence::Pop(adr(Register::Bx)),
        Sequence::Mov(adr(Register::Ax), Value::Hex(0)),
        Sequence::Add(adr(Register::Ax), val(Register::Cx)),
        Sequence::Add(adr(Register::Ax), val(Register::Bx)),
        Sequence::Push(val(Register::Cx)),
        Sequence::Push(val(Register::Ax)),
        Sequence::Push(val(Register::Ax)),
        Sequence::Mod(Value::Hex(2)),
        Sequence::Cmp(val(Register::Ax), Value::Hex(0)),
        Sequence::Pop(adr(Register::Ax)),
        Sequence::Je(Value::Hex(18)),
        Sequence::Cmp(val(Register::Ax), Value::Hex(4_000_000)),
        Sequence::Jl(Value::Hex(3)),
        Sequence::Jmp(Value::Hex(100)),
        Sequence::Add(adr(Register::Dx), val(Register::Ax)),
        Sequence::Jmp(Value::Hex(15)),
    ];
    assert(program@ =~= even_fibonacci_sum());
    program
}

pub fn pe3() -> (program: Vec<Sequence>)
    ensures
        program@ == largest_prime_factor(),
{
    let program = vec![
        Sequence::Mov(adr(Register::Cx), Value::Hex(600_851_475_143)),
        Sequence::Mov(adr(Register::Bx), Value::Hex(2)),
        Sequence::Mov(adr(Register::Ax), val(Register::Bx)),
        Sequence::Mul(val(Register::Ax)),
        Sequence::Cmp(val(Register::Ax), val(Register::Cx)),
        Sequence::Jge(Value::Hex(16)),
        Sequence::Mov(adr(Register::Ax), val(Register::Cx)),
        Sequence::Mod(val(Register::Bx)),
        Sequence::Cmp(val(Register::Ax), Value::Hex(0)),
        Sequence::Jne(Value::IHex(5)),
        Sequence::Mov(adr(Register::Ax), val(Register::Cx)),
        Sequence::Div(val(Register::Bx)),
        Sequence::Mov(adr(Register::Cx), val(Register::Ax)),
        Sequence::Jne(Value::IHex(2)),
        Sequence::Inc(adr(Register::Bx)),
        Sequence::Jmp(Value::Hex(2)),
    ];
    assert(program@ =~= largest_prime_factor());
    program
}

} // verus!
