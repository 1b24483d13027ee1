//! The stack at the top of memory, and the registers and flags beside it.

use crate::isa::{HexSize, HEX_MEM_SIZE, MEM_SIZE};
use vstd::prelude::*;

verus! {

/// Why a program was stopped.
#[derive(Debug, Clone, Copy, PartialEq, Eq, Structural)]
pub enum Fault {
    /// `div` or `mod` by an operand that is zero.
    DivideByZero,
    /// A push with the stack pointer at zero.
    StackOverflow,
    /// A pop with the stack pointer at or above the top of memory.
    StackUnderflow,
    /// A name without an entry in the label table.
    UndefinedLabel,
    /// `print` of bytes that are no UTF-8 text.
    InvalidText,
    /// A memory index at or above the top of memory.
    BadAddress,
    /// `str` of an id that the symbol table does not hold.
    UnknownString,
}

/// The four condition flags.
#[derive(Debug, Default, Clone, Copy, PartialEq, Eq, Structural)]
pub struct FlagSet {
    pub sf: bool,
    pub cf: bool,
    pub zf: bool,
    pub of: bool,
}

#[derive(Debug, Default, Clone, Copy, PartialEq, Eq, Structural)]
pub struct RegisterSet {
    pub ax: HexSize,
    pub bx: HexSize,
    pub cx: HexSize,
    pub dx: HexSize,
    pub si: HexSize,
    pub di: HexSize,
    pub sp: HexSize,
    pub bp: HexSize,
    pub ip: HexSize,
}

/// A stack: the stack pointer and the memory it points into.
pub struct Stack {
    pub sp: HexSize,
    pub mem: Seq<HexSize>,
}

impl Stack {
    /// The stack after `word` was pushed: the pointer moves down by one and
    /// the word lies where it then points.
    pub open spec fn push(self, word: HexSize) -> Result<Stack, Fault> {
        if self.sp == 0 {
            Err(Fault::StackOverflow)
        } else if self.sp > self.mem.len() {
            Err(Fault::BadAddress)
        } else {
            Ok(Stack { sp: (self.sp - 1) as HexSize, mem: self.mem.update(self.sp - 1, word) })
        }
    }

    /// The word on top of the stack and the stack without it.
    pub open spec fn pop(self) -> Result<(HexSize, Stack), Fault> {
        if self.sp >= self.mem.len() {
            Err(Fault::StackUnderflow)
        } else {
            Ok((self.mem[self.sp as int], Stack { sp: (self.sp + 1) as HexSize, mem: self.mem }))
        }
    }

    /// The stack after the words of `values` were pushed, first to last.
    pub open spec fn push_all(self, values: Seq<HexSize>) -> Result<Stack, Fault>
        decreases values.len(),
    {
        if values.len() == 0 {
            Ok(self)
        } else {
            match self.push_all(values.drop_last()) {
                Ok(below) => below.push(values.last()),
                Err(fault) => Err(fault),
            }
        }
    }

    /// The words that `n` pops yield, in the order in which they come off,
    /// and the stack that is left.
    pub open spec fn pop_n(self, n: nat) -> Result<(Seq<HexSize>, Stack), Fault>
        decreases n,
    {
        if n == 0 {
            Ok((Seq::empty(), self))
        } else {
            match self.pop() {
                Ok((word, rest)) => match rest.pop_n((n - 1) as nat) {
                    Ok((words, left)) => Ok((seq![word] + words, left)),
                    Err(fault) => Err(fault),
                },
                Err(fault) => Err(fault),
            }
        }
    }
}

/// Pushing succeeds as long as there is room below the stack pointer, moves
/// the pointer down by one for each word and leaves the memory above it alone.
pub(crate) proof fn lemma_push_all(stack: Stack, values: Seq<HexSize>)
    requires
        values.len() <= stack.sp <= stack.mem.len() <= HexSize::MAX,
    ensures
        stack.push_all(values) is Ok,
        stack.push_all(values).unwrap().sp == stack.sp - values.len(),
        stack.push_all(values).unwrap().mem.len() == stack.mem.len(),
        forall|i: int|
            0 <= i < values.len() ==> #[trigger] stack.push_all(values).unwrap().mem[stack.sp - 1
                - i] == values[i],
        forall|i: int|
            0 <= i < stack.mem.len() && !(stack.sp - values.len() <= i < stack.sp)
                ==> #[trigger] stack.push_all(values).unwrap().mem[i] == stack.mem[i],
    decreases values.len(),
{
    if values.len() > 0 {
        lemma_push_all(stack, values.drop_last());
    }
}

/// Stack LIFO law: after the words of `values` are pushed in order, as many
/// pops yield them last to first, and the stack is again what it was but for
/// the cells that the pushes overwrote, with the stack pointer where it began.
pub proof fn lemma_stack_lifo(stack: Stack, values: Seq<HexSize>)
    requires
        values.len() <= stack.sp <= stack.mem.len() <= HexSize::MAX,
    ensures
        stack.push_all(values) is Ok,
        stack.push_all(values).unwrap().pop_n(values.len()) is Ok,
        stack.push_all(values).unwrap().pop_n(values.len()).unwrap().0 == values.reverse(),
        stack.push_all(values).unwrap().pop_n(values.len()).unwrap().1.sp == stack.sp,
        stack.push_all(values).unwrap().pop_n(values.len()).unwrap().1.mem == stack.push_all(
            values,
        ).unwrap().mem,
    decreases values.len(),
{
    lemma_push_all(stack, values);
    if values.len() > 0 {
        let front = values.drop_last();
        lemma_push_all(stack, front);
        lemma_stack_lifo(stack, front);
        let below = stack.push_all(front).unwrap();
        let full = stack.push_all(values).unwrap();
        let (word, rest) = full.pop().unwrap();
        assert(word == values.last());
        lemma_pop_n_above(below, full, front.len());
        assert(values.reverse() =~= seq![values.last()] + front.reverse());
    }
}

/// Pops read only at and above the stack pointer: two stacks that agree
/// there yield the same words.
proof fn lemma_pop_n_above(a: Stack, b: Stack, n: nat)
    requires
        a.mem.len() == b.mem.len() <= HexSize::MAX,
        a.sp + n <= a.mem.len(),
        b.sp + 1 == a.sp,
        forall|i: int| a.sp <= i < a.mem.len() ==> a.mem[i] == #[trigger] b.mem[i],
    ensures
        b.pop().unwrap().1.pop_n(n) is Ok,
        b.pop().unwrap().1.pop_n(n).unwrap().0 == a.pop_n(n).unwrap().0,
        b.pop().unwrap().1.pop_n(n).unwrap().1.sp == a.pop_n(n).unwrap().1.sp,
        b.pop().unwrap().1.pop_n(n).unwrap().1.mem == b.mem,
{
    lemma_pop_n_same(a, b.pop().unwrap().1, n);
}

proof fn lemma_pop_n_same(a: Stack, b: Stack, n: nat)
    requires
        a.mem.len() == b.mem.len() <= HexSize::MAX,
        a.sp + n <= a.mem.len(),
        b.sp == a.sp,
        forall|i: int| a.sp <= i < a.mem.len() ==> a.mem[i] == #[trigger] b.mem[i],
    ensures
        a.pop_n(n) is Ok,
        b.pop_n(n) is Ok,
        b.pop_n(n).unwrap().0 == a.pop_n(n).unwrap().0,
        b.pop_n(n).unwrap().1.sp == a.sp + n,
        a.pop_n(n).unwrap().1.sp == a.sp + n,
        b.pop_n(n).unwrap().1.mem == b.mem,
    decreases n,
{
    if n > 0 {
        lemma_pop_n_same(a.pop().unwrap().1, b.pop().unwrap().1, (n - 1) as nat);
    }
}

/// Pushes `word`: moves the stack pointer down by one and stores the word there.
pub fn push(sp: &mut HexSize, mem: &mut [HexSize; MEM_SIZE], word: HexSize) -> (done: Result<
    (),
    Fault,
>)
    ensures
        match (Stack { sp: *old(sp), mem: old(mem)@ }).push(word) {
            Ok(after) => done == Ok::<(), Fault>(()) && *final(sp) == after.sp && final(mem)@ == after.mem,
            Err(fault) => done == Err::<(), Fault>(fault) && *final(sp) == *old(sp) && *final(mem)
                == *old(mem),
        },
{
    if *sp == 0 {
        return Err(Fault::StackOverflow);
    }
    if *sp > HEX_MEM_SIZE {
        return Err(Fault::BadAddress);
    }
    *sp -= 1;
    mem[*sp as usize] = word;
    Ok(())
}

/// Pops the word on top of the stack and moves the stack pointer up by one.
pub fn pop(sp: &mut HexSize, mem: &[HexSize; MEM_SIZE]) -> (word: Result<HexSize, Fault>)
    ensures
        match (Stack { sp: *old(sp), mem: mem@ }).pop() {
            Ok((top, after)) => word == Ok::<HexSize, Fault>(top) && *final(sp) == after.sp,
            Err(fault) => word == Err::<HexSize, Fault>(fault) && *final(sp) == *old(sp),
        },
{
    if *sp >= HEX_MEM_SIZE {
        return Err(Fault::StackUnderflow);
    }
    let val = mem[*sp as usize];
    *sp += 1;
    Ok(val)
}

} // verus!
