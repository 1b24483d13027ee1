//! Arithmetic, comparison and the flags they set.

use crate::isa::{HexSize, Op, Register};
use crate::stack::{Fault, FlagSet, RegisterSet};
use vstd::prelude::*;

verus! {

/// The value of the most significant bit of a word.
pub const SIGN_BIT: HexSize = 0x8000_0000_0000_0000;

impl RegisterSet {
    /// The word that register `r` holds.
    pub open spec fn get(self, r: Register) -> HexSize {
        match r {
            Register::Ax => self.ax,
            Register::Bx => self.bx,
            Register::Cx => self.cx,
            Register::Dx => self.dx,
            Register::Si => self.si,
            Register::Di => self.di,
            Register::Sp => self.sp,
            Register::Bp => self.bp,
            Register::Ip => self.ip,
        }
    }

    /// The registers with `x` in register `r`.
    pub open spec fn set(self, r: Register, x: HexSize) -> RegisterSet {
        match r {
            Register::Ax => RegisterSet { ax: x, ..self },
            Register::Bx => RegisterSet { bx: x, ..self },
            Register::Cx => RegisterSet { cx: x, ..self },
            Register::Dx => RegisterSet { dx: x, ..self },
            Register::Si => RegisterSet { si: x, ..self },
            Register::Di => RegisterSet { di: x, ..self },
            Register::Sp => RegisterSet { sp: x, ..self },
            Register::Bp => RegisterSet { bp: x, ..self },
            Register::Ip => RegisterSet { ip: x, ..self },
        }
    }

    /// The registers of a machine that has not run yet: the stack and base
    /// pointers at the top of memory, everything else zero.
    pub open spec fn initial() -> RegisterSet {
        RegisterSet { ax: 0, bx: 0, cx: 0, dx: 0, si: 0, di: 0, sp: 0xEEEE, bp: 0xEEEE, ip: 0 }
    }
}

impl FlagSet {
    /// The flags of a machine that has not run yet.
    pub open spec fn cleared() -> FlagSet {
        FlagSet { sf: false, cf: false, zf: false, of: false }
    }

    /// The flags that comparing `a` with `b` leaves.
    pub open spec fn compared(a: HexSize, b: HexSize) -> FlagSet {
        FlagSet { sf: a < b, cf: a < b, zf: a == b, of: false }
    }

    /// The flags after an arithmetic operation on `a` and `b` that gave `v`.
    /// Sign and zero go by the result. Addition and subtraction also set
    /// carry and overflow; the other operations leave them.
    pub open spec fn after(self, a: HexSize, b: HexSize, op: Op, v: HexSize) -> FlagSet {
        let (cf, of) = match op {
            Op::Add => (a + b > HexSize::MAX, a < b),
            Op::Sub => (a < b, a < b),
            _ => (self.cf, self.of),
        };
        FlagSet { sf: v >= SIGN_BIT, cf, zf: v == 0, of }
    }

    /// Sets the flags by a three-way comparison of `a` with `b`.
    pub fn do_cmp(&mut self, a: HexSize, b: HexSize)
        ensures
            *final(self) == FlagSet::compared(a, b),
    {
        if a < b {
            self.sf = true;
            self.cf = true;
            self.zf = false;
            self.of = false;
        } else if a == b {
            self.sf = false;
            self.cf = false;
            self.zf = true;
            self.of = false;
        } else {
            self.sf = false;
            self.cf = false;
            self.zf = false;
            self.of = false;
        }
    }

    /// Computes `a op b` modulo the word size and sets the flags by it.
    /// Division and remainder by zero fault and leave the flags alone.
    pub fn math(&mut self, a: HexSize, b: HexSize, op: Op) -> (v: Result<HexSize, Fault>)
        ensures
            v == result(a, b, op),
            match v {
                Ok(v) => *final(self) == old(self).after(a, b, op, v),
                Err(_) => *final(self) == *old(self),
            },
    {
        let v = match op {
            Op::Add => {
                let v = a.wrapping_add(b);
                self.cf = v < a;
                self.of = a < b;
                v
            },
            Op::Sub => {
                let v = a.wrapping_sub(b);
                self.of = a < b;
                self.cf = a < b;
                v
            },
            Op::Div => {
                if b == 0 {
                    return Err(Fault::DivideByZero);
                }
                a / b
            },
            Op::Mul => a.wrapping_mul(b),
            Op::Mod => {
                if b == 0 {
                    return Err(Fault::DivideByZero);
                }
                a % b
            },
        };
        self.sf = v >= SIGN_BIT;
        self.zf = v == 0;
        Ok(v)
    }
}

/// What `a op b` is: the result modulo the word size, or the fault of a
/// division or remainder by zero.
pub open spec fn result(a: HexSize, b: HexSize, op: Op) -> Result<HexSize, Fault> {
    match op {
        Op::Add => Ok(a.wrapping_add(b)),
        Op::Sub => Ok(a.wrapping_sub(b)),
        Op::Mul => Ok(a.wrapping_mul(b)),
        Op::Div => if b == 0 {
            Err(Fault::DivideByZero)
        } else {
            Ok(a / b)
        },
        Op::Mod => if b == 0 {
            Err(Fault::DivideByZero)
        } else {
            Ok(a % b)
        },
    }
}

} // verus!
