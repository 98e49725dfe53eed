//! The logical operators of the operator library: pure, stateless unit
//! structs implementing the evaluation traits over the boolean domain and
//! over 32-bit words (lane-wise).  `And`, `Or` and `Xor` are commutative
//! and associative and carry their neutral elements; `Not` and `Identity`
//! are the unary operators.

use crate::eval::{BinaryEval, NaryEval, UnaryEval};
use crate::neutral::{AllOne, Zero};
use vstd::prelude::*;

verus! {

/// The unary operator that returns its argument unchanged.
#[derive(Clone, Copy, Debug)]
pub struct Identity;

impl<Value> UnaryEval<Value> for Identity {
    open spec fn spec_eval(&self, a: Value) -> Value {
        a
    }

    fn eval(&self, a: Value) -> Value {
        a
    }
}

/// Logical negation, lane-wise over words.
#[derive(Clone, Copy, Debug)]
pub struct Not;

impl UnaryEval<bool> for Not {
    open spec fn spec_eval(&self, a: bool) -> bool {
        !a
    }

    fn eval(&self, a: bool) -> bool {
        !a
    }
}

impl UnaryEval<u32> for Not {
    open spec fn spec_eval(&self, a: u32) -> u32 {
        !a
    }

    fn eval(&self, a: u32) -> u32 {
        !a
    }
}

/// Logical conjunction, lane-wise over words; neutral element all-ones.
#[derive(Clone, Copy, Debug)]
pub struct And;

impl BinaryEval<bool> for And {
    open spec fn spec_eval(&self, a: bool, b: bool) -> bool {
        a && b
    }

    fn eval(&self, a: bool, b: bool) -> bool {
        a && b
    }
}

impl NaryEval<bool> for And {
    open spec fn spec_neutral(&self) -> bool {
        <bool as AllOne>::spec_allone()
    }

    fn neutral(&self) -> bool {
        <bool as AllOne>::allone()
    }
}

impl BinaryEval<u32> for And {
    open spec fn spec_eval(&self, a: u32, b: u32) -> u32 {
        a & b
    }

    fn eval(&self, a: u32, b: u32) -> u32 {
        a & b
    }
}

impl NaryEval<u32> for And {
    open spec fn spec_neutral(&self) -> u32 {
        <u32 as AllOne>::spec_allone()
    }

    fn neutral(&self) -> u32 {
        <u32 as AllOne>::allone()
    }
}

/// Logical disjunction, lane-wise over words; neutral element zero.
#[derive(Clone, Copy, Debug)]
pub struct Or;

impl BinaryEval<bool> for Or {
    open spec fn spec_eval(&self, a: bool, b: bool) -> bool {
        a || b
    }

    fn eval(&self, a: bool, b: bool) -> bool {
        a || b
    }
}

impl NaryEval<bool> for Or {
    open spec fn spec_neutral(&self) -> bool {
        <bool as Zero>::spec_zero()
    }

    fn neutral(&self) -> bool {
        <bool as Zero>::zero()
    }
}

impl BinaryEval<u32> for Or {
    open spec fn spec_eval(&self, a: u32, b: u32) -> u32 {
        a | b
    }

    fn eval(&self, a: u32, b: u32) -> u32 {
        a | b
    }
}

impl NaryEval<u32> for Or {
    open spec fn spec_neutral(&self) -> u32 {
        <u32 as Zero>::spec_zero()
    }

    fn neutral(&self) -> u32 {
        <u32 as Zero>::zero()
    }
}

/// Exclusive disjunction, lane-wise over words; neutral element zero.
#[derive(Clone, Copy, Debug)]
pub struct Xor;

impl BinaryEval<bool> for Xor {
    open spec fn spec_eval(&self, a: bool, b: bool) -> bool {
        a != b
    }

    fn eval(&self, a: bool, b: bool) -> bool {
        a != b
    }
}

impl NaryEval<bool> for Xor {
    open spec fn spec_neutral(&self) -> bool {
        <bool as Zero>::spec_zero()
    }

    fn neutral(&self) -> bool {
        <bool as Zero>::zero()
    }
}

impl BinaryEval<u32> for Xor {
    open spec fn spec_eval(&self, a: u32, b: u32) -> u32 {
        a ^ b
    }

    fn eval(&self, a: u32, b: u32) -> u32 {
        a ^ b
    }
}

impl NaryEval<u32> for Xor {
    open spec fn spec_neutral(&self) -> u32 {
        <u32 as Zero>::spec_zero()
    }

    fn neutral(&self) -> u32 {
        <u32 as Zero>::zero()
    }
}

} // verus!
