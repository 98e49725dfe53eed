//! Neutral elements of the value domains: the all-ones value (identity of
//! a lane-wise AND) and the zero value (identity of OR and XOR), for the
//! boolean domain and for the unsigned words used by the bit-parallel
//! evaluator.

use vstd::prelude::*;

verus! {

/// A domain's all-ones value: every lane holds `true`.
pub trait AllOne: Sized {
    /// The all-ones value, as a specification-level constant.
    spec fn spec_allone() -> Self;

    /// The all-ones value.
    fn allone() -> (r: Self)
        ensures
            r == Self::spec_allone(),
    ;
}

/// A domain's zero value: every lane holds `false`.
pub trait Zero: Sized {
    /// The zero value, as a specification-level constant.
    spec fn spec_zero() -> Self;

    /// The zero value.
    fn zero() -> (r: Self)
        ensures
            r == Self::spec_zero(),
    ;
}

impl AllOne for bool {
    open spec fn spec_allone() -> bool {
        true
    }

    fn allone() -> bool {
        true
    }
}

impl Zero for bool {
    open spec fn spec_zero() -> bool {
        false
    }

    fn zero() -> bool {
        false
    }
}

impl AllOne for u8 {
    open spec fn spec_allone() -> u8 {
        0xffu8
    }

    fn allone() -> u8 {
        0xffu8
    }
}

impl Zero for u8 {
    open spec fn spec_zero() -> u8 {
        0u8
    }

    fn zero() -> u8 {
        0u8
    }
}

impl AllOne for u16 {
    open spec fn spec_allone() -> u16 {
        0xffffu16
    }

    fn allone() -> u16 {
        0xffffu16
    }
}

impl Zero for u16 {
    open spec fn spec_zero() -> u16 {
        0u16
    }

    fn zero() -> u16 {
        0u16
    }
}

impl AllOne for u32 {
    open spec fn spec_allone() -> u32 {
        0xffff_ffffu32
    }

    fn allone() -> u32 {
        0xffff_ffffu32
    }
}

impl Zero for u32 {
    open spec fn spec_zero() -> u32 {
        0u32
    }

    fn zero() -> u32 {
        0u32
    }
}

impl AllOne for u64 {
    open spec fn spec_allone() -> u64 {
        0xffff_ffff_ffff_ffffu64
    }

    fn allone() -> u64 {
        0xffff_ffff_ffff_ffffu64
    }
}

impl Zero for u64 {
    open spec fn spec_zero() -> u64 {
        0u64
    }

    fn zero() -> u64 {
        0u64
    }
}

} // verus!
