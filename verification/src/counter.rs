//! The assignment counter: a sequence of boolean cells read as a binary
//! number, advanced in place by a ripple-carry increment.
//!
//! The last cell is the least significant digit.  Starting from all-false
//! and advancing repeatedly visits every combination of cell values exactly
//! once, in numeric order, and the `pow2(n)`-th advance overflows back to
//! all-false while reporting a carry.

use vstd::arithmetic::power2::{
    lemma_pow2_adds, lemma_pow2_pos, lemma_pow2_unfold, lemma2_to64, pow2,
};
use vstd::prelude::*;

verus! {

/// The number a sequence of cells spells in binary, the last cell being the
/// least significant digit.
pub open spec fn val_of(s: Seq<bool>) -> nat
    decreases s.len(),
{
    if s.len() == 0 {
        0
    } else {
        2 * val_of(s.drop_last()) + (if s.last() {
            1nat
        } else {
            0nat
        })
    }
}

/// The combination of `n` cells that spells the number `m`: digit by digit,
/// least significant last.
pub open spec fn encode(m: nat, n: nat) -> Seq<bool>
    decreases n,
{
    if n == 0 {
        Seq::empty()
    } else {
        encode(m / 2, (n - 1) as nat).push(m % 2 == 1)
    }
}

/// `encode(m, n)` has `n` cells and spells `m`, for `m` below `pow2(n)`.
pub proof fn lemma_encode_val(m: nat, n: nat)
    requires
        m < pow2(n),
    ensures
        encode(m, n).len() == n,
        val_of(encode(m, n)) == m,
    decreases n,
{
    if n == 0 {
        assert(pow2(0) == 1) by {
            lemma2_to64();
        }
    } else {
        lemma_pow2_unfold(n);
        lemma_encode_val(m / 2, (n - 1) as nat);
        let s = encode(m, n);
        assert(s.drop_last() =~= encode(m / 2, (n - 1) as nat));
    }
}

/// A sequence of cells spells a number below `pow2` of its length.
pub proof fn lemma_val_bound(s: Seq<bool>)
    ensures
        val_of(s) < pow2(s.len()),
    decreases s.len(),
{
    if s.len() == 0 {
        assert(pow2(0) == 1) by {
            lemma2_to64();
        }
    } else {
        lemma_val_bound(s.drop_last());
        lemma_pow2_unfold(s.len());
    }
}

/// Two equally long combinations that spell the same number are the same
/// combination: together with `lemma_encode_val`, spelling is a bijection
/// between the numbers below `pow2(n)` and the combinations of `n` cells.
pub proof fn lemma_val_injective(a: Seq<bool>, b: Seq<bool>)
    requires
        a.len() == b.len(),
        val_of(a) == val_of(b),
    ensures
        a == b,
    decreases a.len(),
{
    if a.len() > 0 {
        assert(a.last() == b.last());
        lemma_val_injective(a.drop_last(), b.drop_last());
        assert(forall|i: int|
            0 <= i < a.len() - 1 ==> a[i] == a.drop_last()[i] && b[i] == b.drop_last()[i]);
        assert(a =~= b);
    } else {
        assert(a =~= b);
    }
}

/// Concatenation shifts the leading cells up by `pow2` of the trailing
/// length.
pub proof fn lemma_val_concat(a: Seq<bool>, b: Seq<bool>)
    ensures
        val_of(a + b) == val_of(a) * pow2(b.len()) + val_of(b),
    decreases b.len(),
{
    if b.len() == 0 {
        assert(a + b =~= a);
        assert(pow2(0) == 1) by {
            lemma2_to64();
        }
    } else {
        lemma_val_concat(a, b.drop_last());
        lemma_pow2_unfold(b.len());
        assert((a + b).drop_last() =~= a + b.drop_last());
        assert((a + b).last() == b.last());
        assert(2 * (val_of(a) * pow2((b.len() - 1) as nat)) == val_of(a) * (2 * pow2(
            (b.len() - 1) as nat,
        ))) by (nonlinear_arith);
    }
}

/// An all-true run spells `pow2` of its length, less one.
pub proof fn lemma_val_all_true(s: Seq<bool>)
    requires
        forall|i: int| 0 <= i < s.len() ==> s[i],
    ensures
        val_of(s) == pow2(s.len()) - 1,
    decreases s.len(),
{
    if s.len() == 0 {
        assert(pow2(0) == 1) by {
            lemma2_to64();
        }
    } else {
        lemma_val_all_true(s.drop_last());
        lemma_pow2_unfold(s.len());
        lemma_pow2_pos((s.len() - 1) as nat);
    }
}

/// An all-false run spells zero.
pub proof fn lemma_val_all_false(s: Seq<bool>)
    requires
        forall|i: int| 0 <= i < s.len() ==> !s[i],
    ensures
        val_of(s) == 0,
    decreases s.len(),
{
    if s.len() > 0 {
        lemma_val_all_false(s.drop_last());
    }
}

/// One ripple-carry advance of the cells, in place: find the last cell that
/// is clear, set it, and clear every cell behind it.  This is exactly a
/// binary increment; a cell that was set generates a carry into its
/// neighbour, and the advance of the all-true combination overflows back to
/// all-false and reports the carry out.
pub fn advance(cells: &mut Vec<bool>) -> (carry: bool)
    ensures
        final(cells)@.len() == old(cells)@.len(),
        carry == (val_of(old(cells)@) == pow2(old(cells)@.len()) - 1),
        val_of(final(cells)@) == if carry {
            0nat
        } else {
            val_of(old(cells)@) + 1
        },
{
    let ghost orig = cells@;
    let ghost len = cells@.len() as int;
    let mut i: usize = cells.len();
    #[verifier::loop_isolation(false)]
    loop
        invariant
            0 <= i <= len,
            cells@.len() == len,
            cells@.take(i as int) == orig.take(i as int),
            forall|j: int| i <= j < len ==> orig[j],
            forall|j: int| i <= j < len ==> !cells@[j],
        decreases i,
    {
        if i == 0 {
            proof {
                lemma_val_all_true(orig);
                lemma_val_all_false(cells@);
                lemma_pow2_pos(orig.len());
            }
            return true;
        }
        i = i - 1;
        proof {
            assert(cells@[i as int] == cells@.take(i + 1)[i as int]);
            assert(cells@[i as int] == orig[i as int]);
        }
        if cells[i] {
            cells[i] = false;
            proof {
                assert(cells@.take(i as int) =~= orig.take(i as int));
            }
        } else {
            cells[i] = true;
            proof {
                let p = orig.take(i as int);
                let suffix_len = (len - i - 1) as nat;
                assert(orig =~= p + seq![false] + orig.skip(i + 1));
                assert(cells@ =~= p + seq![true] + cells@.skip(i + 1));
                lemma_val_concat(p + seq![false], orig.skip(i + 1));
                lemma_val_concat(p + seq![true], cells@.skip(i + 1));
                lemma_val_concat(p, seq![false]);
                lemma_val_concat(p, seq![true]);
                lemma_val_all_true(orig.skip(i + 1));
                lemma_val_all_false(cells@.skip(i + 1));
                assert(pow2(1) == 2) by {
                    lemma2_to64();
                }
                assert(val_of(seq![false]) == 0) by {
                    lemma_val_all_false(seq![false]);
                }
                assert(val_of(seq![true]) == 1) by {
                    lemma_val_all_true(seq![true]);
                    lemma2_to64();
                }
                assert(val_of(orig) == (2 * val_of(p)) * pow2(suffix_len) + pow2(suffix_len)
                    - 1);
                assert(val_of(cells@) == (2 * val_of(p) + 1) * pow2(suffix_len));
                assert((2 * val_of(p) + 1) * pow2(suffix_len) == (2 * val_of(p)) * pow2(
                    suffix_len,
                ) + pow2(suffix_len)) by (nonlinear_arith);
                lemma_val_bound(cells@);
                assert(val_of(orig) < pow2(orig.len()) - 1);
            }
            return false;
        }
    }
}

} // verus!
