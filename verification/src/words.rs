//! The bit-lane reading of words: one 32-bit word per variable carries 32
//! independent scalar assignments, one per bit position.
//!
//! `lemma_eval_word_lane` is the bridge between the two semantics of a term:
//! bit `l` of the word evaluation equals the scalar evaluation under the
//! assignment read off lane `l`.  The fixed column patterns make the low
//! lanes of the first cells spell every combination of those cells.

use crate::term::{
    eval_bool, eval_terms_bool, eval_terms_word, eval_word, lemma_eval_terms_bool,
    lemma_eval_terms_word, neutral_bool, neutral_word, reduce_bool, reduce_word, term_wf,
    terms_wf, NaryOp, Term,
};
use vstd::arithmetic::power2::{lemma_pow2_unfold, lemma2_to64, pow2};
use vstd::prelude::*;

verus! {

/// Bit `l` of the word `w`.
pub open spec fn get_bit(w: u32, l: u32) -> bool {
    (w >> l) & 1 == 1
}

/// The word that holds one truth value in every lane.
pub open spec fn replicate(b: bool) -> u32 {
    if b {
        0xffff_ffffu32
    } else {
        0u32
    }
}

/// The scalar assignment that lane `l` of a word assignment carries.
pub open spec fn lane_env(wenv: Seq<u32>, l: u32) -> Seq<bool> {
    Seq::new(wenv.len(), |i: int| get_bit(wenv[i], l))
}

/// The fixed column pattern for the cell with index `j`: the alternating
/// words of period 2, 4, 8, 16 and 32 bits.  Across the five patterns, lane
/// `l` reads cell `j` as bit `j` of the lane number `l`, so the 32 lanes
/// spell every combination of up to five cells.
pub open spec fn column_pattern(j: int) -> u32 {
    if j == 0 {
        0xaaaa_aaaau32
    } else if j == 1 {
        0xcccc_ccccu32
    } else if j == 2 {
        0xf0f0_f0f0u32
    } else if j == 3 {
        0xff00_ff00u32
    } else {
        0xffff_0000u32
    }
}

/// A replicated word reads the same in every lane.
pub proof fn lemma_replicate_bit(b: bool, l: u32)
    requires
        l < 32,
    ensures
        get_bit(replicate(b), l) == b,
{
    assert(get_bit(0xffff_ffffu32, l) && !get_bit(0u32, l)) by (bit_vector)
        requires
            l < 32,
    ;
}

/// Lane `l` of the column pattern for cell `j` is bit `j` of `l`.
pub proof fn lemma_column_bit(j: u32, l: u32)
    requires
        j < 5,
        l < 32,
    ensures
        get_bit(column_pattern(j as int), l) == get_bit(l, j),
{
    assert(get_bit(0xaaaa_aaaau32, l) == get_bit(l, 0)) by (bit_vector)
        requires
            l < 32,
    ;
    assert(get_bit(0xcccc_ccccu32, l) == get_bit(l, 1)) by (bit_vector)
        requires
            l < 32,
    ;
    assert(get_bit(0xf0f0_f0f0u32, l) == get_bit(l, 2)) by (bit_vector)
        requires
            l < 32,
    ;
    assert(get_bit(0xff00_ff00u32, l) == get_bit(l, 3)) by (bit_vector)
        requires
            l < 32,
    ;
    assert(get_bit(0xffff_0000u32, l) == get_bit(l, 4)) by (bit_vector)
        requires
            l < 32,
    ;
}

/// Two words whose bits agree from lane `i` up have equal shifted tails.
proof fn lemma_shift_eq(a: u32, b: u32, i: u32)
    requires
        i <= 31,
        forall|l: u32| i <= l < 32 ==> get_bit(a, l) == get_bit(b, l),
    ensures
        a >> i == b >> i,
    decreases 32 - i,
{
    if i == 31 {
        assert(get_bit(a, 31) == get_bit(b, 31));
        assert(a >> 31 == b >> 31) by (bit_vector)
            requires
                ((a >> 31u32) & 1 == 1) == ((b >> 31u32) & 1 == 1),
        ;
    } else {
        lemma_shift_eq(a, b, (i + 1) as u32);
        assert(get_bit(a, i) == get_bit(b, i));
        assert(a >> i == b >> i) by (bit_vector)
            requires
                i < 31 && a >> (i + 1) == b >> (i + 1) && (((a >> i) & 1 == 1) == ((b >> i) & 1
                    == 1)),
        ;
    }
}

/// Two words with the same bit in every lane are the same word.
pub proof fn lemma_word_eq_by_bits(a: u32, b: u32)
    requires
        forall|l: u32| l < 32 ==> get_bit(a, l) == get_bit(b, l),
    ensures
        a == b,
{
    lemma_shift_eq(a, b, 0);
    assert(a >> 0 == a && b >> 0 == b) by (bit_vector);
}

/// Two different words differ in some lane.
pub proof fn lemma_word_diff_lane(a: u32, b: u32)
    requires
        a != b,
    ensures
        exists|l: u32| l < 32 && get_bit(a, l) != get_bit(b, l),
{
    if forall|l: u32| l < 32 ==> get_bit(a, l) == get_bit(b, l) {
        lemma_word_eq_by_bits(a, b);
        assert(false);
    }
}

/// The word fold and the scalar fold agree lane by lane: bit `l` of the
/// word reduction is the scalar reduction of bit `l` of each word.
pub proof fn lemma_reduce_lane(op: NaryOp, ws: Seq<u32>, bs: Seq<bool>, l: u32)
    requires
        l < 32,
        bs.len() == ws.len(),
        forall|i: int| 0 <= i < ws.len() ==> bs[i] == get_bit(ws[i], l),
    ensures
        reduce_bool(op, bs) == get_bit(reduce_word(op, ws), l),
    decreases ws.len(),
{
    if ws.len() == 0 {
        lemma_replicate_bit(true, l);
        lemma_replicate_bit(false, l);
    } else {
        lemma_reduce_lane(op, ws.drop_last(), bs.drop_last(), l);
        let a = reduce_word(op, ws.drop_last());
        let b = ws.last();
        assert(get_bit(a & b, l) == (get_bit(a, l) && get_bit(b, l))) by (bit_vector)
            requires
                l < 32,
        ;
        assert(get_bit(a | b, l) == (get_bit(a, l) || get_bit(b, l))) by (bit_vector)
            requires
                l < 32,
        ;
        assert(get_bit(a ^ b, l) == (get_bit(a, l) != get_bit(b, l))) by (bit_vector)
            requires
                l < 32,
        ;
    }
}

/// Scalar/bit-parallel agreement for one term: bit `l` of the word
/// evaluation is the scalar evaluation under the assignment of lane `l`.
pub proof fn lemma_eval_word_lane(t: Term, wenv: Seq<u32>, l: u32)
    requires
        term_wf(t, wenv.len()),
        l < 32,
    ensures
        eval_bool(t, lane_env(wenv, l)) == get_bit(eval_word(t, wenv), l),
    decreases t, 1int,
{
    match t {
        Term::Constant(v) => {
            lemma_replicate_bit(v, l);
        },
        Term::Variable(i) => {
        },
        Term::Not(c) => {
            lemma_eval_word_lane(*c, wenv, l);
            let w = eval_word(*c, wenv);
            assert(get_bit(!w, l) == !get_bit(w, l)) by (bit_vector)
                requires
                    l < 32,
            ;
        },
        Term::Nary(op, cs) => {
            lemma_eval_terms_word_lane(cs@, wenv, l);
            lemma_eval_terms_bool(cs@, lane_env(wenv, l));
            lemma_eval_terms_word(cs@, wenv);
            lemma_reduce_lane(
                op,
                eval_terms_word(cs@, wenv),
                eval_terms_bool(cs@, lane_env(wenv, l)),
                l,
            );
        },
    }
}

/// Scalar/bit-parallel agreement, element by element, for a sequence of
/// terms.
pub proof fn lemma_eval_terms_word_lane(ts: Seq<Term>, wenv: Seq<u32>, l: u32)
    requires
        terms_wf(ts, wenv.len()),
        l < 32,
    ensures
        forall|i: int|
            0 <= i < ts.len() ==> eval_terms_bool(ts, lane_env(wenv, l))[i] == get_bit(
                eval_terms_word(ts, wenv)[i],
                l,
            ),
    decreases ts, 0int,
{
    lemma_eval_terms_bool(ts, lane_env(wenv, l));
    lemma_eval_terms_word(ts, wenv);
    assert forall|i: int| 0 <= i < ts.len() implies eval_terms_bool(ts, lane_env(wenv, l))[i]
        == get_bit(eval_terms_word(ts, wenv)[i], l) by {
        lemma_eval_word_lane(ts[i], wenv, l);
    }
}

/// The lane number whose low bits spell the given cells: bit `j` of the
/// result is cell `j`.
pub open spec fn lane_of(p: Seq<bool>) -> nat
    decreases p.len(),
{
    if p.len() == 0 {
        0
    } else {
        (if p.first() {
            1nat
        } else {
            0nat
        }) + 2 * lane_of(p.drop_first())
    }
}

/// `lane_of` lies below `pow2` of the cell count and reads back the cells
/// bit by bit.
pub proof fn lemma_lane_of(p: Seq<bool>)
    requires
        p.len() <= 5,
    ensures
        lane_of(p) < pow2(p.len()),
        forall|j: u32| j < p.len() ==> get_bit(lane_of(p) as u32, j) == p[j as int],
    decreases p.len(),
{
    lemma2_to64();
    if p.len() == 0 {
    } else {
        lemma_lane_of(p.drop_first());
        lemma_pow2_unfold(p.len());
        let r = lane_of(p.drop_first()) as u32;
        let b0: u32 = if p.first() {
            1
        } else {
            0
        };
        assert(pow2((p.len() - 1) as nat) <= 16);
        assert(r < 16);
        let x = (b0 + 2 * r) as u32;
        assert(lane_of(p) == b0 + 2 * r);
        assert(x == lane_of(p) as u32);
        assert(get_bit(x, 0) == (b0 == 1)) by (bit_vector)
            requires
                b0 <= 1 && r < 16 && x == b0 + 2 * r,
        ;
        assert forall|j: u32| 1 <= j < p.len() implies get_bit(x, j) == p[j as int] by {
            assert(get_bit(x, j) == get_bit(r, (j - 1) as u32)) by (bit_vector)
                requires
                    b0 <= 1 && r < 16 && 1 <= j < 32 && x == b0 + 2 * r,
            ;
            assert(get_bit(r, (j - 1) as u32) == p.drop_first()[j - 1]);
            assert(p.drop_first()[j - 1] == p[j as int]);
        }
    }
}

} // verus!
