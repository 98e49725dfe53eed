//! The laws of the library, each stated over the spec-level semantics and
//! proved for every input: exhaustiveness of the enumeration order, the
//! neutral elements of the n-ary operators, invariance of an n-ary
//! application under permutation of its arguments, and cancellation of a
//! double negation.  The scalar/bit-parallel agreement law lives in
//! `words::lemma_eval_word_lane`, beside the machinery it needs.

use crate::counter::{encode, lemma_encode_val, lemma_val_bound, lemma_val_injective, val_of};
use crate::term::{
    apply_bool, eval_bool, eval_terms_bool, lemma_eval_terms_bool, neutral_bool, neutral_word,
    reduce_bool, NaryOp, Term,
};
use vstd::arithmetic::power2::pow2;
use vstd::prelude::*;
use vstd::seq_lib::group_to_multiset_ensures;

verus! {

/// Exhaustiveness of the ripple-carry enumeration: a trace of `pow2(n)`
/// rows that spell 0, 1, 2, ... in binary (as the rows of the scalar
/// checker's trace do) visits every combination of `n` cells exactly once:
/// none is missed and none repeats.
pub proof fn lemma_enumeration_exhaustive(rows: Seq<Seq<bool>>, n: nat)
    requires
        rows.len() == pow2(n),
        forall|s: int| 0 <= s < rows.len() ==> #[trigger] rows[s] == encode(s as nat, n),
    ensures
        forall|e: Seq<bool>|
            e.len() == n ==> exists|s: int| 0 <= s < rows.len() && #[trigger] rows[s] == e,
        forall|s1: int, s2: int| 0 <= s1 < s2 < rows.len() ==> rows[s1] != rows[s2],
{
    assert forall|e: Seq<bool>| e.len() == n implies exists|s: int|
        0 <= s < rows.len() && #[trigger] rows[s] == e by {
        lemma_val_bound(e);
        let s = val_of(e) as int;
        lemma_encode_val(val_of(e), n);
        lemma_val_injective(rows[s], e);
        assert(rows[s] == e);
    }
    assert forall|s1: int, s2: int| 0 <= s1 < s2 < rows.len() implies rows[s1] != rows[s2] by {
        lemma_encode_val(s1 as nat, n);
        lemma_encode_val(s2 as nat, n);
    }
}

/// Neutral-element law: with no arguments, `(and)` evaluates to the
/// all-true value and `(or)` and `(xor)` to the all-false value, under
/// every assignment and in both semantics.
pub proof fn lemma_neutral_elements(cs: Vec<Term>, env: Seq<bool>, wenv: Seq<u32>)
    requires
        cs@.len() == 0,
    ensures
        eval_bool(Term::Nary(NaryOp::And, cs), env) == true,
        eval_bool(Term::Nary(NaryOp::Or, cs), env) == false,
        eval_bool(Term::Nary(NaryOp::Xor, cs), env) == false,
        crate::term::eval_word(Term::Nary(NaryOp::And, cs), wenv) == 0xffff_ffffu32,
        crate::term::eval_word(Term::Nary(NaryOp::Or, cs), wenv) == 0u32,
        crate::term::eval_word(Term::Nary(NaryOp::Xor, cs), wenv) == 0u32,
{
    assert(eval_terms_bool(cs@, env) =~= Seq::<bool>::empty());
    assert(crate::term::eval_terms_word(cs@, wenv) =~= Seq::<u32>::empty());
    assert(reduce_bool(NaryOp::And, eval_terms_bool(cs@, env)) == neutral_bool(NaryOp::And));
    assert(reduce_bool(NaryOp::Or, eval_terms_bool(cs@, env)) == neutral_bool(NaryOp::Or));
    assert(reduce_bool(NaryOp::Xor, eval_terms_bool(cs@, env)) == neutral_bool(NaryOp::Xor));
    assert(crate::term::reduce_word(NaryOp::And, crate::term::eval_terms_word(cs@, wenv))
        == neutral_word(NaryOp::And));
    assert(crate::term::reduce_word(NaryOp::Or, crate::term::eval_terms_word(cs@, wenv))
        == neutral_word(NaryOp::Or));
    assert(crate::term::reduce_word(NaryOp::Xor, crate::term::eval_terms_word(cs@, wenv))
        == neutral_word(NaryOp::Xor));
}

/// The fold of an n-ary operator takes any one element out.
proof fn lemma_reduce_pull_out(op: NaryOp, s: Seq<bool>, i: int)
    requires
        0 <= i < s.len(),
    ensures
        reduce_bool(op, s) == apply_bool(op, reduce_bool(op, s.remove(i)), s[i]),
    decreases s.len(),
{
    if i == s.len() - 1 {
        assert(s.remove(i) =~= s.drop_last());
    } else {
        lemma_reduce_pull_out(op, s.drop_last(), i);
        assert(s.remove(i).drop_last() =~= s.drop_last().remove(i));
        assert(s.remove(i).last() == s.last());
    }
}

/// Commutativity/associativity law at the value level: the fold of an
/// n-ary operator does not depend on the order of the folded values, only
/// on how often each occurs.
pub proof fn lemma_reduce_permutation(op: NaryOp, s1: Seq<bool>, s2: Seq<bool>)
    requires
        s1.to_multiset() == s2.to_multiset(),
    ensures
        reduce_bool(op, s1) == reduce_bool(op, s2),
    decreases s1.len(),
{
    broadcast use group_to_multiset_ensures;

    if s1.len() == 0 {
        assert(s1.to_multiset().len() == s1.len());
        assert(s2.to_multiset().len() == s2.len());
        assert(s2.len() == 0);
    } else {
        let x = s1.last();
        assert(s1.to_multiset().count(x) > 0) by {
            assert(s1.contains(x));
        }
        assert(s2.contains(x));
        let i = choose|i: int| 0 <= i < s2.len() && s2[i] == x;
        lemma_reduce_pull_out(op, s2, i);
        assert(s1.drop_last() =~= s1.remove(s1.len() - 1));
        assert(s1.drop_last().to_multiset() == s2.remove(i).to_multiset()) by {
            assert(s1.remove(s1.len() - 1).to_multiset() =~= s1.to_multiset().remove(x));
            assert(s2.remove(i).to_multiset() =~= s2.to_multiset().remove(x));
        }
        lemma_reduce_permutation(op, s1.drop_last(), s2.remove(i));
    }
}

/// The evaluations of a permuted term sequence are the same values, with
/// the same multiplicities.
proof fn lemma_eval_terms_permutation(ts1: Seq<Term>, ts2: Seq<Term>, env: Seq<bool>)
    requires
        ts1.to_multiset() == ts2.to_multiset(),
    ensures
        eval_terms_bool(ts1, env).to_multiset() == eval_terms_bool(ts2, env).to_multiset(),
    decreases ts1.len(),
{
    broadcast use group_to_multiset_ensures;

    lemma_eval_terms_bool(ts1, env);
    lemma_eval_terms_bool(ts2, env);
    if ts1.len() == 0 {
        assert(ts1.to_multiset().len() == ts1.len());
        assert(ts2.to_multiset().len() == ts2.len());
        assert(ts2.len() == 0);
        assert(eval_terms_bool(ts1, env) =~= eval_terms_bool(ts2, env));
    } else {
        let t = ts1.last();
        assert(ts1.to_multiset().count(t) > 0) by {
            assert(ts1.contains(t));
        }
        assert(ts2.contains(t));
        let i = choose|i: int| 0 <= i < ts2.len() && ts2[i] == t;
        assert(ts1.drop_last() =~= ts1.remove(ts1.len() - 1));
        assert(ts1.drop_last().to_multiset() == ts2.remove(i).to_multiset()) by {
            assert(ts1.remove(ts1.len() - 1).to_multiset() =~= ts1.to_multiset().remove(t));
            assert(ts2.remove(i).to_multiset() =~= ts2.to_multiset().remove(t));
        }
        lemma_eval_terms_permutation(ts1.drop_last(), ts2.remove(i), env);
        lemma_eval_terms_bool(ts1.drop_last(), env);
        lemma_eval_terms_bool(ts2.remove(i), env);
        let v1 = eval_terms_bool(ts1, env);
        let v2 = eval_terms_bool(ts2, env);
        assert(eval_terms_bool(ts1.drop_last(), env) =~= v1.drop_last());
        assert(v1.drop_last() =~= v1.remove(v1.len() - 1));
        assert(eval_terms_bool(ts2.remove(i), env) =~= v2.remove(i));
        assert(v1.remove(v1.len() - 1).to_multiset() =~= v1.to_multiset().remove(v1.last()));
        assert(v2.remove(i).to_multiset() =~= v2.to_multiset().remove(v2[i]));
        assert(v1.last() == eval_bool(t, env));
        assert(v2[i] == eval_bool(t, env));
        let x = eval_bool(t, env);
        assert(v1.to_multiset().count(x) > 0) by {
            assert(v1.contains(v1.last()));
        }
        assert(v2.to_multiset().count(x) > 0) by {
            assert(v2.contains(v2[i]));
        }
        assert(v1.to_multiset() =~= v2.to_multiset()) by {
            assert(v1.to_multiset().remove(x) == v2.to_multiset().remove(x));
            assert forall|y: bool| true implies v1.to_multiset().count(y) == v2.to_multiset().count(
                y,
            ) by {
                assert(v1.to_multiset().remove(x).count(y) == v2.to_multiset().remove(x).count(y));
            }
        }
    }
}

/// Commutativity/associativity law at the term level: permuting the
/// arguments of an `and`, `or` or `xor` application never changes its
/// value, under any assignment.
pub proof fn lemma_nary_permutation(op: NaryOp, cs1: Vec<Term>, cs2: Vec<Term>, env: Seq<bool>)
    requires
        cs1@.to_multiset() == cs2@.to_multiset(),
    ensures
        eval_bool(Term::Nary(op, cs1), env) == eval_bool(Term::Nary(op, cs2), env),
{
    lemma_eval_terms_permutation(cs1@, cs2@, env);
    lemma_reduce_permutation(op, eval_terms_bool(cs1@, env), eval_terms_bool(cs2@, env));
}

/// Double-negation law: `(not (not x))` evaluates exactly as `x`, under
/// any assignment and in both semantics.
pub proof fn lemma_double_negation(x: Box<Term>, outer: Box<Term>, env: Seq<bool>, wenv: Seq<u32>)
    requires
        *outer == Term::Not(x),
    ensures
        eval_bool(Term::Not(outer), env) == eval_bool(*x, env),
        crate::term::eval_word(Term::Not(outer), wenv) == crate::term::eval_word(*x, wenv),
{
    assert(eval_bool(*outer, env) == !eval_bool(*x, env));
    let w = crate::term::eval_word(*x, wenv);
    assert(crate::term::eval_word(*outer, wenv) == !w);
    assert(!(!w) == w) by (bit_vector);
}

} // verus!
