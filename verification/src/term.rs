//! The closed term model: a boolean expression is a tree of constants,
//! variable references, negations and n-ary operator applications.
//!
//! Terms are given two semantics.  The scalar semantics (`eval_bool`)
//! evaluates a term over single truth values; it is the reference meaning of
//! an expression.  The word semantics (`eval_word`) evaluates the same term
//! over 32-bit words, treating each of the 32 bit positions as an
//! independent truth value, which is what gives the bit-parallel enumerator
//! its throughput.

use vstd::prelude::*;

verus! {

/// The n-ary operators of the expression language.  Each one is commutative
/// and associative, and an application to zero arguments folds to the
/// operator's neutral element: all-ones for `And`, zero for `Or` and `Xor`.
#[derive(Clone, Copy, PartialEq, Eq, Structural)]
pub enum NaryOp {
    And,
    Or,
    Xor,
}

/// One node of a boolean expression.
pub enum Term {
    /// A fixed truth value (`true`/`1` or `false`/`0` in the surface syntax).
    Constant(bool),
    /// A reference to the variable slot with the given index in the owning
    /// document's variable table.
    Variable(usize),
    /// Logical negation of the child term.
    Not(Box<Term>),
    /// An operator folded over any number of children, left to right.
    Nary(NaryOp, Vec<Term>),
}

/// The binary reducer of an n-ary operator over single truth values.
pub open spec fn apply_bool(op: NaryOp, a: bool, b: bool) -> bool {
    match op {
        NaryOp::And => a && b,
        NaryOp::Or => a || b,
        NaryOp::Xor => a != b,
    }
}

/// The neutral element of an n-ary operator over single truth values.
pub open spec fn neutral_bool(op: NaryOp) -> bool {
    match op {
        NaryOp::And => true,
        NaryOp::Or => false,
        NaryOp::Xor => false,
    }
}

/// Left-to-right fold of an operator's binary reducer over truth values,
/// seeded with the operator's neutral element.
pub open spec fn reduce_bool(op: NaryOp, s: Seq<bool>) -> bool
    decreases s.len(),
{
    if s.len() == 0 {
        neutral_bool(op)
    } else {
        apply_bool(op, reduce_bool(op, s.drop_last()), s.last())
    }
}

/// The binary reducer of an n-ary operator over 32-bit words; each bit lane
/// is one independent truth value.
pub open spec fn apply_word(op: NaryOp, a: u32, b: u32) -> u32 {
    match op {
        NaryOp::And => a & b,
        NaryOp::Or => a | b,
        NaryOp::Xor => a ^ b,
    }
}

/// The neutral element of an n-ary operator over 32-bit words.
pub open spec fn neutral_word(op: NaryOp) -> u32 {
    match op {
        NaryOp::And => 0xffff_ffffu32,
        NaryOp::Or => 0u32,
        NaryOp::Xor => 0u32,
    }
}

/// Left-to-right fold of an operator's binary reducer over words, seeded
/// with the operator's neutral element.
pub open spec fn reduce_word(op: NaryOp, s: Seq<u32>) -> u32
    decreases s.len(),
{
    if s.len() == 0 {
        neutral_word(op)
    } else {
        apply_word(op, reduce_word(op, s.drop_last()), s.last())
    }
}

/// The scalar meaning of a term under one assignment: `env[i]` is the value
/// of the variable with index `i`.
pub open spec fn eval_bool(t: Term, env: Seq<bool>) -> bool
    decreases t, 1int,
{
    match t {
        Term::Constant(v) => v,
        Term::Variable(i) => env[i as int],
        Term::Not(c) => !eval_bool(*c, env),
        Term::Nary(op, cs) => reduce_bool(op, eval_terms_bool(cs@, env)),
    }
}

/// The scalar evaluations of a sequence of terms under one assignment, in
/// order.
pub open spec fn eval_terms_bool(ts: Seq<Term>, env: Seq<bool>) -> Seq<bool>
    decreases ts, 0int,
{
    if ts.len() == 0 {
        Seq::empty()
    } else {
        eval_terms_bool(ts.drop_last(), env).push(eval_bool(ts.last(), env))
    }
}

/// The word meaning of a term under one word-valued assignment.
pub open spec fn eval_word(t: Term, env: Seq<u32>) -> u32
    decreases t, 1int,
{
    match t {
        Term::Constant(v) => if v { 0xffff_ffffu32 } else { 0u32 },
        Term::Variable(i) => env[i as int],
        Term::Not(c) => !eval_word(*c, env),
        Term::Nary(op, cs) => reduce_word(op, eval_terms_word(cs@, env)),
    }
}

/// The word evaluations of a sequence of terms under one word-valued
/// assignment, in order.
pub open spec fn eval_terms_word(ts: Seq<Term>, env: Seq<u32>) -> Seq<u32>
    decreases ts, 0int,
{
    if ts.len() == 0 {
        Seq::empty()
    } else {
        eval_terms_word(ts.drop_last(), env).push(eval_word(ts.last(), env))
    }
}

/// A term is well formed for a table of `n` variables when every variable
/// reference points inside the table.  Validity is established once, when a
/// term is built; evaluation relies on it and has no error path.
pub open spec fn term_wf(t: Term, n: nat) -> bool
    decreases t, 1int,
{
    match t {
        Term::Constant(_) => true,
        Term::Variable(i) => i < n,
        Term::Not(c) => term_wf(*c, n),
        Term::Nary(_, cs) => terms_wf(cs@, n),
    }
}

/// Every term of the sequence is well formed for `n` variables.
pub open spec fn terms_wf(ts: Seq<Term>, n: nat) -> bool
    decreases ts, 0int,
{
    forall|i: int| 0 <= i < ts.len() ==> term_wf(#[trigger] ts[i], n)
}

/// `eval_terms_bool` indexes pointwise.
pub proof fn lemma_eval_terms_bool(ts: Seq<Term>, env: Seq<bool>)
    ensures
        eval_terms_bool(ts, env).len() == ts.len(),
        forall|i: int| 0 <= i < ts.len() ==> eval_terms_bool(ts, env)[i] == eval_bool(ts[i], env),
    decreases ts.len(),
{
    if ts.len() > 0 {
        lemma_eval_terms_bool(ts.drop_last(), env);
    }
}

/// `eval_terms_word` indexes pointwise.
pub proof fn lemma_eval_terms_word(ts: Seq<Term>, env: Seq<u32>)
    ensures
        eval_terms_word(ts, env).len() == ts.len(),
        forall|i: int| 0 <= i < ts.len() ==> eval_terms_word(ts, env)[i] == eval_word(ts[i], env),
    decreases ts.len(),
{
    if ts.len() > 0 {
        lemma_eval_terms_word(ts.drop_last(), env);
    }
}

impl NaryOp {
    /// The neutral element over single truth values.
    pub fn neutral_scalar(&self) -> (r: bool)
        ensures
            r == neutral_bool(*self),
    {
        match self {
            NaryOp::And => true,
            NaryOp::Or => false,
            NaryOp::Xor => false,
        }
    }

    /// The binary reducer over single truth values.
    pub fn apply_scalar(&self, a: bool, b: bool) -> (r: bool)
        ensures
            r == apply_bool(*self, a, b),
    {
        match self {
            NaryOp::And => a && b,
            NaryOp::Or => a || b,
            NaryOp::Xor => a != b,
        }
    }

    /// The neutral element over words.
    pub fn neutral_words(&self) -> (r: u32)
        ensures
            r == neutral_word(*self),
    {
        match self {
            NaryOp::And => 0xffff_ffffu32,
            NaryOp::Or => 0u32,
            NaryOp::Xor => 0u32,
        }
    }

    /// The binary reducer over words.
    pub fn apply_words(&self, a: u32, b: u32) -> (r: u32)
        ensures
            r == apply_word(*self, a, b),
    {
        match self {
            NaryOp::And => a & b,
            NaryOp::Or => a | b,
            NaryOp::Xor => a ^ b,
        }
    }
}

impl Term {
    /// Evaluate the term over single truth values.  Pure: the result is a
    /// function of the term and the current assignment alone, so the call
    /// may be repeated any number of times between mutations of `env`.
    pub fn eval_scalar(&self, env: &Vec<bool>) -> (r: bool)
        requires
            term_wf(*self, env@.len()),
        ensures
            r == eval_bool(*self, env@),
        decreases *self,
    {
        match self {
            Term::Constant(v) => *v,
            Term::Variable(i) => env[*i],
            Term::Not(c) => !c.eval_scalar(env),
            Term::Nary(op, cs) => {
                let mut acc = op.neutral_scalar();
                let mut j: usize = 0;
                #[verifier::loop_isolation(false)]
                while j < cs.len()
                    invariant
                        j <= cs@.len(),
                        terms_wf(cs@, env@.len()),
                        acc == reduce_bool(*op, eval_terms_bool(cs@.take(j as int), env@)),
                    decreases cs@.len() - j,
                {
                    let v = cs[j].eval_scalar(env);
                    acc = op.apply_scalar(acc, v);
                    j += 1;
                    proof {
                        let pre = cs@.take(j - 1);
                        let cur = cs@.take(j as int);
                        assert(cur.drop_last() =~= pre);
                        assert(cur.last() == cs@[j - 1]);
                        let evs = eval_terms_bool(pre, env@);
                        assert(eval_terms_bool(cur, env@) == evs.push(eval_bool(cs@[j - 1], env@)));
                        assert(evs.push(eval_bool(cs@[j - 1], env@)).drop_last() =~= evs);
                    }
                }
                proof {
                    assert(cs@.take(cs@.len() as int) =~= cs@);
                }
                acc
            },
        }
    }

    /// Evaluate the term over words, all 32 bit lanes at once.
    pub fn eval_words(&self, env: &Vec<u32>) -> (r: u32)
        requires
            term_wf(*self, env@.len()),
        ensures
            r == eval_word(*self, env@),
        decreases *self,
    {
        match self {
            Term::Constant(v) => if *v { 0xffff_ffffu32 } else { 0u32 },
            Term::Variable(i) => env[*i],
            Term::Not(c) => !c.eval_words(env),
            Term::Nary(op, cs) => {
                let mut acc = op.neutral_words();
                let mut j: usize = 0;
                #[verifier::loop_isolation(false)]
                while j < cs.len()
                    invariant
                        j <= cs@.len(),
                        terms_wf(cs@, env@.len()),
                        acc == reduce_word(*op, eval_terms_word(cs@.take(j as int), env@)),
                    decreases cs@.len() - j,
                {
                    let v = cs[j].eval_words(env);
                    acc = op.apply_words(acc, v);
                    j += 1;
                    proof {
                        let pre = cs@.take(j - 1);
                        let cur = cs@.take(j as int);
                        assert(cur.drop_last() =~= pre);
                        assert(cur.last() == cs@[j - 1]);
                        let evs = eval_terms_word(pre, env@);
                        assert(eval_terms_word(cur, env@) == evs.push(eval_word(cs@[j - 1], env@)));
                        assert(evs.push(eval_word(cs@[j - 1], env@)).drop_last() =~= evs);
                    }
                }
                proof {
                    assert(cs@.take(cs@.len() as int) =~= cs@);
                }
                acc
            },
        }
    }
}

} // verus!
