//! The generic evaluation traits of the operator library: a term-like value
//! knows how to evaluate itself (`InnerEval`), operators evaluate over one,
//! two or any number of arguments, and the apply structs compose them into
//! statically typed expression nodes.  Each executable evaluation is pinned
//! to a specification-level twin, so everything built from these pieces has
//! an exact meaning.

use vstd::prelude::*;

verus! {

/// A value that evaluates to an output, with no side effects: the result is
/// a function of the value alone, so evaluation may be repeated freely.
pub trait InnerEval {
    /// The domain the value evaluates into.
    type Output;

    /// The meaning of the value.
    spec fn spec_eval(&self) -> Self::Output;

    /// Evaluate the value.
    fn eval(&self) -> (r: Self::Output)
        ensures
            r == self.spec_eval(),
    ;
}

/// A plain value, evaluating to itself.
#[derive(Clone, Copy, Debug, PartialEq, Eq, Hash)]
pub struct Wrap<Value>(pub Value);

impl<Value: Copy> InnerEval for Wrap<Value> {
    type Output = Value;

    open spec fn spec_eval(&self) -> Value {
        self.0
    }

    fn eval(&self) -> Value {
        self.0
    }
}

/// An operator over one argument.
pub trait UnaryEval<Value> {
    /// The meaning of the operator.
    spec fn spec_eval(&self, a: Value) -> Value;

    /// Apply the operator.
    fn eval(&self, a: Value) -> (r: Value)
        ensures
            r == self.spec_eval(a),
    ;
}

/// A unary operator applied to a child node.
#[derive(Clone, Copy)]
pub struct UnaryApply<Op, Term> {
    /// The operator.
    pub op: Op,
    /// The argument node.
    pub a: Term,
}

impl<Op, Term> InnerEval for UnaryApply<Op, Term> where
    Op: UnaryEval<<Term as InnerEval>::Output>,
    Term: InnerEval,
 {
    type Output = <Term as InnerEval>::Output;

    open spec fn spec_eval(&self) -> Self::Output {
        self.op.spec_eval(self.a.spec_eval())
    }

    fn eval(&self) -> Self::Output {
        self.op.eval(self.a.eval())
    }
}

/// An operator over two arguments.
pub trait BinaryEval<Value> {
    /// The meaning of the operator.
    spec fn spec_eval(&self, a: Value, b: Value) -> Value;

    /// Apply the operator.
    fn eval(&self, a: Value, b: Value) -> (r: Value)
        ensures
            r == self.spec_eval(a, b),
    ;
}

/// A binary operator applied to two child nodes.
#[derive(Clone, Copy)]
pub struct BinaryApply<Op, Term> {
    /// The operator.
    pub op: Op,
    /// The left argument node.
    pub a: Term,
    /// The right argument node.
    pub b: Term,
}

impl<Op, Term> InnerEval for BinaryApply<Op, Term> where
    Op: BinaryEval<<Term as InnerEval>::Output>,
    Term: InnerEval,
 {
    type Output = <Term as InnerEval>::Output;

    open spec fn spec_eval(&self) -> Self::Output {
        self.op.spec_eval(self.a.spec_eval(), self.b.spec_eval())
    }

    fn eval(&self) -> Self::Output {
        self.op.eval(self.a.eval(), self.b.eval())
    }
}

/// A binary operator that extends to any number of arguments, folding from
/// its neutral element: applied to none it yields the neutral element, to
/// one it yields that argument, and otherwise it folds left to right.
pub trait NaryEval<Value>: BinaryEval<Value> {
    /// The neutral element of the operator.
    spec fn spec_neutral(&self) -> Value;

    /// The neutral element of the operator.
    fn neutral(&self) -> (r: Value)
        ensures
            r == self.spec_neutral(),
    ;
}

/// Left-to-right fold of an n-ary operator over already evaluated
/// arguments, seeded with the operator's neutral element.
pub open spec fn spec_reduce<Value, Op: NaryEval<Value>>(op: &Op, s: Seq<Value>) -> Value
    decreases s.len(),
{
    if s.len() == 0 {
        op.spec_neutral()
    } else {
        op.spec_eval(spec_reduce(op, s.drop_last()), s.last())
    }
}

/// The meanings of a sequence of nodes, in order.
pub open spec fn spec_eval_all<Term: InnerEval>(ts: Seq<Term>) -> Seq<<Term as InnerEval>::Output> {
    ts.map(|i: int, t: Term| t.spec_eval())
}

/// An n-ary operator applied to any number of child nodes.
#[derive(Clone)]
pub struct NaryApply<Op, Term> {
    /// The operator.
    pub op: Op,
    /// The argument nodes, in order.
    pub x: Vec<Term>,
}

impl<Op, Term> InnerEval for NaryApply<Op, Term> where
    Term: InnerEval,
    <Term as InnerEval>::Output: Copy,
    Op: NaryEval<<Term as InnerEval>::Output>,
 {
    type Output = <Term as InnerEval>::Output;

    open spec fn spec_eval(&self) -> Self::Output {
        spec_reduce(&self.op, spec_eval_all(self.x@))
    }

    fn eval(&self) -> Self::Output {
        let mut acc = self.op.neutral();
        let mut j: usize = 0;
        #[verifier::loop_isolation(false)]
        while j < self.x.len()
            invariant
                j <= self.x@.len(),
                acc == spec_reduce(&self.op, spec_eval_all(self.x@.take(j as int))),
            decreases self.x@.len() - j,
        {
            let v = self.x[j].eval();
            acc = self.op.eval(acc, v);
            j += 1;
            proof {
                let pre = spec_eval_all(self.x@.take(j - 1));
                let cur = spec_eval_all(self.x@.take(j as int));
                assert(cur =~= pre.push(self.x@[j - 1].spec_eval()));
                assert(cur.drop_last() =~= pre);
            }
        }
        proof {
            assert(self.x@.take(self.x@.len() as int) =~= self.x@);
        }
        acc
    }
}

} // verus!
