//! The AST builder: from a generic syntax tree (nested lists and symbol
//! atoms, as an s-expression reader hands them over) to a well-formed
//! `Term`, resolving variable names against the table.  This is the only
//! place where the expression language is validated; everything the
//! evaluator relies on is established here, before any enumeration starts.

use crate::table::{contains_name, str_eq, table_sorted};
use crate::term::{term_wf, NaryOp, Term};
use vstd::prelude::*;

verus! {

/// One node of the generic syntax tree that the external reader produces:
/// a symbol, a parenthesised list, or any other atom (string, character or
/// number literals), which the expression language does not use.
pub enum SyntaxNode {
    /// A symbol atom.
    Sym(String),
    /// A parenthesised list of sub-nodes.
    List(Vec<SyntaxNode>),
    /// Any other atom of the reader.
    Other,
}

/// What went wrong while building a term.
#[derive(Clone, Copy, PartialEq, Eq, Structural, Debug)]
pub enum BuildErrorKind {
    /// An atom that is neither a truth literal nor a declared variable.
    UnknownSymbol,
    /// A `not` applied to any number of arguments other than one.
    ArityMismatch,
    /// An empty list, a list not headed by a symbol, or an unrecognized
    /// command symbol.
    InvalidCommand,
}

/// A build failure, carrying the text of the offending input line.  Any
/// build failure aborts the whole run before enumeration starts.
#[derive(Debug)]
pub struct BuildError {
    /// The class of the failure.
    pub kind: BuildErrorKind,
    /// The offending line, as it stood in the input.
    pub line: String,
}

/// The spellings of the constant `true` (all-ones) atom.
pub open spec fn is_true_lit(s: Seq<char>) -> bool {
    s == "true"@ || s == "1"@
}

/// The spellings of the constant `false` (zero) atom.
pub open spec fn is_false_lit(s: Seq<char>) -> bool {
    s == "false"@ || s == "0"@
}

/// The spellings of the negation command.
pub open spec fn is_not_cmd(s: Seq<char>) -> bool {
    s == "not"@ || s == "!"@
}

/// The spellings of the conjunction command.
pub open spec fn is_and_cmd(s: Seq<char>) -> bool {
    s == "and"@ || s == "&"@
}

/// The spellings of the disjunction command.
pub open spec fn is_or_cmd(s: Seq<char>) -> bool {
    s == "or"@ || s == "|"@
}

/// The spelling of the exclusive-or command.
pub open spec fn is_xor_cmd(s: Seq<char>) -> bool {
    s == "xor"@
}

/// The first build failure of a syntax node against a variable table, or
/// `None` when the node builds: literals and declared variables build;
/// `not` demands exactly one argument; `and`, `or` and `xor` take any
/// number of arguments, examined left to right; everything else fails.
pub open spec fn spec_build_err(names: Seq<String>, node: SyntaxNode) -> Option<BuildErrorKind>
    decreases node, 1int,
{
    match node {
        SyntaxNode::Sym(s) => if is_true_lit(s@) || is_false_lit(s@) || contains_name(names, s@) {
            None
        } else {
            Some(BuildErrorKind::UnknownSymbol)
        },
        SyntaxNode::Other => Some(BuildErrorKind::UnknownSymbol),
        SyntaxNode::List(items) => if items@.len() == 0 {
            Some(BuildErrorKind::InvalidCommand)
        } else {
            match items@[0] {
                SyntaxNode::Sym(cmd) => if is_not_cmd(cmd@) {
                    if items@.len() != 2 {
                        Some(BuildErrorKind::ArityMismatch)
                    } else {
                        spec_build_err(names, items@[1])
                    }
                } else if is_and_cmd(cmd@) || is_or_cmd(cmd@) || is_xor_cmd(cmd@) {
                    spec_first_err(names, items@.skip(1))
                } else {
                    Some(BuildErrorKind::InvalidCommand)
                },
                _ => Some(BuildErrorKind::InvalidCommand),
            }
        },
    }
}

/// The first build failure among a sequence of argument nodes, left to
/// right, or `None` when they all build.
pub open spec fn spec_first_err(names: Seq<String>, nodes: Seq<SyntaxNode>) -> Option<
    BuildErrorKind,
>
    decreases nodes, 0int,
{
    if nodes.len() == 0 {
        None
    } else if spec_build_err(names, nodes.first()) is Some {
        spec_build_err(names, nodes.first())
    } else {
        spec_first_err(names, nodes.drop_first())
    }
}

/// The term that a syntax node builds to: `true`/`1` and `false`/`0` build
/// constants, a declared name builds a reference to its cell, `not` builds
/// a negation, and `and`/`&`, `or`/`|`, `xor` build n-ary applications over
/// their argument terms in order.
pub open spec fn builds_to(names: Seq<String>, node: SyntaxNode, t: Term) -> bool
    decreases node, 1int,
{
    match node {
        SyntaxNode::Sym(s) => if is_true_lit(s@) {
            t == Term::Constant(true)
        } else if is_false_lit(s@) {
            t == Term::Constant(false)
        } else {
            t matches Term::Variable(i) && i < names.len() && names[i as int]@ == s@
        },
        SyntaxNode::Other => false,
        SyntaxNode::List(items) => items@.len() > 0 && match items@[0] {
            SyntaxNode::Sym(cmd) => if is_not_cmd(cmd@) {
                items@.len() == 2 && (t matches Term::Not(c) && builds_to(names, items@[1], *c))
            } else if is_and_cmd(cmd@) {
                t matches Term::Nary(op, cs) && op == NaryOp::And && builds_list(
                    names,
                    items@.skip(1),
                    cs@,
                )
            } else if is_or_cmd(cmd@) {
                t matches Term::Nary(op, cs) && op == NaryOp::Or && builds_list(
                    names,
                    items@.skip(1),
                    cs@,
                )
            } else if is_xor_cmd(cmd@) {
                t matches Term::Nary(op, cs) && op == NaryOp::Xor && builds_list(
                    names,
                    items@.skip(1),
                    cs@,
                )
            } else {
                false
            },
            _ => false,
        },
    }
}

/// Argument nodes build to argument terms, position by position.
pub open spec fn builds_list(names: Seq<String>, nodes: Seq<SyntaxNode>, ts: Seq<Term>) -> bool
    decreases nodes, 0int,
{
    ts.len() == nodes.len() && forall|i: int|
        0 <= i < nodes.len() ==> builds_to(names, nodes[i], #[trigger] ts[i])
}

/// What the builder returns depends on the variable table only through which
/// names it contains.
pub proof fn lemma_err_same_names(t1: Seq<String>, t2: Seq<String>, node: SyntaxNode)
    requires
        forall|s: Seq<char>| #[trigger] contains_name(t1, s) <==> contains_name(t2, s),
    ensures
        spec_build_err(t1, node) == spec_build_err(t2, node),
    decreases node, 1int,
{
    match node {
        SyntaxNode::Sym(_) => {
        },
        SyntaxNode::Other => {
        },
        SyntaxNode::List(items) => {
            if items@.len() > 0 {
                match items@[0] {
                    SyntaxNode::Sym(cmd) => {
                        if is_not_cmd(cmd@) {
                            if items@.len() == 2 {
                                lemma_err_same_names(t1, t2, items@[1]);
                            }
                        } else if is_and_cmd(cmd@) || is_or_cmd(cmd@) || is_xor_cmd(cmd@) {
                            lemma_first_err_same_names(t1, t2, items@.skip(1));
                        }
                    },
                    _ => {
                    },
                }
            }
        },
    }
}

/// As `lemma_err_same_names`, over a sequence of argument nodes.
pub proof fn lemma_first_err_same_names(t1: Seq<String>, t2: Seq<String>, nodes: Seq<SyntaxNode>)
    requires
        forall|s: Seq<char>| #[trigger] contains_name(t1, s) <==> contains_name(t2, s),
    ensures
        spec_first_err(t1, nodes) == spec_first_err(t2, nodes),
    decreases nodes, 0int,
{
    if nodes.len() > 0 {
        lemma_err_same_names(t1, t2, nodes.first());
        lemma_first_err_same_names(t1, t2, nodes.drop_first());
    }
}

/// Find the cell index of a name in the table.
fn lookup(names: &Vec<String>, s: &String) -> (r: Option<usize>)
    ensures
        match r {
            Some(i) => i < names@.len() && names@[i as int]@ == s@,
            None => !contains_name(names@, s@),
        },
{
    let mut i: usize = 0;
    #[verifier::loop_isolation(false)]
    while i < names.len()
        invariant
            i <= names@.len(),
            forall|j: int| 0 <= j < i ==> names@[j]@ != s@,
        decreases names@.len() - i,
    {
        if str_eq(names[i].as_str(), s.as_str()) {
            return Some(i);
        }
        i += 1;
    }
    None
}

/// Build one term from a syntax node, resolving names against the table;
/// the only validation step.  Returns the first failure, classified and
/// carrying the offending line's text, and succeeds exactly on the nodes
/// the expression language admits.
pub fn build_term(names: &Vec<String>, line: &String, node: &SyntaxNode) -> (r: Result<
    Term,
    BuildError,
>)
    ensures
        (r is Ok) == (spec_build_err(names@, *node) is None),
        r matches Ok(t) ==> builds_to(names@, *node, t) && term_wf(t, names@.len()),
        r matches Err(e) ==> spec_build_err(names@, *node) == Some(e.kind) && e.line@ == line@,
    decreases *node,
{
    match node {
        SyntaxNode::Sym(s) => {
            if str_eq(s.as_str(), "true") || str_eq(s.as_str(), "1") {
                Ok(Term::Constant(true))
            } else if str_eq(s.as_str(), "false") || str_eq(s.as_str(), "0") {
                Ok(Term::Constant(false))
            } else {
                match lookup(names, s) {
                    Some(i) => Ok(Term::Variable(i)),
                    None => Err(
                        BuildError { kind: BuildErrorKind::UnknownSymbol, line: line.clone() },
                    ),
                }
            }
        },
        SyntaxNode::Other => Err(
            BuildError { kind: BuildErrorKind::UnknownSymbol, line: line.clone() },
        ),
        SyntaxNode::List(items) => {
            if items.len() == 0 {
                return Err(BuildError { kind: BuildErrorKind::InvalidCommand, line: line.clone() });
            }
            match &items[0] {
                SyntaxNode::Sym(cmd) => {
                    if str_eq(cmd.as_str(), "not") || str_eq(cmd.as_str(), "!") {
                        if items.len() != 2 {
                            Err(BuildError { kind: BuildErrorKind::ArityMismatch, line: line.clone() })
                        } else {
                            match build_term(names, line, &items[1]) {
                                Ok(c) => Ok(Term::Not(Box::new(c))),
                                Err(e) => Err(e),
                            }
                        }
                    } else {
                        let and_cmd = str_eq(cmd.as_str(), "and") || str_eq(cmd.as_str(), "&");
                        let or_cmd = str_eq(cmd.as_str(), "or") || str_eq(cmd.as_str(), "|");
                        let xor_cmd = str_eq(cmd.as_str(), "xor");
                        if and_cmd || or_cmd || xor_cmd {
                            let op = if and_cmd {
                                NaryOp::And
                            } else if or_cmd {
                                NaryOp::Or
                            } else {
                                NaryOp::Xor
                            };
                            let ghost args = items@.skip(1);
                            let mut cs: Vec<Term> = Vec::new();
                            let mut i: usize = 1;
                            #[verifier::loop_isolation(false)]
                            while i < items.len()
                                invariant
                                    1 <= i <= items@.len(),
                                    cs@.len() == i - 1,
                                    forall|j: int|
                                        0 <= j < i - 1 ==> builds_to(
                                            names@,
                                            args[j],
                                            #[trigger] cs@[j],
                                        ) && term_wf(cs@[j], names@.len()),
                                    spec_first_err(names@, args) == spec_first_err(
                                        names@,
                                        items@.skip(i as int),
                                    ),
                                decreases items@.len() - i,
                            {
                                proof {
                                    assert(items@.skip(i as int).first() == items@[i as int]);
                                }
                                match build_term(names, line, &items[i]) {
                                    Ok(t) => cs.push(t),
                                    Err(e) => {
                                        return Err(e);
                                    },
                                }
                                proof {
                                    assert(items@.skip(i as int).drop_first() =~= items@.skip(
                                        i + 1,
                                    ));
                                }
                                i += 1;
                            }
                            proof {
                                assert(items@.skip(items@.len() as int).len() == 0);
                                assert(forall|j: int|
                                    0 <= j < args.len() ==> args[j] == items@[j + 1]);
                                assert(builds_list(names@, args, cs@));
                                assert(crate::term::terms_wf(cs@, names@.len()));
                                assert(builds_to(names@, *node, Term::Nary(op, cs)));
                            }
                            Ok(Term::Nary(op, cs))
                        } else {
                            Err(
                                BuildError {
                                    kind: BuildErrorKind::InvalidCommand,
                                    line: line.clone(),
                                },
                            )
                        }
                    }
                },
                _ => Err(BuildError { kind: BuildErrorKind::InvalidCommand, line: line.clone() }),
            }
        },
    }
}

} // verus!
