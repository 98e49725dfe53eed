//! The document: a table of named variables and the terms under comparison,
//! with the two enumeration strategies of the equivalence checker.
//!
//! Both checkers visit every one of the `pow2(n)` assignments of the `n`
//! variables, record a full trace (the cell contents and every term's value,
//! once per step) and return the answer: whether all terms agree under
//! every assignment.  The scalar strategy visits one assignment per step;
//! the bit-parallel strategy packs 32 assignments into the bit lanes of one
//! word per variable and visits 32 per step.

use crate::all_eq;
use crate::counter::{
    advance, encode, lemma_encode_val, lemma_val_all_false, lemma_val_bound, lemma_val_injective,
    val_of,
};
use crate::is_all_same;
use crate::is_all_same_scalar;
use crate::builder::{
    build_term, builds_to, lemma_err_same_names, spec_build_err, BuildError, SyntaxNode,
};
use crate::table::{build_table, contains_name, table_sorted};
use crate::term::{
    eval_bool, eval_terms_bool, eval_terms_word, lemma_eval_terms_bool, lemma_eval_terms_word,
    term_wf, terms_wf, Term,
};
use crate::words::{
    column_pattern, get_bit, lane_env, lane_of, lemma_column_bit, lemma_eval_word_lane,
    lemma_lane_of, lemma_replicate_bit, lemma_word_diff_lane, replicate,
};
use vstd::arithmetic::power2::{lemma_pow2_pos, lemma_pow2_strictly_increases, lemma2_to64, pow2};
use vstd::prelude::*;

verus! {

/// One step of the enumeration trace: the contents of every variable cell
/// and the value of every term under those contents, in table order.
pub struct TraceStep<V> {
    /// The contents of the variable cells, one per declared variable.
    pub cells: Vec<V>,
    /// The evaluation of every term under those cell contents.
    pub values: Vec<V>,
}

/// A variable table and the terms under comparison.  The table's order is
/// the display and enumeration order; every variable reference inside a term
/// is an index into it.
pub struct Document {
    /// The declared variable names, sorted and without duplicates.
    pub names: Vec<String>,
    /// The terms under comparison, in input order.
    pub terms: Vec<Term>,
}

/// How many of the variable cells receive a fixed column pattern in the
/// bit-parallel strategy: all of them up to the five whose combinations the
/// 32 bit lanes of a word can spell.
pub open spec fn col_count(n: nat) -> nat {
    if n < 5 {
        n
    } else {
        5
    }
}

/// The word contents of the cells in the bit-parallel strategy: the first
/// `k` cells hold their fixed column patterns, each remaining cell
/// replicates one counter digit across all lanes.
pub open spec fn word_env_of(k: nat, ripple: Seq<bool>) -> Seq<u32> {
    Seq::new(
        k + ripple.len(),
        |i: int|
            if i < k {
                column_pattern(i)
            } else {
                replicate(ripple[i - k])
            },
    )
}

impl Document {
    /// The number of declared variables.
    pub open spec fn var_count(self) -> nat {
        self.names@.len()
    }

    /// Well-formedness: the variable table is sorted and duplicate-free, and
    /// every term only references declared variables.  `parse` establishes
    /// this once; evaluation and enumeration rely on it.
    pub open spec fn wf(self) -> bool {
        &&& table_sorted(self.names@)
        &&& terms_wf(self.terms@, self.var_count())
    }

    /// All terms evaluate to the same value under the given assignment.
    pub open spec fn agree_on(self, env: Seq<bool>) -> bool {
        all_eq(eval_terms_bool(self.terms@, env))
    }

    /// The equivalence answer: under every assignment of the declared
    /// variables, all terms agree.  A document without terms is trivially
    /// equivalent.
    pub open spec fn equivalent(self) -> bool {
        forall|env: Seq<bool>| env.len() == self.var_count() ==> #[trigger] self.agree_on(env)
    }
}

/// A fresh row of cells, all holding the same value.
fn make_cells<V: Copy>(n: usize, b: V) -> (v: Vec<V>)
    ensures
        v@.len() == n,
        forall|i: int| 0 <= i < n ==> v@[i] == b,
{
    let mut v: Vec<V> = Vec::new();
    let mut i: usize = 0;
    #[verifier::loop_isolation(false)]
    while i < n
        invariant
            i <= n,
            v@.len() == i,
            forall|j: int| 0 <= j < i ==> v@[j] == b,
        decreases n - i,
    {
        v.push(b);
        i += 1;
    }
    v
}

/// A copy of a row of cells, for the trace.
fn copy_cells<V: Copy>(v: &Vec<V>) -> (r: Vec<V>)
    ensures
        r@ == v@,
{
    let mut r: Vec<V> = Vec::new();
    let mut i: usize = 0;
    #[verifier::loop_isolation(false)]
    while i < v.len()
        invariant
            i <= v@.len(),
            r@ == v@.take(i as int),
        decreases v@.len() - i,
    {
        r.push(v[i]);
        proof {
            assert(v@.take(i + 1) =~= v@.take(i as int).push(v@[i as int]));
        }
        i += 1;
    }
    proof {
        assert(v@.take(v@.len() as int) =~= v@);
    }
    r
}

/// Evaluate every term once over single truth values.
fn eval_all_scalar(terms: &Vec<Term>, env: &Vec<bool>) -> (vals: Vec<bool>)
    requires
        terms_wf(terms@, env@.len()),
    ensures
        vals@ == eval_terms_bool(terms@, env@),
{
    proof {
        lemma_eval_terms_bool(terms@, env@);
    }
    let mut vals: Vec<bool> = Vec::new();
    let mut i: usize = 0;
    #[verifier::loop_isolation(false)]
    while i < terms.len()
        invariant
            i <= terms@.len(),
            vals@.len() == i,
            forall|j: int| 0 <= j < i ==> vals@[j] == eval_bool(terms@[j], env@),
        decreases terms@.len() - i,
    {
        let v = terms[i].eval_scalar(env);
        vals.push(v);
        i += 1;
    }
    proof {
        assert(vals@ =~= eval_terms_bool(terms@, env@));
    }
    vals
}

/// Evaluate every term once over words.
fn eval_all_words(terms: &Vec<Term>, env: &Vec<u32>) -> (vals: Vec<u32>)
    requires
        terms_wf(terms@, env@.len()),
    ensures
        vals@ == eval_terms_word(terms@, env@),
{
    proof {
        lemma_eval_terms_word(terms@, env@);
    }
    let mut vals: Vec<u32> = Vec::new();
    let mut i: usize = 0;
    #[verifier::loop_isolation(false)]
    while i < terms.len()
        invariant
            i <= terms@.len(),
            vals@.len() == i,
            forall|j: int| 0 <= j < i ==> vals@[j] == crate::term::eval_word(terms@[j], env@),
        decreases terms@.len() - i,
    {
        let v = terms[i].eval_words(env);
        vals.push(v);
        i += 1;
    }
    proof {
        assert(vals@ =~= eval_terms_word(terms@, env@));
    }
    vals
}

impl Document {
    /// Check equivalence with the scalar strategy: visit the `pow2(n)`
    /// assignments one per step, in ripple-carry (numeric) order, and record
    /// each assignment with every term's value under it.  The answer is
    /// `true` exactly when all terms agree under every assignment; the
    /// enumeration always runs to completion so the trace is always full.
    pub fn all_permute_scalar(&self) -> (out: (bool, Vec<TraceStep<bool>>))
        requires
            self.wf(),
        ensures
            out.0 == self.equivalent(),
            out.1@.len() == pow2(self.var_count()),
            forall|s: int|
                0 <= s < out.1@.len() ==> {
                    &&& (#[trigger] out.1@[s]).cells@ == encode(s as nat, self.var_count())
                    &&& out.1@[s].values@ == eval_terms_bool(self.terms@, out.1@[s].cells@)
                },
    {
        let n = self.names.len();
        let mut cells: Vec<bool> = make_cells(n, false);
        let mut trace: Vec<TraceStep<bool>> = Vec::new();
        let mut ok = true;
        proof {
            lemma_val_all_false(cells@);
            lemma_pow2_pos(n as nat);
        }
        #[verifier::loop_isolation(false)]
        loop
            invariant
                cells@.len() == n,
                trace@.len() == val_of(cells@),
                trace@.len() < pow2(n as nat),
                ok == (forall|e: Seq<bool>|
                    e.len() == n && val_of(e) < trace@.len() ==> #[trigger] self.agree_on(e)),
                forall|s: int|
                    0 <= s < trace@.len() ==> {
                        &&& (#[trigger] trace@[s]).cells@ == encode(s as nat, n as nat)
                        &&& trace@[s].values@ == eval_terms_bool(self.terms@, trace@[s].cells@)
                    },
            decreases pow2(n as nat) - trace@.len(),
        {
            let row = copy_cells(&cells);
            let values = eval_all_scalar(&self.terms, &cells);
            let same = is_all_same_scalar(values.as_slice());
            let ghost ok_before = ok;
            let ghost count = trace@.len();
            ok = ok && same;
            trace.push(TraceStep { cells: row, values });
            proof {
                lemma_val_bound(cells@);
                lemma_encode_val(count, n as nat);
                lemma_val_injective(encode(count, n as nat), cells@);
                assert(same == self.agree_on(cells@));
                if ok_before && same {
                    assert forall|e: Seq<bool>|
                        e.len() == n && val_of(e) < trace@.len() implies #[trigger] self.agree_on(
                        e,
                    ) by {
                        if val_of(e) == count {
                            lemma_val_injective(e, cells@);
                        }
                    }
                } else {
                    if !same {
                        assert(cells@.len() == n && val_of(cells@) < trace@.len()
                            && !self.agree_on(cells@));
                    } else {
                        let w = choose|e: Seq<bool>|
                            e.len() == n && val_of(e) < count && !(#[trigger] self.agree_on(e));
                        assert(w.len() == n && val_of(w) < trace@.len() && !self.agree_on(w));
                    }
                    assert(!ok);
                }
            }
            let carry = advance(&mut cells);
            if carry {
                proof {
                    assert(trace@.len() == pow2(n as nat));
                    assert forall|env: Seq<bool>| env.len() == self.var_count() implies (
                    val_of(env) < trace@.len()) by {
                        lemma_val_bound(env);
                    }
                }
                return (ok, trace);
            }
        }
    }
}

/// `table` is the variable table that a declaration list gives rise to:
/// sorted, duplicate-free, and holding exactly the declared names.
pub open spec fn table_of(table: Seq<String>, decl: Seq<String>) -> bool {
    &&& table_sorted(table)
    &&& forall|s: Seq<char>| #[trigger] contains_name(table, s) <==> contains_name(decl, s)
}

/// Every expression line builds against the table.
pub open spec fn all_lines_build(table: Seq<String>, lines: Seq<(String, SyntaxNode)>) -> bool {
    forall|i: int| 0 <= i < lines.len() ==> #[trigger] spec_build_err(table, lines[i].1) is None
}

/// `e` reports the first line that fails to build against the table: its
/// classification and its text, with every earlier line building.
pub open spec fn first_failure(
    table: Seq<String>,
    lines: Seq<(String, SyntaxNode)>,
    e: BuildError,
) -> bool {
    exists|i: int|
        {
            &&& 0 <= i < lines.len()
            &&& #[trigger] spec_build_err(table, lines[i].1) == Some(e.kind)
            &&& e.line@ == lines[i].0@
            &&& forall|j: int| 0 <= j < i ==> spec_build_err(table, lines[j].1) is None
        }
}

impl Document {
    /// Build a document from the declared variable names (the input's first
    /// line, in declaration order) and the parsed expression lines, each
    /// carried with its source text for error reports.  The variable table
    /// holds exactly the declared names, sorted; each line builds to one
    /// term, in order.  The first line that fails to build aborts the whole
    /// run, with its classification and text: a partially valid document is
    /// never returned, so enumeration only ever sees validated terms.
    pub fn parse(decl: Vec<String>, lines: Vec<(String, SyntaxNode)>) -> (r: Result<
        Document,
        BuildError,
    >)
        ensures
            r matches Ok(doc) ==> {
                &&& doc.wf()
                &&& table_of(doc.names@, decl@)
                &&& doc.terms@.len() == lines@.len()
                &&& forall|i: int|
                    0 <= i < lines@.len() ==> builds_to(
                        doc.names@,
                        lines@[i].1,
                        #[trigger] doc.terms@[i],
                    )
            },
            forall|table: Seq<String>|
                #[trigger] table_of(table, decl@) ==> {
                    &&& ((r is Ok) == all_lines_build(table, lines@))
                    &&& (r matches Err(e) ==> first_failure(table, lines@, e))
                },
    {
        let names = build_table(&decl);
        let mut terms: Vec<Term> = Vec::new();
        let mut i: usize = 0;
        #[verifier::loop_isolation(false)]
        while i < lines.len()
            invariant
                i <= lines@.len(),
                terms@.len() == i,
                table_of(names@, decl@),
                forall|j: int|
                    0 <= j < i ==> #[trigger] spec_build_err(names@, lines@[j].1) is None,
                forall|j: int|
                    0 <= j < i ==> builds_to(names@, lines@[j].1, #[trigger] terms@[j]) && term_wf(
                        terms@[j],
                        names@.len(),
                    ),
            decreases lines@.len() - i,
        {
            match build_term(&names, &lines[i].0, &lines[i].1) {
                Ok(t) => {
                    terms.push(t);
                },
                Err(e) => {
                    proof {
                        assert forall|table: Seq<String>| #[trigger]
                            table_of(table, decl@) implies !all_lines_build(table, lines@)
                            && first_failure(table, lines@, e) by {
                            assert forall|s: Seq<char>| #[trigger]
                                contains_name(names@, s) <==> contains_name(table, s) by {}
                            assert forall|j: int| 0 <= j <= i implies spec_build_err(
                                table,
                                #[trigger] lines@[j].1,
                            ) == spec_build_err(names@, lines@[j].1) by {
                                lemma_err_same_names(names@, table, lines@[j].1);
                            }
                            assert(spec_build_err(table, lines@[i as int].1) == Some(e.kind));
                            assert(first_failure(table, lines@, e));
                        }
                    }
                    return Err(e);
                },
            }
            i += 1;
        }
        let doc = Document { names, terms };
        proof {
            assert forall|table: Seq<String>| #[trigger]
                table_of(table, decl@) implies all_lines_build(table, lines@) by {
                assert forall|j: int| 0 <= j < lines@.len() implies spec_build_err(
                    table,
                    #[trigger] lines@[j].1,
                ) is None by {
                    lemma_err_same_names(doc.names@, table, lines@[j].1);
                }
            }
        }
        Ok(doc)
    }
}

/// The fixed column pattern for cell `j`, as a value.
fn column_pattern_at(j: usize) -> (r: u32)
    requires
        j < 5,
    ensures
        r == column_pattern(j as int),
{
    if j == 0 {
        0xaaaa_aaaau32
    } else if j == 1 {
        0xcccc_ccccu32
    } else if j == 2 {
        0xf0f0_f0f0u32
    } else if j == 3 {
        0xff00_ff00u32
    } else {
        0xffff_0000u32
    }
}

/// The word cells for one bit-parallel step: column patterns first, then
/// one replicated word per counter digit.
fn build_word_env(k: usize, ripple: &Vec<bool>) -> (env: Vec<u32>)
    requires
        k <= 5,
    ensures
        env@ == word_env_of(k as nat, ripple@),
{
    let mut env: Vec<u32> = Vec::new();
    let mut i: usize = 0;
    #[verifier::loop_isolation(false)]
    while i < k
        invariant
            i <= k,
            env@.len() == i,
            forall|j: int| 0 <= j < i ==> env@[j] == column_pattern(j),
        decreases k - i,
    {
        env.push(column_pattern_at(i));
        i += 1;
    }
    let mut m: usize = 0;
    #[verifier::loop_isolation(false)]
    while m < ripple.len()
        invariant
            m <= ripple@.len(),
            env@.len() == k + m,
            forall|j: int| 0 <= j < k ==> env@[j] == column_pattern(j),
            forall|j: int| k <= j < k + m ==> env@[j] == replicate(ripple@[j - k]),
        decreases ripple@.len() - m,
    {
        let w: u32 = if ripple[m] {
            0xffff_ffffu32
        } else {
            0u32
        };
        env.push(w);
        m += 1;
    }
    proof {
        assert(env@ =~= word_env_of(k as nat, ripple@));
    }
    env
}

/// Bit-parallel exhaustiveness: every assignment of the `n` variables is
/// read by some lane of some step of the bit-parallel enumeration.  The
/// steps' cell words are `word_env_of(col_count(n), encode(s, ..))`, as the
/// rows of `all_permute`'s trace are, and lane `l` of a step carries the
/// scalar assignment `lane_env(.., l)`.
pub proof fn lemma_bit_parallel_exhaustive(n: nat, e: Seq<bool>)
    requires
        e.len() == n,
    ensures
        exists|s: int, l: u32|
            {
                &&& 0 <= s < pow2((n - col_count(n)) as nat)
                &&& l < 32
                &&& #[trigger] lane_env(
                    word_env_of(col_count(n), encode(s as nat, (n - col_count(n)) as nat)),
                    l,
                ) == e
            },
{
    let k = col_count(n);
    let m = (n - k) as nat;
    let rip = e.skip(k as int);
    lemma_val_bound(rip);
    let s = val_of(rip) as int;
    lemma_encode_val(val_of(rip), m);
    lemma_val_injective(encode(val_of(rip), m), rip);
    let p = e.take(k as int);
    lemma_lane_of(p);
    let l = lane_of(p) as u32;
    lemma2_to64();
    assert(pow2(k) <= 32) by {
        if k < 5 {
            lemma_pow2_strictly_increases(k, 5);
        }
    }
    let wenv = word_env_of(k, rip);
    assert forall|i: int| 0 <= i < n implies lane_env(wenv, l)[i] == e[i] by {
        if i < k {
            lemma_column_bit(i as u32, l);
            assert(get_bit(lane_of(p) as u32, i as u32) == p[i]);
        } else {
            lemma_replicate_bit(rip[i - k], l);
        }
    }
    assert(lane_env(wenv, l) =~= e);
    assert(0 <= s < pow2(m) && l < 32 && lane_env(word_env_of(k, encode(s as nat, m)), l) == e);
}

/// One bit-parallel step settles every assignment that extends the current
/// counter digits: the word values of all terms agree exactly when the
/// terms agree under every scalar assignment whose trailing cells match the
/// counter digits.
proof fn lemma_step_agree(doc: Document, k: nat, rip: Seq<bool>)
    requires
        doc.wf(),
        k == col_count(doc.var_count()),
        k + rip.len() == doc.var_count(),
    ensures
        all_eq(eval_terms_word(doc.terms@, word_env_of(k, rip))) == (forall|e: Seq<bool>|
            e.len() == doc.var_count() && e.skip(k as int) == rip ==> #[trigger] doc.agree_on(e)),
{
    let n = doc.var_count();
    let wenv = word_env_of(k, rip);
    let ws = eval_terms_word(doc.terms@, wenv);
    lemma_eval_terms_word(doc.terms@, wenv);
    lemma2_to64();
    assert(wenv.len() == n);
    assert(pow2(k) <= 32) by {
        if k < 5 {
            lemma_pow2_strictly_increases(k, 5);
        }
    }
    if all_eq(ws) {
        assert forall|e: Seq<bool>|
            e.len() == n && e.skip(k as int) == rip implies #[trigger] doc.agree_on(e) by {
            let p = e.take(k as int);
            lemma_lane_of(p);
            let l = lane_of(p) as u32;
            assert(l < 32);
            assert forall|i: int| 0 <= i < n implies lane_env(wenv, l)[i] == e[i] by {
                if i < k {
                    lemma_column_bit(i as u32, l);
                    assert(get_bit(lane_of(p) as u32, i as u32) == p[i]);
                    assert(p[i] == e[i]);
                } else {
                    lemma_replicate_bit(rip[i - k], l);
                    assert(rip[i - k] == e.skip(k as int)[i - k]);
                }
            }
            assert(lane_env(wenv, l) =~= e);
            lemma_eval_terms_bool(doc.terms@, e);
            let bs = eval_terms_bool(doc.terms@, e);
            assert forall|a: int, b: int|
                0 <= a < bs.len() && 0 <= b < bs.len() implies bs[a] == bs[b] by {
                lemma_eval_word_lane(doc.terms@[a], wenv, l);
                lemma_eval_word_lane(doc.terms@[b], wenv, l);
                assert(bs[a] == get_bit(ws[a], l));
                assert(bs[b] == get_bit(ws[b], l));
                assert(ws[a] == ws[b]);
            }
        }
    } else {
        assert(exists|a: int, b: int|
            0 <= a < ws.len() && 0 <= b < ws.len() && ws[a] != ws[b]);
        let (a, b) = choose|a: int, b: int|
            0 <= a < ws.len() && 0 <= b < ws.len() && ws[a] != ws[b];
        lemma_word_diff_lane(ws[a], ws[b]);
        let l = choose|l: u32| l < 32 && get_bit(ws[a], l) != get_bit(ws[b], l);
        let e = lane_env(wenv, l);
        assert(e.len() == n);
        assert forall|i: int| 0 <= i < rip.len() implies e.skip(k as int)[i] == rip[i] by {
            lemma_replicate_bit(rip[i], l);
        }
        assert(e.skip(k as int) =~= rip);
        lemma_eval_word_lane(doc.terms@[a], wenv, l);
        lemma_eval_word_lane(doc.terms@[b], wenv, l);
        lemma_eval_terms_bool(doc.terms@, e);
        let bs = eval_terms_bool(doc.terms@, e);
        assert(bs[a] == get_bit(ws[a], l));
        assert(bs[b] == get_bit(ws[b], l));
        assert(!doc.agree_on(e));
        assert(!(forall|e2: Seq<bool>|
            e2.len() == n && e2.skip(k as int) == rip ==> #[trigger] doc.agree_on(e2)));
    }
}

impl Document {
    /// Check equivalence with the bit-parallel strategy: the first
    /// `col_count(n)` cells hold their fixed column patterns, so each step's
    /// single evaluation covers all their combinations at once, one per bit
    /// lane; the remaining cells replicate the digits of a ripple-carry
    /// counter across all lanes and advance once per step.  The trace holds
    /// one row of word values per step; the answer is the same as the
    /// scalar strategy's.
    pub fn all_permute(&self) -> (out: (bool, Vec<TraceStep<u32>>))
        requires
            self.wf(),
        ensures
            out.0 == self.equivalent(),
            out.1@.len() == pow2((self.var_count() - col_count(self.var_count())) as nat),
            forall|s: int|
                0 <= s < out.1@.len() ==> {
                    &&& (#[trigger] out.1@[s]).cells@ == word_env_of(
                        col_count(self.var_count()),
                        encode(s as nat, (self.var_count() - col_count(self.var_count())) as nat),
                    )
                    &&& out.1@[s].values@ == eval_terms_word(self.terms@, out.1@[s].cells@)
                },
    {
        let n = self.names.len();
        let k = if n < 5 {
            n
        } else {
            5
        };
        let m = n - k;
        let mut ripple: Vec<bool> = make_cells(m, false);
        let mut trace: Vec<TraceStep<u32>> = Vec::new();
        let mut ok = true;
        proof {
            lemma_val_all_false(ripple@);
            lemma_pow2_pos(m as nat);
        }
        #[verifier::loop_isolation(false)]
        loop
            invariant
                ripple@.len() == m,
                trace@.len() == val_of(ripple@),
                trace@.len() < pow2(m as nat),
                ok == (forall|e: Seq<bool>|
                    e.len() == n && val_of(e.skip(k as int)) < trace@.len()
                        ==> #[trigger] self.agree_on(e)),
                forall|s: int|
                    0 <= s < trace@.len() ==> {
                        &&& (#[trigger] trace@[s]).cells@ == word_env_of(
                            k as nat,
                            encode(s as nat, m as nat),
                        )
                        &&& trace@[s].values@ == eval_terms_word(self.terms@, trace@[s].cells@)
                    },
            decreases pow2(m as nat) - trace@.len(),
        {
            let env = build_word_env(k, &ripple);
            let values = eval_all_words(&self.terms, &env);
            let same = is_all_same(values.as_slice());
            let ghost ok_before = ok;
            let ghost count = trace@.len();
            ok = ok && same;
            trace.push(TraceStep { cells: env, values });
            proof {
                lemma_val_bound(ripple@);
                lemma_encode_val(count, m as nat);
                lemma_val_injective(encode(count, m as nat), ripple@);
                lemma_step_agree(*self, k as nat, ripple@);
                assert(same == (forall|e: Seq<bool>|
                    e.len() == n && e.skip(k as int) == ripple@ ==> #[trigger] self.agree_on(e)));
                if ok_before && same {
                    assert forall|e: Seq<bool>|
                        e.len() == n && val_of(e.skip(k as int)) < trace@.len()
                            implies #[trigger] self.agree_on(e) by {
                        if val_of(e.skip(k as int)) == count {
                            lemma_val_injective(e.skip(k as int), ripple@);
                        }
                    }
                } else {
                    if !same {
                        let w = choose|e: Seq<bool>|
                            e.len() == n && e.skip(k as int) == ripple@ && !(
                            #[trigger] self.agree_on(e));
                        assert(w.len() == n && val_of(w.skip(k as int)) < trace@.len()
                            && !self.agree_on(w));
                    } else {
                        let w = choose|e: Seq<bool>|
                            e.len() == n && val_of(e.skip(k as int)) < count && !(
                            #[trigger] self.agree_on(e));
                        assert(w.len() == n && val_of(w.skip(k as int)) < trace@.len()
                            && !self.agree_on(w));
                    }
                    assert(!ok);
                }
            }
            let carry = advance(&mut ripple);
            if carry {
                proof {
                    assert(trace@.len() == pow2(m as nat));
                    assert forall|env: Seq<bool>| env.len() == n implies val_of(
                        env.skip(k as int),
                    ) < pow2(m as nat) by {
                        lemma_val_bound(env.skip(k as int));
                    }
                }
                return (ok, trace);
            }
        }
    }
}

} // verus!
