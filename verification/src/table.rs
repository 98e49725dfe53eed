//! The variable table's order: names are kept sorted lexicographically by
//! character code and without duplicates, so that iteration order is
//! deterministic and a name resolves to exactly one cell index.

use vstd::prelude::*;

verus! {

/// Strict lexicographic order on character sequences, by code point: a
/// proper prefix comes first, otherwise the first differing character
/// decides.
pub open spec fn lex_lt(a: Seq<char>, b: Seq<char>) -> bool
    decreases a.len(),
{
    if b.len() == 0 {
        false
    } else if a.len() == 0 {
        true
    } else if a.first() != b.first() {
        (a.first() as u32) < (b.first() as u32)
    } else {
        lex_lt(a.drop_first(), b.drop_first())
    }
}

/// The names stand in strictly increasing lexicographic order, so each name
/// occurs once.
pub open spec fn table_sorted(names: Seq<String>) -> bool {
    forall|i: int, j: int| 0 <= i < j < names.len() ==> lex_lt(names[i]@, names[j]@)
}

/// Some name of the table reads `s`.
pub open spec fn contains_name(names: Seq<String>, s: Seq<char>) -> bool {
    exists|i: int| 0 <= i < names.len() && names[i]@ == s
}

/// Any two character sequences are ordered or equal.
pub proof fn lemma_lex_connected(a: Seq<char>, b: Seq<char>)
    ensures
        a == b || lex_lt(a, b) || lex_lt(b, a),
    decreases a.len(),
{
    if a.len() == 0 && b.len() == 0 {
        assert(a =~= b);
    } else if a.len() > 0 && b.len() > 0 && a.first() != b.first() {
        if a.first() as u32 == b.first() as u32 {
            lemma_char_code(a.first(), b.first());
        }
    } else if a.len() > 0 && b.len() > 0 {
        lemma_lex_connected(a.drop_first(), b.drop_first());
        if a.drop_first() == b.drop_first() {
            assert(forall|i: int|
                1 <= i < a.len() ==> a[i] == a.drop_first()[i - 1] && b[i] == b.drop_first()[i
                    - 1]);
            assert(a =~= b);
        }
    }
}

/// The lexicographic order is transitive.
pub proof fn lemma_lex_trans(a: Seq<char>, b: Seq<char>, c: Seq<char>)
    requires
        lex_lt(a, b),
        lex_lt(b, c),
    ensures
        lex_lt(a, c),
    decreases a.len(),
{
    if a.len() > 0 && b.len() > 0 && c.len() > 0 && a.first() == b.first() && b.first()
        == c.first() {
        lemma_lex_trans(a.drop_first(), b.drop_first(), c.drop_first());
    }
}

/// Distinct characters have distinct code points.
proof fn lemma_char_code(c1: char, c2: char)
    requires
        c1 as u32 == c2 as u32,
    ensures
        c1 == c2,
{
}

/// Whether two names read the same.
pub fn str_eq(a: &str, b: &str) -> (r: bool)
    ensures
        r == (a@ == b@),
{
    let alen = a.unicode_len();
    let blen = b.unicode_len();
    if alen != blen {
        return false;
    }
    let mut i: usize = 0;
    #[verifier::loop_isolation(false)]
    while i < alen
        invariant
            i <= alen,
            forall|j: int| 0 <= j < i ==> a@[j] == b@[j],
        decreases alen - i,
    {
        if a.get_char(i) != b.get_char(i) {
            return false;
        }
        i += 1;
    }
    proof {
        assert(a@ =~= b@);
    }
    true
}

/// Whether the first name comes strictly before the second.
pub fn str_lt(a: &str, b: &str) -> (r: bool)
    ensures
        r == lex_lt(a@, b@),
{
    let alen = a.unicode_len();
    let blen = b.unicode_len();
    let mut i: usize = 0;
    proof {
        assert(a@.skip(0) =~= a@);
        assert(b@.skip(0) =~= b@);
    }
    #[verifier::loop_isolation(false)]
    loop
        invariant
            i <= alen,
            i <= blen,
            lex_lt(a@, b@) == lex_lt(a@.skip(i as int), b@.skip(i as int)),
        decreases alen - i,
    {
        if i == blen {
            return false;
        }
        if i == alen {
            return true;
        }
        let ca = a.get_char(i);
        let cb = b.get_char(i);
        proof {
            assert(a@.skip(i as int).first() == a@[i as int]);
            assert(b@.skip(i as int).first() == b@[i as int]);
        }
        if ca != cb {
            return (ca as u32) < (cb as u32);
        }
        proof {
            assert(a@.skip(i as int).drop_first() =~= a@.skip(i + 1));
            assert(b@.skip(i as int).drop_first() =~= b@.skip(i + 1));
        }
        i += 1;
    }
}

/// Put one name into a sorted table, keeping the order and dropping the
/// name if it is already present.
pub fn insert_name(names: &mut Vec<String>, name: String)
    requires
        table_sorted(old(names)@),
    ensures
        table_sorted(final(names)@),
        forall|s: Seq<char>|
            #[trigger] contains_name(final(names)@, s) <==> (contains_name(old(names)@, s) || s
                == name@),
{
    let ghost orig = names@;
    let mut i: usize = 0;
    #[verifier::loop_isolation(false)]
    loop
        invariant
            i <= orig.len(),
            names@ == orig,
            forall|j: int| 0 <= j < i ==> lex_lt(orig[j]@, name@),
        decreases orig.len() - i,
    {
        if i == names.len() {
            break;
        }
        if !str_lt(names[i].as_str(), name.as_str()) {
            break;
        }
        i += 1;
    }
    if i < names.len() && str_eq(names[i].as_str(), name.as_str()) {
        proof {
            assert(contains_name(orig, name@));
            assert forall|s: Seq<char>| #[trigger]
                contains_name(names@, s) <==> (contains_name(orig, s) || s == name@) by {}
        }
        return ;
    }
    proof {
        if i < orig.len() {
            lemma_lex_connected(orig[i as int]@, name@);
            assert(lex_lt(name@, orig[i as int]@));
        }
    }
    names.insert(i, name);
    proof {
        let cur = names@;
        assert(cur.len() == orig.len() + 1);
        assert(forall|j: int| 0 <= j < i ==> cur[j] == orig[j]);
        assert(cur[i as int]@ == name@);
        assert(forall|j: int| i < j < cur.len() ==> cur[j] == orig[j - 1]);
        assert forall|x: int, y: int| 0 <= x < y < cur.len() implies lex_lt(cur[x]@, cur[y]@) by {
            if y == i {
                assert(lex_lt(orig[x]@, name@));
            } else if x == i {
                assert(lex_lt(name@, orig[i as int]@));
                if y - 1 > i {
                    lemma_lex_trans(name@, orig[i as int]@, orig[y - 1]@);
                }
            }
        }
        assert forall|s: Seq<char>| #[trigger]
            contains_name(cur, s) implies (contains_name(orig, s) || s == name@) by {
            let w = choose|w: int| 0 <= w < cur.len() && cur[w]@ == s;
            if w < i {
                assert(orig[w]@ == s);
            } else if w > i {
                assert(orig[w - 1]@ == s);
            }
        }
        assert forall|s: Seq<char>| (contains_name(orig, s) || s
            == name@) implies #[trigger] contains_name(cur, s) by {
            if contains_name(orig, s) {
                let w = choose|w: int| 0 <= w < orig.len() && orig[w]@ == s;
                if w < i {
                    assert(cur[w]@ == s);
                } else {
                    assert(cur[w + 1]@ == s);
                }
            } else {
                assert(cur[i as int]@ == s);
            }
        }
    }
}

/// Build the variable table from the declared names: the same set of names,
/// in sorted order and without duplicates.
pub fn build_table(decl: &Vec<String>) -> (table: Vec<String>)
    ensures
        table_sorted(table@),
        forall|s: Seq<char>| #[trigger] contains_name(table@, s) <==> contains_name(decl@, s),
{
    let mut table: Vec<String> = Vec::new();
    let mut i: usize = 0;
    #[verifier::loop_isolation(false)]
    while i < decl.len()
        invariant
            i <= decl@.len(),
            table_sorted(table@),
            forall|s: Seq<char>|
                #[trigger] contains_name(table@, s) <==> contains_name(decl@.take(i as int), s),
        decreases decl@.len() - i,
    {
        let name = decl[i].clone();
        insert_name(&mut table, name);
        i += 1;
        proof {
            let pre = decl@.take(i - 1);
            let cur = decl@.take(i as int);
            assert forall|s: Seq<char>| #[trigger]
                contains_name(cur, s) implies (contains_name(pre, s) || s == decl@[i - 1]@) by {
                let w = choose|w: int| 0 <= w < cur.len() && cur[w]@ == s;
                if w < i - 1 {
                    assert(pre[w]@ == s);
                }
            }
            assert forall|s: Seq<char>| (contains_name(pre, s) || s
                == decl@[i - 1]@) implies #[trigger] contains_name(cur, s) by {
                if contains_name(pre, s) {
                    let w = choose|w: int| 0 <= w < pre.len() && pre[w]@ == s;
                    assert(cur[w]@ == s);
                } else {
                    assert(cur[i - 1]@ == s);
                }
            }
        }
    }
    proof {
        assert(decl@.take(decl@.len() as int) =~= decl@);
    }
    table
}

} // verus!
