use equivchk::builder::{BuildError, BuildErrorKind, SyntaxNode};
use equivchk::document::Document;

fn sym(s: &str) -> SyntaxNode {
    SyntaxNode::Sym(s.to_string())
}

fn list(items: Vec<SyntaxNode>) -> SyntaxNode {
    SyntaxNode::List(items)
}

fn parse_doc(names: &[&str], exprs: Vec<(&str, SyntaxNode)>) -> Result<Document, BuildError> {
    let decl: Vec<String> = names.iter().map(|s| s.to_string()).collect();
    let lines: Vec<(String, SyntaxNode)> =
        exprs.into_iter().map(|(t, n)| (t.to_string(), n)).collect();
    Document::parse(decl, lines)
}

#[test]
fn and_vs_or_not_equivalent() {
    let doc = parse_doc(
        &["a", "b"],
        vec![
            ("(and a b)", list(vec![sym("and"), sym("a"), sym("b")])),
            ("(or a b)", list(vec![sym("or"), sym("a"), sym("b")])),
        ],
    )
    .unwrap();
    let (verdict, trace) = doc.all_permute_scalar();
    assert!(!verdict);
    assert_eq!(trace.len(), 4);
    let (verdict_par, _) = doc.all_permute();
    assert!(!verdict_par);
}

#[test]
fn xor_de_morgan_equivalent() {
    // (xor a b) == (not (or (and a b) (not (or a b)))) for all 4 assignments
    let lhs = list(vec![sym("xor"), sym("a"), sym("b")]);
    let rhs = list(vec![
        sym("not"),
        list(vec![
            sym("or"),
            list(vec![sym("and"), sym("a"), sym("b")]),
            list(vec![sym("not"), list(vec![sym("or"), sym("a"), sym("b")])]),
        ]),
    ]);
    let doc = parse_doc(&["a", "b"], vec![("(xor a b)", lhs), ("(not ...)", rhs)]).unwrap();
    let (verdict, trace) = doc.all_permute_scalar();
    assert!(verdict);
    assert_eq!(trace.len(), 4);
    for step in &trace {
        assert_eq!(step.values.len(), 2);
        assert_eq!(step.values[0], step.values[1]);
    }
    let (verdict_par, _) = doc.all_permute();
    assert!(verdict_par);
}

#[test]
fn double_negation_equivalent() {
    let lhs = list(vec![sym("not"), list(vec![sym("not"), sym("a")])]);
    let doc = parse_doc(&["a"], vec![("(not (not a))", lhs), ("a", sym("a"))]).unwrap();
    let (verdict, trace) = doc.all_permute_scalar();
    assert!(verdict);
    assert_eq!(trace.len(), 2);
    for step in &trace {
        assert_eq!(step.values[0], step.values[1]);
        assert_eq!(step.values[0], step.cells[0]);
    }
    let (verdict_par, _) = doc.all_permute();
    assert!(verdict_par);
}

#[test]
fn empty_or_false_under_all_assignments() {
    let doc = parse_doc(&["a", "b", "c"], vec![("(or)", list(vec![sym("or")]))]).unwrap();
    let (verdict, trace) = doc.all_permute_scalar();
    assert!(verdict); // a single term is trivially equivalent to itself
    assert_eq!(trace.len(), 8);
    for step in &trace {
        assert_eq!(step.values, vec![false]);
    }
}

#[test]
fn empty_and_true_empty_xor_false() {
    let doc = parse_doc(
        &["a"],
        vec![("(and)", list(vec![sym("and")])), ("true", sym("true"))],
    )
    .unwrap();
    let (verdict, _) = doc.all_permute_scalar();
    assert!(verdict); // (and) folds to the neutral element of AND: all-true
    let doc2 = parse_doc(
        &["a"],
        vec![("(xor)", list(vec![sym("xor")])), ("false", sym("false"))],
    )
    .unwrap();
    let (verdict2, _) = doc2.all_permute_scalar();
    assert!(verdict2); // (xor) folds to the neutral element of XOR: zero
}

#[test]
fn not_with_two_arguments_is_arity_mismatch() {
    let bad = list(vec![sym("not"), sym("a"), sym("b")]);
    let r = parse_doc(&["a", "b"], vec![("(not a b)", bad)]);
    match r {
        Err(e) => {
            assert_eq!(e.kind, BuildErrorKind::ArityMismatch);
            assert_eq!(e.line, "(not a b)");
        }
        Ok(_) => panic!("expected a build failure"),
    }
}

#[test]
fn undeclared_variable_is_unknown_symbol() {
    let r = parse_doc(&["a"], vec![("(and a q)", list(vec![sym("and"), sym("a"), sym("q")]))]);
    match r {
        Err(e) => {
            assert_eq!(e.kind, BuildErrorKind::UnknownSymbol);
            assert_eq!(e.line, "(and a q)");
        }
        Ok(_) => panic!("expected a build failure"),
    }
}

#[test]
fn unrecognized_command_is_invalid() {
    let r = parse_doc(&["a"], vec![("(nand a a)", list(vec![sym("nand"), sym("a"), sym("a")]))]);
    match r {
        Err(e) => assert_eq!(e.kind, BuildErrorKind::InvalidCommand),
        Ok(_) => panic!("expected a build failure"),
    }
}

#[test]
fn empty_list_is_invalid_command() {
    let r = parse_doc(&["a"], vec![("()", list(vec![]))]);
    match r {
        Err(e) => assert_eq!(e.kind, BuildErrorKind::InvalidCommand),
        Ok(_) => panic!("expected a build failure"),
    }
}

#[test]
fn non_symbol_atom_is_unknown_symbol() {
    let r = parse_doc(&["a"], vec![("42", SyntaxNode::Other)]);
    match r {
        Err(e) => assert_eq!(e.kind, BuildErrorKind::UnknownSymbol),
        Ok(_) => panic!("expected a build failure"),
    }
}

#[test]
fn first_failing_line_is_reported() {
    let r = parse_doc(
        &["a"],
        vec![
            ("a", sym("a")),
            ("(bogus)", list(vec![sym("bogus")])),
            ("(and a z)", list(vec![sym("and"), sym("a"), sym("z")])),
        ],
    );
    match r {
        Err(e) => {
            assert_eq!(e.kind, BuildErrorKind::InvalidCommand);
            assert_eq!(e.line, "(bogus)");
        }
        Ok(_) => panic!("expected a build failure"),
    }
}

#[test]
fn literal_aliases_build() {
    // "1" and "true", "0" and "false" are interchangeable constants;
    // "&" and "|" alias "and" and "or", "!" aliases "not".
    let doc = parse_doc(
        &[],
        vec![
            ("(& 1 true)", list(vec![sym("&"), sym("1"), sym("true")])),
            ("(! (| 0 false))", list(vec![sym("!"), list(vec![sym("|"), sym("0"), sym("false")])])),
        ],
    )
    .unwrap();
    let (verdict, trace) = doc.all_permute_scalar();
    assert!(verdict);
    assert_eq!(trace.len(), 1); // zero variables: a single (empty) assignment
    assert_eq!(trace[0].values, vec![true, true]);
}

#[test]
fn variable_table_is_sorted_and_deduplicated() {
    let doc = parse_doc(
        &["b", "a", "b", "c", "a"],
        vec![("(and a b c)", list(vec![sym("and"), sym("a"), sym("b"), sym("c")]))],
    )
    .unwrap();
    assert_eq!(doc.names, vec!["a".to_string(), "b".to_string(), "c".to_string()]);
}

#[test]
fn scalar_enumeration_visits_all_tuples_once() {
    let doc = parse_doc(&["a", "b", "c"], vec![("a", sym("a"))]).unwrap();
    let (_, trace) = doc.all_permute_scalar();
    assert_eq!(trace.len(), 8);
    let mut seen: Vec<Vec<bool>> = Vec::new();
    for step in &trace {
        assert_eq!(step.cells.len(), 3);
        assert!(!seen.contains(&step.cells));
        seen.push(step.cells.clone());
    }
    for x in [false, true] {
        for y in [false, true] {
            for z in [false, true] {
                assert!(seen.contains(&vec![x, y, z]));
            }
        }
    }
}

#[test]
fn scalar_enumeration_order_is_ripple_carry() {
    let doc = parse_doc(&["a", "b"], vec![("a", sym("a"))]).unwrap();
    let (_, trace) = doc.all_permute_scalar();
    let cells: Vec<Vec<bool>> = trace.iter().map(|s| s.cells.clone()).collect();
    assert_eq!(
        cells,
        vec![
            vec![false, false],
            vec![false, true],
            vec![true, false],
            vec![true, true],
        ]
    );
}

#[test]
fn bit_parallel_lanes_cover_all_assignments() {
    let doc = parse_doc(&["a", "b", "c"], vec![("a", sym("a"))]).unwrap();
    let (_, trace) = doc.all_permute();
    assert_eq!(trace.len(), 1); // three variables fit in one word's lanes
    let cells = &trace[0].cells;
    assert_eq!(cells.len(), 3);
    let mut seen: Vec<Vec<bool>> = Vec::new();
    for lane in 0..32u32 {
        let tuple: Vec<bool> = cells.iter().map(|w| (w >> lane) & 1 == 1).collect();
        if !seen.contains(&tuple) {
            seen.push(tuple);
        }
    }
    assert_eq!(seen.len(), 8);
}

#[test]
fn bit_parallel_ripples_beyond_five_variables() {
    let names = ["a", "b", "c", "d", "e", "f", "g"];
    let doc = parse_doc(&names, vec![("a", sym("a"))]).unwrap();
    let (_, trace) = doc.all_permute();
    assert_eq!(trace.len(), 4); // 2^7 assignments / 32 lanes per step
    for step in &trace {
        assert_eq!(step.cells.len(), 7);
        // the first five cells hold the fixed column patterns
        assert_eq!(step.cells[0], 0xaaaa_aaaa);
        assert_eq!(step.cells[1], 0xcccc_cccc);
        assert_eq!(step.cells[2], 0xf0f0_f0f0);
        assert_eq!(step.cells[3], 0xff00_ff00);
        assert_eq!(step.cells[4], 0xffff_0000);
        // the remaining cells replicate one counter digit each
        for w in &step.cells[5..] {
            assert!(*w == 0 || *w == 0xffff_ffff);
        }
    }
}

#[test]
fn strategies_agree_on_verdict_and_values() {
    let cases: Vec<(Vec<&str>, SyntaxNode, SyntaxNode)> = vec![
        (
            vec!["a", "b"],
            list(vec![sym("and"), sym("a"), sym("b")]),
            list(vec![sym("and"), sym("b"), sym("a")]),
        ),
        (
            vec!["a", "b", "c"],
            list(vec![sym("or"), sym("a"), list(vec![sym("and"), sym("b"), sym("c")])]),
            list(vec![sym("and"), list(vec![sym("or"), sym("a"), sym("b")]), list(
                vec![sym("or"), sym("a"), sym("c")],
            )]),
        ),
        (
            vec!["a", "b"],
            list(vec![sym("xor"), sym("a"), sym("b")]),
            list(vec![sym("or"), sym("a"), sym("b")]),
        ),
        // six variables: the bit-parallel enumerator has to ripple its
        // counter cells as well as read the column patterns
        (
            vec!["a", "b", "c", "d", "e", "f"],
            list(vec![
                sym("xor"),
                sym("a"),
                sym("b"),
                sym("c"),
                sym("d"),
                sym("e"),
                sym("f"),
            ]),
            list(vec![
                sym("xor"),
                list(vec![sym("xor"), sym("f"), sym("e"), sym("d")]),
                list(vec![sym("xor"), sym("c"), sym("b"), sym("a")]),
            ]),
        ),
        (
            vec!["a", "b", "c", "d", "e", "f"],
            list(vec![sym("and"), sym("a"), sym("f")]),
            list(vec![sym("or"), sym("a"), sym("f")]),
        ),
    ];
    for (names, lhs, rhs) in cases {
        let doc = parse_doc(&names, vec![("lhs", lhs), ("rhs", rhs)]).unwrap();
        let (scalar_verdict, scalar_trace) = doc.all_permute_scalar();
        let (parallel_verdict, parallel_trace) = doc.all_permute();
        assert_eq!(scalar_verdict, parallel_verdict);
        // every scalar step's values reappear in the matching lane of some
        // bit-parallel step
        for step in &scalar_trace {
            let mut found = false;
            for wstep in &parallel_trace {
                for lane in 0..32u32 {
                    let tuple: Vec<bool> =
                        wstep.cells.iter().map(|w| (w >> lane) & 1 == 1).collect();
                    if tuple == step.cells {
                        let values: Vec<bool> =
                            wstep.values.iter().map(|w| (w >> lane) & 1 == 1).collect();
                        assert_eq!(values, step.values);
                        found = true;
                    }
                }
            }
            assert!(found);
        }
    }
}

#[test]
fn permuted_arguments_evaluate_identically() {
    let perms = [
        (
            list(vec![sym("and"), sym("a"), sym("b"), sym("c")]),
            list(vec![sym("and"), sym("c"), sym("a"), sym("b")]),
        ),
        (
            list(vec![sym("or"), sym("a"), sym("b"), sym("c")]),
            list(vec![sym("or"), sym("b"), sym("c"), sym("a")]),
        ),
        (
            list(vec![sym("xor"), sym("a"), sym("b"), sym("c")]),
            list(vec![sym("xor"), sym("c"), sym("b"), sym("a")]),
        ),
    ];
    for (lhs, rhs) in perms {
        let doc = parse_doc(&["a", "b", "c"], vec![("lhs", lhs), ("rhs", rhs)]).unwrap();
        let (verdict, _) = doc.all_permute_scalar();
        assert!(verdict);
        let (verdict_par, _) = doc.all_permute();
        assert!(verdict_par);
    }
}

#[test]
fn zero_variables_zero_terms() {
    let doc = parse_doc(&[], vec![]).unwrap();
    let (verdict, trace) = doc.all_permute_scalar();
    assert!(verdict); // no terms: trivially equivalent
    assert_eq!(trace.len(), 1);
    assert!(trace[0].values.is_empty());
}

#[test]
fn is_all_same_words() {
    assert!(equivchk::is_all_same(&[]));
    assert!(equivchk::is_all_same(&[7]));
    assert!(equivchk::is_all_same(&[3, 3, 3]));
    assert!(!equivchk::is_all_same(&[3, 3, 4]));
    assert!(equivchk::is_all_same_scalar(&[true, true]));
    assert!(!equivchk::is_all_same_scalar(&[true, false]));
}
