use leafquery::ast::{Ast, Constant};
use leafquery::query::{Query, QueryRunner, QueryState};
use leafquery::scanner::{CmpColCond, LeafScanner, Scanner};
use leafquery::source::{Column, Leaf, Table};
use leafquery::value::Cmp;

fn two_leaf_table() -> Table {
    Table {
        leaves: vec![
            Leaf {
                rows: 3,
                columns: vec![
                    Column::Ints(vec![Some(1), Some(2), Some(3)]),
                    Column::Floats(vec![
                        Some(1.0f64.to_bits()),
                        Some(2.0f64.to_bits()),
                        Some(3.0f64.to_bits()),
                    ]),
                    Column::Strs(vec![
                        Some(b"a".to_vec()),
                        Some(b"b".to_vec()),
                        Some(b"c".to_vec()),
                    ]),
                ],
            },
            Leaf {
                rows: 3,
                columns: vec![
                    Column::Ints(vec![Some(4), Some(5), Some(6)]),
                    Column::Floats(vec![
                        Some(4.0f64.to_bits()),
                        Some(5.0f64.to_bits()),
                        Some(6.0f64.to_bits()),
                    ]),
                    Column::Strs(vec![
                        Some(b"d".to_vec()),
                        Some(b"e".to_vec()),
                        Some(b"f".to_vec()),
                    ]),
                ],
            },
        ],
    }
}

fn collect(state: QueryState, table: &Table) -> (Vec<usize>, QueryState) {
    let mut runner = QueryRunner::new(state);
    let mut out = Vec::new();
    while let Some(row) = runner.next(table) {
        out.push(row);
    }
    (out, runner.into_state())
}

#[test]
fn mock_query() {
    let table = two_leaf_table();
    let query_ast = Query {
        root: Ast::And(vec![
            Ast::ColumnConstComparison {
                column_index: 0,
                value: Constant::Integer(4),
                comparison: Cmp::Lte,
            },
            Ast::ColumnConstComparison {
                column_index: 1,
                value: Constant::Float(1.0f64.to_bits()),
                comparison: Cmp::Gt,
            },
        ]),
    };
    let query_state = query_ast.compile(&table);
    let (matches, _) = collect(query_state, &table);
    assert_eq!(matches, [1, 2, 3]);
}

#[test]
fn and_of_no_conditions_matches_every_row() {
    let table = two_leaf_table();
    let state = Query { root: Ast::And(vec![]) }.compile(&table);
    let (matches, _) = collect(state, &table);
    assert_eq!(matches, [0, 1, 2, 3, 4, 5]);
}

#[test]
fn or_of_no_conditions_matches_every_row() {
    // The deliberate resolution of the empty-disjunction question: an empty
    // OR, like an empty AND, is no restriction at all.
    let table = two_leaf_table();
    let state = Query { root: Ast::Or(vec![]) }.compile(&table);
    let (matches, _) = collect(state, &table);
    assert_eq!(matches, [0, 1, 2, 3, 4, 5]);
}

#[test]
fn and_is_conjunction_of_children() {
    let table = two_leaf_table();
    let ast = Ast::And(vec![
        Ast::ColumnConstComparison {
            column_index: 0,
            value: Constant::Integer(2),
            comparison: Cmp::Gte,
        },
        Ast::ColumnConstComparison {
            column_index: 0,
            value: Constant::Integer(5),
            comparison: Cmp::Lt,
        },
    ]);
    let scanner = ast.compile();
    let leaf = &table.leaves[0];
    assert!(!scanner.is_true(Some(leaf), 0)); // 1 fails the first child
    assert!(scanner.is_true(Some(leaf), 1)); // 2 passes both
    assert!(scanner.is_true(Some(leaf), 2)); // 3 passes both
    let leaf = &table.leaves[1];
    assert!(scanner.is_true(Some(leaf), 0)); // 4 passes both
    assert!(!scanner.is_true(Some(leaf), 1)); // 5 fails the second child
}

#[test]
fn or_is_disjunction_of_children() {
    let table = two_leaf_table();
    let ast = Ast::Or(vec![
        Ast::ColumnConstComparison {
            column_index: 0,
            value: Constant::Integer(1),
            comparison: Cmp::Eq,
        },
        Ast::ColumnConstComparison {
            column_index: 0,
            value: Constant::Integer(3),
            comparison: Cmp::Eq,
        },
    ]);
    let scanner = ast.compile();
    let leaf = &table.leaves[0];
    assert!(scanner.is_true(Some(leaf), 0));
    assert!(!scanner.is_true(Some(leaf), 1));
    assert!(scanner.is_true(Some(leaf), 2));
    // Unbound scanners with real conditions match nothing.
    assert!(!scanner.is_true(None, 0));
}

#[test]
fn not_negates_and_double_not_restores() {
    let table = two_leaf_table();
    let base = Ast::ColumnConstComparison {
        column_index: 0,
        value: Constant::Integer(2),
        comparison: Cmp::Eq,
    };
    let plain = base.compile();
    let negated = Ast::Not(Box::new(Ast::ColumnConstComparison {
        column_index: 0,
        value: Constant::Integer(2),
        comparison: Cmp::Eq,
    }))
    .compile();
    let doubled = Ast::Not(Box::new(Ast::Not(Box::new(Ast::ColumnConstComparison {
        column_index: 0,
        value: Constant::Integer(2),
        comparison: Cmp::Eq,
    }))))
    .compile();
    let leaf = &table.leaves[0];
    for i in 0..3usize {
        assert_eq!(negated.is_true(Some(leaf), i), !plain.is_true(Some(leaf), i));
        assert_eq!(doubled.is_true(Some(leaf), i), plain.is_true(Some(leaf), i));
    }
    // The scan methods of a double negation walk in lockstep with the plain
    // scanner.
    let mut plain = plain;
    let mut doubled = doubled;
    plain.bind(Some(leaf));
    doubled.bind(Some(leaf));
    assert_eq!(plain.next_true(Some(leaf)), Some(1));
    assert_eq!(doubled.next_true(Some(leaf)), Some(1));
    assert_eq!(plain.next_true(Some(leaf)), None);
    assert_eq!(doubled.next_true(Some(leaf)), None);
    plain.bind(Some(leaf));
    doubled.bind(Some(leaf));
    assert_eq!(plain.next_false(Some(leaf)), Some(0));
    assert_eq!(doubled.next_false(Some(leaf)), Some(0));
    assert_eq!(plain.next_false(Some(leaf)), Some(2));
    assert_eq!(doubled.next_false(Some(leaf)), Some(2));
}

#[test]
fn self_comparison_is_true_even_on_null() {
    // A leaf with a null at row 2 in column 0: comparing column 0 with itself
    // under an identity-friendly operator still holds at row 2.
    let leaf = Leaf {
        rows: 3,
        columns: vec![Column::Ints(vec![Some(10), Some(20), None])],
    };
    for op in [Cmp::Eq, Cmp::Lte, Cmp::Gte] {
        let scanner = Scanner::CmpCol(CmpColCond {
            col_index_a: 0,
            col_index_b: 0,
            cmp: op,
            len: 0,
            i: 0,
        });
        assert!(scanner.is_true(Some(&leaf), 2));
        assert!(scanner.is_true(Some(&leaf), 0));
    }
    // With the strict operators the shortcut does not apply, and the null
    // makes the comparison a non-match.
    for op in [Cmp::Neq, Cmp::Lt, Cmp::Gt] {
        let scanner = Scanner::CmpCol(CmpColCond {
            col_index_a: 0,
            col_index_b: 0,
            cmp: op,
            len: 0,
            i: 0,
        });
        assert!(!scanner.is_true(Some(&leaf), 2));
    }
}

#[test]
fn column_to_column_comparison_reads_both_sides() {
    let leaf = Leaf {
        rows: 3,
        columns: vec![
            Column::Ints(vec![Some(1), Some(5), None]),
            Column::Ints(vec![Some(2), Some(4), Some(9)]),
        ],
    };
    let lt = Scanner::CmpCol(CmpColCond {
        col_index_a: 0,
        col_index_b: 1,
        cmp: Cmp::Lt,
        len: 0,
        i: 0,
    });
    assert!(lt.is_true(Some(&leaf), 0)); // 1 < 2
    assert!(!lt.is_true(Some(&leaf), 1)); // 5 < 4 fails
    assert!(!lt.is_true(Some(&leaf), 2)); // null never matches
}

#[test]
fn rows_come_out_strictly_increasing() {
    let table = Table {
        leaves: vec![
            Leaf {
                rows: 4,
                columns: vec![Column::Ints(vec![Some(1), Some(0), Some(7), Some(0)])],
            },
            Leaf {
                rows: 2,
                columns: vec![Column::Ints(vec![Some(9), Some(0)])],
            },
            Leaf {
                rows: 3,
                columns: vec![Column::Ints(vec![Some(3), Some(8), Some(0)])],
            },
        ],
    };
    let state = Query {
        root: Ast::ColumnConstComparison {
            column_index: 0,
            value: Constant::Integer(0),
            comparison: Cmp::Neq,
        },
    }
    .compile(&table);
    let (matches, _) = collect(state, &table);
    assert_eq!(matches, [0, 2, 4, 6, 7]);
    for pair in matches.windows(2) {
        assert!(pair[0] < pair[1]);
    }
}

#[test]
fn empty_source_yields_nothing() {
    let table = Table { leaves: vec![] };
    let asts = [
        Ast::And(vec![]),
        Ast::Or(vec![]),
        Ast::ColumnConstComparison {
            column_index: 0,
            value: Constant::Integer(0),
            comparison: Cmp::Eq,
        },
    ];
    for root in asts {
        let state = Query { root }.compile(&table);
        let mut runner = QueryRunner::new(state);
        assert_eq!(runner.next(&table), None);
        assert_eq!(runner.next(&table), None);
    }
}

#[test]
fn reset_reproduces_the_same_sequence() {
    let table = two_leaf_table();
    let state = Query {
        root: Ast::ColumnConstComparison {
            column_index: 0,
            value: Constant::Integer(2),
            comparison: Cmp::Gt,
        },
    }
    .compile(&table);
    let (first, mut state) = collect(state, &table);
    state.reset(Some(&table));
    let (second, _) = collect(state, &table);
    assert_eq!(first, [2, 3, 4, 5]);
    assert_eq!(first, second);
}

#[test]
fn reset_with_no_source_detaches() {
    let table = two_leaf_table();
    let state = Query { root: Ast::And(vec![]) }.compile(&table);
    let (_, mut state) = collect(state, &table);
    state.reset(None::<&Table>);
    let empty = Table { leaves: vec![] };
    let mut runner = QueryRunner::new(state);
    assert_eq!(runner.next(&empty), None);
}

#[test]
fn float_comparisons_follow_ieee_order() {
    let table = Table {
        leaves: vec![Leaf {
            rows: 5,
            columns: vec![Column::Floats(vec![
                Some((-1.5f64).to_bits()),
                Some((-0.0f64).to_bits()),
                Some(0.0f64.to_bits()),
                Some(2.5f64.to_bits()),
                Some(f64::NAN.to_bits()),
            ])],
        }],
    };
    let run = |value: f64, comparison: Cmp| {
        let state = Query {
            root: Ast::ColumnConstComparison {
                column_index: 0,
                value: Constant::Float(value.to_bits()),
                comparison,
            },
        }
        .compile(&table);
        collect(state, &table).0
    };
    // The two zeros are equal; NaN compares equal to nothing.
    assert_eq!(run(0.0, Cmp::Eq), [1, 2]);
    assert_eq!(run(-0.0, Cmp::Eq), [1, 2]);
    assert_eq!(run(0.0, Cmp::Lt), [0]);
    assert_eq!(run(0.0, Cmp::Gt), [3]);
    assert_eq!(run(-2.0, Cmp::Gte), [0, 1, 2, 3]);
    // NaN is unequal to everything, itself included.
    assert_eq!(run(f64::NAN, Cmp::Eq), Vec::<usize>::new());
    assert_eq!(run(f64::NAN, Cmp::Neq), [0, 1, 2, 3, 4]);
    assert_eq!(run(0.0, Cmp::Neq), [0, 3, 4]);
}

#[test]
fn byte_string_comparisons_are_lexicographic() {
    let leaf = Leaf {
        rows: 3,
        columns: vec![
            Column::Strs(vec![
                Some(b"apple".to_vec()),
                Some(b"pear".to_vec()),
                Some(b"ap".to_vec()),
            ]),
            Column::Strs(vec![
                Some(b"apricot".to_vec()),
                Some(b"pear".to_vec()),
                Some(b"apple".to_vec()),
            ]),
        ],
    };
    let lt = Scanner::CmpCol(CmpColCond {
        col_index_a: 0,
        col_index_b: 1,
        cmp: Cmp::Lt,
        len: 0,
        i: 0,
    });
    assert!(lt.is_true(Some(&leaf), 0)); // "apple" < "apricot"
    assert!(!lt.is_true(Some(&leaf), 1)); // equal strings are not less
    assert!(lt.is_true(Some(&leaf), 2)); // a proper prefix is less
    let eq = Scanner::CmpCol(CmpColCond {
        col_index_a: 0,
        col_index_b: 1,
        cmp: Cmp::Eq,
        len: 0,
        i: 0,
    });
    assert!(eq.is_true(Some(&leaf), 1));
    assert!(!eq.is_true(Some(&leaf), 0));
}

#[test]
fn nulls_and_unknown_columns_never_match() {
    let table = Table {
        leaves: vec![Leaf {
            rows: 3,
            columns: vec![Column::Ints(vec![Some(0), None, Some(0)])],
        }],
    };
    // The null at row 1 fails even an equality with itself's kind.
    let state = Query {
        root: Ast::ColumnConstComparison {
            column_index: 0,
            value: Constant::Integer(0),
            comparison: Cmp::Eq,
        },
    }
    .compile(&table);
    assert_eq!(collect(state, &table).0, [0, 2]);
    // A comparison against a column the leaf does not have matches nothing.
    let state = Query {
        root: Ast::ColumnConstComparison {
            column_index: 9,
            value: Constant::Integer(0),
            comparison: Cmp::Eq,
        },
    }
    .compile(&table);
    assert_eq!(collect(state, &table).0, Vec::<usize>::new());
    // A comparison of mismatched kinds matches nothing either.
    let state = Query {
        root: Ast::ColumnConstComparison {
            column_index: 0,
            value: Constant::Boolean(true),
            comparison: Cmp::Eq,
        },
    }
    .compile(&table);
    assert_eq!(collect(state, &table).0, Vec::<usize>::new());
}
