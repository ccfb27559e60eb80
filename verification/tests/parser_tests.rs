use rustyml::ast::Node;
use rustyml::parser::{line_col, parse_raw, set_line_col};

fn int_value(n: &Node) -> i32 {
    match n {
        Node::Int(x) => x.value,
        _ => panic!("expected an integer literal node"),
    }
}

#[test]
fn int_literal_value_and_span() {
    // An integer literal parses to exactly its value, spanning the whole
    // literal text.
    let ast = parse_raw("42").unwrap();
    match *ast {
        Node::Int(x) => {
            assert_eq!(x.value, 42);
            assert_eq!(x.pos.start_byte_index, 0);
            assert_eq!(x.pos.end_byte_index, 2);
            assert_eq!(x.pos.offset, 2);
        }
        _ => panic!("expected an integer literal node"),
    }

    let ast = parse_raw("2147483647").unwrap();
    assert_eq!(int_value(&ast), 2147483647);

    let ast = parse_raw("-2147483648").unwrap();
    assert_eq!(int_value(&ast), -2147483648);

    // One past the representable range is rejected.
    assert!(parse_raw("2147483648").is_err());
    assert!(parse_raw("-2147483649").is_err());
}

#[test]
fn negative_literal_is_folded() {
    // A minus immediately prefixing a numeric literal folds into the
    // literal; with a space between, it is a negation node.
    match *parse_raw("-5").unwrap() {
        Node::Int(x) => assert_eq!(x.value, -5),
        _ => panic!("expected a folded negative literal"),
    }
    match *parse_raw("- 5").unwrap() {
        Node::Neg(n) => assert_eq!(int_value(&n.child), 5),
        _ => panic!("expected a negation node"),
    }
}

#[test]
fn binary_operators_build_matching_variants() {
    match *parse_raw("1 + 2").unwrap() {
        Node::Add(n) => {
            assert_eq!(int_value(&n.lhs), 1);
            assert_eq!(int_value(&n.rhs), 2);
        }
        _ => panic!("expected Add"),
    }
    match *parse_raw("1 - 2").unwrap() {
        Node::Sub(n) => {
            assert_eq!(int_value(&n.lhs), 1);
            assert_eq!(int_value(&n.rhs), 2);
        }
        _ => panic!("expected Sub"),
    }
    match *parse_raw("1.5 +. 2.5").unwrap() {
        Node::FAdd(n) => {
            match (*n.lhs, *n.rhs) {
                (Node::Float(a), Node::Float(b)) => {
                    assert_eq!(a.text, "1.5");
                    assert_eq!(b.text, "2.5");
                }
                _ => panic!("expected float literals"),
            }
        }
        _ => panic!("expected FAdd"),
    }
    assert!(matches!(*parse_raw("1.0 -. 2.0").unwrap(), Node::FSub(_)));
    assert!(matches!(*parse_raw("2.0 *. 3.0").unwrap(), Node::FMul(_)));
    assert!(matches!(*parse_raw("4.0 /. 2.0").unwrap(), Node::FDiv(_)));
}

#[test]
fn application_is_flat_and_greedy() {
    // "f x y" applies f to both arguments in one node: not nested
    // applications, and not "x applied to y".
    match *parse_raw("f x y").unwrap() {
        Node::Apply(n) => {
            match *n.callee {
                Node::Var(v) => assert_eq!(v.name, "f"),
                _ => panic!("expected the callee f"),
            }
            assert_eq!(n.args.len(), 2);
            match n.args[0].as_ref() {
                Node::Var(v) => assert_eq!(v.name, "x"),
                _ => panic!("expected the argument x"),
            }
            match n.args[1].as_ref() {
                Node::Var(v) => assert_eq!(v.name, "y"),
                _ => panic!("expected the argument y"),
            }
        }
        _ => panic!("expected an application"),
    }
}

#[test]
fn application_binds_tighter_than_operators() {
    // "f x + 1" is (f x) + 1.
    match *parse_raw("f x + 1").unwrap() {
        Node::Add(n) => {
            assert!(matches!(*n.lhs, Node::Apply(_)));
            assert_eq!(int_value(&n.rhs), 1);
        }
        _ => panic!("expected Add at the root"),
    }
}

#[test]
fn additive_tier_is_left_associative() {
    // "1 + 2 - 3" is (1 + 2) - 3, not 1 + (2 - 3).
    match *parse_raw("1 + 2 - 3").unwrap() {
        Node::Sub(n) => {
            match *n.lhs {
                Node::Add(a) => {
                    assert_eq!(int_value(&a.lhs), 1);
                    assert_eq!(int_value(&a.rhs), 2);
                }
                _ => panic!("expected Add on the left"),
            }
            assert_eq!(int_value(&n.rhs), 3);
        }
        _ => panic!("expected Sub at the root"),
    }
}

#[test]
fn let_binding() {
    match *parse_raw("let x = 1 in x").unwrap() {
        Node::Let(n) => {
            assert_eq!(n.name, "x");
            assert_eq!(int_value(&n.bound), 1);
            match *n.body {
                Node::Var(v) => assert_eq!(v.name, "x"),
                _ => panic!("expected the body x"),
            }
        }
        _ => panic!("expected a let binding"),
    }
}

#[test]
fn array_store() {
    match *parse_raw("a.(0) <- 1").unwrap() {
        Node::Put(n) => {
            match *n.array {
                Node::Var(v) => assert_eq!(v.name, "a"),
                _ => panic!("expected the array a"),
            }
            assert_eq!(int_value(&n.index), 0);
            assert_eq!(int_value(&n.new_value), 1);
        }
        _ => panic!("expected an array store"),
    }
}

#[test]
fn array_get_create_and_tuple() {
    match *parse_raw("a.(i)").unwrap() {
        Node::Get(n) => {
            assert!(matches!(*n.array, Node::Var(_)));
            assert!(matches!(*n.index, Node::Var(_)));
        }
        _ => panic!("expected an array read"),
    }
    match *parse_raw("Array.create 3 0").unwrap() {
        Node::Array(n) => {
            assert_eq!(int_value(&n.size), 3);
            assert_eq!(int_value(&n.elem), 0);
        }
        _ => panic!("expected an array construction"),
    }
    match *parse_raw("(1, 2, 3)").unwrap() {
        Node::Tuple(n) => {
            assert_eq!(n.elements.len(), 3);
            assert_eq!(int_value(&n.elements[2]), 3);
            assert_eq!(n.pos.start_byte_index, 0);
            assert_eq!(n.pos.end_byte_index, 9);
        }
        _ => panic!("expected a tuple"),
    }
}

#[test]
fn conditional_and_binding_forms() {
    let src = "if true th\u{65}n 1 else 2";
    match *parse_raw(src).unwrap() {
        Node::If(n) => {
            assert!(matches!(*n.cond, Node::Bool(_)));
            assert_eq!(int_value(&n.then_), 1);
            assert_eq!(int_value(&n.else_), 2);
        }
        _ => panic!("expected a conditional"),
    }
    match *parse_raw("let rec f x y = x in f").unwrap() {
        Node::LetRec(n) => {
            assert_eq!(n.name, "f");
            assert_eq!(n.params, vec!["x".to_string(), "y".to_string()]);
        }
        _ => panic!("expected a recursive binding"),
    }
    match *parse_raw("let (a, b) = t in a").unwrap() {
        Node::LetTuple(n) => {
            assert_eq!(n.names, vec!["a".to_string(), "b".to_string()]);
        }
        _ => panic!("expected a tuple binding"),
    }
    // Zero-parameter let rec is rejected; route it through plain let.
    assert!(parse_raw("let rec f = 1 in f").is_err());
    // A tuple binding needs at least two names.
    assert!(parse_raw("let (a) = t in a").is_err());
}

#[test]
fn unary_and_comparisons() {
    assert!(matches!(*parse_raw("not true").unwrap(), Node::Not(_)));
    assert!(matches!(*parse_raw("-.x").unwrap(), Node::FNeg(_)));
    assert!(matches!(*parse_raw("1 = 2").unwrap(), Node::Eq(_)));
    assert!(matches!(*parse_raw("1 <= 2").unwrap(), Node::LessEq(_)));
    assert!(matches!(*parse_raw("()").unwrap(), Node::Unit(_)));
}

#[test]
fn parenthesized_span_covers_parentheses() {
    match *parse_raw("(1 + 2)").unwrap() {
        Node::Add(n) => {
            assert_eq!(n.pos.start_byte_index, 0);
            assert_eq!(n.pos.end_byte_index, 7);
        }
        _ => panic!("expected Add"),
    }
}

#[test]
fn missing_bound_expression_reports_expression_categories() {
    // "let x = in 1": the bound expression is missing; the error points
    // at the byte offset of `in` and expects the categories that begin
    // an expression.
    let err = parse_raw("let x = in 1").unwrap_err();
    assert_eq!(err.offset, 8);
    assert_eq!(err.line, 1);
    assert_eq!(err.column, 9);
    assert!(err.expected.iter().any(|s| s == "identifier"));
    assert!(err.expected.iter().any(|s| s == "integer literal"));
    assert!(err.expected.iter().any(|s| s == "("));
}

#[test]
fn trailing_input_is_rejected() {
    let err = parse_raw("1 + 2 )").unwrap_err();
    assert!(err.expected.iter().any(|s| s == "end of input"));
    assert!(parse_raw("").is_err());
    assert!(parse_raw("1 + ").is_err());
    assert!(parse_raw("(1").is_err());
}

#[test]
fn line_col_is_deterministic_and_stable() {
    // Re-deriving line and column from the same text and offset twice
    // yields identical results.
    let text = b"ab\ncd\ne";
    let first = line_col(text, 4);
    let second = line_col(text, 4);
    assert_eq!(first, second);
    assert_eq!(first, (2, 2));
    assert_eq!(line_col(text, 0), (1, 1));
    assert_eq!(line_col(text, 2), (1, 3));
    assert_eq!(line_col(text, 3), (2, 1));
    assert_eq!(line_col(text, 6), (3, 1));
}

#[test]
fn parse_fills_line_and_column() {
    let src = "let x =\n 1 in x";
    match *parse_raw(src).unwrap() {
        Node::Let(n) => {
            assert_eq!(n.pos.line, 1);
            assert_eq!(n.pos.column, 1);
            match *n.bound {
                Node::Int(i) => {
                    assert_eq!(i.pos.line, 2);
                    assert_eq!(i.pos.column, 2);
                }
                _ => panic!("expected the bound 1"),
            }
        }
        _ => panic!("expected a let binding"),
    }
}

#[test]
fn set_line_col_derives_from_offsets() {
    let ast = rustyml::ast::Int::new(3, 4, 5);
    let fixed = set_line_col(ast, b"ab\ncd");
    match *fixed {
        Node::Int(n) => {
            assert_eq!(n.value, 3);
            assert_eq!(n.pos.start_byte_index, 4);
            assert_eq!(n.pos.line, 2);
            assert_eq!(n.pos.column, 2);
        }
        _ => unreachable!(),
    }
}

#[test]
fn multiplicative_tier_binds_tighter_than_additive() {
    // "1 + 2 *. 3.0" parses with the float product nested under the sum;
    // whether the sorts agree is a later pass's business, not the
    // grammar's.
    match *parse_raw("1 + 2 *. 3.0").unwrap() {
        Node::Add(n) => {
            assert_eq!(int_value(&n.lhs), 1);
            assert!(matches!(*n.rhs, Node::FMul(_)));
        }
        _ => panic!("expected Add at the root"),
    }
    // An array store extends over the arithmetic to its right.
    match *parse_raw("a.(0) <- 1 + 2").unwrap() {
        Node::Put(n) => {
            assert!(matches!(*n.new_value, Node::Add(_)));
        }
        _ => panic!("expected an array store"),
    }
}

#[test]
fn subscripts_chain_left_associatively() {
    match *parse_raw("a.(0).(1)").unwrap() {
        Node::Get(outer) => {
            match *outer.array {
                Node::Get(inner) => {
                    assert!(matches!(*inner.array, Node::Var(_)));
                    assert_eq!(int_value(&inner.index), 0);
                }
                _ => panic!("expected a nested array read"),
            }
            assert_eq!(int_value(&outer.index), 1);
        }
        _ => panic!("expected an array read"),
    }
}

#[test]
fn comparison_is_non_associative() {
    assert!(parse_raw("1 = 2 = 3").is_err());
    assert!(parse_raw("1 <= 2 <= 3").is_err());
}

#[test]
fn surrounding_whitespace_is_skipped() {
    match *parse_raw("  let x = 1 in x \n").unwrap() {
        Node::Let(n) => {
            assert_eq!(n.pos.start_byte_index, 2);
            assert_eq!(n.pos.end_byte_index, 16);
        }
        _ => panic!("expected a let binding"),
    }
}
