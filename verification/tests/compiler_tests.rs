use kaitai::doc::Doc;
use kaitai::engine::instance_value;
use kaitai::engine::parse_root;
use kaitai::error::CompileError;
use kaitai::error::ParseError;
use kaitai::error::ResolutionError;
use kaitai::error::SchemaError;
use kaitai::expr::compile_expr;
use kaitai::expr::Base;
use kaitai::expr::BinOp;
use kaitai::expr::Expr;
use kaitai::value::ParsedObj;
use kaitai::value::Value;

fn key(t: &str) -> Vec<u8> {
    t.as_bytes().to_vec()
}

fn s(t: &str) -> Doc {
    Doc::Str(t.as_bytes().to_vec())
}

fn m(entries: Vec<(&str, Doc)>) -> Doc {
    Doc::Mapping(entries.into_iter().map(|(k, v)| (key(k), v)).collect())
}

fn attr(id: &str, ty: &str) -> Doc {
    m(vec![("id", s(id)), ("type", s(ty))])
}

fn int_field(obj: &ParsedObj, name: &str) -> i128 {
    match obj.get_field(name.as_bytes()) {
        Some(Value::Int(v)) => *v,
        other => panic!("field {} is not an integer: {:?}", name, other),
    }
}

fn bytes_field(obj: &ParsedObj, name: &str) -> Vec<u8> {
    match obj.get_field(name.as_bytes()) {
        Some(Value::Bytes(b)) => b.clone(),
        other => panic!("field {} is not bytes: {:?}", name, other),
    }
}

#[test]
fn sequential_round_trip() {
    // A spec with one field per primitive form; bytes encoded to match the
    // spec parse back to exactly the encoded values.
    let doc = m(vec![
        ("meta", m(vec![("endian", s("le"))])),
        (
            "seq",
            Doc::List(vec![
                attr("a", "u1"),
                attr("b", "u2"),
                attr("c", "u4be"),
                m(vec![("id", s("magic")), ("contents", Doc::List(vec![Doc::Int(77), Doc::Int(65)]))]),
                attr("d", "s2le"),
            ]),
        ),
    ]);
    let prog = kaitai::compile(&doc, b"root").unwrap();
    let data = vec![7, 1, 2, 0, 0, 1, 0, 77, 65, 0xfe, 0xff];
    let obj = parse_root(&prog, data).unwrap();
    assert_eq!(int_field(&obj, "a"), 7);
    assert_eq!(int_field(&obj, "b"), 513);
    assert_eq!(int_field(&obj, "c"), 256);
    assert_eq!(bytes_field(&obj, "magic"), vec![77, 65]);
    assert_eq!(int_field(&obj, "d"), -2);
}

#[test]
fn fixed_contents_mismatch_is_fatal() {
    let doc = m(vec![(
        "seq",
        Doc::List(vec![m(vec![("id", s("magic")), ("contents", Doc::List(vec![Doc::Int(77)]))])]),
    )]);
    let prog = kaitai::compile(&doc, b"root").unwrap();
    match parse_root(&prog, vec![78]) {
        Err(ParseError::UnexpectedContents { actual, expected }) => {
            assert_eq!(actual, vec![78]);
            assert_eq!(expected, vec![77]);
        }
        other => panic!("expected a contents mismatch, got {:?}", other),
    }
}

#[test]
fn repeat_until_stops_after_terminating_element() {
    let doc = m(vec![(
        "seq",
        Doc::List(vec![
            m(vec![
                ("id", s("xs")),
                ("type", s("u1")),
                ("repeat", s("until")),
                ("repeat-until", s("_ == 3")),
            ]),
            attr("tail", "u1"),
        ]),
    )]);
    let prog = kaitai::compile(&doc, b"root").unwrap();
    let obj = parse_root(&prog, vec![1, 2, 3, 9]).unwrap();
    match obj.get_field(b"xs") {
        Some(Value::List(items)) => {
            assert_eq!(items.len(), 3);
            assert!(matches!(items[0], Value::Int(1)));
            assert!(matches!(items[2], Value::Int(3)));
        }
        other => panic!("xs is not a list: {:?}", other),
    }
    assert_eq!(int_field(&obj, "tail"), 9);
}

#[test]
fn repeat_until_reads_at_least_one_element() {
    let doc = m(vec![(
        "seq",
        Doc::List(vec![m(vec![
            ("id", s("xs")),
            ("type", s("u1")),
            ("repeat", s("until")),
            ("repeat-until", s("_ == 3")),
        ])]),
    )]);
    let prog = kaitai::compile(&doc, b"root").unwrap();
    // The first element already satisfies the condition, yet it is read:
    // the test is post-test, at-least-one-iteration.
    let obj = parse_root(&prog, vec![3]).unwrap();
    match obj.get_field(b"xs") {
        Some(Value::List(items)) => assert_eq!(items.len(), 1),
        other => panic!("xs is not a list: {:?}", other),
    }
}

#[test]
fn repeat_eos_reads_to_exact_end() {
    let doc = m(vec![
        ("meta", m(vec![("endian", s("le"))])),
        (
            "seq",
            Doc::List(vec![m(vec![("id", s("xs")), ("type", s("u2")), ("repeat", s("eos"))])]),
        ),
    ]);
    let prog = kaitai::compile(&doc, b"root").unwrap();
    let obj = parse_root(&prog, vec![1, 0, 2, 0, 3, 0]).unwrap();
    match obj.get_field(b"xs") {
        Some(Value::List(items)) => {
            assert_eq!(items.len(), 3);
            assert!(matches!(items[1], Value::Int(2)));
        }
        other => panic!("xs is not a list: {:?}", other),
    }
    // An odd byte count leaves a partial trailing element: the parse
    // fails rather than reading half an element.
    assert!(parse_root(&prog, vec![1, 0, 2, 0, 3]).is_err());
}

#[test]
fn instance_evaluates_once_and_is_cached() {
    let doc = m(vec![
        ("seq", Doc::List(vec![attr("a", "u1")])),
        ("instances", m(vec![("twice", m(vec![("value", s("a * 2"))]))])),
    ]);
    let prog = kaitai::compile(&doc, b"root").unwrap();
    let mut obj = parse_root(&prog, vec![21]).unwrap();
    match instance_value(&prog, &mut obj, b"twice") {
        Ok(Value::Int(v)) => assert_eq!(*v, 42),
        other => panic!("unexpected instance value: {:?}", other),
    }
    // Switching the referenced field after first access must not change
    // the cached instance value.
    assert!(obj.set_field(b"a", Value::Int(100)));
    match instance_value(&prog, &mut obj, b"twice") {
        Ok(Value::Int(v)) => assert_eq!(*v, 42),
        other => panic!("unexpected instance value: {:?}", other),
    }
    match instance_value(&prog, &mut obj, b"nosuch") {
        Err(ParseError::MissingName { .. }) => {}
        other => panic!("expected a missing-name error, got {:?}", other),
    }
}

#[test]
fn switch_dispatches_on_discriminant() {
    let doc = m(vec![
        (
            "seq",
            Doc::List(vec![
                attr("k", "u1"),
                m(vec![(
                    "id",
                    s("body"),
                ), (
                    "type",
                    m(vec![
                        ("switch-on", s("k")),
                        ("cases", m(vec![("1", s("one")), ("2", s("two"))])),
                    ]),
                )]),
            ]),
        ),
        (
            "types",
            m(vec![
                ("one", m(vec![("seq", Doc::List(vec![attr("x", "u1")]))])),
                ("two", m(vec![("seq", Doc::List(vec![attr("y", "u1")]))])),
            ]),
        ),
    ]);
    let prog = kaitai::compile(&doc, b"root").unwrap();
    let obj = parse_root(&prog, vec![1, 5]).unwrap();
    match obj.get_field(b"body") {
        Some(Value::Record(o)) => assert_eq!(int_field(o, "x"), 5),
        other => panic!("body is not a record: {:?}", other),
    }
}

#[test]
fn unmatched_switch_names_value_and_cases() {
    let doc = m(vec![
        (
            "seq",
            Doc::List(vec![
                attr("k", "u1"),
                m(vec![(
                    "id",
                    s("body"),
                ), (
                    "type",
                    m(vec![
                        ("switch-on", s("k")),
                        ("cases", m(vec![("1", s("one")), ("2", s("two"))])),
                    ]),
                )]),
            ]),
        ),
        (
            "types",
            m(vec![
                ("one", m(vec![("seq", Doc::List(vec![attr("x", "u1")]))])),
                ("two", m(vec![("seq", Doc::List(vec![attr("y", "u1")]))])),
            ]),
        ),
    ]);
    let prog = kaitai::compile(&doc, b"root").unwrap();
    match parse_root(&prog, vec![9]) {
        Err(ParseError::UnmatchedSwitch { value, known }) => {
            assert_eq!(value, 9);
            assert_eq!(known, vec![1, 2]);
        }
        other => panic!("expected an unmatched-switch error, got {:?}", other),
    }
}

#[test]
fn self_referential_type_resolves_and_parses() {
    let doc = m(vec![
        ("seq", Doc::List(vec![attr("start", "rec")])),
        (
            "types",
            m(vec![(
                "rec",
                m(vec![(
                    "seq",
                    Doc::List(vec![
                        attr("flag", "u1"),
                        m(vec![("id", s("next")), ("type", s("rec")), ("if", s("flag == 1"))]),
                    ]),
                )]),
            )]),
        ),
    ]);
    let prog = kaitai::compile(&doc, b"root").unwrap();
    let obj = parse_root(&prog, vec![1, 0]).unwrap();
    match obj.get_field(b"start") {
        Some(Value::Record(o)) => {
            assert_eq!(int_field(o, "flag"), 1);
            match o.get_field(b"next") {
                Some(Value::Record(o2)) => {
                    assert_eq!(int_field(o2, "flag"), 0);
                    assert!(o2.get_field(b"next").is_none());
                }
                other => panic!("next is not a record: {:?}", other),
            }
        }
        other => panic!("start is not a record: {:?}", other),
    }
}

#[test]
fn non_reference_infinite_expansion_is_a_cycle_error() {
    let doc = m(vec![
        ("seq", Doc::List(vec![attr("y", "bad")])),
        (
            "types",
            m(vec![("bad", m(vec![("seq", Doc::List(vec![attr("x", "bad")]))]))]),
        ),
    ]);
    match kaitai::compile(&doc, b"root") {
        Err(CompileError::Resolution(ResolutionError::IllegalCycle { .. })) => {}
        other => panic!("expected a cycle error, got {:?}", other),
    }
}

#[test]
fn sized_substream_scopes_the_nested_parse() {
    let doc = m(vec![
        (
            "seq",
            Doc::List(vec![
                attr("len", "u1"),
                m(vec![("id", s("body")), ("type", s("inner")), ("size", s("len"))]),
                attr("after", "u1"),
            ]),
        ),
        (
            "types",
            m(vec![(
                "inner",
                m(vec![(
                    "seq",
                    Doc::List(vec![
                        attr("v", "u1"),
                        m(vec![("id", s("pad")), ("size-eos", Doc::Bool(true))]),
                    ]),
                )]),
            )]),
        ),
    ]);
    let prog = kaitai::compile(&doc, b"root").unwrap();
    let obj = parse_root(&prog, vec![3, 9, 8, 7, 5]).unwrap();
    assert_eq!(int_field(&obj, "len"), 3);
    match obj.get_field(b"body") {
        Some(Value::Record(o)) => {
            assert_eq!(int_field(o, "v"), 9);
            assert_eq!(bytes_field(o, "pad"), vec![8, 7]);
        }
        other => panic!("body is not a record: {:?}", other),
    }
    assert_eq!(int_field(&obj, "after"), 5);
}

#[test]
fn terminator_delimited_field() {
    let doc = m(vec![(
        "seq",
        Doc::List(vec![
            m(vec![("id", s("nm")), ("terminator", Doc::Int(3))]),
            attr("after", "u1"),
        ]),
    )]);
    let prog = kaitai::compile(&doc, b"root").unwrap();
    let obj = parse_root(&prog, vec![5, 6, 3, 9]).unwrap();
    assert_eq!(bytes_field(&obj, "nm"), vec![5, 6]);
    assert_eq!(int_field(&obj, "after"), 9);
}

#[test]
fn enum_reference_resolves_to_member_value() {
    let doc = m(vec![
        ("seq", Doc::List(vec![attr("c", "u1")])),
        ("enums", m(vec![("color", m(vec![("1", s("red")), ("2", s("blue"))]))])),
        ("instances", m(vec![("is_red", m(vec![("value", s("c == color::red"))]))])),
    ]);
    let prog = kaitai::compile(&doc, b"root").unwrap();
    let mut obj = parse_root(&prog, vec![1]).unwrap();
    match instance_value(&prog, &mut obj, b"is_red") {
        Ok(Value::Bool(true)) => {}
        other => panic!("unexpected instance value: {:?}", other),
    }
}

#[test]
fn endianness_is_inherited_by_nested_types() {
    let doc = m(vec![
        ("meta", m(vec![("endian", s("le"))])),
        ("seq", Doc::List(vec![attr("item", "sub")])),
        (
            "types",
            m(vec![("sub", m(vec![("seq", Doc::List(vec![attr("w", "u2")]))]))]),
        ),
    ]);
    let prog = kaitai::compile(&doc, b"root").unwrap();
    let obj = parse_root(&prog, vec![2, 1]).unwrap();
    match obj.get_field(b"item") {
        Some(Value::Record(o)) => assert_eq!(int_field(o, "w"), 258),
        other => panic!("item is not a record: {:?}", other),
    }
}

#[test]
fn undetermined_endianness_is_a_resolution_error() {
    let doc = m(vec![("seq", Doc::List(vec![attr("w", "u2")]))]);
    match kaitai::compile(&doc, b"root") {
        Err(CompileError::Resolution(ResolutionError::UnresolvedEndianness { attr })) => {
            assert_eq!(attr, b"w".to_vec());
        }
        other => panic!("expected an endianness error, got {:?}", other),
    }
}

#[test]
fn unknown_type_reports_the_walked_scopes() {
    let doc = m(vec![("seq", Doc::List(vec![attr("q", "nosuch")]))]);
    match kaitai::compile(&doc, b"root") {
        Err(CompileError::Resolution(ResolutionError::UnknownType { name, walked })) => {
            assert_eq!(name, b"nosuch".to_vec());
            assert!(!walked.is_empty());
        }
        other => panic!("expected an unknown-type error, got {:?}", other),
    }
}

#[test]
fn duplicate_attribute_identifier_is_rejected() {
    let doc = m(vec![(
        "seq",
        Doc::List(vec![attr("a", "u1"), attr("a", "u1")]),
    )]);
    match kaitai::compile(&doc, b"root") {
        Err(CompileError::Schema(SchemaError::DuplicateId { id })) => {
            assert_eq!(id, b"a".to_vec());
        }
        other => panic!("expected a duplicate-identifier error, got {:?}", other),
    }
}

#[test]
fn malformed_expression_reports_position_and_fragment() {
    let doc = m(vec![
        ("seq", Doc::List(vec![attr("a", "u1")])),
        ("instances", m(vec![("bad", m(vec![("value", s("1 +"))]))])),
    ]);
    match kaitai::compile(&doc, b"root") {
        Err(CompileError::Schema(SchemaError::Syntax(e))) => {
            assert_eq!(e.at, 3);
            assert!(e.fragment.is_empty());
        }
        other => panic!("expected a syntax error, got {:?}", other),
    }
}

#[test]
fn expression_precedence_and_forms() {
    // multiplication binds tighter than addition
    match compile_expr(b"2 + 3 * 4").unwrap() {
        Expr::Bin { op: BinOp::Add, lhs, rhs } => {
            assert!(matches!(*lhs, Expr::IntLit(2)));
            match *rhs {
                Expr::Bin { op: BinOp::Mul, lhs: l2, rhs: r2 } => {
                    assert!(matches!(*l2, Expr::IntLit(3)));
                    assert!(matches!(*r2, Expr::IntLit(4)));
                }
                other => panic!("expected a product, got {:?}", other),
            }
        }
        other => panic!("expected a sum, got {:?}", other),
    }
    // a parent path
    match compile_expr(b"_parent.x").unwrap() {
        Expr::Field { base: Base::Up(1), path } => {
            assert_eq!(path, vec![b"x".to_vec()]);
        }
        other => panic!("expected a parent path, got {:?}", other),
    }
    // a root path with two names
    match compile_expr(b"_root.a.b").unwrap() {
        Expr::Field { base: Base::Root, path } => {
            assert_eq!(path, vec![b"a".to_vec(), b"b".to_vec()]);
        }
        other => panic!("expected a root path, got {:?}", other),
    }
    // ternary selection
    assert!(matches!(compile_expr(b"a == 1 ? 2 : 3").unwrap(), Expr::Cond { .. }));
    // indexing
    assert!(matches!(compile_expr(b"xs[2]").unwrap(), Expr::Index { .. }));
    // enum reference
    match compile_expr(b"color::red").unwrap() {
        Expr::EnumRef { enum_id, member } => {
            assert_eq!(enum_id, b"color".to_vec());
            assert_eq!(member, b"red".to_vec());
        }
        other => panic!("expected an enum reference, got {:?}", other),
    }
}

#[test]
fn condition_false_skips_field_without_reading() {
    let doc = m(vec![(
        "seq",
        Doc::List(vec![
            attr("flag", "u1"),
            m(vec![("id", s("opt")), ("type", s("u1")), ("if", s("flag == 1"))]),
            attr("tail", "u1"),
        ]),
    )]);
    let prog = kaitai::compile(&doc, b"root").unwrap();
    let obj = parse_root(&prog, vec![0, 7]).unwrap();
    assert!(obj.get_field(b"opt").is_none());
    assert_eq!(int_field(&obj, "tail"), 7);
}

#[test]
fn repeat_expr_reads_exact_count() {
    let doc = m(vec![(
        "seq",
        Doc::List(vec![
            attr("n", "u1"),
            m(vec![
                ("id", s("xs")),
                ("type", s("u1")),
                ("repeat", s("expr")),
                ("repeat-expr", s("n")),
            ]),
            attr("tail", "u1"),
        ]),
    )]);
    let prog = kaitai::compile(&doc, b"root").unwrap();
    let obj = parse_root(&prog, vec![2, 5, 6, 9]).unwrap();
    match obj.get_field(b"xs") {
        Some(Value::List(items)) => assert_eq!(items.len(), 2),
        other => panic!("xs is not a list: {:?}", other),
    }
    assert_eq!(int_field(&obj, "tail"), 9);
}

#[test]
fn division_by_zero_in_an_expression_is_an_arithmetic_fault() {
    let doc = m(vec![
        ("seq", Doc::List(vec![attr("a", "u1")])),
        ("instances", m(vec![("bad", m(vec![("value", s("1 / 0"))]))])),
    ]);
    let prog = kaitai::compile(&doc, b"root").unwrap();
    let mut obj = parse_root(&prog, vec![1]).unwrap();
    match instance_value(&prog, &mut obj, b"bad") {
        Err(ParseError::Arithmetic) => {}
        other => panic!("expected an arithmetic fault, got {:?}", other),
    }
}

#[test]
fn truncated_primitive_read_is_eof() {
    let doc = m(vec![
        ("meta", m(vec![("endian", s("be"))])),
        ("seq", Doc::List(vec![attr("w", "u4")])),
    ]);
    let prog = kaitai::compile(&doc, b"root").unwrap();
    match parse_root(&prog, vec![1, 2, 3]) {
        Err(ParseError::Eof) => {}
        other => panic!("expected an end-of-stream error, got {:?}", other),
    }
}

#[test]
fn instance_may_reference_another_instance() {
    let doc = m(vec![
        ("seq", Doc::List(vec![attr("a", "u1")])),
        (
            "instances",
            m(vec![
                ("twice", m(vec![("value", s("a * 2"))])),
                ("thrice", m(vec![("value", s("twice + a"))])),
            ]),
        ),
    ]);
    let prog = kaitai::compile(&doc, b"root").unwrap();
    let mut obj = parse_root(&prog, vec![5]).unwrap();
    match instance_value(&prog, &mut obj, b"thrice") {
        Ok(Value::Int(v)) => assert_eq!(*v, 15),
        other => panic!("unexpected instance value: {:?}", other),
    }
}

#[test]
fn single_digit_expression_compiles_to_its_literal() {
    match compile_expr(b"7").unwrap() {
        Expr::IntLit(7) => {}
        other => panic!("expected the literal, got {:?}", other),
    }
}
