use rustyml::ast::Node;
use rustyml::compiler::compile;
use rustyml::error::Error;
use rustyml::parser::parse;

#[test]
fn multi_file_compile_is_fatal_and_parses_nothing() {
    // With two or more source identifiers the driver refuses outright:
    // the texts here would each fail to parse, yet no syntax error
    // surfaces, only the fatal driver error.
    let sources = vec![
        ("a.ml".to_string(), "@@ not parseable".to_string()),
        ("b.ml".to_string(), ")(".to_string()),
    ];
    match compile(&sources) {
        Err(Error::OnFatal(msg)) => {
            assert_eq!(msg, "Currently only single file can be compiled");
        }
        _ => panic!("expected the fatal driver error"),
    }
}

#[test]
fn single_file_compile_parses_it() {
    let sources = vec![("a.ml".to_string(), "let x = 1 in x".to_string())];
    let units = compile(&sources).unwrap();
    assert_eq!(units.len(), 1);
    assert_eq!(units[0].file, "a.ml");
    assert!(matches!(*units[0].ast, Node::Let(_)));
}

#[test]
fn empty_compile_yields_no_units() {
    let sources: Vec<(String, String)> = vec![];
    let units = compile(&sources).unwrap();
    assert!(units.is_empty());
}

#[test]
fn syntax_error_is_wrapped_once() {
    let sources = vec![("bad.ml".to_string(), "let x = in 1".to_string())];
    match compile(&sources) {
        Err(Error::OnParse(pe)) => {
            assert_eq!(pe.offset, 8);
        }
        _ => panic!("expected a syntax error"),
    }
}

#[test]
fn parse_pairs_identifier_with_tree() {
    let tu = parse(&"m.ml".to_string(), "f x").unwrap();
    assert_eq!(tu.file, "m.ml");
    assert!(matches!(*tu.ast, Node::Apply(_)));

    match parse(&"m.ml".to_string(), "f +") {
        Err(Error::OnParse(_)) => {}
        _ => panic!("expected a syntax error"),
    }
}

#[test]
fn file_open_failures_carry_their_cause() {
    // The boundary wraps an unreadable file's message once; the value is
    // inspectable by the caller.
    let e = Error::OnFileOpen("No such file or directory".to_string());
    match e {
        Error::OnFileOpen(msg) => assert!(msg.contains("No such file")),
        _ => unreachable!(),
    }
}
