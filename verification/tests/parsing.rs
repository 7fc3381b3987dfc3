use minilang::context::ParsingContext;
use minilang::error::ErrorType;
use minilang::literal::parse_integer;
use minilang::node::{nonep, Node, NodeKind};
use minilang::parser::parse_expr;

fn parse(source: &[u8]) -> (Node, minilang::error::Error) {
    let ctx = ParsingContext::create();
    let mut result = Node::none();
    let err = parse_expr(&ctx, source, &mut result);
    (result, err)
}

#[test]
fn zero_literal() {
    // "0" is the integer zero; "00" is not an integer literal at all.
    assert_eq!(parse_integer(b"0"), Some(0));
    assert_eq!(parse_integer(b"00"), None);
}

#[test]
fn signed_zero_is_failure() {
    // The canonical rule: a general-path value of zero fails; only the
    // single-byte token "0" denotes zero.
    assert_eq!(parse_integer(b"-0"), None);
    assert_eq!(parse_integer(b"+0"), None);
    assert_eq!(parse_integer(b"000"), None);
}

#[test]
fn plain_integers() {
    assert_eq!(parse_integer(b"42"), Some(42));
    assert_eq!(parse_integer(b"+8"), Some(8));
    assert_eq!(parse_integer(b"-17"), Some(-17));
    assert_eq!(parse_integer(b"9223372036854775807"), Some(i64::MAX));
    assert_eq!(parse_integer(b"-9223372036854775808"), Some(i64::MIN));
}

#[test]
fn integer_saturates_not_wraps() {
    assert_eq!(parse_integer(b"9223372036854775808"), Some(i64::MAX));
    assert_eq!(parse_integer(b"-9223372036854775809"), Some(i64::MIN));
    assert_eq!(
        parse_integer(b"99999999999999999999999999999999999"),
        Some(i64::MAX)
    );
    assert_eq!(
        parse_integer(b"-99999999999999999999999999999999999"),
        Some(i64::MIN)
    );
}

#[test]
fn non_digits_fail_integer_parse() {
    assert_eq!(parse_integer(b""), None);
    assert_eq!(parse_integer(b"a"), None);
    assert_eq!(parse_integer(b"12a"), None);
    assert_eq!(parse_integer(b"-"), None);
    assert_eq!(parse_integer(b"+"), None);
    assert_eq!(parse_integer(b"--1"), None);
}

#[test]
fn declaration_success() {
    // "A: integer" parses to a declaration: type node first (carrying
    // the Integer tag), symbol node second, and no error.
    let (node, err) = parse(b"A: integer");
    assert_eq!(err.kind, ErrorType::NoError);
    assert!(matches!(node.kind, NodeKind::VariableDeclaration));
    assert_eq!(node.children.len(), 2);
    assert!(matches!(node.children[0].kind, NodeKind::Integer(0)));
    match &node.children[1].kind {
        NodeKind::Symbol(text) => assert_eq!(text, &b"A".to_vec()),
        _ => panic!("the second child must be the variable's symbol"),
    }
}

#[test]
fn declaration_failure() {
    // "A: bogus" fails with a Type error whose message identifies
    // "bogus" as the invalid type; the in-progress node is discarded.
    let (node, err) = parse(b"A: bogus");
    assert_eq!(err.kind, ErrorType::Type);
    assert_eq!(err.msg, Some(b"bogus".to_vec()));
    assert!(nonep(&node));
}

#[test]
fn integer_expression() {
    let (node, err) = parse(b"42");
    assert_eq!(err.kind, ErrorType::NoError);
    assert!(matches!(node.kind, NodeKind::Integer(42)));
}

#[test]
fn leading_whitespace_before_integer() {
    let (node, err) = parse(b"  42");
    assert_eq!(err.kind, ErrorType::NoError);
    assert!(matches!(node.kind, NodeKind::Integer(42)));
}

#[test]
fn bare_symbol_expression() {
    let (node, err) = parse(b"foo");
    assert_eq!(err.kind, ErrorType::NoError);
    match &node.kind {
        NodeKind::Symbol(text) => assert_eq!(text, &b"foo".to_vec()),
        _ => panic!("expected a symbol node"),
    }
}

#[test]
fn unrecognized_token_is_syntax_error() {
    // A symbol followed by anything but ":" is an unrecognized
    // construct and raises a Syntax error holding the raw token text.
    let (node, err) = parse(b"foo bar");
    assert_eq!(err.kind, ErrorType::Syntax);
    assert_eq!(err.msg, Some(b"bar".to_vec()));
    assert!(nonep(&node));
}

#[test]
fn missing_type_name_is_syntax_error() {
    let (node, err) = parse(b"A:");
    assert_eq!(err.kind, ErrorType::Syntax);
    assert_eq!(err.msg, None);
    assert!(nonep(&node));
}

#[test]
fn empty_input_parses_to_sentinel() {
    let (node, err) = parse(b"");
    assert_eq!(err.kind, ErrorType::NoError);
    assert!(nonep(&node));
    let (node2, err2) = parse(b" \r\n");
    assert_eq!(err2.kind, ErrorType::NoError);
    assert!(nonep(&node2));
}

#[test]
fn integers_loop_with_lookahead_consumed() {
    // After each integer one token of lookahead is consumed but not
    // interpreted; the last integer produced stands as the result.
    let (node, err) = parse(b"1 2 3");
    assert_eq!(err.kind, ErrorType::NoError);
    assert!(matches!(node.kind, NodeKind::Integer(3)));
}

#[test]
fn declaration_returns_immediately() {
    // A recognized declaration ends the parse of this expression even
    // though tokens remain.
    let (node, err) = parse(b"A: integer junk");
    assert_eq!(err.kind, ErrorType::NoError);
    assert!(matches!(node.kind, NodeKind::VariableDeclaration));
}

#[test]
fn double_zero_token_is_a_symbol() {
    // "00" fails the integer parse, so it is taken as a bare symbol.
    let (node, err) = parse(b"00");
    assert_eq!(err.kind, ErrorType::NoError);
    match &node.kind {
        NodeKind::Symbol(text) => assert_eq!(text, &b"00".to_vec()),
        _ => panic!("expected a symbol node"),
    }
}

#[test]
fn zero_byte_ends_parsing() {
    let (node, err) = parse(b"7\0junk");
    assert_eq!(err.kind, ErrorType::NoError);
    assert!(matches!(node.kind, NodeKind::Integer(7)));
}

#[test]
fn colon_variants_all_declare() {
    for src in [&b"A:integer"[..], &b"A :integer"[..], &b"A : integer"[..]] {
        let (node, err) = parse(src);
        assert_eq!(err.kind, ErrorType::NoError);
        assert!(matches!(node.kind, NodeKind::VariableDeclaration));
    }
}
