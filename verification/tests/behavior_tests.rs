use jmespath::{parse, Ast, Json};

#[test]
fn empty_input_test() {
    let result = parse("");
    assert!(result.is_err());
    assert!(result.err().unwrap().msg.contains("Unexpected EOF"));
}

#[test]
fn dot_between_identifiers_test() {
    assert_eq!(
        parse("a.b").unwrap(),
        Ast::Subexpr(
            Box::new(Ast::Identifier("a".to_string())),
            Box::new(Ast::Identifier("b".to_string()))
        )
    );
}

#[test]
fn too_many_colons_test() {
    let result = parse("[::::]");
    assert!(result.is_err());
    assert!(result
        .err()
        .unwrap()
        .msg
        .contains("Too many colons in slice expr"));
}

#[test]
fn reparse_is_structurally_equal_test() {
    // Two independent parses of the same text compare equal, structurally.
    let first = parse("{foo: bar, baz: `10`} | a[0] || b[::-1].c").unwrap();
    let second = parse("{foo: bar, baz: `10`} | a[0] || b[::-1].c").unwrap();
    assert_eq!(first, second);
}

#[test]
fn wildcard_index_test() {
    assert_eq!(
        parse("[*]").unwrap(),
        Ast::ArrayProjection(Box::new(Ast::CurrentNode), Box::new(Ast::CurrentNode))
    );
}

#[test]
fn wildcard_index_after_identifier_test() {
    // The bracket grammar builds the projection from the current node; the
    // left-hand side takes no part in it.
    assert_eq!(
        parse("foo[*]").unwrap(),
        Ast::ArrayProjection(Box::new(Ast::CurrentNode), Box::new(Ast::CurrentNode))
    );
}

#[test]
fn index_after_identifier_test() {
    assert_eq!(parse("foo[0]").unwrap(), Ast::Index(0));
}

#[test]
fn negative_index_test() {
    assert_eq!(parse("[-7]").unwrap(), Ast::Index(-7));
}

#[test]
fn flatten_after_identifier_test() {
    assert_eq!(
        parse("a[]").unwrap(),
        Ast::ArrayProjection(
            Box::new(Ast::Flatten(Box::new(Ast::Identifier("a".to_string())))),
            Box::new(Ast::CurrentNode)
        )
    );
}

#[test]
fn bare_flatten_test() {
    assert_eq!(
        parse("[]").unwrap(),
        Ast::ArrayProjection(
            Box::new(Ast::Flatten(Box::new(Ast::CurrentNode))),
            Box::new(Ast::CurrentNode)
        )
    );
}

#[test]
fn pipe_is_left_associative_test() {
    assert_eq!(
        parse("a | b | c").unwrap(),
        Ast::Subexpr(
            Box::new(Ast::Subexpr(
                Box::new(Ast::Identifier("a".to_string())),
                Box::new(Ast::Identifier("b".to_string()))
            )),
            Box::new(Ast::Identifier("c".to_string()))
        )
    );
}

#[test]
fn trailing_tokens_test() {
    let result = parse("a, b");
    assert!(result.is_err());
    assert!(result
        .err()
        .unwrap()
        .msg
        .contains("Did not reach token stream EOF"));
}

#[test]
fn literal_null_test() {
    assert_eq!(parse("`null`").unwrap(), Ast::Literal(Json::Null));
}

#[test]
fn literal_true_test() {
    assert_eq!(parse("`true`").unwrap(), Ast::Literal(Json::Boolean(true)));
}

#[test]
fn literal_false_test() {
    assert_eq!(parse("`false`").unwrap(), Ast::Literal(Json::Boolean(false)));
}

#[test]
fn literal_number_test() {
    assert_eq!(parse("`123`").unwrap(), Ast::Literal(Json::Number(123)));
}

#[test]
fn literal_negative_number_test() {
    assert_eq!(parse("`-45`").unwrap(), Ast::Literal(Json::Number(-45)));
}

#[test]
fn literal_bare_text_falls_back_to_string_test() {
    assert_eq!(
        parse("`abc def`").unwrap(),
        Ast::Literal(Json::String("abc def".to_string()))
    );
}

#[test]
fn hash_missing_colon_test() {
    let result = parse("{foo bar}");
    assert!(result.is_err());
    assert!(result
        .err()
        .unwrap()
        .msg
        .contains("Expected one of the following tokens"));
}

#[test]
fn hash_key_must_be_identifier_test() {
    let result = parse("{1: b}");
    assert!(result.is_err());
    assert!(result
        .err()
        .unwrap()
        .msg
        .contains("Expected Identifier to start key value pair"));
}

#[test]
fn hash_missing_separator_test() {
    let result = parse("{a: b c}");
    assert!(result.is_err());
    assert!(result.err().unwrap().msg.contains("Expected Rbrace or Comma"));
}

#[test]
fn projection_error_test() {
    let result = parse("*{");
    assert!(result.is_err());
    assert!(result
        .err()
        .unwrap()
        .msg
        .contains("Syntax error found in projection"));
}

#[test]
fn led_error_test() {
    let result = parse("a*");
    assert!(result.is_err());
    assert!(result.err().unwrap().msg.contains("Unexpected led token"));
}

#[test]
fn number_out_of_range_is_rejected_test() {
    assert!(parse("[99999999999]").is_err());
}

#[test]
fn unterminated_literal_is_rejected_test() {
    let result = parse("`abc");
    assert!(result.is_err());
    assert!(result.err().unwrap().msg.contains("Unexpected nud token"));
}

#[test]
fn error_reports_offset_test() {
    // The column is the character offset of the offending token; the error
    // formatter never scans for newlines, so the line is always 0.
    let e = parse("a || ,").err().unwrap();
    assert_eq!(e.col, 5);
    assert_eq!(e.line, 0);
    assert!(e.msg.contains("Error at Comma token, 5"));
}
