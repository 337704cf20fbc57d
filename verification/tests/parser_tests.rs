use jmespath::{parse, Ast, Json, KeyValuePair};

#[test]
fn indentifier_test() {
    assert_eq!(parse("foo").unwrap(), Ast::Identifier("foo".to_string()));
}

#[test]
fn current_node_test() {
    assert_eq!(parse("@").unwrap(), Ast::CurrentNode);
}

#[test]
fn wildcard_values_test() {
    assert_eq!(
        parse("*").unwrap(),
        Ast::ObjectProjection(Box::new(Ast::CurrentNode), Box::new(Ast::CurrentNode))
    );
}

#[test]
fn dot_test() {
    assert!(
        parse("@.b").unwrap()
            == Ast::Subexpr(
                Box::new(Ast::CurrentNode),
                Box::new(Ast::Identifier("b".to_string()))
            )
    );
}

#[test]
fn ensures_nud_token_is_valid_test() {
    let result = parse(",");
    assert!(result.is_err());
    assert!(result.err().unwrap().msg.contains("Unexpected nud token"));
}

#[test]
fn multi_list_test() {
    let l = Ast::MultiList(vec![
        Box::new(Ast::Identifier("a".to_string())),
        Box::new(Ast::Identifier("b".to_string())),
    ]);
    assert_eq!(parse("[a, b]").unwrap(), l);
}

#[test]
fn multi_list_unclosed() {
    let result = parse("[a, b");
    assert!(result.is_err());
    assert!(result.err().unwrap().msg.contains("Unexpected EOF"));
}

#[test]
fn multi_list_unclosed_after_comma() {
    let result = parse("[a,");
    assert!(result.is_err());
    assert!(result.err().unwrap().msg.contains("Unexpected EOF"));
}

#[test]
fn multi_list_after_dot_test() {
    let l = Ast::MultiList(vec![
        Box::new(Ast::Identifier("a".to_string())),
        Box::new(Ast::Identifier("b".to_string())),
    ]);
    assert_eq!(
        parse("@.[a, b]").unwrap(),
        Ast::Subexpr(Box::new(Ast::CurrentNode), Box::new(l))
    );
}

#[test]
fn parses_simple_index_extractions_test() {
    assert_eq!(parse("[0]").unwrap(), Ast::Index(0));
}

#[test]
fn parses_single_element_slice_test() {
    assert_eq!(
        parse("[-1:]").unwrap(),
        Ast::ArrayProjection(
            Box::new(Ast::Slice(Some(-1), None, None)),
            Box::new(Ast::CurrentNode)
        )
    );
}

#[test]
fn parses_double_element_slice_test() {
    assert_eq!(
        parse("[1:-1].a").unwrap(),
        Ast::ArrayProjection(
            Box::new(Ast::Slice(Some(1), Some(-1), None)),
            Box::new(Ast::Identifier("a".to_string()))
        )
    );
}

#[test]
fn parses_revese_slice_test() {
    assert_eq!(
        parse("[::-1].a").unwrap(),
        Ast::ArrayProjection(
            Box::new(Ast::Slice(None, None, Some(-1))),
            Box::new(Ast::Identifier("a".to_string()))
        )
    );
}

#[test]
fn parses_or_test() {
    assert_eq!(
        parse("a || b").unwrap(),
        Ast::Or(
            Box::new(Ast::Identifier("a".to_string())),
            Box::new(Ast::Identifier("b".to_string()))
        )
    );
}

#[test]
fn parses_pipe_test() {
    assert_eq!(
        parse("a | b").unwrap(),
        Ast::Subexpr(
            Box::new(Ast::Identifier("a".to_string())),
            Box::new(Ast::Identifier("b".to_string()))
        )
    );
}

#[test]
fn parses_literal_token_test() {
    assert_eq!(
        parse("`\"foo\"`").unwrap(),
        Ast::Literal(Json::String("foo".to_string()))
    )
}

#[test]
fn parses_multi_hash() {
    let result = Ast::MultiHash(vec![
        KeyValuePair {
            key: Box::new(Ast::Literal(Json::String("foo".to_string()))),
            value: Box::new(Ast::Identifier("bar".to_string())),
        },
        KeyValuePair {
            key: Box::new(Ast::Literal(Json::String("baz".to_string()))),
            value: Box::new(Ast::Identifier("bam".to_string())),
        },
    ]);
    assert_eq!(parse("{foo: bar, baz: bam}").unwrap(), result);
}
