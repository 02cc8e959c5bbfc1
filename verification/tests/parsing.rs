use lispy::{parse, read_from_tokens, to_text, tokenize, LVal, LispError};

fn sym(s: &str) -> LVal {
    LVal::Sym(s.to_string())
}

#[test]
fn tokenize_splits_parens_without_whitespace() {
    let toks = tokenize("(+ 1(a))");
    assert_eq!(
        toks,
        LVal::SExpr(vec![
            sym("("),
            sym("+"),
            sym("1"),
            sym("("),
            sym("a"),
            sym(")"),
            sym(")"),
        ])
    );
}

#[test]
fn tokenize_of_blank_text_is_empty() {
    assert_eq!(tokenize("  \t\n "), LVal::SExpr(vec![]));
}

#[test]
fn parse_builds_a_nested_tree() {
    assert_eq!(
        parse("(a (b c) d)").unwrap(),
        LVal::SExpr(vec![sym("a"), LVal::SExpr(vec![sym("b"), sym("c")]), sym("d")])
    );
}

#[test]
fn parse_takes_only_the_first_form() {
    assert_eq!(parse("a b").unwrap(), sym("a"));
}

#[test]
fn read_from_tokens_returns_the_leftovers() {
    let toks = tokenize("(a) b");
    let (rest, v) = read_from_tokens(&toks).unwrap();
    assert_eq!(v, LVal::SExpr(vec![sym("a")]));
    assert_eq!(rest, LVal::SExpr(vec![sym("b")]));
}

#[test]
fn empty_input_is_a_lex_fault() {
    assert_eq!(parse("").unwrap_err(), LispError::LexEmpty);
    assert_eq!(parse("   ").unwrap_err(), LispError::LexEmpty);
}

#[test]
fn unclosed_list_is_an_eof_fault() {
    assert_eq!(parse("(a b").unwrap_err(), LispError::ParseUnexpectedEof);
    assert_eq!(parse("(a (b)").unwrap_err(), LispError::ParseUnexpectedEof);
}

#[test]
fn stray_close_paren_is_a_fault() {
    assert_eq!(parse(")").unwrap_err(), LispError::ParseUnmatchedCloseParen);
}

#[test]
fn round_trip_keeps_the_structure() {
    let sources = ["(a (b c) d)", "( a   b\n  ( c ) )", "atom", "(+ 1(a))", "(() (()))"];
    for src in sources.iter() {
        let v = parse(src).unwrap();
        let text = to_text(&v);
        assert_eq!(parse(text.as_str()).unwrap(), v);
    }
}

#[test]
fn serializer_writes_canonical_text() {
    let v = parse("( a  ( b   c )  d )").unwrap();
    assert_eq!(to_text(&v), "(a (b c) d)".to_string());
}
