use moxy_derive::arg::Arg;
use moxy_derive::error::{Error, GrammarKind, Place};
use moxy_derive::grammar::parse_list;
use moxy_derive::token::{lex, render, Delimiter, Token};

fn toks(text: &str) -> Vec<Token> {
    lex(text).unwrap()
}

/// A malformed argument list; `path` leads to the offending token.
fn grammar(kind: GrammarKind, path: &[usize]) -> Error {
    Error::Grammar { kind, place: Place { member: None, attribute: None, path: path.to_vec() } }
}

fn ident(name: &str) -> Token {
    Token::Ident(name.to_string())
}

#[test]
fn lex_gives_token_trees() {
    let tokens = toks("a::b(c, \"d\")");
    assert_eq!(
        tokens,
        vec![
            ident("a"),
            Token::Punct(':', true),
            Token::Punct(':', false),
            ident("b"),
            Token::Group(
                Delimiter::Parenthesis,
                vec![
                    ident("c"),
                    Token::Punct(',', false),
                    Token::Literal("\"d\"".to_string()),
                ],
            ),
        ]
    );
}

#[test]
fn lex_rejects_an_open_group() {
    assert_eq!(
        lex("display(skip"),
        Err(grammar(GrammarKind::Lexical, &[]))
    );
}

#[test]
fn render_prints_tokens_with_single_gaps() {
    assert_eq!(render(&toks("a::b ( c,\"d\" )")), "a :: b (c , \"d\")");
    assert_eq!(render(&toks("x=-1")), "x =- 1");
    assert_eq!(render(&toks("")), "");
}

#[test]
fn parse_every_form() {
    let args = parse_list(&toks(
        "\"text\", skip, format = compact, retries = 3, display(alias = \"x\"), default = Vec::new(), self.name",
    ))
    .unwrap();
    assert_eq!(args.len(), 7);
    assert_eq!(
        args[0],
        Arg::Literal(vec![ident("__value")], toks("\"text\""))
    );
    assert_eq!(args[1], Arg::Flag(toks("skip")));
    assert_eq!(args[2], Arg::Ident(toks("format"), "compact".to_string()));
    assert_eq!(args[3], Arg::Literal(toks("retries"), toks("3")));
    assert!(args[4].is_attr());
    let nested = args[4].as_attr().unwrap();
    assert_eq!(nested.path(), &toks("display"));
    assert_eq!(
        nested.args(),
        &vec![Arg::Literal(toks("alias"), toks("\"x\""))]
    );
    assert_eq!(args[5], Arg::Expr(toks("default"), toks("Vec::new()")));
    assert_eq!(args[6], Arg::Expr(vec![ident("__expr")], toks("self.name")));
}

#[test]
fn parse_values_after_the_equals_sign() {
    let args = parse_list(&toks("a = true, b = -1, c = r#type, d = \"s\".len(), e = { 1 }")).unwrap();
    assert_eq!(args[0], Arg::Literal(toks("a"), toks("true")));
    assert_eq!(args[1], Arg::Literal(toks("b"), toks("-1")));
    assert_eq!(args[2], Arg::Ident(toks("c"), "r#type".to_string()));
    assert_eq!(args[3], Arg::Expr(toks("d"), toks("\"s\".len()")));
    assert_eq!(args[4], Arg::Expr(toks("e"), toks("{ 1 }")));
}

#[test]
fn parse_accepts_a_trailing_comma_and_an_empty_list() {
    assert_eq!(parse_list(&toks("a, b,")).unwrap(), parse_list(&toks("a, b")).unwrap());
    assert_eq!(parse_list(&toks("")).unwrap(), vec![]);
}

#[test]
fn parse_errors_name_the_offending_token() {
    assert_eq!(
        parse_list(&toks("a,, b")),
        Err(grammar(GrammarKind::MissingArgument, &[2]))
    );
    assert_eq!(
        parse_list(&toks("a, \"s\" b")),
        Err(grammar(GrammarKind::TrailingTokens, &[3]))
    );
    assert_eq!(
        parse_list(&toks("a, b = ")),
        Err(grammar(GrammarKind::MalformedValue, &[4]))
    );
    assert_eq!(
        parse_list(&toks("a, b c")),
        Err(grammar(GrammarKind::MalformedArgument, &[2]))
    );
    assert_eq!(
        parse_list(&toks("outer(a, +)")),
        Err(grammar(GrammarKind::MalformedArgument, &[1, 2]))
    );
}

#[test]
fn a_path_with_brackets_is_a_nested_group() {
    let args = parse_list(&toks("Vec::new(), x[0], S { a: 1 }, self.name.len(), vec![1]")).unwrap();
    assert!(args[0].is_attr());
    assert_eq!(args[0].path(), &toks("Vec::new"));
    assert_eq!(args[1], Arg::Expr(vec![ident("__expr")], toks("x[0]")));
    assert_eq!(args[2], Arg::Expr(vec![ident("__expr")], toks("S { a: 1 }")));
    assert_eq!(args[3], Arg::Expr(vec![ident("__expr")], toks("self.name.len()")));
    assert_eq!(args[4], Arg::Expr(vec![ident("__expr")], toks("vec![1]")));
}

#[test]
fn tokens_after_a_nested_group_are_trailing() {
    for text in ["foo(1).bar()", "f(x) + 1", "f(a)(b)", "a::b(c) d"] {
        assert_eq!(
            parse_list(&toks(text)),
            Err(grammar(GrammarKind::TrailingTokens, &[if text.starts_with("a::b") { 5 } else { 2 }])),
            "{}",
            text
        );
    }
    assert_eq!(
        parse_list(&toks("first, outer(inner(x) y)")),
        Err(grammar(GrammarKind::TrailingTokens, &[3, 2]))
    );
    assert_eq!(
        parse_list(&toks("k = f(x) + 1")).unwrap(),
        vec![Arg::Expr(toks("k"), toks("f(x) + 1"))]
    );
}

#[test]
fn comparisons_are_read_as_the_grammar_says() {
    let args = parse_list(&toks("a <= b, x != y, k = a == b")).unwrap();
    assert_eq!(args[0], Arg::Expr(vec![ident("__expr")], toks("a <= b")));
    assert_eq!(args[1], Arg::Expr(vec![ident("__expr")], toks("x != y")));
    assert_eq!(args[2], Arg::Expr(toks("k"), toks("a == b")));
    assert_eq!(
        parse_list(&toks("a == b")),
        Err(grammar(GrammarKind::MalformedValue, &[2]))
    );
}

#[test]
fn keywords_are_no_identifiers() {
    let args = parse_list(&toks("a = self, b = false, c = Self")).unwrap();
    assert_eq!(args[0], Arg::Expr(toks("a"), toks("self")));
    assert_eq!(args[1], Arg::Literal(toks("b"), toks("false")));
    assert_eq!(args[2], Arg::Expr(toks("c"), toks("Self")));
}

/// Parses, writes out and parses again.
fn round_trip(text: &str) {
    let first = parse_list(&toks(text)).unwrap();
    let written = moxy_derive::serialize::list_to_tokens(&first);
    let second = parse_list(&written).unwrap();
    assert_eq!(first, second, "{}", text);
    let text = render(&written);
    let third = parse_list(&toks(&text)).unwrap();
    assert_eq!(first, third, "{}", text);
}

#[test]
fn round_trip_gives_an_equal_tree() {
    round_trip("");
    round_trip("skip");
    round_trip("a, b,");
    round_trip("\"text\", skip, format = compact, retries = 3");
    round_trip("display(alias = \"x\", inner(deep(\"s\", a::b = -1)), pretty,), last");
    round_trip("default = Vec::new(), on = { count += 1; value }, self.name, count * 2");
    round_trip("a=-1, b=&x, c=!y");
    round_trip("__value = \"s\", __value = 5, __expr = 5");
    round_trip("__expr = 1 + 2");
    round_trip("on = { let __expr = 1; __expr }, f(__expr = 1), __expr(a = b)");
}

#[test]
fn a_reserved_key_is_not_written() {
    let written = |text: &str| render(&moxy_derive::serialize::list_to_tokens(&parse_list(&toks(text)).unwrap()));
    assert_eq!(written("\"s\""), "\"s\"");
    assert_eq!(written("__value = \"s\""), "\"s\"");
    assert_eq!(written("__value = 1"), "__value = 1");
    assert_eq!(written("a . b"), "a . b");
    assert_eq!(written("a(b,c,)"), "a (b , c)");
    assert_eq!(written("k = v . w"), "k = v . w");
}

#[test]
fn an_argument_and_an_annotation_are_written_as_tokens() {
    let arg = Arg::parse(&toks("display(skip, alias = \"x\")")).unwrap();
    assert_eq!(arg.to_tokens(), toks("display(skip, alias = \"x\")"));
    assert_eq!(arg.as_attr().unwrap().to_tokens(), toks("display(skip, alias = \"x\")"));
}

#[test]
fn the_round_trip_can_fail_where_the_expression_key_is_spelled_out() {
    let first = parse_list(&toks("__expr = a::b")).unwrap();
    assert_eq!(first, vec![Arg::Expr(vec![ident("__expr")], toks("a::b"))]);
    let second = parse_list(&moxy_derive::serialize::list_to_tokens(&first)).unwrap();
    assert_eq!(second, vec![Arg::Flag(toks("a::b"))]);
}

#[test]
fn rendered_tokens_lex_to_themselves() {
    for text in [
        "a::b<'c, D>(e, \"f\", 'g', 1.5e3, b\"h\", r#i, r#\"j\"#)",
        "x = -1, y => z, a && b || !c, p..=q, m <<= n",
        "{ let x: &'static str = \"s\"; x }",
        "#[doc = \" text\"] pub(crate) fn f<T: Into<U>>(t: T) -> U where U: 'static { t.into() }",
        "",
    ] {
        let tokens = toks(text);
        assert_eq!(toks(&render(&tokens)), tokens, "{}", text);
    }
}

#[test]
fn groups_without_brackets_are_rendered_bare() {
    let tokens = vec![
        ident("a"),
        Token::Group(Delimiter::Invisible, vec![ident("b"), Token::Punct('+', false), ident("c")]),
        Token::Group(Delimiter::Brace, vec![]),
        Token::Group(Delimiter::Bracket, vec![Token::Literal("1".to_string())]),
    ];
    assert_eq!(render(&tokens), "a b + c {} [1]");
}

#[test]
fn an_expression_keeps_its_own_commas() {
    let args = parse_list(&toks("first, |a, b| a + b, k = max::<u8, u8>, f::<A, B>(x), last,")).unwrap();
    assert_eq!(args.len(), 5);
    assert_eq!(args[0], Arg::Flag(toks("first")));
    assert_eq!(args[1], Arg::Expr(vec![ident("__expr")], toks("|a, b| a + b")));
    assert_eq!(args[2], Arg::Expr(toks("k"), toks("max::<u8, u8>")));
    assert!(args[3].is_attr());
    assert_eq!(args[3].path(), &toks("f::<A, B>"));
    assert_eq!(args[3].as_attr().unwrap().args(), &vec![Arg::Flag(toks("x"))]);
    assert_eq!(args[4], Arg::Flag(toks("last")));
    assert_eq!(
        parse_list(&toks("a < b, c > d")).unwrap(),
        vec![
            Arg::Expr(vec![ident("__expr")], toks("a < b")),
            Arg::Expr(vec![ident("__expr")], toks("c > d")),
        ]
    );
    round_trip("first, |a, b| a + b, k = max::<u8, u8>, f::<A, B>(x), last,");
    round_trip("on = |a, b| (a, b), g(|x, y| x)");
}

#[test]
fn the_error_is_that_of_the_shortest_piece() {
    assert_eq!(
        parse_list(&toks("a, |b, c d")),
        Err(grammar(GrammarKind::MalformedArgument, &[2]))
    );
    assert_eq!(
        parse_list(&toks("a, k = , x")),
        Err(grammar(GrammarKind::MalformedValue, &[4]))
    );
}
