use moxy_derive::attr::{AttrBody, RawAttribute};
use moxy_derive::error::{Error, GrammarKind, Place};
use moxy_derive::field::{
    find_literal, find_string, find_value, literal_text, position_of_key, Field, FieldName,
};
use moxy_derive::grammar::parse_list;
use moxy_derive::params::Member;
use moxy_derive::token::{lex, Token};

fn toks(text: &str) -> Vec<Token> {
    lex(text).unwrap()
}

fn moxy(args: &str) -> RawAttribute {
    RawAttribute { path: toks("moxy"), body: AttrBody::List(toks(args)) }
}

fn member(name: Option<&str>, annotations: &[&str]) -> Member {
    Member {
        attrs: annotations.iter().map(|a| moxy(a)).collect(),
        vis: toks("pub(crate)"),
        ident: name.map(|n| n.to_string()),
        ty: toks("Vec<u8>"),
    }
}

#[test]
fn a_member_is_addressed_by_name_or_by_position() {
    let named = Field::parse(3, &member(Some("host"), &[])).unwrap();
    assert_eq!(named.name(), &FieldName::Ident("host".to_string()));
    assert!(named.name().is_ident() && !named.name().is_index());
    let unnamed = Field::parse(3, &member(None, &[])).unwrap();
    assert_eq!(unnamed.name(), &FieldName::Index(3));
    assert!(unnamed.name().is_index() && !unnamed.name().is_ident());
    assert_eq!(named.vis(), &toks("pub(crate)"));
    assert_eq!(named.ty(), &toks("Vec<u8>"));
    assert!(named.attrs().is_empty());
}

#[test]
fn positions_are_written_in_decimal() {
    for (n, text) in [(0, "0"), (7, "7"), (10, "10"), (42, "42"), (1909, "1909")] {
        assert_eq!(FieldName::Index(n).to_text(), text);
    }
    assert_eq!(FieldName::Index(usize::MAX).to_text(), usize::MAX.to_string());
    assert_eq!(FieldName::Ident("r#type".to_string()).to_text(), "r#type");
}

#[test]
fn the_display_name_is_the_alias_or_the_name() {
    let plain = Field::parse(0, &member(Some("name"), &["display(skip)"])).unwrap();
    assert_eq!(plain.display_name(), Ok("name".to_string()));
    let aliased = Field::parse(0, &member(Some("name"), &["display(alias = \"full_name\")"])).unwrap();
    assert_eq!(aliased.display_name(), Ok("full_name".to_string()));
    let by_position = Field::parse(2, &member(None, &[])).unwrap();
    assert_eq!(by_position.display_name(), Ok("2".to_string()));
    let not_a_string = Field::parse(0, &member(Some("name"), &["display(alias = other)"])).unwrap();
    assert_eq!(not_a_string.display_name(), Ok("name".to_string()));
    let elsewhere = Field::parse(0, &member(Some("name"), &["build(alias = \"x\")"])).unwrap();
    assert_eq!(elsewhere.display_name(), Ok("name".to_string()));
}

#[test]
fn the_display_name_reports_a_conflict() {
    let field = Field::parse(
        0,
        &member(Some("name"), &["display(alias = \"a\")", "display(alias = \"b\")"]),
    )
    .unwrap();
    assert_eq!(
        field.display_name(),
        Err(Error::Conflict {
            key: "alias".to_string(),
            place: Place { member: None, attribute: None, path: vec![1, 0] },
        })
    );
}

#[test]
fn documentation_is_kept() {
    let mut m = member(Some("host"), &["set"]);
    m.attrs.insert(0, RawAttribute { path: toks("doc"), body: AttrBody::Value(toks("\" one\"")) });
    m.attrs.push(RawAttribute { path: toks("doc"), body: AttrBody::Value(toks("\" two\"")) });
    m.attrs.push(RawAttribute { path: toks("doc"), body: AttrBody::List(toks("hidden")) });
    let field = Field::parse(0, &m).unwrap();
    assert_eq!(field.docs(), &vec![toks("\" one\""), toks("\" two\"")]);
}

#[test]
fn a_malformed_annotation_fails_the_member() {
    assert_eq!(
        Field::parse(0, &member(Some("x"), &["build", "display(alias = )"])).map(|_| ()),
        Err(Error::Grammar {
            kind: GrammarKind::MalformedValue,
            place: Place { member: Some(0), attribute: Some(1), path: vec![1, 2] },
        })
    );
}

#[test]
fn lookups_take_the_first_that_fits() {
    let args = parse_list(&toks("alias = other, alias = \"a\", alias = \"b\", on, on = 1")).unwrap();
    assert_eq!(find_string(&args, "alias"), Some("a".to_string()));
    assert_eq!(find_literal(&args, "alias"), Some(toks("\"a\"")));
    assert_eq!(find_value(&args, "alias"), Some(toks("other")));
    assert_eq!(find_value(&args, "on"), None);
    assert_eq!(find_value(&args, "missing"), None);
    assert_eq!(find_string(&args, "on"), None);
    assert_eq!(position_of_key(&args, "on"), 3);
    assert_eq!(position_of_key(&args, "missing"), 5);
}

#[test]
fn string_literals_are_unescaped() {
    assert_eq!(literal_text(&toks("\"a\\n\\\"b\\\"\"")), Some("a\n\"b\"".to_string()));
    assert_eq!(literal_text(&toks("r#\"raw \"text\"\"#")), Some("raw \"text\"".to_string()));
    assert_eq!(literal_text(&toks("1")), None);
    assert_eq!(literal_text(&toks("b\"bytes\"")), None);
    assert_eq!(literal_text(&toks("'c'")), None);
    assert_eq!(literal_text(&toks("\"a\" \"b\"")), None);
    assert_eq!(literal_text(&toks("")), None);
}

#[test]
fn a_member_is_written_as_a_declaration() {
    let field = Field::parse(0, &member(Some("host"), &["build(\"h\")", "display(skip)"])).unwrap();
    assert_eq!(
        field.to_tokens(),
        toks("#[moxy(build(\"h\")), moxy(display(skip)),] pub(crate) host: Vec<u8> ,")
    );
    assert_eq!(
        field.attrs().to_tokens(),
        toks("moxy(build(\"h\")), moxy(display(skip)),")
    );
    let unnamed = Field::parse(2, &member(None, &[])).unwrap();
    assert_eq!(unnamed.to_tokens(), toks("#[] pub(crate) 2: Vec<u8> ,"));
    assert_eq!(FieldName::Index(12).to_token(), Token::Literal("12".to_string()));
    assert_eq!(FieldName::Ident("x".to_string()).to_token(), Token::Ident("x".to_string()));
}
