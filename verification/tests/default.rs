use moxy_derive::attr::{AttrBody, RawAttribute};
use moxy_derive::default::{DefaultPlan, StructSyntax};
use moxy_derive::error::{Error, GrammarKind, Place};
use moxy_derive::field::{literal_text, FieldName};
use moxy_derive::params::{
    DataStruct, DeriveInput, Fields, GenericKind, GenericParam, Generics, Member, StructParams,
};
use moxy_derive::token::{lex, render, Token};

fn toks(text: &str) -> Vec<Token> {
    lex(text).unwrap()
}

/// A malformed argument list in the first attribute of a member.
fn grammar(kind: GrammarKind, member: usize, path: &[usize]) -> Error {
    Error::Grammar {
        kind,
        place: Place { member: Some(member), attribute: Some(0), path: path.to_vec() },
    }
}

fn moxy(args: &str) -> RawAttribute {
    RawAttribute { path: toks("moxy"), body: AttrBody::List(toks(args)) }
}

/// A member; `annotation` is what stands in `#[moxy(..)]`, and the empty
/// text means that the member has no annotation.
fn member(name: Option<&str>, ty: &str, annotation: &str) -> Member {
    let attrs = if annotation.is_empty() { vec![] } else { vec![moxy(annotation)] };
    Member { attrs, vis: vec![], ident: name.map(|n| n.to_string()), ty: toks(ty) }
}

fn record(name: &str, generics: Generics, fields: Fields, members: Vec<Member>) -> StructParams {
    StructParams {
        input: DeriveInput { attrs: vec![], vis: vec![], ident: name.to_string(), generics },
        data: DataStruct { fields, members },
    }
}

fn no_generics() -> Generics {
    Generics { params: vec![], where_clause: vec![] }
}

fn plan(params: &StructParams) -> DefaultPlan {
    StructSyntax.render(params).unwrap()
}

const MAX_RETRIES: u32 = 3;

/// What a member of the default value holds, as text: the default
/// expression evaluated, or `None` where the member is left to the
/// default of its type.
fn value(plan: &DefaultPlan, at: usize) -> Option<String> {
    plan.fields[at].value.as_ref().map(|expr| match literal_text(expr) {
        Some(s) => s,
        None => match render(expr).as_str() {
            "8080u16" => 8080u16.to_string(),
            "10u32" => 10u32.to_string(),
            "true" => true.to_string(),
            "MAX_RETRIES" => MAX_RETRIES.to_string(),
            "\"prefix\" . to_string ()" => "prefix".to_string(),
            other => panic!("no value for `{}`", other),
        },
    })
}

#[test]
fn test_partial_annotation() {
    let user = plan(&record(
        "User",
        no_generics(),
        Fields::Named,
        vec![
            member(Some("name"), "String", "default = \"bob\""),
            member(Some("email"), "Option<String>", ""),
        ],
    ));

    assert_eq!(value(&user, 0).unwrap(), "bob");
    let email: Option<String> = match value(&user, 1) {
        None => Default::default(),
        Some(v) => Some(v),
    };
    assert_eq!(email, None);
}

#[test]
fn test_all_fields_annotated() {
    let s = plan(&record(
        "Server",
        no_generics(),
        Fields::Named,
        vec![
            member(Some("bind"), "String", "default = \"0.0.0.0\""),
            member(Some("port"), "u16", "default = 8080u16"),
            member(Some("tls"), "bool", "default = true"),
        ],
    ));

    assert_eq!(value(&s, 0).unwrap(), "0.0.0.0");
    assert_eq!(value(&s, 1).unwrap().parse::<u16>().unwrap(), 8080);
    assert_eq!(value(&s, 2).unwrap().parse::<bool>().unwrap(), true);
}

#[test]
fn default_test_constant_default() {
    let c = plan(&record(
        "Client",
        no_generics(),
        Fields::Named,
        vec![member(Some("retries"), "u32", "default = MAX_RETRIES")],
    ));
    assert_eq!(c.fields[0].value, Some(toks("MAX_RETRIES")));
    assert_eq!(value(&c, 0).unwrap().parse::<u32>().unwrap(), 3);
}

#[test]
fn default_test_expression_default() {
    let c = plan(&record(
        "Collection",
        no_generics(),
        Fields::Named,
        vec![
            member(Some("items"), "Vec<String>", "default = Vec::new()"),
            member(Some("label"), "String", "default = \"prefix\".to_string()"),
        ],
    ));

    let items: Vec<String> = match &c.fields[0].value {
        Some(expr) if *expr == toks("Vec::new()") => Vec::new(),
        other => panic!("{:?}", other),
    };
    assert!(items.is_empty());
    assert_eq!(value(&c, 1).unwrap(), "prefix");
}

#[test]
fn default_test_generic_struct() {
    let generics = Generics {
        params: vec![GenericParam {
            kind: GenericKind::Type,
            name: "T".to_string(),
            decl: toks("T: std::default::Default"),
        }],
        where_clause: vec![],
    };
    let c = plan(&record(
        "Container",
        Generics {
            params: vec![GenericParam {
                kind: GenericKind::Type,
                name: "T".to_string(),
                decl: toks("T: std::default::Default"),
            }],
            where_clause: vec![],
        },
        Fields::Named,
        vec![
            member(Some("capacity"), "u32", "default = 10u32"),
            member(Some("value"), "T", ""),
        ],
    ));

    assert_eq!(c.generics, generics);
    assert_eq!(value(&c, 0).unwrap().parse::<u32>().unwrap(), 10);
    assert_eq!(value(&c, 1).unwrap_or_default(), String::default());
}

#[test]
fn test_tuple_struct() {
    let p = plan(&record(
        "Pair",
        no_generics(),
        Fields::Unnamed,
        vec![member(None, "String", "default = \"hello\""), member(None, "u32", "")],
    ));

    assert_eq!(p.shape, Fields::Unnamed);
    assert_eq!(p.fields[0].name, FieldName::Index(0));
    assert_eq!(p.fields[1].name, FieldName::Index(1));
    assert_eq!(value(&p, 0).unwrap(), "hello");
    let second = match value(&p, 1) {
        None => u32::default(),
        Some(v) => v.parse().unwrap(),
    };
    assert_eq!(second, 0);
}

#[test]
fn test_unit_struct() {
    let marker = plan(&record("Marker", no_generics(), Fields::Unit, vec![]));
    assert_eq!(marker.target, "Marker");
    assert_eq!(marker.shape, Fields::Unit);
    assert!(marker.fields.is_empty());
}

#[test]
fn the_first_annotation_with_a_default_gives_it() {
    let mut m = member(Some("x"), "u8", "build");
    m.attrs.push(moxy("display(skip), default = 1"));
    m.attrs.push(moxy("default = 2"));
    let plan = plan(&record("P", no_generics(), Fields::Named, vec![m]));
    assert_eq!(plan.fields[0].value, Some(toks("1")));
}

#[test]
fn a_flag_named_default_gives_no_value() {
    let plan = plan(&record(
        "P",
        no_generics(),
        Fields::Named,
        vec![member(Some("x"), "u8", "default")],
    ));
    assert_eq!(plan.fields[0].value, None);
}

#[test]
fn attributes_under_other_names_are_passed_over() {
    let mut m = member(Some("x"), "u8", "");
    m.attrs.push(RawAttribute { path: toks("serde"), body: AttrBody::List(toks("default = 1")) });
    m.attrs.push(RawAttribute { path: toks("doc"), body: AttrBody::Value(toks("\"text\"")) });
    let plan = plan(&record("P", no_generics(), Fields::Named, vec![m]));
    assert_eq!(plan.fields[0].value, None);
}

#[test]
fn a_malformed_annotation_is_reported() {
    let params = record(
        "P",
        no_generics(),
        Fields::Named,
        vec![member(Some("x"), "u8", "default = ")],
    );
    assert_eq!(
        StructSyntax.render(&params),
        Err(grammar(GrammarKind::MalformedValue, 0, &[2]))
    );
    let mut m = member(Some("x"), "u8", "");
    m.attrs.push(RawAttribute { path: toks("moxy"), body: AttrBody::Value(toks("1")) });
    assert_eq!(
        StructSyntax.render(&record("P", no_generics(), Fields::Named, vec![m])),
        Err(grammar(GrammarKind::MissingArgument, 0, &[0]))
    );
    let mut bare = member(Some("x"), "u8", "");
    bare.attrs.push(RawAttribute { path: toks("moxy"), body: AttrBody::Bare });
    let plan = plan(&record("P", no_generics(), Fields::Named, vec![bare]));
    assert_eq!(plan.fields[0].value, None);
}
