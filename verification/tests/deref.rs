use moxy_derive::attr::{AttrBody, RawAttribute};
use moxy_derive::deref::{DerefPlan, Macro, StructSyntax};
use moxy_derive::error::{Error, ShapeKind};
use moxy_derive::field::FieldName;
use moxy_derive::params::{
    Data, DataStruct, DeriveInput, Fields, Generics, Member, Params, StructParams,
};
use moxy_derive::token::{lex, Token};

fn toks(text: &str) -> Vec<Token> {
    lex(text).unwrap()
}

fn member(name: Option<&str>, ty: &str, annotation: &str) -> Member {
    let attrs = if annotation.is_empty() {
        vec![]
    } else {
        vec![RawAttribute { path: toks("moxy"), body: AttrBody::List(toks(annotation)) }]
    };
    Member { attrs, vis: vec![], ident: name.map(|n| n.to_string()), ty: toks(ty) }
}

fn input(name: &str) -> DeriveInput {
    DeriveInput {
        attrs: vec![],
        vis: toks("pub"),
        ident: name.to_string(),
        generics: Generics { params: vec![], where_clause: vec![] },
    }
}

fn record(name: &str, fields: Fields, members: Vec<Member>) -> StructParams {
    StructParams { input: input(name), data: DataStruct { fields, members } }
}

/// What dereferencing a record of strings gives: the member that the
/// plan names.
fn deref<'a>(plan: &DerefPlan, members: &[(&str, &'a str)]) -> &'a str {
    let name = plan.field.to_text();
    members.iter().find(|(n, _)| *n == name).unwrap().1
}

#[test]
pub fn test_len() {
    let tuple_email = StructSyntax
        .render(&record("TupleEmail", Fields::Unnamed, vec![member(None, "String", "")]))
        .unwrap();
    assert_eq!(deref(&tuple_email, &[("0", "testing")]).len(), 7);

    let email = StructSyntax
        .render(&record("Email", Fields::Named, vec![member(Some("raw"), "String", "")]))
        .unwrap();
    assert_eq!(deref(&email, &[("raw", "testing")]).len(), 7);

    let user = StructSyntax
        .render(&record(
            "User",
            Fields::Named,
            vec![
                member(Some("name"), "String", ""),
                member(Some("email"), "String", "deref"),
                member(Some("phone"), "String", ""),
            ],
        ))
        .unwrap();
    assert_eq!(user.field, FieldName::Ident("email".to_string()));
    assert_eq!(deref(&user, &[("name", "test"), ("email", "testing"), ("phone", "")]).len(), 7);
}

#[test]
fn the_plan_names_the_member_and_its_type() {
    let plan = StructSyntax
        .render(&record(
            "Pair",
            Fields::Unnamed,
            vec![member(None, "u8", ""), member(None, "Vec<u8>", "deref")],
        ))
        .unwrap();
    assert_eq!(plan.target, "Pair");
    assert_eq!(plan.field, FieldName::Index(1));
    assert_eq!(plan.ty, toks("Vec<u8>"));
}

#[test]
fn a_record_without_members_has_nothing_to_dereference_to() {
    assert_eq!(
        StructSyntax.render(&record("Unit", Fields::Unit, vec![])),
        Err(Error::Shape { shape: ShapeKind::FieldNotFound })
    );
}

#[test]
fn only_records_are_served() {
    let params = Params::parse(
        input("P"),
        Data::Struct(DataStruct { fields: Fields::Unit, members: vec![] }),
    )
    .unwrap();
    assert!(params.is_struct());
    assert_eq!(params.as_struct().unwrap().input.ident, "P");
    assert_eq!(params.input().ident, "P");
    assert!(matches!(
        Params::parse(input("E"), Data::Enum),
        Err(Error::Shape { shape: ShapeKind::NotARecord })
    ));
    assert!(matches!(
        Params::parse(input("U"), Data::Union),
        Err(Error::Shape { shape: ShapeKind::NotARecord })
    ));
}

#[test]
fn only_records_are_dereferenced() {
    let data = Data::Struct(DataStruct {
        fields: Fields::Named,
        members: vec![member(Some("raw"), "String", "")],
    });
    let parsed = Macro::parse(input("Email"), data).unwrap();
    assert_eq!(parsed.render().unwrap().field, FieldName::Ident("raw".to_string()));
    assert!(matches!(
        Macro::parse(input("E"), Data::Enum),
        Err(Error::Shape { shape: ShapeKind::NotARecord })
    ));
}

#[test]
fn a_declaration_is_rendered_by_its_kind() {
    let m = Macro::Struct(record("Email", Fields::Named, vec![member(Some("raw"), "String", "")]));
    assert_eq!(m.render().unwrap().field, FieldName::Ident("raw".to_string()));
}
