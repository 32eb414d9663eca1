use moxy_derive::attr::{AttrBody, RawAttribute};
use moxy_derive::error::{Error, Place};
use moxy_derive::field::FieldName;
use moxy_derive::params::{DataStruct, DeriveInput, Fields, Generics, Member, StructParams};
use moxy_derive::set::{SetPlan, Setter, StructSyntax};
use moxy_derive::token::{lex, render, Token};

fn toks(text: &str) -> Vec<Token> {
    lex(text).unwrap()
}

fn moxy(args: &str) -> RawAttribute {
    RawAttribute { path: toks("moxy"), body: AttrBody::List(toks(args)) }
}

/// A member; `annotation` is what stands in `#[moxy(..)]`, and the empty
/// text means that the member has no annotation.
fn member(name: &str, ty: &str, annotation: &str) -> Member {
    let attrs = if annotation.is_empty() { vec![] } else { vec![moxy(annotation)] };
    Member { attrs, vis: vec![], ident: Some(name.to_string()), ty: toks(ty) }
}

fn record(name: &str, members: Vec<Member>) -> StructParams {
    StructParams {
        input: DeriveInput {
            attrs: vec![],
            vis: vec![],
            ident: name.to_string(),
            generics: Generics { params: vec![], where_clause: vec![] },
        },
        data: DataStruct { fields: Fields::Named, members },
    }
}

fn plan(params: &StructParams) -> SetPlan {
    StructSyntax.render(params).unwrap()
}

/// A record as the setters see it: each member with what it holds.
struct Model {
    members: Vec<(String, Option<String>)>,
    calls: u32,
}

impl Model {
    fn new(members: &[(&str, Option<&str>)]) -> Model {
        Model {
            members: members
                .iter()
                .map(|(n, v)| (n.to_string(), v.map(|v| v.to_string())))
                .collect(),
            calls: 0,
        }
    }

    /// Calls the setter `method` of the plan with `value`, as the
    /// generated setter would run: the transform is applied where the
    /// plan has one, and the result is stored, wrapped where the member
    /// is an optional wrapper.
    fn call(&mut self, plan: &SetPlan, method: &str, value: &str) -> &mut Model {
        let setter: &Setter = plan.setters.iter().find(|s| s.method == method).unwrap();
        let stored = match &setter.transform {
            None => value.to_string(),
            Some(expr) if *expr == toks("value.to_lowercase()") => value.to_lowercase(),
            Some(expr) if *expr == toks("{ unsafe { SET_CALLBACK_COUNT += 1 }; value }") => {
                self.calls += 1;
                value.to_string()
            }
            Some(expr) => panic!("no meaning for `{}`", render(expr)),
        };
        let name = setter.field.to_text();
        let slot = self.members.iter_mut().find(|(n, _)| *n == name).unwrap();
        slot.1 = Some(stored);
        self
    }

    fn get(&self, name: &str) -> Option<String> {
        self.members.iter().find(|(n, _)| n == name).unwrap().1.clone()
    }
}

fn config() -> StructParams {
    record(
        "Config",
        vec![
            member("host", "String", "set"),
            member("port", "u16", "set"),
            member("read_only", "bool", ""),
        ],
    )
}

#[test]
fn test_basic_setter() {
    let plan = plan(&config());
    let mut cfg = Model::new(&[("host", Some("")), ("port", Some("0")), ("read_only", Some("false"))]);

    cfg.call(&plan, "set_host", "localhost");
    cfg.call(&plan, "set_port", "8080");

    assert_eq!(cfg.get("host").unwrap(), "localhost");
    assert_eq!(cfg.get("port").unwrap().parse::<u16>().unwrap(), 8080);
}

#[test]
fn test_chaining() {
    let plan = plan(&config());
    let mut cfg = Model::new(&[("host", Some("")), ("port", Some("0")), ("read_only", Some("false"))]);

    cfg.call(&plan, "set_host", "localhost").call(&plan, "set_port", "8080");

    assert_eq!(cfg.get("host").unwrap(), "localhost");
    assert_eq!(cfg.get("port").unwrap().parse::<u16>().unwrap(), 8080);
}

#[test]
fn test_option_setter() {
    let plan = plan(&record("Profile", vec![member("bio", "Option<String>", "set")]));
    assert!(plan.setters[0].wraps);
    assert_eq!(plan.setters[0].value_ty, toks("String"));
    let mut p = Model::new(&[("bio", None)]);
    p.call(&plan, "set_bio", "hello");
    assert_eq!(p.get("bio"), Some("hello".to_string()));
}

#[test]
fn set_test_custom_name() {
    let plan = plan(&record("Row", vec![member("row_id", "u64", "set(\"update_id\")")]));
    assert_eq!(plan.setters[0].field, FieldName::Ident("row_id".to_string()));
    let mut r = Model::new(&[("row_id", Some("0"))]);
    r.call(&plan, "update_id", "99");
    assert_eq!(r.get("row_id").unwrap().parse::<u64>().unwrap(), 99);
}

#[test]
fn test_on_transform() {
    let plan = plan(&record(
        "Normalized",
        vec![member("host", "String", "set(on = value.to_lowercase())")],
    ));
    let mut n = Model::new(&[("host", Some(""))]);
    n.call(&plan, "set_host", "LOCALHOST");
    assert_eq!(n.get("host").unwrap(), "localhost");
}

#[test]
fn test_on_side_effect() {
    let plan = plan(&record(
        "Observed",
        vec![member(
            "value",
            "String",
            "set(on = { unsafe { SET_CALLBACK_COUNT += 1 }; value })",
        )],
    ));
    let mut o = Model::new(&[("value", Some(""))]);

    o.calls = 0;
    o.call(&plan, "set_value", "a");
    assert_eq!(o.get("value").unwrap(), "a");
    assert_eq!(o.calls, 1);

    o.call(&plan, "set_value", "b");
    assert_eq!(o.get("value").unwrap(), "b");
    assert_eq!(o.calls, 2);
}

#[test]
fn set_test_doc_forwarding() {
    let mut host = member("host", "String", "set");
    host.attrs.insert(
        0,
        RawAttribute { path: toks("doc"), body: AttrBody::Value(toks("\" The host address\"")) },
    );
    let plan = plan(&record("WithDocs", vec![host]));
    assert_eq!(plan.setters[0].docs, vec![toks("\" The host address\"")]);
    let mut w = Model::new(&[("host", Some(""))]);
    w.call(&plan, "set_host", "localhost");
    assert_eq!(w.get("host").unwrap(), "localhost");
}

#[test]
fn only_annotated_members_get_a_setter() {
    let plan = plan(&config());
    let methods: Vec<&str> = plan.setters.iter().map(|s| s.method.as_str()).collect();
    assert_eq!(methods, vec!["set_host", "set_port"]);
    assert!(!plan.setters[0].wraps);
    assert_eq!(plan.setters[0].value_ty, toks("String"));
    assert_eq!(plan.setters[0].transform, None);
    assert_eq!(plan.target, "Config");
}

#[test]
fn conflicting_setter_names_are_reported() {
    let mut m = member("x", "u8", "set(\"a\")");
    m.attrs.push(moxy("set(\"b\")"));
    assert_eq!(
        StructSyntax.render(&record("P", vec![m])),
        Err(Error::Conflict {
            key: "__value".to_string(),
            place: Place { member: Some(0), attribute: None, path: vec![1, 0] },
        })
    );
}

#[test]
fn a_setter_name_is_an_identifier() {
    assert_eq!(
        StructSyntax.render(&record("P", vec![member("x", "u8", "set(\"set x\")")])),
        Err(Error::InvalidName {
            name: "set x".to_string(),
            place: Place { member: Some(0), attribute: None, path: vec![] },
        })
    );
}
