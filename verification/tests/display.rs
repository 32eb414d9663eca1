use std::fmt;

use colored::Colorize;
use moxy_derive::attr::{AttrBody, RawAttribute};
use moxy_derive::display::{Body, CustomArg, DisplayPlan, StructSyntax};
use moxy_derive::error::{Error, Place, ShapeKind};
use moxy_derive::field::{literal_text, FieldName};
use moxy_derive::layout::{FmtArg, Paint};
use moxy_derive::params::{DataStruct, DeriveInput, Fields, Generics, Member, StructParams};
use moxy_derive::token::{lex, render, Token};

// ── Building declarations ────────────────────────────────────────────────────

fn toks(text: &str) -> Vec<Token> {
    lex(text).unwrap()
}

fn moxy(args: &str) -> RawAttribute {
    RawAttribute { path: toks("moxy"), body: AttrBody::List(toks(args)) }
}

fn named(name: &str, ty: &str, attrs: Vec<RawAttribute>) -> Member {
    Member { attrs, vis: vec![], ident: Some(name.to_string()), ty: toks(ty) }
}

fn unnamed(ty: &str) -> Member {
    Member { attrs: vec![], vis: vec![], ident: None, ty: toks(ty) }
}

fn record(name: &str, attrs: Vec<RawAttribute>, fields: Fields, members: Vec<Member>) -> StructParams {
    StructParams {
        input: DeriveInput {
            attrs,
            vis: toks("pub"),
            ident: name.to_string(),
            generics: Generics { params: vec![], where_clause: vec![] },
        },
        data: DataStruct { fields, members },
    }
}

/// A record with the members `name: String` and `email: String`.
fn person(name: &str, display: &[&str]) -> StructParams {
    record(
        name,
        display.iter().map(|d| moxy(d)).collect(),
        Fields::Named,
        vec![named("name", "String", vec![]), named("email", "String", vec![])],
    )
}

/// A tuple record of a `String` and an `i32`.
fn pair(name: &str, display: &[&str]) -> StructParams {
    record(
        name,
        display.iter().map(|d| moxy(d)).collect(),
        Fields::Unnamed,
        vec![unnamed("String"), unnamed("i32")],
    )
}

// ── Running a plan on values ─────────────────────────────────────────────────

#[derive(Clone)]
enum Val {
    Str(String),
    Int(i64),
}

impl Val {
    fn shown(&self) -> String {
        match self {
            Val::Str(s) => format!("{}", s),
            Val::Int(i) => format!("{}", i),
        }
    }

    fn debugged(&self) -> String {
        match self {
            Val::Str(s) => format!("{:?}", s),
            Val::Int(i) => format!("{:?}", i),
        }
    }

    fn json(&self) -> serde_json::Value {
        match self {
            Val::Str(s) => serde_json::Value::from(s.as_str()),
            Val::Int(i) => serde_json::Value::from(*i),
        }
    }
}

impl fmt::Debug for Val {
    fn fmt(&self, f: &mut fmt::Formatter<'_>) -> fmt::Result {
        match self {
            Val::Str(s) => fmt::Debug::fmt(s, f),
            Val::Int(i) => fmt::Debug::fmt(i, f),
        }
    }
}

fn s(text: &str) -> Val {
    Val::Str(text.to_string())
}

/// The values of a record's members by name or position, and of the
/// expressions that a pattern uses by their text.
struct Shown<'a> {
    plan: &'a DisplayPlan,
    members: Vec<(&'a str, Val)>,
    exprs: Vec<(&'a str, Val)>,
}

impl Shown<'_> {
    fn member(&self, name: &FieldName) -> Val {
        let key = name.to_text();
        self.members.iter().find(|(k, _)| *k == key).map(|(_, v)| v.clone()).unwrap()
    }

    fn expr(&self, tokens: &Vec<Token>) -> Val {
        let key = render(tokens);
        self.exprs.iter().find(|(k, _)| *k == key).map(|(_, v)| v.clone()).unwrap()
    }

    fn argument(&self, arg: &FmtArg, debug: bool) -> String {
        match arg {
            FmtArg::Member(f) => {
                if debug {
                    self.member(f).debugged()
                } else {
                    self.member(f).shown()
                }
            }
            FmtArg::Painted { text, color, bold } => {
                let text = match text {
                    Paint::Literal(t) => t.clone(),
                    Paint::Shown(f) => self.member(f).shown(),
                    Paint::Debugged(f) => self.member(f).debugged(),
                };
                let painted = text.truecolor(color.r, color.g, color.b);
                if *bold {
                    format!("{}", painted.bold())
                } else {
                    format!("{}", painted)
                }
            }
        }
    }

    /// Expands a format string: `{{` and `}}` are braces, `{}` and
    /// `{:?}` take the next argument, `{name}` takes the member bound
    /// under that name.
    fn expand(&self, fmt: &str, mut next: impl FnMut(bool) -> String, binds: &[String]) -> String {
        let chars: Vec<char> = fmt.chars().collect();
        let mut out = String::new();
        let mut i = 0;
        while i < chars.len() {
            if chars[i] == '{' && chars.get(i + 1) == Some(&'{') {
                out.push('{');
                i += 2;
            } else if chars[i] == '}' && chars.get(i + 1) == Some(&'}') {
                out.push('}');
                i += 2;
            } else if chars[i] == '{' {
                let close = (i..chars.len()).find(|k| chars[*k] == '}').unwrap();
                let inside: String = chars[i + 1..close].iter().collect();
                if inside.is_empty() {
                    out.push_str(&next(false));
                } else if inside == ":?" {
                    out.push_str(&next(true));
                } else {
                    assert!(binds.contains(&inside), "`{}` is not in scope", inside);
                    out.push_str(&self.member(&FieldName::Ident(inside)).shown());
                }
                i = close + 1;
            } else {
                out.push(chars[i]);
                i += 1;
            }
        }
        out
    }
}

impl fmt::Display for Shown<'_> {
    fn fmt(&self, f: &mut fmt::Formatter<'_>) -> fmt::Result {
        match &self.plan.body {
            Body::Write { fmt, args } => {
                let mut rest = args.iter();
                let text = self.expand(fmt, |debug| self.argument(rest.next().unwrap(), debug), &[]);
                assert!(rest.next().is_none());
                f.write_str(&text)
            }
            Body::Debug { name, named, entries } => {
                if *named {
                    let mut out = f.debug_struct(name);
                    for e in entries {
                        out.field(&e.label, &self.member(&e.field));
                    }
                    out.finish()
                } else {
                    let mut out = f.debug_tuple(name);
                    for e in entries {
                        out.field(&self.member(&e.field));
                    }
                    out.finish()
                }
            }
            Body::Json { named, pretty, entries } => {
                let value = if *named {
                    let mut map = serde_json::Map::new();
                    for e in entries {
                        map.insert(e.label.clone(), self.member(&e.field).json());
                    }
                    serde_json::Value::Object(map)
                } else {
                    serde_json::Value::Array(
                        entries.iter().map(|e| self.member(&e.field).json()).collect(),
                    )
                };
                let text = if *pretty {
                    serde_json::to_string_pretty(&value)
                } else {
                    serde_json::to_string(&value)
                };
                f.write_str(&text.unwrap_or_default())
            }
            Body::Custom { pattern, binds, values } => {
                let pattern = literal_text(pattern).unwrap();
                let mut rest = values.iter();
                let text = self.expand(
                    &pattern,
                    |_| match rest.next().unwrap() {
                        CustomArg::Expr(tokens) => self.expr(tokens).shown(),
                        CustomArg::Member(field) => self.member(field).shown(),
                    },
                    binds,
                );
                f.write_str(&text)
            }
        }
    }
}

const PLAIN: StructSyntax = StructSyntax { json: false, color: false };
const JSON: StructSyntax = StructSyntax { json: true, color: false };
const COLOR: StructSyntax = StructSyntax { json: false, color: true };

fn show(syntax: StructSyntax, params: &StructParams, members: Vec<(&str, Val)>) -> String {
    show_with(syntax, params, members, vec![])
}

fn show_with(
    syntax: StructSyntax,
    params: &StructParams,
    members: Vec<(&str, Val)>,
    exprs: Vec<(&str, Val)>,
) -> String {
    let plan = syntax.render(params).unwrap();
    Shown { plan: &plan, members, exprs }.to_string()
}

fn john() -> Vec<(&'static str, Val)> {
    vec![("name", s("John")), ("email", s("john@example.com"))]
}

fn hello(second: Val) -> Vec<(&'static str, Val)> {
    vec![("0", s("hello")), ("1", second)]
}

// ── Tests ────────────────────────────────────────────────────────────────────

#[test]
fn test_named_default() {
    let v = show(PLAIN, &person("NamedDefault", &[]), john());
    println!("{v}");
    assert_eq!(v, "NamedDefault { name: John, email: john@example.com }");
}

#[test]
fn test_tuple_default() {
    let params = record(
        "TupleDefault",
        vec![],
        Fields::Unnamed,
        vec![unnamed("String"), unnamed("String")],
    );
    let v = show(PLAIN, &params, hello(s("world")));
    println!("{v}");
    assert_eq!(v, "TupleDefault(hello, world)");
}

#[test]
fn test_unit_default() {
    let v = show(PLAIN, &record("UnitDefault", vec![], Fields::Unit, vec![]), vec![]);
    println!("{v}");
    assert_eq!(v, "UnitDefault");
}

#[test]
fn test_skip() {
    let params = record(
        "Ignored",
        vec![],
        Fields::Named,
        vec![
            named("name", "String", vec![]),
            named(
                "email",
                "String",
                vec![
                    moxy("display(skip)"),
                    RawAttribute { path: toks("allow"), body: AttrBody::List(toks("unused")) },
                ],
            ),
        ],
    );
    let v = show(PLAIN, &params, john());
    println!("{v}");
    assert_eq!(v, "Ignored { name: John }");
}

#[test]
fn test_custom_fmt() {
    let params = person(
        "CustomFmt",
        &["display(\"hi! my name is {name} and my email is {email}\")"],
    );
    let v = show(PLAIN, &params, john());
    println!("{v}");
    assert_eq!(v, "hi! my name is John and my email is john@example.com");
}

#[test]
fn test_debug_mode() {
    let v = show(PLAIN, &person("DebugMode", &["display(debug)"]), john());
    println!("{v}");
    assert_eq!(v, "DebugMode { name: \"John\", email: \"john@example.com\" }");
}

#[test]
fn test_compact_mode() {
    let v = show(PLAIN, &person("CompactMode", &["display(compact)"]), john());
    println!("{v}");
    assert_eq!(v, "John john@example.com");
}

#[test]
fn test_keyvalue_mode() {
    let v = show(PLAIN, &person("KeyValueMode", &["display(keyvalue)"]), john());
    println!("{v}");
    assert_eq!(v, "name=John email=john@example.com");
}

#[test]
fn test_map_mode() {
    let v = show(PLAIN, &person("MapMode", &["display(map)"]), john());
    println!("{v}");
    assert_eq!(v, "{ name: John, email: john@example.com }");
}

#[test]
fn test_tuple_debug() {
    let v = show(PLAIN, &pair("TupleDebug", &["display(debug)"]), hello(Val::Int(42)));
    println!("{v}");
    assert_eq!(v, "TupleDebug(\"hello\", 42)");
}

#[test]
fn test_tuple_compact() {
    let v = show(PLAIN, &pair("TupleCompact", &["display(compact)"]), hello(Val::Int(42)));
    println!("{v}");
    assert_eq!(v, "hello 42");
}

#[test]
fn test_default_pretty() {
    let v = show(PLAIN, &person("DefaultPretty", &["display(pretty)"]), john());
    println!("{v}");
    assert_eq!(v, "DefaultPretty {\n    name: John,\n    email: john@example.com,\n}");
}

#[test]
fn test_tuple_default_pretty() {
    let v = show(PLAIN, &pair("TupleDefaultPretty", &["display(pretty)"]), hello(Val::Int(42)));
    println!("{v}");
    assert_eq!(v, "TupleDefaultPretty(\n    hello,\n    42,\n)");
}

#[test]
fn test_debug_pretty() {
    let v = show(PLAIN, &person("DebugPretty", &["display(debug, pretty)"]), john());
    println!("{v}");
    assert_eq!(
        v,
        "DebugPretty {\n    name: \"John\",\n    email: \"john@example.com\",\n}"
    );
}

#[test]
fn test_tuple_debug_pretty() {
    let v = show(
        PLAIN,
        &pair("TupleDebugPretty", &["display(debug, pretty)"]),
        hello(Val::Int(42)),
    );
    println!("{v}");
    assert_eq!(v, "TupleDebugPretty(\n    \"hello\",\n    42,\n)");
}

#[test]
fn test_keyvalue_pretty() {
    let v = show(PLAIN, &person("KeyValuePretty", &["display(keyvalue, pretty)"]), john());
    println!("{v}");
    assert_eq!(v, "name=John\nemail=john@example.com");
}

#[test]
fn test_map_pretty() {
    let v = show(PLAIN, &person("MapPretty", &["display(map, pretty)"]), john());
    println!("{v}");
    assert_eq!(v, "{\n    name: John,\n    email: john@example.com,\n}");
}

#[test]
fn test_aliased_struct() {
    let v = show(PLAIN, &person("AliasedStruct", &["display(alias = \"User\")"]), john());
    println!("{v}");
    assert_eq!(v, "User { name: John, email: john@example.com }");
}

#[test]
fn test_aliased_field() {
    let params = record(
        "AliasedField",
        vec![],
        Fields::Named,
        vec![
            named("name", "String", vec![moxy("display(alias = \"full_name\")")]),
            named("email", "String", vec![]),
        ],
    );
    let v = show(PLAIN, &params, john());
    println!("{v}");
    assert_eq!(v, "AliasedField { full_name: John, email: john@example.com }");
}

#[test]
fn test_aliased_debug() {
    let params = record(
        "AliasedDebug",
        vec![moxy("display(debug, alias = \"U\")")],
        Fields::Named,
        vec![
            named("name", "String", vec![moxy("display(alias = \"n\")")]),
            named("email", "String", vec![]),
        ],
    );
    let v = show(PLAIN, &params, john());
    println!("{v}");
    assert_eq!(v, "U { n: \"John\", email: \"john@example.com\" }");
}

#[test]
fn test_self_field_access() {
    let params = record(
        "SelfFieldAccess",
        vec![moxy("display(\"{}\", self.name)")],
        Fields::Named,
        vec![named("name", "String", vec![])],
    );
    let v = show_with(PLAIN, &params, vec![("name", s("John"))], vec![("self . name", s("John"))]);
    println!("{v}");
    assert_eq!(v, "John");
}

#[test]
fn test_self_method_call() {
    let params = record(
        "SelfMethodCall",
        vec![moxy("display(\"{}\", self.greeting())")],
        Fields::Named,
        vec![named("name", "String", vec![])],
    );
    let greeting = format!("Hello, {}!", "John");
    let v = show_with(
        PLAIN,
        &params,
        vec![("name", s("John"))],
        vec![("self . greeting ()", s(&greeting))],
    );
    println!("{v}");
    assert_eq!(v, "Hello, John!");
}

#[test]
fn test_field_expr() {
    let params = record(
        "FieldExpr",
        vec![moxy("display(\"double: {}\", count * 2)")],
        Fields::Named,
        vec![named("count", "i32", vec![])],
    );
    let count = 5;
    let v = show_with(
        PLAIN,
        &params,
        vec![("count", Val::Int(count))],
        vec![("count * 2", Val::Int(count * 2))],
    );
    println!("{v}");
    assert_eq!(v, "double: 10");
}

fn aged(name: &str, display: &[&str]) -> StructParams {
    record(
        name,
        display.iter().map(|d| moxy(d)).collect(),
        Fields::Named,
        vec![named("name", "String", vec![]), named("age", "i32", vec![])],
    )
}

#[test]
fn test_json_named() {
    let v = show(
        JSON,
        &aged("JsonNamed", &["display(json)"]),
        vec![("name", s("John")), ("age", Val::Int(30))],
    );
    println!("{v}");
    assert_eq!(v, r#"{"age":30,"name":"John"}"#);
}

#[test]
fn test_json_pretty() {
    let v = show(
        JSON,
        &aged("JsonPretty", &["display(json, pretty)"]),
        vec![("name", s("John")), ("age", Val::Int(30))],
    );
    println!("{v}");
    assert_eq!(v, "{\n  \"age\": 30,\n  \"name\": \"John\"\n}");
}

#[test]
fn test_json_tuple() {
    let v = show(JSON, &pair("JsonTuple", &["display(json)"]), hello(Val::Int(42)));
    println!("{v}");
    assert_eq!(v, r#"["hello",42]"#);
}

#[test]
fn test_json_skip() {
    let params = record(
        "JsonSkip",
        vec![moxy("display(json)")],
        Fields::Named,
        vec![
            named("name", "String", vec![]),
            named("secret", "String", vec![moxy("display(skip)")]),
        ],
    );
    let v = show(JSON, &params, vec![("name", s("John")), ("secret", s("hidden"))]);
    println!("{v}");
    assert_eq!(v, r#"{"name":"John"}"#);
}

#[test]
fn test_json_alias() {
    let params = record(
        "JsonAlias",
        vec![moxy("display(json, alias = \"Person\")")],
        Fields::Named,
        vec![named("name", "String", vec![moxy("display(alias = \"full_name\")")])],
    );
    let v = show(JSON, &params, vec![("name", s("John"))]);
    println!("{v}");
    assert_eq!(v, r#"{"full_name":"John"}"#);
}

#[test]
fn test_color_default() {
    let v = show(COLOR, &person("ColorDefault", &["display(color)"]), john());
    println!("{v}");
    let expected = format!(
        "{}{}{}{}{}{}{}{}{}{}",
        "ColorDefault".truecolor(139, 233, 253).bold(),
        " { ".truecolor(248, 248, 242),
        "name".truecolor(255, 121, 198),
        ": ".truecolor(248, 248, 242),
        "John".truecolor(241, 250, 140),
        ", ".truecolor(248, 248, 242),
        "email".truecolor(255, 121, 198),
        ": ".truecolor(248, 248, 242),
        "john@example.com".truecolor(241, 250, 140),
        " }".truecolor(248, 248, 242),
    );
    assert_eq!(v, expected);
}

#[test]
fn test_color_pretty() {
    let v = show(COLOR, &person("ColorPretty", &["display(color, pretty)"]), john());
    println!("{v}");
    let expected = format!(
        "{}{}    {}{}{}{}    {}{}{}{}{}",
        "ColorPretty".truecolor(139, 233, 253).bold(),
        " {\n".truecolor(248, 248, 242),
        "name".truecolor(255, 121, 198),
        ": ".truecolor(248, 248, 242),
        "John".truecolor(241, 250, 140),
        ",\n".truecolor(248, 248, 242),
        "email".truecolor(255, 121, 198),
        ": ".truecolor(248, 248, 242),
        "john@example.com".truecolor(241, 250, 140),
        ",\n".truecolor(248, 248, 242),
        "}".truecolor(248, 248, 242),
    );
    assert_eq!(v, expected);
}

#[test]
fn test_color_tuple() {
    let v = show(COLOR, &pair("ColorTuple", &["display(color)"]), hello(Val::Int(42)));
    println!("{v}");
    let expected = format!(
        "{}{}{}{}{}{}",
        "ColorTuple".truecolor(139, 233, 253).bold(),
        "(".truecolor(248, 248, 242),
        "hello".truecolor(241, 250, 140),
        ", ".truecolor(248, 248, 242),
        "42".truecolor(241, 250, 140),
        ")".truecolor(248, 248, 242),
    );
    assert_eq!(v, expected);
}

#[test]
fn test_debug_color() {
    let v = show(COLOR, &person("DebugColor", &["display(debug, color)"]), john());
    println!("{v}");
    let expected = format!(
        "{}{}{}{}{}{}{}{}{}{}",
        "DebugColor".truecolor(139, 233, 253).bold(),
        " { ".truecolor(248, 248, 242),
        "name".truecolor(255, 121, 198),
        ": ".truecolor(248, 248, 242),
        format!("{:?}", "John").truecolor(241, 250, 140),
        ", ".truecolor(248, 248, 242),
        "email".truecolor(255, 121, 198),
        ": ".truecolor(248, 248, 242),
        format!("{:?}", "john@example.com").truecolor(241, 250, 140),
        " }".truecolor(248, 248, 242),
    );
    assert_eq!(v, expected);
}

#[test]
fn test_map_color() {
    let v = show(COLOR, &person("MapColor", &["display(map, color)"]), john());
    println!("{v}");
    let expected = format!(
        "{}{}{}{}{}{}{}{}{}",
        "{ ".truecolor(248, 248, 242),
        "name".truecolor(255, 121, 198),
        ": ".truecolor(248, 248, 242),
        "John".truecolor(241, 250, 140),
        ", ".truecolor(248, 248, 242),
        "email".truecolor(255, 121, 198),
        ": ".truecolor(248, 248, 242),
        "john@example.com".truecolor(241, 250, 140),
        " }".truecolor(248, 248, 242),
    );
    assert_eq!(v, expected);
}

#[test]
fn test_keyvalue_color() {
    let v = show(COLOR, &person("KeyValueColor", &["display(keyvalue, color)"]), john());
    println!("{v}");
    let expected = format!(
        "{}{}{} {}{}{}",
        "name".truecolor(255, 121, 198),
        "=".truecolor(248, 248, 242),
        "John".truecolor(241, 250, 140),
        "email".truecolor(255, 121, 198),
        "=".truecolor(248, 248, 242),
        "john@example.com".truecolor(241, 250, 140),
    );
    assert_eq!(v, expected);
}

#[test]
fn test_dracula() {
    let v = show(COLOR, &person("Dracula", &["display(color = \"dracula\")"]), john());
    println!("{v}");
    let expected = format!(
        "{}{}{}{}{}{}{}{}{}{}",
        "Dracula".truecolor(139, 233, 253).bold(),
        " { ".truecolor(248, 248, 242),
        "name".truecolor(255, 121, 198),
        ": ".truecolor(248, 248, 242),
        "John".truecolor(241, 250, 140),
        ", ".truecolor(248, 248, 242),
        "email".truecolor(255, 121, 198),
        ": ".truecolor(248, 248, 242),
        "john@example.com".truecolor(241, 250, 140),
        " }".truecolor(248, 248, 242),
    );
    assert_eq!(v, expected);
}

#[test]
fn test_atom_one_dark() {
    let v = show(COLOR, &person("AtomOneDark", &["display(color = \"atom-one-dark\")"]), john());
    println!("{v}");
    let expected = format!(
        "{}{}{}{}{}{}{}{}{}{}",
        "AtomOneDark".truecolor(230, 192, 123).bold(),
        " { ".truecolor(171, 178, 191),
        "name".truecolor(198, 120, 221),
        ": ".truecolor(171, 178, 191),
        "John".truecolor(152, 195, 121),
        ", ".truecolor(171, 178, 191),
        "email".truecolor(198, 120, 221),
        ": ".truecolor(171, 178, 191),
        "john@example.com".truecolor(152, 195, 121),
        " }".truecolor(171, 178, 191),
    );
    assert_eq!(v, expected);
}

#[test]
fn test_github_dark() {
    let v = show(COLOR, &person("GitHubDark", &["display(color = \"github-dark\")"]), john());
    println!("{v}");
    let expected = format!(
        "{}{}{}{}{}{}{}{}{}{}",
        "GitHubDark".truecolor(121, 192, 255).bold(),
        " { ".truecolor(201, 209, 217),
        "name".truecolor(255, 123, 114),
        ": ".truecolor(201, 209, 217),
        "John".truecolor(165, 214, 255),
        ", ".truecolor(201, 209, 217),
        "email".truecolor(255, 123, 114),
        ": ".truecolor(201, 209, 217),
        "john@example.com".truecolor(165, 214, 255),
        " }".truecolor(201, 209, 217),
    );
    assert_eq!(v, expected);
}

// ── The plans themselves ─────────────────────────────────────────────────────

fn written(syntax: StructSyntax, params: &StructParams) -> (String, Vec<FmtArg>) {
    match syntax.render(params).unwrap().body {
        Body::Write { fmt, args } => (fmt, args),
        other => panic!("not written: {:?}", other),
    }
}

fn field(name: &str) -> FmtArg {
    FmtArg::Member(FieldName::Ident(name.to_string()))
}

#[test]
fn default_format_string_escapes_its_braces() {
    let (fmt, args) = written(PLAIN, &person("P", &[]));
    assert_eq!(fmt, "P {{ name: {}, email: {} }}");
    assert_eq!(args, vec![field("name"), field("email")]);
}

#[test]
fn pretty_debug_format_string_uses_debug_placeholders() {
    let (fmt, args) = written(PLAIN, &person("P", &["display(debug, pretty)"]));
    assert_eq!(fmt, "P {{\n    name: {:?},\n    email: {:?},\n}}");
    assert_eq!(args, vec![field("name"), field("email")]);
}

#[test]
fn keyvalue_colour_keeps_the_gap_in_the_format_string() {
    let (fmt, args) = written(COLOR, &person("P", &["display(keyvalue, color)"]));
    assert_eq!(fmt, "{}{}{} {}{}{}");
    assert_eq!(args.len(), 6);
}

#[test]
fn compact_ignores_colour() {
    let (fmt, args) = written(COLOR, &person("P", &["display(compact, color)"]));
    assert_eq!(fmt, "{} {}");
    assert_eq!(args, vec![field("name"), field("email")]);
    assert!(COLOR.render(&person("P", &["display(compact, color)"])).unwrap().colored);
}

#[test]
fn json_is_no_style_while_switched_off() {
    let (fmt, _) = written(PLAIN, &person("P", &["display(json)"]));
    assert_eq!(fmt, "P {{ name: {}, email: {} }}");
}

#[test]
fn colour_is_ignored_while_switched_off() {
    let plan = PLAIN.render(&person("P", &["display(color)"])).unwrap();
    assert!(!plan.colored);
}

#[test]
fn two_styles_conflict() {
    assert_eq!(
        PLAIN.render(&person("P", &["display(debug, map)"])),
        Err(Error::Shape { shape: ShapeKind::ConflictingStyles })
    );
    assert_eq!(
        PLAIN.render(&person("P", &["display(debug)", "display(compact)"])),
        Err(Error::Shape { shape: ShapeKind::ConflictingStyles })
    );
}

#[test]
fn occurrences_of_display_are_merged() {
    let v = show(PLAIN, &person("P", &["display(map)", "display(pretty)", "display(map)"]), john());
    assert_eq!(v, "{\n    name: John,\n    email: john@example.com,\n}");
}

#[test]
fn a_record_with_every_member_skipped_shows_its_name() {
    let params = record(
        "Hidden",
        vec![moxy("display(debug)")],
        Fields::Named,
        vec![named("secret", "String", vec![moxy("display(skip)")])],
    );
    assert_eq!(show(PLAIN, &params, vec![]), "Hidden");
}

#[test]
fn a_tuple_pattern_without_arguments_takes_the_members() {
    let params = pair("P", &["display(\"{}-{}\")"]);
    assert_eq!(show(PLAIN, &params, hello(Val::Int(42))), "hello-42");
}

#[test]
fn conflicting_member_aliases_are_reported() {
    let params = record(
        "P",
        vec![],
        Fields::Named,
        vec![named(
            "name",
            "String",
            vec![moxy("display(alias = \"a\")"), moxy("display(alias = \"b\")")],
        )],
    );
    assert_eq!(
        PLAIN.render(&params),
        Err(Error::Conflict {
            key: "alias".to_string(),
            place: Place { member: Some(0), attribute: None, path: vec![1, 0] },
        })
    );
}
