use moxy_derive::arg::Arg;
use moxy_derive::attr::{Attr, AttrBody, Attrs, RawAttribute};
use moxy_derive::error::{Error, GrammarKind, Place};
use moxy_derive::grammar::parse_list;
use moxy_derive::token::{lex, Token};

fn toks(text: &str) -> Vec<Token> {
    lex(text).unwrap()
}

fn place(member: Option<usize>, attribute: Option<usize>, path: &[usize]) -> Place {
    Place { member, attribute, path: path.to_vec() }
}

/// A conflict under `key`, on the member given, at the end of `path`.
fn conflict(key: &str, member: Option<usize>, path: &[usize]) -> Error {
    Error::Conflict { key: key.to_string(), place: place(member, None, path) }
}

/// A malformed argument list.
fn grammar(kind: GrammarKind, member: Option<usize>, attribute: Option<usize>, path: &[usize]) -> Error {
    Error::Grammar { kind, place: place(member, attribute, path) }
}

fn args(text: &str) -> Vec<Arg> {
    parse_list(&toks(text)).unwrap()
}

/// The annotation `feature(..)` with the arguments given.
fn feature(text: &str) -> Attr {
    Attr::new(toks("feature"), args(text))
}

fn raw(path: &str, text: &str) -> RawAttribute {
    RawAttribute { path: toks(path), body: AttrBody::List(toks(text)) }
}

fn attrs(texts: &[&str]) -> Attrs {
    let raws: Vec<RawAttribute> = texts.iter().map(|t| raw("moxy", t)).collect();
    Attrs::parse(&raws).unwrap()
}

#[test]
fn merge_conflict_names_the_key() {
    assert_eq!(
        feature("key = 1").merge(&feature("key = 2")),
        Err(conflict("key", None, &[1, 0]))
    );
    assert_eq!(
        attrs(&["feature(key = 1)", "feature(key = 2)"]).get("feature"),
        Err(conflict("key", None, &[1, 0]))
    );
}

#[test]
fn merge_drops_identical_duplicates() {
    assert_eq!(feature("key = 1").merge(&feature("key = 1")), Ok(feature("key = 1")));
    assert_eq!(
        attrs(&["feature(key = 1)", "feature(key = 1)"]).get("feature"),
        Ok(args("key = 1"))
    );
}

#[test]
fn merge_appends_what_is_new_in_encounter_order() {
    assert_eq!(
        feature("a = 1, b").merge(&feature("c, a = 1, d = x")),
        Ok(feature("a = 1, b, c, d = x"))
    );
}

#[test]
fn merge_with_itself_is_merging_once() {
    let nothing = feature("");
    for text in ["", "a", "a = 1, b, \"s\", inner(x, y = 2)", "\"{}\", self.a", "k = 1, k = 1, g(x), g(y, x)"] {
        let a = feature(text);
        let once = a.merge(&nothing).unwrap();
        assert_eq!(a.merge(&a), Ok(once), "{}", text);
    }
    assert_eq!(feature("k = 1, k = 1, g(x), g(y, x)").merge(&nothing), Ok(feature("k = 1, g(x, y)")));
}

#[test]
fn one_occurrence_is_merged_too() {
    assert_eq!(attrs(&["feature(k = 1, k = 1)"]).get("feature"), Ok(args("k = 1")));
    assert_eq!(
        attrs(&["feature(k = 1, k = 2)"]).get("feature"),
        Err(conflict("k", None, &[0, 1]))
    );
    assert_eq!(
        attrs(&["feature(theme(a = 1, a = 2))"]).get("feature"),
        Err(conflict("a", None, &[0, 0, 1]))
    );
    assert_eq!(
        attrs(&["feature(theme(a, a), theme(b, a))"]).get("feature"),
        Ok(args("theme(a, b)"))
    );
    assert_eq!(
        feature("k = 1, k = 2").merge(&feature("")),
        Err(conflict("k", None, &[0, 1]))
    );
    assert_eq!(
        attrs(&["feature(\"{} {}\", self.a, self.b)"]).get("feature"),
        Err(conflict("__expr", None, &[0, 2]))
    );
}

#[test]
fn merge_recurses_into_nested_groups() {
    assert_eq!(
        feature("theme(a = 1), x").merge(&feature("theme(b = 2, a = 1), y")),
        Ok(feature("theme(a = 1, b = 2), x, y"))
    );
    assert_eq!(
        feature("theme(inner(a = 1))").merge(&feature("theme(inner(a = 2))")),
        Err(conflict("a", None, &[1, 0, 0, 0]))
    );
}

#[test]
fn merge_conflicts_across_forms() {
    assert_eq!(
        feature("key").merge(&feature("key = 1")),
        Err(conflict("key", None, &[1, 0]))
    );
    assert_eq!(
        feature("key(a)").merge(&feature("key")),
        Err(conflict("key", None, &[1, 0]))
    );
    assert_eq!(
        feature("a::b = 1").merge(&feature("a::b = 2")),
        Err(conflict("a :: b", None, &[1, 0]))
    );
}

#[test]
fn merge_keeps_the_first_path() {
    let merged = Attr::new(toks("first"), args("a")).merge(&Attr::new(toks("second"), args("b")));
    assert_eq!(merged, Ok(Attr::new(toks("first"), args("a, b"))));
}

#[test]
fn get_flattens_the_occurrences_of_a_feature() {
    let set = attrs(&["build(\"name\"), display(skip)", "other", "build(default = 1), build(on = f(value))"]);
    assert_eq!(set.get("build"), Ok(args("\"name\", default = 1, on = f(value)")));
    assert_eq!(set.get("display"), Ok(args("skip")));
    assert_eq!(set.get("other"), Ok(vec![]));
    assert_eq!(set.get("missing"), Ok(vec![]));
}

#[test]
fn has_looks_at_every_argument_of_every_annotation() {
    let set = attrs(&["build", "display(skip), deref = 1"]);
    assert_eq!(set.len(), 2);
    assert!(!set.is_empty());
    assert!(set.has("build"));
    assert!(set.has("display"));
    assert!(set.has("deref"));
    assert!(!set.has("skip"));
    assert!(!set.has("moxy"));
    assert!(attrs(&[]).is_empty());
}

#[test]
fn only_annotations_under_the_umbrella_are_parsed() {
    let raws = vec![
        raw("serde", "rename = ="),
        raw("moxy", "build"),
        RawAttribute { path: toks("doc"), body: AttrBody::Value(toks("\"text\"")) },
        RawAttribute { path: toks("inline"), body: AttrBody::Bare },
    ];
    let set = Attrs::parse(&raws).unwrap();
    assert_eq!(set.len(), 1);
    assert!(set.iter()[0].is_moxy());
    assert_eq!(set.iter()[0], Attr::new(toks("moxy"), args("build")));
}

#[test]
fn a_malformed_annotation_under_the_umbrella_is_an_error() {
    assert_eq!(
        Attrs::parse(&vec![raw("moxy", "build"), raw("moxy", "build(a b)")]).map(|a| a.len()),
        Err(grammar(GrammarKind::MalformedArgument, None, Some(1), &[1, 0]))
    );
    assert_eq!(
        Attrs::parse(&vec![RawAttribute { path: toks("moxy"), body: AttrBody::Value(toks("1")) }])
            .map(|a| a.len()),
        Err(grammar(GrammarKind::MissingArgument, None, Some(0), &[0]))
    );
}

#[test]
fn an_annotation_is_searched_by_key() {
    let a = feature("x, y = 1, x = 2");
    assert!(a.has("x"));
    assert!(a.has("y"));
    assert!(!a.has("z"));
    assert_eq!(a.position("y"), 1);
    assert_eq!(a.position("z"), 3);
    assert_eq!(a.get("x"), Some(&Arg::Flag(toks("x"))));
    assert_eq!(a.get("z"), None);
    assert_eq!(a.path(), &toks("feature"));
    assert_eq!(a.args().len(), 3);
    assert!(!a.is_moxy());
}

#[test]
fn an_argument_knows_its_form() {
    let all = args("flag, lit = 1, id = x, nested(a), \"s\", e = a + b, self.x");
    assert!(all[0].is_flag() && !all[0].is_lit());
    assert!(all[1].is_lit() && !all[1].is_ident());
    assert!(all[2].is_ident() && !all[2].is_attr());
    assert!(all[3].is_attr() && !all[3].is_expr());
    assert!(all[4].is_lit());
    assert!(all[5].is_expr() && !all[5].is_flag());
    assert!(all[6].is_expr());

    assert_eq!(all[0].path(), &toks("flag"));
    assert_eq!(all[3].path(), &toks("nested"));
    assert_eq!(all[4].path(), &toks("__value"));
    assert_eq!(all[6].path(), &toks("__expr"));

    assert_eq!(all[1].as_lit(), Some(&toks("1")));
    assert_eq!(all[2].as_ident(), Some(&"x".to_string()));
    assert_eq!(all[3].as_attr().map(|a| a.args().len()), Some(1));
    assert_eq!(all[5].as_expr(), Some(&toks("a + b")));
    assert_eq!(all[0].as_lit(), None);
    assert_eq!(all[0].as_ident(), None);
    assert_eq!(all[0].as_attr(), None);
    assert_eq!(all[0].as_expr(), None);

    assert_eq!(all[0].as_value_tokens(), None);
    assert_eq!(all[1].as_value_tokens(), Some(toks("1")));
    assert_eq!(all[2].as_value_tokens(), Some(toks("x")));
    assert_eq!(all[3].as_value_tokens(), None);
    assert_eq!(all[5].as_value_tokens(), Some(toks("a + b")));

    assert_eq!(all[1].clone().to_lit(), Some(toks("1")));
    assert_eq!(all[2].clone().to_ident(), Some("x".to_string()));
    assert_eq!(all[3].clone().to_attr(), Some(Attr::new(toks("nested"), args("a"))));
    assert_eq!(all[0].clone().to_lit(), None);
}

#[test]
fn arguments_are_built_from_their_parts() {
    assert_eq!(Arg::from_flag(toks("a")), args("a")[0]);
    assert_eq!(Arg::from_lit(toks("a"), toks("1")), args("a = 1")[0]);
    assert_eq!(Arg::from_ident(toks("a"), "b".to_string()), args("a = b")[0]);
    assert_eq!(Arg::from_attr(feature("x")), args("feature(x)")[0]);
    assert_eq!(Arg::from_expr(toks("a"), toks("b.c")), args("a = b.c")[0]);
    assert_eq!(Arg::parse(&toks("a = 1")), Ok(Arg::from_lit(toks("a"), toks("1"))));
    assert_eq!(
        Arg::parse(&toks("a, b")),
        Err(grammar(GrammarKind::MalformedArgument, None, None, &[0]))
    );
}

#[test]
fn occurrences_merged_with_themselves_give_the_same() {
    let once = ["feature(a = 1, theme(x), \"s\")", "feature(b, theme(y = 2), a = 1)", "feature(theme(x, z))"];
    let twice: Vec<&str> = once.iter().chain(once.iter()).copied().collect();
    let merged = attrs(&once).get("feature").unwrap();
    assert_eq!(merged, args("a = 1, theme(x, y = 2, z), \"s\", b"));
    assert_eq!(attrs(&twice).get("feature"), Ok(merged));
}

#[test]
fn what_follows_a_value_is_no_part_of_it() {
    assert_eq!(args("a = x::<u8>, b")[0], args("a = x::<u8>")[0]);
    assert_eq!(args("x::<u8>, b")[0], args("x::<u8>")[0]);
    assert_eq!(args("a.., b")[0], args("a..")[0]);
    assert_eq!(
        feature("a = x::<u8>").merge(&feature("a = x::<u8>, b")),
        Ok(feature("a = x::<u8>, b"))
    );
}
