use moxy_derive::error::{Error, GrammarKind, Place, ShapeKind};

#[test]
fn every_error_describes_itself() {
    let grammar = |kind| Error::Grammar { kind, place: Place::index(3) }.message();
    assert_eq!(grammar(GrammarKind::Lexical), "malformed tokens");
    assert_eq!(grammar(GrammarKind::MissingArgument), "expected an argument");
    assert_eq!(grammar(GrammarKind::TrailingTokens), "unexpected tokens after a string");
    assert_eq!(grammar(GrammarKind::MalformedValue), "expected a value");
    assert_eq!(grammar(GrammarKind::MalformedArgument), "malformed argument");
    assert_eq!(
        Error::Conflict { key: "alias".to_string(), place: Place::new() }.message(),
        "conflicting values for `alias`"
    );
    let shape = |shape| Error::Shape { shape }.message();
    assert_eq!(shape(ShapeKind::NotARecord), "invalid type");
    assert_eq!(shape(ShapeKind::FieldNotFound), "field not found");
    assert_eq!(
        shape(ShapeKind::ConflictingStyles),
        "conflicting display styles; only one style may be specified"
    );
    assert_eq!(
        Error::NameCollision { name: "user".to_string(), place: Place::new() }.message(),
        "two fields share the operation name `user`"
    );
    assert_eq!(
        Error::InvalidName { name: "a b".to_string(), place: Place::new() }.message(),
        "no identifier: `a b`"
    );
}

#[test]
fn an_error_is_placed_from_the_inside_out() {
    let e = Error::Conflict { key: "k".to_string(), place: Place::new() };
    assert_eq!(e.place(), Some(&Place { member: None, attribute: None, path: vec![] }));
    let e = e.inside(2).inside(0).in_attribute(3).on_member(1);
    assert_eq!(
        e,
        Error::Conflict {
            key: "k".to_string(),
            place: Place { member: Some(1), attribute: Some(3), path: vec![0, 2] },
        }
    );
    assert_eq!(Place::index(4), Place { member: None, attribute: None, path: vec![4] });
    assert_eq!(Error::Shape { shape: ShapeKind::NotARecord }.place(), None);
    assert_eq!(
        Error::Shape { shape: ShapeKind::NotARecord }.inside(1).on_member(2),
        Error::Shape { shape: ShapeKind::NotARecord }
    );
}
