//! What can go wrong while one declaration is processed.

use vstd::prelude::*;

verus! {

/// How an argument list can be malformed.
#[derive(Clone, Copy, Debug, PartialEq, Eq, Structural)]
pub enum GrammarKind {
    /// The text is no sequence of tokens: a group is not closed, or a
    /// literal is malformed.
    Lexical,
    /// An argument was expected and nothing stands there.
    MissingArgument,
    /// A positional string is followed by more tokens.
    TrailingTokens,
    /// What follows `=` is no identifier, literal or expression.
    MalformedValue,
    /// The tokens are none of the forms an argument can take.
    MalformedArgument,
}

/// Why a declaration cannot be served at all.
#[derive(Clone, Copy, Debug, PartialEq, Eq, Structural)]
pub enum ShapeKind {
    /// The declaration is no record with a member list of its own.
    NotARecord,
    /// A member was needed and the declaration has none.
    FieldNotFound,
    /// More than one rendering style was asked for.
    ConflictingStyles,
}

/// Where in a declaration an error was found.
#[derive(Debug, PartialEq, Eq)]
pub struct Place {
    /// The index of the member that the error is on; `None` where it is
    /// on the declaration itself or the member is not known.
    pub member: Option<usize>,
    /// The index, among the attributes of the declaration or member, of
    /// the attribute whose arguments are malformed; `None` for an error
    /// that is no error of one attribute.
    pub attribute: Option<usize>,
    /// The way to the offending item, from the outside in. For a
    /// malformed argument list: the index of the offending token in the
    /// attribute's arguments, after the indices of the groups that hold
    /// it (the list's length where the list ends too early). For a
    /// conflict: the index of the occurrence of the feature, then the
    /// index of the offending argument in it, and so on into nested
    /// groups.
    pub path: Vec<usize>,
}

/// A place as a mathematical value.
pub struct PlaceView {
    pub member: Option<nat>,
    pub attribute: Option<nat>,
    pub path: Seq<nat>,
}

/// An index that may be missing, as a mathematical value.
pub open spec fn maybe_nat(i: Option<usize>) -> Option<nat> {
    match i {
        Some(n) => Some(n as nat),
        None => None,
    }
}

impl View for Place {
    type V = PlaceView;

    open spec fn view(&self) -> PlaceView {
        PlaceView {
            member: maybe_nat(self.member),
            attribute: maybe_nat(self.attribute),
            path: Seq::new(self.path.len() as nat, |i: int| self.path[i] as nat),
        }
    }
}

/// The place of which nothing is known yet.
pub open spec fn nowhere() -> PlaceView {
    PlaceView { member: None, attribute: None, path: Seq::empty() }
}

/// The place at one index of a list.
pub open spec fn at_index(i: nat) -> PlaceView {
    PlaceView { member: None, attribute: None, path: seq![i] }
}

impl Place {
    /// The place of which nothing is known yet.
    pub fn new() -> (r: Place)
        ensures
            r@ == nowhere(),
    {
        let r = Place { member: None, attribute: None, path: Vec::new() };
        assert(r@.path =~= Seq::empty());
        r
    }

    /// The place at one index of a list.
    pub fn index(i: usize) -> (r: Place)
        ensures
            r@ == at_index(i as nat),
    {
        let mut path: Vec<usize> = Vec::new();
        path.push(i);
        let r = Place { member: None, attribute: None, path };
        assert(r@.path =~= seq![i as nat]);
        r
    }
}

/// An error of generation. It ends the work on the declaration it was
/// found in and on no other.
#[derive(Debug, PartialEq, Eq)]
pub enum Error {
    /// An argument list is malformed, at the token that `place` leads
    /// to.
    Grammar { kind: GrammarKind, place: Place },
    /// Two arguments give one key two different values; `place` leads to
    /// the later of them.
    Conflict { key: String, place: Place },
    /// The declaration has an unsupported shape.
    Shape { shape: ShapeKind },
    /// Two members resolve to one operation name; `place` names the
    /// later of them.
    NameCollision { name: String, place: Place },
    /// The name asked for an operation of the member that `place` names
    /// is no identifier.
    InvalidName { name: String, place: Place },
}

/// An error as a mathematical value.
pub enum ErrorView {
    Grammar { kind: GrammarKind, place: PlaceView },
    Conflict { key: Seq<char>, place: PlaceView },
    Shape { shape: ShapeKind },
    NameCollision { name: Seq<char>, place: PlaceView },
    InvalidName { name: Seq<char>, place: PlaceView },
}

impl View for Error {
    type V = ErrorView;

    open spec fn view(&self) -> ErrorView {
        match self {
            Error::Grammar { kind, place } => ErrorView::Grammar { kind: *kind, place: place@ },
            Error::Conflict { key, place } => ErrorView::Conflict { key: key@, place: place@ },
            Error::Shape { shape } => ErrorView::Shape { shape: *shape },
            Error::NameCollision { name, place } => ErrorView::NameCollision {
                name: name@,
                place: place@,
            },
            Error::InvalidName { name, place } => ErrorView::InvalidName {
                name: name@,
                place: place@,
            },
        }
    }
}

/// The place of an error; an error of the declaration's shape has none.
pub open spec fn place_of(e: ErrorView) -> PlaceView {
    match e {
        ErrorView::Grammar { place, .. } => place,
        ErrorView::Conflict { place, .. } => place,
        ErrorView::Shape { .. } => nowhere(),
        ErrorView::NameCollision { place, .. } => place,
        ErrorView::InvalidName { place, .. } => place,
    }
}

/// An error with another place.
pub open spec fn placed(e: ErrorView, place: PlaceView) -> ErrorView {
    match e {
        ErrorView::Grammar { kind, .. } => ErrorView::Grammar { kind, place },
        ErrorView::Conflict { key, .. } => ErrorView::Conflict { key, place },
        ErrorView::Shape { shape } => ErrorView::Shape { shape },
        ErrorView::NameCollision { name, .. } => ErrorView::NameCollision { name, place },
        ErrorView::InvalidName { name, .. } => ErrorView::InvalidName { name, place },
    }
}

/// An error found inside item `i` of a list: its way begins with `i`.
pub open spec fn inside(e: ErrorView, i: nat) -> ErrorView {
    let p = place_of(e);
    placed(e, PlaceView { member: p.member, attribute: p.attribute, path: seq![i] + p.path })
}

/// An error found in attribute `k`.
pub open spec fn in_attribute(e: ErrorView, k: nat) -> ErrorView {
    let p = place_of(e);
    placed(e, PlaceView { member: p.member, attribute: Some(k), path: p.path })
}

/// An error found on member `i`.
pub open spec fn on_member(e: ErrorView, i: nat) -> ErrorView {
    let p = place_of(e);
    placed(e, PlaceView { member: Some(i), attribute: p.attribute, path: p.path })
}

impl Error {
    /// Where the error was found; `None` for an error of the
    /// declaration's shape.
    pub fn place(&self) -> (r: Option<&Place>)
        ensures
            match r {
                Some(p) => !(self@ is Shape) && p@ == place_of(self@),
                None => self@ is Shape,
            },
    {
        match self {
            Error::Grammar { place, .. } => Some(place),
            Error::Conflict { place, .. } => Some(place),
            Error::Shape { .. } => None,
            Error::NameCollision { place, .. } => Some(place),
            Error::InvalidName { place, .. } => Some(place),
        }
    }

    /// The error with another place.
    fn with_place(self, place: Place) -> (r: Error)
        ensures
            r@ == placed(self@, place@),
    {
        match self {
            Error::Grammar { kind, .. } => Error::Grammar { kind, place },
            Error::Conflict { key, .. } => Error::Conflict { key, place },
            Error::Shape { shape } => Error::Shape { shape },
            Error::NameCollision { name, .. } => Error::NameCollision { name, place },
            Error::InvalidName { name, .. } => Error::InvalidName { name, place },
        }
    }

    /// The parts of the error's place.
    fn take_place(&self) -> (r: (Option<usize>, Option<usize>, Vec<usize>))
        ensures
            maybe_nat(r.0) == place_of(self@).member,
            maybe_nat(r.1) == place_of(self@).attribute,
            Seq::new(r.2.len() as nat, |i: int| r.2[i] as nat) == place_of(self@).path,
    {
        match self.place() {
            Some(p) => {
                let mut path: Vec<usize> = Vec::new();
                let mut i: usize = 0;
                while i < p.path.len()
                    invariant
                        i <= p.path.len(),
                        path.len() == i,
                        forall|k: int| 0 <= k < i ==> path[k] == p.path[k],
                    decreases p.path.len() - i,
                {
                    path.push(p.path[i]);
                    i += 1;
                }
                (p.member, p.attribute, path)
            },
            None => {
                let path: Vec<usize> = Vec::new();
                (None, None, path)
            },
        }
    }

    /// The error as found inside item `i` of a list.
    pub fn inside(self, i: usize) -> (r: Error)
        ensures
            r@ == inside(self@, i as nat),
    {
        let (member, attribute, rest) = self.take_place();
        let mut path: Vec<usize> = Vec::new();
        path.push(i);
        let mut k: usize = 0;
        while k < rest.len()
            invariant
                k <= rest.len(),
                path.len() == k + 1,
                path[0] == i,
                forall|j: int| 0 <= j < k ==> path[j + 1] == rest[j],
            decreases rest.len() - k,
        {
            path.push(rest[k]);
            k += 1;
        }
        let place = Place { member, attribute, path };
        assert(place@.path =~= seq![i as nat] + place_of(self@).path);
        self.with_place(place)
    }

    /// The error as found in attribute `k`.
    pub fn in_attribute(self, k: usize) -> (r: Error)
        ensures
            r@ == in_attribute(self@, k as nat),
    {
        let (member, _, path) = self.take_place();
        self.with_place(Place { member, attribute: Some(k), path })
    }

    /// The error as found on member `i`.
    pub fn on_member(self, i: usize) -> (r: Error)
        ensures
            r@ == on_member(self@, i as nat),
    {
        let (_, attribute, path) = self.take_place();
        self.with_place(Place { member: Some(i), attribute, path })
    }

    /// A short description of the error.
    pub fn message(&self) -> (r: String)
        ensures
            r@ == message_of(self@),
    {
        match self {
            Error::Grammar { kind, .. } => match kind {
                GrammarKind::Lexical => "malformed tokens".to_owned(),
                GrammarKind::MissingArgument => "expected an argument".to_owned(),
                GrammarKind::TrailingTokens => "unexpected tokens after a string".to_owned(),
                GrammarKind::MalformedValue => "expected a value".to_owned(),
                GrammarKind::MalformedArgument => "malformed argument".to_owned(),
            },
            Error::Conflict { key, .. } => {
                let mut out = "conflicting values for `".to_owned();
                out.append(key.as_str());
                out.append("`");
                out
            },
            Error::Shape { shape } => match shape {
                ShapeKind::NotARecord => "invalid type".to_owned(),
                ShapeKind::FieldNotFound => "field not found".to_owned(),
                ShapeKind::ConflictingStyles =>
                    "conflicting display styles; only one style may be specified".to_owned(),
            },
            Error::NameCollision { name, .. } => {
                let mut out = "two fields share the operation name `".to_owned();
                out.append(name.as_str());
                out.append("`");
                out
            },
            Error::InvalidName { name, .. } => {
                let mut out = "no identifier: `".to_owned();
                out.append(name.as_str());
                out.append("`");
                out
            },
        }
    }
}

/// The description of each error.
pub open spec fn message_of(e: ErrorView) -> Seq<char> {
    match e {
        ErrorView::Grammar { kind, .. } => match kind {
            GrammarKind::Lexical => "malformed tokens"@,
            GrammarKind::MissingArgument => "expected an argument"@,
            GrammarKind::TrailingTokens => "unexpected tokens after a string"@,
            GrammarKind::MalformedValue => "expected a value"@,
            GrammarKind::MalformedArgument => "malformed argument"@,
        },
        ErrorView::Conflict { key, .. } => "conflicting values for `"@ + key + "`"@,
        ErrorView::Shape { shape } => match shape {
            ShapeKind::NotARecord => "invalid type"@,
            ShapeKind::FieldNotFound => "field not found"@,
            ShapeKind::ConflictingStyles =>
                "conflicting display styles; only one style may be specified"@,
        },
        ErrorView::NameCollision { name, .. } => "two fields share the operation name `"@ + name
            + "`"@,
        ErrorView::InvalidName { name, .. } => "no identifier: `"@ + name + "`"@,
    }
}

} // verus!
