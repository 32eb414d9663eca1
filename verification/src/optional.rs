//! Telling an optional wrapper from a type.
//!
//! A type is an optional wrapper where it is a path whose last segment is
//! `Option` with arguments in angle brackets, the first of which is a
//! type: `Option<T>`, `std::option::Option<T>`. What is wrapped is that
//! first argument. The host language's parser reads the type into the
//! segments of its path; what is looked for in them is decided here.

use crate::syntax::{lex_text, lexed, type_path, type_path_of};
use crate::token::{Token, TokenView, render, text_of, views};
use vstd::prelude::*;

verus! {

/// One argument in the angle brackets of a path segment.
#[derive(Debug, PartialEq)]
pub enum TypeArg {
    /// A type, by its source text.
    Type(String),
    /// A lifetime, a constant, a binding or a bound.
    Other,
}

/// An argument of a segment as a mathematical value.
pub enum TypeArgView {
    Type(Seq<char>),
    Other,
}

impl View for TypeArg {
    type V = TypeArgView;

    open spec fn view(&self) -> TypeArgView {
        match self {
            TypeArg::Type(t) => TypeArgView::Type(t@),
            TypeArg::Other => TypeArgView::Other,
        }
    }
}

/// One segment of the path that a type is.
#[derive(Debug, PartialEq)]
pub struct TypeSegment {
    pub name: String,
    /// The arguments in angle brackets; `None` where the segment has
    /// none or has them in round brackets.
    pub angle: Option<Vec<TypeArg>>,
}

/// A segment as a mathematical value.
pub struct TypeSegmentView {
    pub name: Seq<char>,
    pub angle: Option<Seq<TypeArgView>>,
}

impl View for TypeSegment {
    type V = TypeSegmentView;

    open spec fn view(&self) -> TypeSegmentView {
        TypeSegmentView {
            name: self.name@,
            angle: match self.angle {
                Some(args) => Some(Seq::new(args.len() as nat, |i: int| args[i]@)),
                None => None,
            },
        }
    }
}

/// The views of the segments of a path, one for one.
pub open spec fn segment_views(segments: Seq<TypeSegment>) -> Seq<TypeSegmentView> {
    Seq::new(segments.len(), |i: int| segments[i]@)
}

/// The text of what a path wraps if it is an optional wrapper: its last
/// segment is named `Option` and has arguments in angle brackets, the
/// first of which is a type.
pub open spec fn wrapped_text(segments: Seq<TypeSegmentView>) -> Option<Seq<char>> {
    if segments.len() > 0 && segments.last().name == "Option"@ {
        match segments.last().angle {
            Some(args) => if args.len() > 0 {
                match args[0] {
                    TypeArgView::Type(inner) => Some(inner),
                    TypeArgView::Other => None,
                }
            } else {
                None
            },
            None => None,
        }
    } else {
        None
    }
}

/// What an optional wrapper wraps, as tokens, or `None` for a type that
/// is no path or no optional wrapper.
pub open spec fn option_inner(ty: Seq<TokenView>) -> Option<Seq<TokenView>> {
    match type_path_of(text_of(ty)) {
        Some(segments) => match wrapped_text(segments) {
            Some(inner) => lexed(inner),
            None => None,
        },
        None => None,
    }
}

/// What the optional wrapper `ty` wraps: the tokens of the first type
/// argument of `Option<..>`; `None` where `ty` is no such wrapper.
pub fn option_inner_of(ty: &Vec<Token>) -> (r: Option<Vec<Token>>)
    ensures
        r matches Some(v) ==> option_inner(views(ty@)) == Some(views(v@)),
        r is None ==> option_inner(views(ty@)) is None,
{
    let text = render(ty);
    let segments = match type_path(text.as_str()) {
        Some(s) => s,
        None => {
            return None;
        },
    };
    let n = segments.len();
    if n == 0 {
        return None;
    }
    assert(segment_views(segments@).last() == segments[n - 1]@);
    let last = &segments[n - 1];
    if last.name != "Option".to_owned() {
        return None;
    }
    match &last.angle {
        Some(args) => {
            if args.len() == 0 {
                return None;
            }
            match &args[0] {
                TypeArg::Type(inner) => lex_text(inner.as_str()),
                TypeArg::Other => None,
            }
        },
        None => None,
    }
}

} // verus!
