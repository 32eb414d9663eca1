//! The declaration that a generator is asked to serve, as plain values.

use crate::attr::RawAttribute;
use crate::error::{Error, ErrorView, ShapeKind};
use crate::token::{Token, TokenView, clone_tokens, views};
use vstd::prelude::*;

verus! {

/// What a generic parameter stands for.
#[derive(Clone, Copy, Debug, PartialEq, Eq, Structural)]
pub enum GenericKind {
    Lifetime,
    Type,
    Const,
}

/// One generic parameter of a declaration.
#[derive(Debug, PartialEq)]
pub struct GenericParam {
    pub kind: GenericKind,
    /// The parameter's name: `T`, or `'a` for a lifetime.
    pub name: String,
    /// The parameter as declared, bounds included: `T: Default`.
    pub decl: Vec<Token>,
}

/// The generic parameters of a declaration and its `where` clause.
#[derive(Debug, PartialEq)]
pub struct Generics {
    pub params: Vec<GenericParam>,
    pub where_clause: Vec<Token>,
}

/// A generic parameter as a mathematical value.
pub struct GenericParamView {
    pub kind: GenericKind,
    pub name: Seq<char>,
    pub decl: Seq<TokenView>,
}

/// Generics as a mathematical value.
pub struct GenericsView {
    pub params: Seq<GenericParamView>,
    pub where_clause: Seq<TokenView>,
}

impl View for GenericParam {
    type V = GenericParamView;

    open spec fn view(&self) -> GenericParamView {
        GenericParamView { kind: self.kind, name: self.name@, decl: views(self.decl@) }
    }
}

impl View for Generics {
    type V = GenericsView;

    open spec fn view(&self) -> GenericsView {
        GenericsView {
            params: Seq::new(self.params.len() as nat, |i: int| self.params[i]@),
            where_clause: views(self.where_clause@),
        }
    }
}

impl Clone for Generics {
    fn clone(&self) -> (r: Generics)
        ensures
            r@ == self@,
    {
        let mut params: Vec<GenericParam> = Vec::new();
        let mut i: usize = 0;
        while i < self.params.len()
            invariant
                i <= self.params.len(),
                params.len() == i,
                forall|k: int| 0 <= k < i ==> params[k]@ == self.params[k]@,
            decreases self.params.len() - i,
        {
            let p = &self.params[i];
            params.push(
                GenericParam { kind: p.kind, name: p.name.clone(), decl: clone_tokens(&p.decl) },
            );
            i += 1;
        }
        let r = Generics { params, where_clause: clone_tokens(&self.where_clause) };
        assert(r@.params =~= self@.params);
        r
    }
}

/// How the members of a record are written.
#[derive(Clone, Copy, Debug, PartialEq, Eq, Structural)]
pub enum Fields {
    /// By name, in braces.
    Named,
    /// By position, in round brackets.
    Unnamed,
    /// Not at all.
    Unit,
}

/// One member of a record, as declared.
#[derive(Debug)]
pub struct Member {
    pub attrs: Vec<RawAttribute>,
    pub vis: Vec<Token>,
    /// The member's name; `None` for a member known by its position.
    pub ident: Option<String>,
    pub ty: Vec<Token>,
}

/// The body of a record.
#[derive(Debug)]
pub struct DataStruct {
    pub fields: Fields,
    pub members: Vec<Member>,
}

/// The body of a declaration.
#[derive(Debug)]
pub enum Data {
    Struct(DataStruct),
    Enum,
    Union,
}

/// The head of a declaration: what stands before its body.
#[derive(Debug)]
pub struct DeriveInput {
    pub attrs: Vec<RawAttribute>,
    pub vis: Vec<Token>,
    pub ident: String,
    pub generics: Generics,
}

/// A record declaration.
#[derive(Debug)]
pub struct StructParams {
    pub input: DeriveInput,
    pub data: DataStruct,
}

/// A declaration that a generator can serve.
#[derive(Debug)]
pub enum Params {
    Struct(StructParams),
}

impl Params {
    /// Accepts a declaration if it is a record. Any other declaration
    /// has no member list to work on and is refused with `NotARecord`.
    pub fn parse(input: DeriveInput, data: Data) -> (r: Result<Params, Error>)
        ensures
            match data {
                Data::Struct(d) => r == Ok::<Params, Error>(
                    Params::Struct(StructParams { input, data: d }),
                ),
                _ => r matches Err(e) && e@ == (ErrorView::Shape { shape: ShapeKind::NotARecord }),
            },
    {
        match data {
            Data::Struct(d) => Ok(Params::Struct(StructParams { input, data: d })),
            _ => Err(Error::Shape { shape: ShapeKind::NotARecord }),
        }
    }

    /// The head of the declaration.
    pub fn input(&self) -> (r: &DeriveInput)
        ensures
            self matches Params::Struct(v) && *r == v.input,
    {
        match self {
            Params::Struct(v) => &v.input,
        }
    }

    /// Whether the declaration is a record.
    pub fn is_struct(&self) -> (r: bool)
        ensures
            r == (self is Struct),
    {
        matches!(self, Params::Struct(_))
    }

    /// The declaration as a record.
    pub fn as_struct(&self) -> (r: Option<&StructParams>)
        ensures
            self matches Params::Struct(v) && r == Some(v),
    {
        match self {
            Params::Struct(v) => Some(v),
        }
    }
}

} // verus!
