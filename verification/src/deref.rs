//! The plan of a dereference to one member.

use crate::attr::has_spec;
use crate::error::{Error, ErrorView, ShapeKind};
use crate::field::{FieldName, FieldNameView, FieldView, field_views, fields_spec, parse_fields};
use crate::params::{Data, DeriveInput, Generics, GenericsView, StructParams};
use crate::token::{Token, TokenView, clone_tokens, views};
use vstd::prelude::*;

verus! {

/// What is generated: the record dereferences to one of its members.
#[derive(Debug, PartialEq)]
pub struct DerefPlan {
    /// The record's name.
    pub target: String,
    pub generics: Generics,
    /// The member that the record dereferences to.
    pub field: FieldName,
    /// That member's type.
    pub ty: Vec<Token>,
}

/// A plan as a mathematical value.
pub struct DerefPlanView {
    pub target: Seq<char>,
    pub generics: GenericsView,
    pub field: FieldNameView,
    pub ty: Seq<TokenView>,
}

impl View for DerefPlan {
    type V = DerefPlanView;

    open spec fn view(&self) -> DerefPlanView {
        DerefPlanView {
            target: self.target@,
            generics: self.generics@,
            field: self.field@,
            ty: views(self.ty@),
        }
    }
}

/// The index of the first member from `from` on that carries the flag
/// `name`, or the number of members.
pub open spec fn first_marked(fields: Seq<FieldView>, name: Seq<char>, from: int) -> int
    decreases fields.len() - from,
{
    if from < 0 || from >= fields.len() {
        fields.len() as int
    } else if has_spec(fields[from].attrs, name) {
        from
    } else {
        first_marked(fields, name, from + 1)
    }
}

/// The member that the record dereferences to: the first that carries
/// `deref`, else the first of all.
pub open spec fn chosen(fields: Seq<FieldView>) -> int {
    if first_marked(fields, "deref"@, 0) < fields.len() {
        first_marked(fields, "deref"@, 0)
    } else {
        0
    }
}

/// The plan for a record, or why there is none.
pub open spec fn deref_spec(args: StructParams) -> Result<DerefPlanView, ErrorView> {
    match fields_spec(args.data.members@, args.data.members.len() as nat) {
        Err(e) => Err(e),
        Ok(fields) => if fields.len() == 0 {
            Err(ErrorView::Shape { shape: ShapeKind::FieldNotFound })
        } else {
            Ok(
                DerefPlanView {
                    target: args.input.ident@,
                    generics: args.input.generics@,
                    field: fields[chosen(fields)].name,
                    ty: fields[chosen(fields)].ty,
                },
            )
        },
    }
}

/// The generator of the dereference for records.
#[derive(Clone, Copy, Debug, Default)]
pub struct StructSyntax;

impl StructSyntax {
    /// Plans the dereference of a record to one of its members: the
    /// first member annotated `deref`, or the first member where none is.
    /// A record without members has nothing to dereference to, which is
    /// the error `FieldNotFound`.
    pub fn render(&self, args: &StructParams) -> (r: Result<DerefPlan, Error>)
        ensures
            match r {
                Ok(p) => deref_spec(*args) == Ok::<DerefPlanView, ErrorView>(p@),
                Err(e) => deref_spec(*args) == Err::<DerefPlanView, ErrorView>(e@),
            },
    {
        let fields = match parse_fields(&args.data.members) {
            Ok(f) => f,
            Err(e) => {
                return Err(e);
            },
        };
        if fields.len() == 0 {
            return Err(Error::Shape { shape: ShapeKind::FieldNotFound });
        }
        let ghost fs = field_views(fields@);
        let mut k: usize = 0;
        while k < fields.len() && !fields[k].attrs().has("deref")
            invariant
                k <= fields.len(),
                fs == field_views(fields@),
                first_marked(fs, "deref"@, 0) == first_marked(fs, "deref"@, k as int),
            decreases fields.len() - k,
        {
            k += 1;
        }
        let at = if k < fields.len() {
            k
        } else {
            0
        };
        Ok(
            DerefPlan {
                target: args.input.ident.clone(),
                generics: args.input.generics.clone(),
                field: fields[at].name().clone(),
                ty: clone_tokens(fields[at].ty()),
            },
        )
    }
}

/// The declarations that the dereference can be generated for.
#[derive(Debug)]
pub enum Macro {
    Struct(StructParams),
}

impl Macro {
    /// Accepts a declaration if it is a record; any other is refused with
    /// `NotARecord`.
    pub fn parse(input: DeriveInput, data: Data) -> (r: Result<Macro, Error>)
        ensures
            match data {
                Data::Struct(d) => r == Ok::<Macro, Error>(
                    Macro::Struct(StructParams { input, data: d }),
                ),
                _ => r matches Err(e) && e@ == (ErrorView::Shape { shape: ShapeKind::NotARecord }),
            },
    {
        match data {
            Data::Struct(d) => Ok(Macro::Struct(StructParams { input, data: d })),
            _ => Err(Error::Shape { shape: ShapeKind::NotARecord }),
        }
    }

    /// Plans the dereference for the declaration.
    pub fn render(&self) -> (r: Result<DerefPlan, Error>)
        ensures
            self matches Macro::Struct(args) && match r {
                Ok(p) => deref_spec(*args) == Ok::<DerefPlanView, ErrorView>(p@),
                Err(e) => deref_spec(*args) == Err::<DerefPlanView, ErrorView>(e@),
            },
    {
        match self {
            Macro::Struct(args) => StructSyntax.render(args),
        }
    }
}

} // verus!
