//! The plan of a default value for a record.

use crate::attr::{Attr, AttrView, attr_views};
use crate::error::{Error, ErrorView};
use crate::field::{
    FieldName, FieldNameView, FieldView, field_views, fields_spec, find_value, parse_fields,
    value_under,
};
use crate::params::{Fields, Generics, GenericsView, StructParams};
use crate::token::{Token, TokenView, views};
use vstd::prelude::*;

verus! {

/// What one member of the default value is.
#[derive(Debug, PartialEq)]
pub struct DefaultField {
    pub name: FieldName,
    /// The expression that the member is set to; `None` where it is left
    /// to the default of its type.
    pub value: Option<Vec<Token>>,
}

/// A member of the plan as a mathematical value.
pub struct DefaultFieldView {
    pub name: FieldNameView,
    pub value: Option<Seq<TokenView>>,
}

impl View for DefaultField {
    type V = DefaultFieldView;

    open spec fn view(&self) -> DefaultFieldView {
        DefaultFieldView {
            name: self.name@,
            value: match self.value {
                Some(v) => Some(views(v@)),
                None => None,
            },
        }
    }
}

/// What is generated: the default value of the record, member by member.
#[derive(Debug, PartialEq)]
pub struct DefaultPlan {
    pub target: String,
    pub generics: Generics,
    /// How the record's members are written.
    pub shape: Fields,
    /// Every member, in declaration order.
    pub fields: Vec<DefaultField>,
}

/// A plan as a mathematical value.
pub struct DefaultPlanView {
    pub target: Seq<char>,
    pub generics: GenericsView,
    pub shape: Fields,
    pub fields: Seq<DefaultFieldView>,
}

/// The views of the members of a plan, one for one.
pub open spec fn default_views(fields: Seq<DefaultField>) -> Seq<DefaultFieldView> {
    Seq::new(fields.len(), |i: int| fields[i]@)
}

impl View for DefaultPlan {
    type V = DefaultPlanView;

    open spec fn view(&self) -> DefaultPlanView {
        DefaultPlanView {
            target: self.target@,
            generics: self.generics@,
            shape: self.shape,
            fields: default_views(self.fields@),
        }
    }
}

/// The default that the annotations of a member give: the value under
/// `default` in the first annotation, from `from` on, that has one.
pub open spec fn default_of(attrs: Seq<AttrView>, from: int) -> Option<Seq<TokenView>>
    decreases attrs.len() - from,
{
    if from < 0 || from >= attrs.len() {
        None
    } else if value_under(attrs[from].args, "default"@, 0) is Some {
        value_under(attrs[from].args, "default"@, 0)
    } else {
        default_of(attrs, from + 1)
    }
}

/// The members of the plan for the first `n` members of the record.
pub open spec fn default_fields_spec(fields: Seq<FieldView>, n: nat) -> Seq<DefaultFieldView>
    decreases n,
{
    if n == 0 || n > fields.len() {
        Seq::empty()
    } else {
        default_fields_spec(fields, (n - 1) as nat).push(
            DefaultFieldView {
                name: fields[n - 1].name,
                value: default_of(fields[n - 1].attrs, 0),
            },
        )
    }
}

/// The plan for a record, or the first malformed annotation.
pub open spec fn default_spec(args: StructParams) -> Result<DefaultPlanView, ErrorView> {
    match fields_spec(args.data.members@, args.data.members.len() as nat) {
        Err(e) => Err(e),
        Ok(fs) => Ok(
            DefaultPlanView {
                target: args.input.ident@,
                generics: args.input.generics@,
                shape: args.data.fields,
                fields: default_fields_spec(fs, fs.len()),
            },
        ),
    }
}

/// The default that the annotations of a member give.
fn find_default(attrs: &Vec<Attr>) -> (r: Option<Vec<Token>>)
    ensures
        r matches Some(v) ==> default_of(attr_views(attrs@), 0) == Some(views(v@)),
        r is None ==> default_of(attr_views(attrs@), 0) is None,
{
    let ghost all = attr_views(attrs@);
    let mut i: usize = 0;
    while i < attrs.len()
        invariant
            i <= attrs.len(),
            all == attr_views(attrs@),
            default_of(all, 0) == default_of(all, i as int),
        decreases attrs.len() - i,
    {
        match find_value(attrs[i].args(), "default") {
            Some(v) => {
                return Some(v);
            },
            None => {},
        }
        i += 1;
    }
    None
}

/// The generator of the default value for records.
#[derive(Clone, Copy, Debug, Default)]
pub struct StructSyntax;

impl StructSyntax {
    /// Plans the default value of a record: each member is set to the
    /// value that an annotation gives it under `default`, and a member
    /// without one is left to the default of its type.
    pub fn render(&self, args: &StructParams) -> (r: Result<DefaultPlan, Error>)
        ensures
            match r {
                Ok(p) => default_spec(*args) == Ok::<DefaultPlanView, ErrorView>(p@),
                Err(e) => default_spec(*args) == Err::<DefaultPlanView, ErrorView>(e@),
            },
    {
        let fields = match parse_fields(&args.data.members) {
            Ok(f) => f,
            Err(e) => {
                return Err(e);
            },
        };
        let ghost fs = field_views(fields@);
        let mut out: Vec<DefaultField> = Vec::new();
        let mut i: usize = 0;
        while i < fields.len()
            invariant
                i <= fields.len(),
                fs == field_views(fields@),
                default_views(out@) == default_fields_spec(fs, i as nat),
            decreases fields.len() - i,
        {
            let f = DefaultField {
                name: fields[i].name().clone(),
                value: find_default(fields[i].attrs().iter()),
            };
            out.push(f);
            i += 1;
        }
        Ok(
            DefaultPlan {
                target: args.input.ident.clone(),
                generics: args.input.generics.clone(),
                shape: args.data.fields,
                fields: out,
            },
        )
    }
}

} // verus!
