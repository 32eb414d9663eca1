//! The plan of the setters of a record.

use crate::attr::{get_spec, has_spec};
use crate::arg::ArgView;
use crate::error::{Error, ErrorView, Place, nowhere, on_member};
use crate::syntax::{is_ident_text, parses_as_ident};
use crate::field::{
    Field, FieldName, FieldNameView, FieldView, field_views, fields_spec, find_string, find_value, name_text, parse_fields, string_under, value_under,
};
use crate::optional::{option_inner, option_inner_of};
use crate::params::{Generics, GenericsView, StructParams};
use crate::token::{Token, TokenView, clone_tokens, views};
use vstd::prelude::*;
use vstd::string::*;

verus! {

/// One setter.
#[derive(Debug, PartialEq)]
pub struct Setter {
    /// The member that is set.
    pub field: FieldName,
    /// The documentation of the member, which the setter repeats.
    pub docs: Vec<Vec<Token>>,
    /// The setter's name.
    pub method: String,
    /// The type of the value that the setter takes: the member's type,
    /// or what it wraps where it is an optional wrapper.
    pub value_ty: Vec<Token>,
    /// Whether the member is an optional wrapper, so that what is stored
    /// is wrapped.
    pub wraps: bool,
    /// The expression over `value` that is stored in place of the value
    /// given, if one was asked for.
    pub transform: Option<Vec<Token>>,
}

/// A setter as a mathematical value.
pub struct SetterView {
    pub field: FieldNameView,
    pub docs: Seq<Seq<TokenView>>,
    pub method: Seq<char>,
    pub value_ty: Seq<TokenView>,
    pub wraps: bool,
    pub transform: Option<Seq<TokenView>>,
}

impl View for Setter {
    type V = SetterView;

    open spec fn view(&self) -> SetterView {
        SetterView {
            field: self.field@,
            docs: Seq::new(self.docs.len() as nat, |i: int| views(self.docs[i]@)),
            method: self.method@,
            value_ty: views(self.value_ty@),
            wraps: self.wraps,
            transform: match self.transform {
                Some(v) => Some(views(v@)),
                None => None,
            },
        }
    }
}

/// What is generated: one setter for each annotated member.
#[derive(Debug, PartialEq)]
pub struct SetPlan {
    pub target: String,
    pub generics: Generics,
    pub setters: Vec<Setter>,
}

/// A plan as a mathematical value.
pub struct SetPlanView {
    pub target: Seq<char>,
    pub generics: GenericsView,
    pub setters: Seq<SetterView>,
}

/// The views of a list of setters, one for one.
pub open spec fn setter_views(setters: Seq<Setter>) -> Seq<SetterView> {
    Seq::new(setters.len(), |i: int| setters[i]@)
}

impl View for SetPlan {
    type V = SetPlanView;

    open spec fn view(&self) -> SetPlanView {
        SetPlanView {
            target: self.target@,
            generics: self.generics@,
            setters: setter_views(self.setters@),
        }
    }
}

/// The name of the setter of a member: the string that stands alone
/// among the arguments of `set`, else `set_` and the member's name.
pub open spec fn method_of(args: Seq<ArgView>, name: FieldNameView) -> Seq<char> {
    match string_under(args, "__value"@, 0) {
        Some(s) => s,
        None => "set_"@ + name_text(name),
    }
}

/// The setter of a member annotated `set`. Its name is the string that
/// stands alone among the arguments of `set`, else `set_` and the
/// member's name; `on = ..` gives the transform. A conflict among the
/// arguments is the error, and so is a name that the host language does
/// not take as an identifier.
pub open spec fn setter_spec(f: FieldView) -> Result<SetterView, ErrorView> {
    match get_spec(f.attrs, "set"@) {
        Err(e) => Err(e),
        Ok(args) => if !is_ident_text(method_of(args, f.name)) {
            Err(ErrorView::InvalidName { name: method_of(args, f.name), place: nowhere() })
        } else {
            Ok(
                SetterView {
                    field: f.name,
                    docs: f.docs,
                    method: method_of(args, f.name),
                    value_ty: match option_inner(f.ty) {
                        Some(inner) => inner,
                        None => f.ty,
                    },
                    wraps: option_inner(f.ty) is Some,
                    transform: value_under(args, "on"@, 0),
                },
            )
        },
    }
}

/// The setters of the first `n` members: one for each member annotated
/// `set`, in order, or the first error.
pub open spec fn setters_spec(fields: Seq<FieldView>, n: nat) -> Result<
    Seq<SetterView>,
    ErrorView,
>
    decreases n,
{
    if n == 0 || n > fields.len() {
        Ok(Seq::empty())
    } else {
        match setters_spec(fields, (n - 1) as nat) {
            Err(e) => Err(e),
            Ok(done) => if has_spec(fields[n - 1].attrs, "set"@) {
                match setter_spec(fields[n - 1]) {
                    Ok(s) => Ok(done.push(s)),
                    Err(e) => Err(on_member(e, (n - 1) as nat)),
                }
            } else {
                Ok(done)
            },
        }
    }
}

/// The plan for a record, or the first error: a malformed annotation,
/// else a conflict among the arguments of `set`.
pub open spec fn set_spec(args: StructParams) -> Result<SetPlanView, ErrorView> {
    match fields_spec(args.data.members@, args.data.members.len() as nat) {
        Err(e) => Err(e),
        Ok(fs) => match setters_spec(fs, fs.len()) {
            Err(e) => Err(e),
            Ok(setters) => Ok(
                SetPlanView {
                    target: args.input.ident@,
                    generics: args.input.generics@,
                    setters,
                },
            ),
        },
    }
}

/// Once planning the setters has failed, it has failed for good.
pub proof fn lemma_setters_error(fields: Seq<FieldView>, n: nat, m: nat)
    requires
        1 <= n <= m <= fields.len(),
        setters_spec(fields, n) is Err,
    ensures
        setters_spec(fields, m) == setters_spec(fields, n),
    decreases m - n,
{
    if n < m {
        lemma_setters_error(fields, n, (m - 1) as nat);
    }
}

/// The setter of one member.
fn plan_setter(f: &Field) -> (r: Result<Setter, Error>)
    ensures
        match r {
            Ok(s) => setter_spec(f@) == Ok::<SetterView, ErrorView>(s@),
            Err(e) => setter_spec(f@) == Err::<SetterView, ErrorView>(e@),
        },
{
    let args = match f.attrs().get("set") {
        Ok(a) => a,
        Err(e) => {
            return Err(e);
        },
    };
    let method = match find_string(&args, "__value") {
        Some(s) => s,
        None => {
            let mut name = "set_".to_owned();
            name.append(f.name().to_text().as_str());
            name
        },
    };
    if !parses_as_ident(method.as_str()) {
        return Err(Error::InvalidName { name: method, place: Place::new() });
    }
    let transform = find_value(&args, "on");
    let inner = option_inner_of(f.ty());
    let wraps = inner.is_some();
    let value_ty = match inner {
        Some(t) => t,
        None => clone_tokens(f.ty()),
    };
    let mut docs: Vec<Vec<Token>> = Vec::new();
    let source = f.docs();
    let mut i: usize = 0;
    while i < source.len()
        invariant
            i <= source.len(),
            source.len() == f@.docs.len(),
            forall|k: int| 0 <= k < source.len() ==> views(source[k]@) == f@.docs[k],
            docs.len() == i,
            forall|k: int| 0 <= k < i ==> views(docs[k]@) == f@.docs[k],
        decreases source.len() - i,
    {
        docs.push(clone_tokens(&source[i]));
        i += 1;
    }
    let s = Setter { field: f.name().clone(), docs, method, value_ty, wraps, transform };
    assert(s@.docs =~= f@.docs);
    Ok(s)
}

/// The generator of setters for records.
#[derive(Clone, Copy, Debug, Default)]
pub struct StructSyntax;

impl StructSyntax {
    /// Plans the setters of a record: one for each member annotated
    /// `set`, in declaration order. A setter takes the member's type, or
    /// what the member wraps where it is an optional wrapper, and stores
    /// the value given or, where `on = ..` is set, that expression.
    pub fn render(&self, args: &StructParams) -> (r: Result<SetPlan, Error>)
        ensures
            match r {
                Ok(p) => set_spec(*args) == Ok::<SetPlanView, ErrorView>(p@),
                Err(e) => set_spec(*args) == Err::<SetPlanView, ErrorView>(e@),
            },
    {
        let fields = match parse_fields(&args.data.members) {
            Ok(f) => f,
            Err(e) => {
                return Err(e);
            },
        };
        let ghost fs = field_views(fields@);
        let mut out: Vec<Setter> = Vec::new();
        let mut i: usize = 0;
        assert(setter_views(out@) =~= Seq::empty());
        while i < fields.len()
            invariant
                i <= fields.len(),
                fs == field_views(fields@),
                fields_spec(args.data.members@, args.data.members.len() as nat) == Ok::<
                    Seq<FieldView>,
                    ErrorView,
                >(fs),
                setters_spec(fs, i as nat) == Ok::<Seq<SetterView>, ErrorView>(setter_views(out@)),
            decreases fields.len() - i,
        {
            if fields[i].attrs().has("set") {
                match plan_setter(&fields[i]) {
                    Ok(s) => {
                        assert(setter_views(out@.push(s)) =~= setter_views(out@).push(s@));
                        out.push(s);
                    },
                    Err(e) => {
                        proof {
                            lemma_setters_error(fs, (i + 1) as nat, fs.len());
                        }
                        return Err(e.on_member(i));
                    },
                }
            }
            i += 1;
        }
        Ok(
            SetPlan {
                target: args.input.ident.clone(),
                generics: args.input.generics.clone(),
                setters: out,
            },
        )
    }
}

} // verus!
