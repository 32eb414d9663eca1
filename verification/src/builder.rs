//! The staged builder: which members it takes, what each may be given,
//! and the protocol that keeps a value from being finished before every
//! required member has been supplied.

use crate::arg::ArgView;
use crate::attr::{get_spec, has_spec};
use crate::error::{Error, ErrorView, Place, PlaceView, nowhere, on_member};
use crate::field::{
    Field, FieldName, FieldNameView, FieldView, field_views, fields_spec, find_string, find_value, name_text, parse_fields, string_under, value_under,
};
use crate::optional::{option_inner, option_inner_of};
use crate::params::{Generics, GenericsView, StructParams};
use crate::syntax::{is_ident_text, parses_as_ident, to_uppercase, uppercased};
use crate::token::{Token, TokenView, clone_tokens, text_views, views};
use vstd::prelude::*;
use vstd::string::*;

verus! {

/// What the builder does with one member.
#[derive(Debug, PartialEq)]
pub enum Slot {
    /// The member takes no part: it is left to its type's default.
    Unmanaged,
    /// The member must be supplied; `marker` is the index of the marker
    /// that records it.
    Required { marker: usize },
    /// The member may be omitted and then gets `default`, which is
    /// evaluated when the value is finished.
    WithDefault { default: Vec<Token> },
    /// The member is an optional wrapper around `inner`; omitted, it
    /// stays absent.
    Wrapped { inner: Vec<Token> },
}

/// A slot as a mathematical value.
pub enum SlotView {
    Unmanaged,
    Required { marker: nat },
    WithDefault { default: Seq<TokenView> },
    Wrapped { inner: Seq<TokenView> },
}

impl View for Slot {
    type V = SlotView;

    open spec fn view(&self) -> SlotView {
        match self {
            Slot::Unmanaged => SlotView::Unmanaged,
            Slot::Required { marker } => SlotView::Required { marker: *marker as nat },
            Slot::WithDefault { default } => SlotView::WithDefault { default: views(default@) },
            Slot::Wrapped { inner } => SlotView::Wrapped { inner: views(inner@) },
        }
    }
}

/// One member of the record as the builder sees it.
#[derive(Debug, PartialEq)]
pub struct BuildField {
    pub name: FieldName,
    /// The member's declared type.
    pub ty: Vec<Token>,
    pub slot: Slot,
    /// The name of the operation that sets the member.
    pub operation: String,
    /// The expression over `value` that is stored in place of the value
    /// given, if one was asked for.
    pub transform: Option<Vec<Token>>,
}

/// A member of the plan as a mathematical value.
pub struct BuildFieldView {
    pub name: FieldNameView,
    pub ty: Seq<TokenView>,
    pub slot: SlotView,
    pub operation: Seq<char>,
    pub transform: Option<Seq<TokenView>>,
}

/// Tokens that may be missing, as a mathematical value.
pub open spec fn maybe_views(v: Option<Vec<Token>>) -> Option<Seq<TokenView>> {
    match v {
        Some(t) => Some(views(t@)),
        None => None,
    }
}

impl View for BuildField {
    type V = BuildFieldView;

    open spec fn view(&self) -> BuildFieldView {
        BuildFieldView {
            name: self.name@,
            ty: views(self.ty@),
            slot: self.slot@,
            operation: self.operation@,
            transform: maybe_views(self.transform),
        }
    }
}

/// What is generated for a record: a builder type with one operation for
/// each member that takes part, and one marker for each that is
/// required.
#[derive(Debug, PartialEq)]
pub struct BuildPlan {
    /// The record's name.
    pub target: String,
    /// The builder's name.
    pub builder: String,
    pub vis: Vec<Token>,
    /// The record's generics, which every stage of the builder carries.
    pub generics: Generics,
    /// Every member of the record, in declaration order.
    pub fields: Vec<BuildField>,
    /// The names of the markers, in marker order.
    pub markers: Vec<String>,
}

/// A plan as a mathematical value.
pub struct BuildPlanView {
    pub target: Seq<char>,
    pub builder: Seq<char>,
    pub vis: Seq<TokenView>,
    pub generics: GenericsView,
    pub fields: Seq<BuildFieldView>,
    pub markers: Seq<Seq<char>>,
}

/// The views of the members of a plan, one for one.
pub open spec fn build_views(fields: Seq<BuildField>) -> Seq<BuildFieldView> {
    Seq::new(fields.len(), |i: int| fields[i]@)
}

impl View for BuildPlan {
    type V = BuildPlanView;

    open spec fn view(&self) -> BuildPlanView {
        BuildPlanView {
            target: self.target@,
            builder: self.builder@,
            vis: views(self.vis@),
            generics: self.generics@,
            fields: build_views(self.fields@),
            markers: text_views(self.markers@),
        }
    }
}

/// Whether the builder has an operation for the member.
pub open spec fn managed(f: BuildFieldView) -> bool {
    !(f.slot is Unmanaged)
}

/// How many of the first `n` members are required.
pub open spec fn required_count(fields: Seq<BuildFieldView>, n: nat) -> nat
    decreases n,
{
    if n == 0 || n > fields.len() {
        0
    } else {
        required_count(fields, (n - 1) as nat) + if fields[n - 1].slot is Required {
            1nat
        } else {
            0nat
        }
    }
}

/// The names of the markers of the first `n` members: for each required
/// member, in order, its name in upper case.
pub open spec fn marker_names(fields: Seq<BuildFieldView>, n: nat) -> Seq<Seq<char>>
    decreases n,
{
    if n == 0 || n > fields.len() {
        Seq::empty()
    } else {
        let before = marker_names(fields, (n - 1) as nat);
        if fields[n - 1].slot is Required {
            before.push(uppercased(name_text(fields[n - 1].name)))
        } else {
            before
        }
    }
}

/// The slot of a member that takes part. A default makes it optional
/// with that default, also where its type is an optional wrapper; an
/// optional wrapper without a default stays a wrapper; any other member
/// is required and gets the next marker.
pub open spec fn slot_of(args: Seq<ArgView>, ty: Seq<TokenView>, next_marker: nat) -> SlotView {
    match value_under(args, "default"@, 0) {
        Some(d) => SlotView::WithDefault { default: d },
        None => match option_inner(ty) {
            Some(inner) => SlotView::Wrapped { inner },
            None => SlotView::Required { marker: next_marker },
        },
    }
}

/// The name of the operation that sets a member: the string that stands
/// alone among the arguments of `build`, else the member's own name.
pub open spec fn operation_of(args: Seq<ArgView>, name: FieldNameView) -> Seq<char> {
    match string_under(args, "__value"@, 0) {
        Some(s) => s,
        None => name_text(name),
    }
}

/// What the builder makes of one member, `next_marker` being the number
/// of required members before it.
///
/// A member takes part if an annotation names `build`. Its arguments are
/// those of `build`, merged: `default = ..` gives the default, a string
/// that stands alone the name of the operation, `on = ..` the
/// transform. A conflict among them is the error, and so is an
/// operation name that the host language does not take as an
/// identifier.
pub open spec fn build_field_spec(f: FieldView, next_marker: nat) -> Result<
    BuildFieldView,
    ErrorView,
> {
    if !has_spec(f.attrs, "build"@) {
        Ok(
            BuildFieldView {
                name: f.name,
                ty: f.ty,
                slot: SlotView::Unmanaged,
                operation: name_text(f.name),
                transform: None,
            },
        )
    } else {
        match get_spec(f.attrs, "build"@) {
            Err(e) => Err(e),
            Ok(args) => if !is_ident_text(operation_of(args, f.name)) {
                Err(ErrorView::InvalidName { name: operation_of(args, f.name), place: nowhere() })
            } else {
                Ok(
                    BuildFieldView {
                        name: f.name,
                        ty: f.ty,
                        slot: slot_of(args, f.ty, next_marker),
                        operation: operation_of(args, f.name),
                        transform: value_under(args, "on"@, 0),
                    },
                )
            },
        }
    }
}

/// What the builder makes of the first `n` members, or the first error,
/// placed on its member.
pub open spec fn build_fields_spec(fields: Seq<FieldView>, n: nat) -> Result<
    Seq<BuildFieldView>,
    ErrorView,
>
    decreases n,
{
    if n == 0 || n > fields.len() {
        Ok(Seq::empty())
    } else {
        match build_fields_spec(fields, (n - 1) as nat) {
            Err(e) => Err(e),
            Ok(done) => match build_field_spec(fields[n - 1], required_count(done, done.len())) {
                Ok(b) => Ok(done.push(b)),
                Err(e) => Err(on_member(e, (n - 1) as nat)),
            },
        }
    }
}

/// Whether member `j` takes the operation name of a member before it.
pub open spec fn collides(fields: Seq<BuildFieldView>, j: int) -> bool {
    managed(fields[j]) && exists|i: int|
        0 <= i < j && managed(#[trigger] fields[i]) && fields[i].operation == fields[j].operation
}

/// The index of the first of the first `n` members that takes the
/// operation name of a member before it.
pub open spec fn collision(fields: Seq<BuildFieldView>, n: nat) -> Option<nat>
    decreases n,
{
    if n == 0 || n > fields.len() {
        None
    } else {
        match collision(fields, (n - 1) as nat) {
            Some(c) => Some(c),
            None => if collides(fields, n - 1) {
                Some((n - 1) as nat)
            } else {
                None
            },
        }
    }
}

/// The place that is member `i`.
pub open spec fn member_place(i: nat) -> PlaceView {
    PlaceView { member: Some(i), attribute: None, path: Seq::empty() }
}

/// The builder's name: the record's, then `Builder`.
pub open spec fn builder_name(target: Seq<char>) -> Seq<char> {
    target + "Builder"@
}

/// The plan of the builder for a record, or why there is none: the first
/// malformed annotation, else the first conflict among the arguments of
/// `build`, else the first operation name that two members share.
pub open spec fn build_spec(args: StructParams) -> Result<BuildPlanView, ErrorView> {
    match fields_spec(args.data.members@, args.data.members.len() as nat) {
        Err(e) => Err(e),
        Ok(fs) => match build_fields_spec(fs, fs.len()) {
            Err(e) => Err(e),
            Ok(bs) => match collision(bs, bs.len()) {
                Some(j) => Err(
                    ErrorView::NameCollision {
                        name: bs[j as int].operation,
                        place: member_place(j),
                    },
                ),
                None => Ok(
                    BuildPlanView {
                        target: args.input.ident@,
                        builder: builder_name(args.input.ident@),
                        vis: views(args.input.vis@),
                        generics: args.input.generics@,
                        fields: bs,
                        markers: marker_names(bs, bs.len()),
                    },
                ),
            },
        },
    }
}

/// Once planning the members has failed, it has failed for good.
pub proof fn lemma_build_fields_error(fields: Seq<FieldView>, n: nat, m: nat)
    requires
        1 <= n <= m <= fields.len(),
        build_fields_spec(fields, n) is Err,
    ensures
        build_fields_spec(fields, m) == build_fields_spec(fields, n),
    decreases m - n,
{
    if n < m {
        lemma_build_fields_error(fields, n, (m - 1) as nat);
    }
}

/// Once a collision has been found, it stays the first.
pub proof fn lemma_collision_found(fields: Seq<BuildFieldView>, n: nat, m: nat)
    requires
        1 <= n <= m <= fields.len(),
        collision(fields, n) is Some,
    ensures
        collision(fields, m) == collision(fields, n),
    decreases m - n,
{
    if n < m {
        lemma_collision_found(fields, n, (m - 1) as nat);
    }
}

/// The counts and names of the markers of a list depend on its first
/// `n` members only.
pub proof fn lemma_prefix_counts(a: Seq<BuildFieldView>, b: Seq<BuildFieldView>, n: nat)
    requires
        n <= a.len(),
        n <= b.len(),
        forall|i: int| 0 <= i < n ==> a[i] == b[i],
    ensures
        required_count(a, n) == required_count(b, n),
        marker_names(a, n) == marker_names(b, n),
    decreases n,
{
    if n > 0 {
        lemma_prefix_counts(a, b, (n - 1) as nat);
    }
}

/// Whether a plan is one that `render` makes: no two members that take
/// part share an operation name, and the marker of each required member
/// is the number of required members before it.
pub open spec fn plan_wf(plan: BuildPlanView) -> bool {
    &&& collision(plan.fields, plan.fields.len()) is None
    &&& forall|i: int|
        0 <= i < plan.fields.len() && (#[trigger] plan.fields[i]).slot is Required
            ==> plan.fields[i].slot->marker == required_count(plan.fields, i as nat)
}

/// The members that planning gives are as many as were planned, and the
/// marker of each required one is the number of required ones before
/// it.
pub proof fn lemma_build_fields_markers(fields: Seq<FieldView>, n: nat)
    requires
        n <= fields.len(),
        build_fields_spec(fields, n) is Ok,
    ensures
        build_fields_spec(fields, n)->Ok_0.len() == n,
        forall|i: int|
            0 <= i < n && (#[trigger] build_fields_spec(fields, n)->Ok_0[i]).slot is Required
                ==> build_fields_spec(fields, n)->Ok_0[i].slot->marker == required_count(
                build_fields_spec(fields, n)->Ok_0,
                i as nat,
            ),
    decreases n,
{
    if n > 0 {
        lemma_build_fields_markers(fields, (n - 1) as nat);
        let done = build_fields_spec(fields, (n - 1) as nat)->Ok_0;
        let bs = build_fields_spec(fields, n)->Ok_0;
        assert forall|i: int| 0 <= i < n && (#[trigger] bs[i]).slot is Required implies bs[i].slot->marker
            == required_count(bs, i as nat) by {
            lemma_prefix_counts(done, bs, i as nat);
        }
    }
}

/// Every plan that `render` makes is well formed.
pub proof fn lemma_plan_is_wf(args: StructParams)
    requires
        build_spec(args) is Ok,
    ensures
        plan_wf(build_spec(args)->Ok_0),
{
    let fs = fields_spec(args.data.members@, args.data.members.len() as nat)->Ok_0;
    lemma_build_fields_markers(fs, fs.len());
}

/// What the builder makes of one member.
fn plan_field(f: &Field, next_marker: usize) -> (r: Result<BuildField, Error>)
    ensures
        match r {
            Ok(b) => build_field_spec(f@, next_marker as nat) == Ok::<BuildFieldView, ErrorView>(
                b@,
            ),
            Err(e) => build_field_spec(f@, next_marker as nat) == Err::<BuildFieldView, ErrorView>(
                e@,
            ),
        },
{
    if !f.attrs().has("build") {
        return Ok(
            BuildField {
                name: f.name().clone(),
                ty: clone_tokens(f.ty()),
                slot: Slot::Unmanaged,
                operation: f.name().to_text(),
                transform: None,
            },
        );
    }
    let args = match f.attrs().get("build") {
        Ok(a) => a,
        Err(e) => {
            return Err(e);
        },
    };
    let operation = match find_string(&args, "__value") {
        Some(s) => s,
        None => f.name().to_text(),
    };
    if !parses_as_ident(operation.as_str()) {
        return Err(Error::InvalidName { name: operation, place: Place::new() });
    }
    let transform = find_value(&args, "on");
    let slot = match find_value(&args, "default") {
        Some(d) => Slot::WithDefault { default: d },
        None => match option_inner_of(f.ty()) {
            Some(inner) => Slot::Wrapped { inner },
            None => Slot::Required { marker: next_marker },
        },
    };
    Ok(BuildField { name: f.name().clone(), ty: clone_tokens(f.ty()), slot, operation, transform })
}

/// Whether member `j` takes the operation name of a member before it.
fn takes_a_name(fields: &Vec<BuildField>, j: usize) -> (r: bool)
    requires
        j < fields.len(),
    ensures
        r == collides(build_views(fields@), j as int),
{
    let ghost fs = build_views(fields@);
    if matches!(fields[j].slot, Slot::Unmanaged) {
        return false;
    }
    let mut i: usize = 0;
    while i < j
        invariant
            i <= j < fields.len(),
            fs == build_views(fields@),
            managed(fs[j as int]),
            forall|k: int|
                0 <= k < i ==> !(managed(#[trigger] fs[k]) && fs[k].operation
                    == fs[j as int].operation),
        decreases j - i,
    {
        assert(fs[i as int] == fields[i as int]@);
        if !matches!(fields[i].slot, Slot::Unmanaged) && fields[i].operation
            == fields[j].operation {
            return true;
        }
        i += 1;
    }
    false
}

/// The generator of the staged builder for records.
#[derive(Clone, Copy, Debug, Default)]
pub struct StructSyntax;

impl StructSyntax {
    /// Plans the staged builder of a record.
    ///
    /// Every member annotated `build` takes part and is put into one of
    /// three classes: with a default, optional wrapper, or required. Each
    /// required member gets a marker, numbered in declaration order.
    /// Each member that takes part gets one operation, named after the
    /// member or as its annotation says. The record's name, visibility
    /// and generics are handed on unchanged.
    ///
    /// The errors are the first malformed annotation, the first conflict
    /// among the arguments of `build`, and the first operation name that
    /// two members share, looked for in this order.
    pub fn render(&self, args: &StructParams) -> (r: Result<BuildPlan, Error>)
        ensures
            match r {
                Ok(p) => build_spec(*args) == Ok::<BuildPlanView, ErrorView>(p@),
                Err(e) => build_spec(*args) == Err::<BuildPlanView, ErrorView>(e@),
            },
            r matches Ok(p) ==> plan_wf(p@),
    {
        proof {
            if build_spec(*args) is Ok {
                lemma_plan_is_wf(*args);
            }
        }
        let fields = match parse_fields(&args.data.members) {
            Ok(f) => f,
            Err(e) => {
                return Err(e);
            },
        };
        let ghost fs = field_views(fields@);
        let mut out: Vec<BuildField> = Vec::new();
        let mut markers: Vec<String> = Vec::new();
        let mut i: usize = 0;
        assert(build_views(out@) =~= Seq::empty());
        while i < fields.len()
            invariant
                i <= fields.len(),
                fs == field_views(fields@),
                fields_spec(args.data.members@, args.data.members.len() as nat) == Ok::<
                    Seq<FieldView>,
                    ErrorView,
                >(fs),
                out.len() == i,
                build_fields_spec(fs, i as nat) == Ok::<Seq<BuildFieldView>, ErrorView>(
                    build_views(out@),
                ),
                markers.len() == required_count(build_views(out@), i as nat),
                text_views(markers@) == marker_names(build_views(out@), i as nat),
            decreases fields.len() - i,
        {
            let ghost done = build_views(out@);
            match plan_field(&fields[i], markers.len()) {
                Err(e) => {
                    proof {
                        lemma_build_fields_error(fs, (i + 1) as nat, fs.len());
                    }
                    return Err(e.on_member(i));
                },
                Ok(b) => {
                    proof {
                        assert(build_views(out@.push(b)) =~= done.push(b@));
                        lemma_prefix_counts(done, done.push(b@), i as nat);
                    }
                    if matches!(b.slot, Slot::Required { .. }) {
                        let name = to_uppercase(b.name.to_text().as_str());
                        markers.push(name);
                    }
                    out.push(b);
                },
            }
            i += 1;
        }
        let ghost bs = build_views(out@);
        let mut j: usize = 0;
        while j < out.len()
            invariant
                j <= out.len(),
                bs == build_views(out@),
                fields_spec(args.data.members@, args.data.members.len() as nat) == Ok::<
                    Seq<FieldView>,
                    ErrorView,
                >(fs),
                build_fields_spec(fs, fs.len()) == Ok::<Seq<BuildFieldView>, ErrorView>(bs),
                collision(bs, j as nat) is None,
            decreases out.len() - j,
        {
            if takes_a_name(&out, j) {
                proof {
                    lemma_collision_found(bs, (j + 1) as nat, bs.len());
                }
                let place = Place { member: Some(j), attribute: None, path: Vec::new() };
                assert(place@.path =~= Seq::empty());
                return Err(Error::NameCollision { name: out[j].operation.clone(), place });
            }
            j += 1;
        }
        let mut builder = args.input.ident.clone();
        builder.append("Builder");
        Ok(
            BuildPlan {
                target: args.input.ident.clone(),
                builder,
                vis: clone_tokens(&args.input.vis),
                generics: args.input.generics.clone(),
                fields: out,
                markers,
            },
        )
    }
}

} // verus!
