//! The builder's protocol, run on plain values.
//!
//! A stage is one point of the protocol: which markers are set and what
//! has been supplied so far. Generated code keeps the markers in the
//! stage's type, so that a step out of order does not compile. Here the
//! same protocol is a state machine whose steps fail instead.

use crate::builder::{
    BuildFieldView, BuildPlan, BuildPlanView, Slot, SlotView, build_views, collides, collision,
    managed, plan_wf, required_count,
};
use crate::field::name_text;
use crate::token::{Token, TokenView, clone_tokens, maybe_text, text_views, views};
use vstd::prelude::*;

verus! {

/// One point of the protocol.
#[derive(Debug, PartialEq)]
pub struct Stage {
    markers: Vec<bool>,
    values: Vec<Option<String>>,
}

/// A stage as a mathematical value: one marker for each required member,
/// and for each member of the plan what has been supplied for it.
pub struct StageView {
    pub markers: Seq<bool>,
    pub values: Seq<Option<Seq<char>>>,
}

impl View for Stage {
    type V = StageView;

    closed spec fn view(&self) -> StageView {
        StageView {
            markers: self.markers@,
            values: Seq::new(self.values.len() as nat, |i: int| maybe_text(self.values[i])),
        }
    }
}

/// Why a step of the protocol is refused.
#[derive(Clone, Copy, Debug, PartialEq, Eq, Structural)]
pub enum StageError {
    /// No member has an operation of that name.
    UnknownOperation,
    /// The operation sets a required member that is set already.
    AlreadySet,
    /// A required member has not been supplied.
    Incomplete,
    /// The stage does not belong to the plan.
    Foreign,
}

/// What a member of the finished value holds.
#[derive(Debug, PartialEq)]
pub enum Outcome {
    /// What was supplied.
    Given(String),
    /// What the member's transform makes of what was supplied: the
    /// expression `on`, with `value` bound to the value given.
    Transformed { value: String, on: Vec<Token> },
    /// The default expression of the member, which was omitted.
    Default(Vec<Token>),
    /// Nothing: an optional wrapper that was omitted.
    Absent,
    /// The default of the member's type: the builder has no part in it.
    TypeDefault,
}

/// An outcome as a mathematical value.
pub enum OutcomeView {
    Given(Seq<char>),
    Transformed { value: Seq<char>, on: Seq<TokenView> },
    Default(Seq<TokenView>),
    Absent,
    TypeDefault,
}

impl View for Outcome {
    type V = OutcomeView;

    open spec fn view(&self) -> OutcomeView {
        match self {
            Outcome::Given(s) => OutcomeView::Given(s@),
            Outcome::Transformed { value, on } => OutcomeView::Transformed {
                value: value@,
                on: views(on@),
            },
            Outcome::Default(d) => OutcomeView::Default(views(d@)),
            Outcome::Absent => OutcomeView::Absent,
            Outcome::TypeDefault => OutcomeView::TypeDefault,
        }
    }
}

/// The views of a list of outcomes, one for one.
pub open spec fn outcome_views(outcomes: Seq<Outcome>) -> Seq<OutcomeView> {
    Seq::new(outcomes.len(), |i: int| outcomes[i]@)
}

/// Whether a stage has the shape of the plan: a value slot for each
/// member and a marker for each required member.
pub open spec fn fits(plan: BuildPlanView, s: StageView) -> bool {
    s.values.len() == plan.fields.len() && s.markers.len() == required_count(
        plan.fields,
        plan.fields.len(),
    )
}

/// The stage at which construction starts: no marker set, nothing
/// supplied.
pub open spec fn start_spec(plan: BuildPlanView) -> StageView {
    StageView {
        markers: Seq::new(required_count(plan.fields, plan.fields.len()), |i: int| false),
        values: Seq::new(plan.fields.len(), |i: int| None),
    }
}

/// The index of the first member from `from` on that has the operation
/// `op`, or the number of members.
pub open spec fn operation_index(fields: Seq<BuildFieldView>, op: Seq<char>, from: int) -> int
    decreases fields.len() - from,
{
    if from < 0 || from >= fields.len() {
        fields.len() as int
    } else if managed(fields[from]) && fields[from].operation == op {
        from
    } else {
        operation_index(fields, op, from + 1)
    }
}

/// One step: the operation `op` is called with `value`.
///
/// The operation of a required member is offered only while its marker
/// is unset, and sets it; every other marker stays as it is. The
/// operation of any other member is offered at every stage and changes
/// no marker. Either way the value is stored for the member.
pub open spec fn apply_spec(plan: BuildPlanView, s: StageView, op: Seq<char>, value: Seq<char>)
    -> Result<StageView, StageError> {
    let i = operation_index(plan.fields, op, 0);
    if !fits(plan, s) {
        Err(StageError::Foreign)
    } else if i < 0 || i >= plan.fields.len() {
        Err(StageError::UnknownOperation)
    } else {
        match plan.fields[i].slot {
            SlotView::Required { marker } => if marker >= s.markers.len() {
                Err(StageError::Foreign)
            } else if s.markers[marker as int] {
                Err(StageError::AlreadySet)
            } else {
                Ok(
                    StageView {
                        markers: s.markers.update(marker as int, true),
                        values: s.values.update(i, Some(value)),
                    },
                )
            },
            _ => Ok(StageView { markers: s.markers, values: s.values.update(i, Some(value)) }),
        }
    }
}

/// Whether every marker is set.
pub open spec fn all_set(markers: Seq<bool>) -> bool {
    forall|m: int| 0 <= m < markers.len() ==> #[trigger] markers[m]
}

/// Whether every required member has a value.
pub open spec fn all_supplied(plan: BuildPlanView, s: StageView) -> bool {
    forall|i: int|
        0 <= i < plan.fields.len() && (#[trigger] plan.fields[i]).slot is Required
            ==> s.values[i] is Some
}

/// What a member of the finished value holds: what was supplied, passed
/// through the member's transform where it has one, else what its slot
/// provides.
pub open spec fn outcome_of(f: BuildFieldView, v: Option<Seq<char>>) -> OutcomeView {
    match v {
        Some(x) => match f.transform {
            Some(on) => OutcomeView::Transformed { value: x, on },
            None => OutcomeView::Given(x),
        },
        None => match f.slot {
            SlotView::WithDefault { default } => OutcomeView::Default(default),
            SlotView::Unmanaged => OutcomeView::TypeDefault,
            _ => OutcomeView::Absent,
        },
    }
}

/// Finishing: allowed once every marker is set, and then each member
/// holds what was supplied, its default, or nothing.
pub open spec fn finalize_spec(plan: BuildPlanView, s: StageView) -> Result<
    Seq<OutcomeView>,
    StageError,
> {
    if !fits(plan, s) {
        Err(StageError::Foreign)
    } else if !all_set(s.markers) || !all_supplied(plan, s) {
        Err(StageError::Incomplete)
    } else {
        Ok(Seq::new(plan.fields.len(), |i: int| outcome_of(plan.fields[i], s.values[i])))
    }
}

/// One marker in the type of a stage.
#[derive(Debug, PartialEq)]
pub enum MarkerArg {
    /// The marker has this value at the stage.
    Fixed(bool),
    /// The marker has any value; it is a parameter of this name.
    Free(String),
}

/// A marker of a stage type as a mathematical value.
pub enum MarkerArgView {
    Fixed(bool),
    Free(Seq<char>),
}

impl View for MarkerArg {
    type V = MarkerArgView;

    open spec fn view(&self) -> MarkerArgView {
        match self {
            MarkerArg::Fixed(b) => MarkerArgView::Fixed(*b),
            MarkerArg::Free(s) => MarkerArgView::Free(s@),
        }
    }
}

/// The markers of the stage type around one step: marker `m` has the
/// value `value`, every other marker is free.
pub open spec fn stage_type(markers: Seq<Seq<char>>, m: int, value: bool) -> Seq<MarkerArgView> {
    Seq::new(
        markers.len(),
        |j: int|
            if j == m {
                MarkerArgView::Fixed(value)
            } else {
                MarkerArgView::Free(markers[j])
            },
    )
}

/// The views of the markers of a stage type, one for one.
pub open spec fn marker_arg_views(args: Seq<MarkerArg>) -> Seq<MarkerArgView> {
    Seq::new(args.len(), |i: int| args[i]@)
}

impl BuildPlan {
    /// How many members are required, which is how many markers a stage
    /// has.
    pub fn required(&self) -> (k: usize)
        ensures
            k == required_count(self@.fields, self@.fields.len()),
    {
        let ghost fs = build_views(self.fields@);
        let mut k: usize = 0;
        let mut i: usize = 0;
        while i < self.fields.len()
            invariant
                i <= self.fields.len(),
                fs == build_views(self.fields@),
                k == required_count(fs, i as nat),
                k <= i,
            decreases self.fields.len() - i,
        {
            if matches!(self.fields[i].slot, Slot::Required { .. }) {
                k += 1;
            }
            i += 1;
        }
        k
    }

    /// The stage at which construction starts.
    pub fn start(&self) -> (s: Stage)
        ensures
            s@ == start_spec(self@),
    {
        let k = self.required();
        let mut markers: Vec<bool> = Vec::new();
        while markers.len() < k
            invariant
                markers.len() <= k,
                forall|m: int| 0 <= m < markers.len() ==> !markers[m],
            decreases k - markers.len(),
        {
            markers.push(false);
        }
        let mut values: Vec<Option<String>> = Vec::new();
        while values.len() < self.fields.len()
            invariant
                values.len() <= self.fields.len(),
                forall|i: int| 0 <= i < values.len() ==> values[i] is None,
            decreases self.fields.len() - values.len(),
        {
            values.push(None);
        }
        let s = Stage { markers, values };
        assert(s@.markers =~= start_spec(self@).markers);
        assert(s@.values =~= start_spec(self@).values);
        s
    }

    /// The index of the member that the operation `op` sets, or the
    /// number of members where no member has that operation.
    pub fn operation(&self, op: &str) -> (i: usize)
        ensures
            i == operation_index(self@.fields, op@, 0),
            i <= self.fields.len(),
    {
        let ghost fs = build_views(self.fields@);
        let name = op.to_owned();
        let mut i: usize = 0;
        while i < self.fields.len()
            invariant
                i <= self.fields.len(),
                fs == build_views(self.fields@),
                name@ == op@,
                operation_index(fs, op@, 0) == operation_index(fs, op@, i as int),
            decreases self.fields.len() - i,
        {
            if !matches!(self.fields[i].slot, Slot::Unmanaged) && self.fields[i].operation
                == name {
                return i;
            }
            i += 1;
        }
        i
    }

    /// Takes one step of the protocol: calls the operation `op` with
    /// `value` at `stage` and returns the next stage.
    ///
    /// The step is refused with `UnknownOperation` where no member has
    /// the operation, with `AlreadySet` where it sets a required member
    /// whose marker is set, and with `Foreign` where the stage is not of
    /// this plan.
    pub fn apply(&self, stage: Stage, op: &str, value: &str) -> (r: Result<Stage, StageError>)
        ensures
            match r {
                Ok(s) => apply_spec(self@, stage@, op@, value@) == Ok::<StageView, StageError>(s@),
                Err(e) => apply_spec(self@, stage@, op@, value@) == Err::<StageView, StageError>(
                    e,
                ),
            },
    {
        let mut stage = stage;
        let ghost before = stage@;
        let k = self.required();
        if stage.values.len() != self.fields.len() || stage.markers.len() != k {
            return Err(StageError::Foreign);
        }
        let i = self.operation(op);
        if i >= self.fields.len() {
            return Err(StageError::UnknownOperation);
        }
        match &self.fields[i].slot {
            Slot::Required { marker } => {
                if *marker >= stage.markers.len() {
                    return Err(StageError::Foreign);
                }
                if stage.markers[*marker] {
                    return Err(StageError::AlreadySet);
                }
                stage.markers.set(*marker, true);
            },
            _ => {},
        }
        stage.values.set(i, Some(value.to_owned()));
        assert(stage@.values =~= before.values.update(i as int, Some(value@)));
        Ok(stage)
    }

    /// Whether the value can be finished at this stage: the stage is of
    /// this plan, every marker is set and every required member has a
    /// value.
    pub fn can_finalize(&self, stage: &Stage) -> (r: bool)
        ensures
            r == (finalize_spec(self@, stage@) is Ok),
    {
        let ghost fs = build_views(self.fields@);
        let k = self.required();
        if stage.values.len() != self.fields.len() || stage.markers.len() != k {
            return false;
        }
        let mut m: usize = 0;
        while m < stage.markers.len()
            invariant
                m <= stage.markers.len(),
                forall|j: int| 0 <= j < m ==> stage@.markers[j],
            decreases stage.markers.len() - m,
        {
            if !stage.markers[m] {
                return false;
            }
            m += 1;
        }
        let mut i: usize = 0;
        while i < self.fields.len()
            invariant
                i <= self.fields.len(),
                stage.values.len() == self.fields.len(),
                fs == build_views(self.fields@),
                forall|j: int|
                    0 <= j < i && (#[trigger] fs[j]).slot is Required ==> stage@.values[j] is Some,
            decreases self.fields.len() - i,
        {
            assert(fs[i as int] == self.fields[i as int]@);
            if matches!(self.fields[i].slot, Slot::Required { .. }) && stage.values[i].is_none() {
                return false;
            }
            i += 1;
        }
        true
    }

    /// Finishes the value: for each member of the plan, in order, what
    /// it holds. A member that was supplied holds what was given, passed
    /// through its transform where it has one; one that was omitted holds
    /// its default expression, nothing, or its type's default, as its
    /// slot has it.
    ///
    /// Finishing is refused with `Incomplete` while a marker is unset.
    pub fn finalize(&self, stage: Stage) -> (r: Result<Vec<Outcome>, StageError>)
        ensures
            match r {
                Ok(v) => finalize_spec(self@, stage@) == Ok::<Seq<OutcomeView>, StageError>(
                    outcome_views(v@),
                ),
                Err(e) => finalize_spec(self@, stage@) == Err::<Seq<OutcomeView>, StageError>(e),
            },
    {
        let ghost fs = build_views(self.fields@);
        let k = self.required();
        if stage.values.len() != self.fields.len() || stage.markers.len() != k {
            return Err(StageError::Foreign);
        }
        if !self.can_finalize(&stage) {
            return Err(StageError::Incomplete);
        }
        let mut out: Vec<Outcome> = Vec::new();
        let mut i: usize = 0;
        while i < self.fields.len()
            invariant
                i <= self.fields.len(),
                stage.values.len() == self.fields.len(),
                fs == build_views(self.fields@),
                out.len() == i,
                forall|j: int| 0 <= j < i ==> out[j]@ == outcome_of(fs[j], stage@.values[j]),
            decreases self.fields.len() - i,
        {
            let o = match &stage.values[i] {
                Some(v) => match &self.fields[i].transform {
                    Some(on) => Outcome::Transformed { value: v.clone(), on: clone_tokens(on) },
                    None => Outcome::Given(v.clone()),
                },
                None => match &self.fields[i].slot {
                    Slot::WithDefault { default } => Outcome::Default(clone_tokens(default)),
                    Slot::Unmanaged => Outcome::TypeDefault,
                    _ => Outcome::Absent,
                },
            };
            out.push(o);
            i += 1;
        }
        assert(outcome_views(out@) =~= Seq::new(
            fs.len(),
            |i: int| outcome_of(fs[i], stage@.values[i]),
        ));
        Ok(out)
    }

    /// The markers of a stage type in which marker `m` has the value
    /// `value` and every other marker is free: with `false`, the type
    /// on which the operation of the required member `m` is offered;
    /// with `true`, the type that the operation returns.
    pub fn stage_around(&self, m: usize, value: bool) -> (r: Vec<MarkerArg>)
        ensures
            marker_arg_views(r@) == stage_type(self@.markers, m as int, value),
    {
        let mut out: Vec<MarkerArg> = Vec::new();
        let mut j: usize = 0;
        while j < self.markers.len()
            invariant
                j <= self.markers.len(),
                out.len() == j,
                forall|i: int|
                    0 <= i < j ==> out[i]@ == stage_type(text_views(self.markers@), m as int, value)[i],
            decreases self.markers.len() - j,
        {
            if j == m {
                out.push(MarkerArg::Fixed(value));
            } else {
                out.push(MarkerArg::Free(self.markers[j].clone()));
            }
            j += 1;
        }
        out
    }
}

impl Stage {
    /// The markers of the stage, one for each required member.
    pub fn markers(&self) -> (r: &Vec<bool>)
        ensures
            r@ == self@.markers,
    {
        &self.markers
    }

    /// What has been supplied for the member at index `i` of the plan.
    pub fn value(&self, i: usize) -> (r: Option<&String>)
        ensures
            match r {
                Some(s) => i < self@.values.len() && self@.values[i as int] == Some(s@),
                None => i >= self@.values.len() || self@.values[i as int] is None,
            },
    {
        if i < self.values.len() {
            match &self.values[i] {
                Some(s) => Some(s),
                None => None,
            }
        } else {
            None
        }
    }
}

/// How many of the first `n` markers are set.
pub open spec fn count_set(markers: Seq<bool>, n: nat) -> nat
    decreases n,
{
    if n == 0 || n > markers.len() {
        0
    } else {
        count_set(markers, (n - 1) as nat) + if markers[n - 1] {
            1nat
        } else {
            0nat
        }
    }
}

/// Whether a stage is one that the protocol reaches: it has the plan's
/// shape, and the marker of each required member is set exactly if the
/// member has been supplied.
pub open spec fn stage_wf(plan: BuildPlanView, s: StageView) -> bool {
    &&& fits(plan, s)
    &&& forall|i: int|
        0 <= i < plan.fields.len() && (#[trigger] plan.fields[i]).slot is Required ==> {
            &&& plan.fields[i].slot->marker < s.markers.len()
            &&& s.values[i] is Some <==> s.markers[plan.fields[i].slot->marker as int]
        }
}

/// The stage after the first `n` of a list of steps, each an operation
/// name and a value, taken from the start; the first refusal ends the
/// run.
pub open spec fn run(plan: BuildPlanView, steps: Seq<(Seq<char>, Seq<char>)>, n: nat) -> Result<
    StageView,
    StageError,
>
    decreases n,
{
    if n == 0 || n > steps.len() {
        Ok(start_spec(plan))
    } else {
        match run(plan, steps, (n - 1) as nat) {
            Ok(s) => apply_spec(plan, s, steps[n - 1].0, steps[n - 1].1),
            Err(e) => Err(e),
        }
    }
}

/// Whether the operation `op` is that of a required member.
pub open spec fn sets_required(plan: BuildPlanView, op: Seq<char>) -> bool {
    let i = operation_index(plan.fields, op, 0);
    0 <= i < plan.fields.len() && plan.fields[i].slot is Required
}

/// How many of the first `n` steps call the operation of a required
/// member.
pub open spec fn required_steps(plan: BuildPlanView, steps: Seq<(Seq<char>, Seq<char>)>, n: nat)
    -> nat
    decreases n,
{
    if n == 0 || n > steps.len() {
        0
    } else {
        required_steps(plan, steps, (n - 1) as nat) + if sets_required(plan, steps[n - 1].0) {
            1nat
        } else {
            0nat
        }
    }
}

/// The number of required members among the first `n` grows with `n`,
/// and grows past every required member.
pub proof fn lemma_required_count_grows(fields: Seq<BuildFieldView>, i: nat, j: nat)
    requires
        i <= j <= fields.len(),
    ensures
        required_count(fields, i) <= required_count(fields, j),
        i < j && fields[i as int].slot is Required ==> required_count(fields, i) < required_count(
            fields,
            j,
        ),
    decreases j - i,
{
    if i < j {
        lemma_required_count_grows(fields, i, (j - 1) as nat);
    }
}

/// `operation_index` finds the first member with the operation.
pub proof fn lemma_operation_index(fields: Seq<BuildFieldView>, op: Seq<char>, from: int)
    requires
        0 <= from <= fields.len(),
    ensures
        from <= operation_index(fields, op, from) <= fields.len(),
        operation_index(fields, op, from) < fields.len() ==> {
            &&& managed(fields[operation_index(fields, op, from)])
            &&& fields[operation_index(fields, op, from)].operation == op
        },
        forall|k: int|
            from <= k < operation_index(fields, op, from) ==> !(managed(#[trigger] fields[k])
                && fields[k].operation == op),
    decreases fields.len() - from,
{
    if from < fields.len() && !(managed(fields[from]) && fields[from].operation == op) {
        lemma_operation_index(fields, op, from + 1);
    }
}

/// Where no collision was found, no member takes another's name.
pub proof fn lemma_no_collision(fields: Seq<BuildFieldView>, n: nat)
    requires
        n <= fields.len(),
        collision(fields, n) is None,
    ensures
        forall|j: int| 0 <= j < n ==> !collides(fields, j),
    decreases n,
{
    if n > 0 {
        lemma_no_collision(fields, (n - 1) as nat);
    }
}

/// Setting one more marker raises the count by one.
pub proof fn lemma_count_set_update(markers: Seq<bool>, m: int, n: nat)
    requires
        0 <= m < markers.len(),
        n <= markers.len(),
        !markers[m],
    ensures
        count_set(markers.update(m, true), n) == count_set(markers, n) + if m < n {
            1nat
        } else {
            0nat
        },
    decreases n,
{
    if n > 0 {
        lemma_count_set_update(markers, m, (n - 1) as nat);
    }
}

/// All of the first `n` markers are set exactly if `n` of them are.
pub proof fn lemma_count_set_full(markers: Seq<bool>, n: nat)
    requires
        n <= markers.len(),
    ensures
        count_set(markers, n) <= n,
        count_set(markers, n) == n <==> forall|j: int| 0 <= j < n ==> #[trigger] markers[j],
    decreases n,
{
    if n > 0 {
        lemma_count_set_full(markers, (n - 1) as nat);
    }
}

/// The names of the operations and the markers correspond one to one to
/// the required members.
///
/// In a well-formed plan no two members that take part share an
/// operation name, so the operation of each is found by its name. No two
/// required members share a marker, every marker is below the number of
/// required members, and every marker below that number is some required
/// member's.
pub proof fn lemma_operations_and_markers(plan: BuildPlanView)
    requires
        plan_wf(plan),
    ensures
        forall|i: int, j: int|
            0 <= i < j < plan.fields.len() && managed(#[trigger] plan.fields[i]) && managed(
                #[trigger] plan.fields[j],
            ) ==> plan.fields[i].operation != plan.fields[j].operation,
        forall|i: int|
            0 <= i < plan.fields.len() && managed(#[trigger] plan.fields[i]) ==> operation_index(
                plan.fields,
                plan.fields[i].operation,
                0,
            ) == i,
        forall|i: int, j: int|
            0 <= i < j < plan.fields.len() && (#[trigger] plan.fields[i]).slot is Required && (
            #[trigger] plan.fields[j]).slot is Required ==> plan.fields[i].slot->marker
                < plan.fields[j].slot->marker,
        forall|i: int|
            0 <= i < plan.fields.len() && (#[trigger] plan.fields[i]).slot is Required
                ==> plan.fields[i].slot->marker < required_count(plan.fields, plan.fields.len()),
        forall|m: nat|
            m < required_count(plan.fields, plan.fields.len()) ==> #[trigger] has_owner(
                plan.fields,
                m,
                plan.fields.len(),
            ),
{
    let fields = plan.fields;
    let n = fields.len();
    lemma_no_collision(fields, n);
    assert forall|i: int, j: int|
        0 <= i < j < n && managed(#[trigger] fields[i]) && managed(
            #[trigger] fields[j],
        ) implies fields[i].operation != fields[j].operation by {
        assert(!collides(fields, j));
    }
    assert forall|i: int| 0 <= i < n && managed(#[trigger] fields[i]) implies operation_index(
        fields,
        fields[i].operation,
        0,
    ) == i by {
        lemma_operation_index(fields, fields[i].operation, 0);
    }
    assert forall|i: int, j: int|
        0 <= i < j < n && (#[trigger] fields[i]).slot is Required && (
        #[trigger] fields[j]).slot is Required implies fields[i].slot->marker
        < fields[j].slot->marker by {
        lemma_required_count_grows(fields, i as nat, j as nat);
    }
    assert forall|i: int| 0 <= i < n && (#[trigger] fields[i]).slot is Required implies fields[i].slot->marker
        < required_count(fields, n) by {
        lemma_required_count_grows(fields, i as nat, n);
    }
    assert forall|m: nat| m < required_count(fields, n) implies #[trigger] has_owner(
        fields,
        m,
        n,
    ) by {
        lemma_marker_owner(plan, m, n);
    }
}

/// Whether one of the first `n` members is the required member with the
/// marker `m`.
pub open spec fn has_owner(fields: Seq<BuildFieldView>, m: nat, n: nat) -> bool {
    exists|i: int|
        0 <= i < n && (#[trigger] fields[i]).slot == (SlotView::Required { marker: m })
}

/// Every marker below the number of required members among the first
/// `n` belongs to one of them.
pub proof fn lemma_marker_owner(plan: BuildPlanView, m: nat, n: nat)
    requires
        plan_wf(plan),
        n <= plan.fields.len(),
        m < required_count(plan.fields, n),
    ensures
        has_owner(plan.fields, m, n),
    decreases n,
{
    if n > 0 {
        if m < required_count(plan.fields, (n - 1) as nat) {
            lemma_marker_owner(plan, m, (n - 1) as nat);
        }
    }
}

/// Construction starts with no marker set, and so can be finished at
/// once only where no member is required.
pub proof fn lemma_start(plan: BuildPlanView)
    requires
        plan_wf(plan),
    ensures
        stage_wf(plan, start_spec(plan)),
        count_set(start_spec(plan).markers, start_spec(plan).markers.len()) == 0,
        finalize_spec(plan, start_spec(plan)) is Ok <==> required_count(
            plan.fields,
            plan.fields.len(),
        ) == 0,
{
    let s = start_spec(plan);
    lemma_operations_and_markers(plan);
    lemma_count_unset(s.markers, s.markers.len());
}

/// Where no marker is set, none is counted.
pub proof fn lemma_count_unset(markers: Seq<bool>, n: nat)
    requires
        n <= markers.len(),
        forall|j: int| 0 <= j < n ==> !markers[j],
    ensures
        count_set(markers, n) == 0,
    decreases n,
{
    if n > 0 {
        lemma_count_unset(markers, (n - 1) as nat);
    }
}

/// A step leads from a stage of the protocol to a stage of the
/// protocol. The operation of a required member sets exactly one more
/// marker; any other operation leaves the markers as they are.
pub proof fn lemma_step(plan: BuildPlanView, s: StageView, op: Seq<char>, value: Seq<char>)
    requires
        plan_wf(plan),
        stage_wf(plan, s),
        apply_spec(plan, s, op, value) is Ok,
    ensures
        stage_wf(plan, apply_spec(plan, s, op, value)->Ok_0),
        sets_required(plan, op) ==> count_set(
            apply_spec(plan, s, op, value)->Ok_0.markers,
            s.markers.len(),
        ) == count_set(s.markers, s.markers.len()) + 1,
        !sets_required(plan, op) ==> apply_spec(plan, s, op, value)->Ok_0.markers == s.markers,
{
    let i = operation_index(plan.fields, op, 0);
    lemma_operations_and_markers(plan);
    match plan.fields[i].slot {
        SlotView::Required { marker } => {
            lemma_count_set_update(s.markers, marker as int, s.markers.len());
        },
        _ => {},
    }
}

/// Finishing is possible exactly at the stages at which every marker is
/// set: from a stage with fewer markers set than there are required
/// members it is refused.
pub proof fn lemma_finalize_needs_every_marker(plan: BuildPlanView, s: StageView)
    requires
        plan_wf(plan),
        stage_wf(plan, s),
    ensures
        finalize_spec(plan, s) is Ok <==> count_set(s.markers, s.markers.len()) == required_count(
            plan.fields,
            plan.fields.len(),
        ),
        count_set(s.markers, s.markers.len()) <= required_count(plan.fields, plan.fields.len()),
{
    lemma_count_set_full(s.markers, s.markers.len());
}

/// Along every run from the start, the number of markers set is the
/// number of steps that called the operation of a required member. So
/// with `k` required members a run passes a stage with each number of
/// set markers from 0 to `k - 1`, at none of which it can be finished,
/// and can be finished after exactly `k` such steps.
pub proof fn lemma_run(plan: BuildPlanView, steps: Seq<(Seq<char>, Seq<char>)>, n: nat)
    requires
        plan_wf(plan),
        n <= steps.len(),
        run(plan, steps, n) is Ok,
    ensures
        stage_wf(plan, run(plan, steps, n)->Ok_0),
        count_set(run(plan, steps, n)->Ok_0.markers, run(plan, steps, n)->Ok_0.markers.len())
            == required_steps(plan, steps, n),
        finalize_spec(plan, run(plan, steps, n)->Ok_0) is Ok <==> required_steps(plan, steps, n)
            == required_count(plan.fields, plan.fields.len()),
    decreases n,
{
    if n == 0 {
        lemma_start(plan);
    } else {
        lemma_run(plan, steps, (n - 1) as nat);
        let s = run(plan, steps, (n - 1) as nat)->Ok_0;
        lemma_step(plan, s, steps[n - 1].0, steps[n - 1].1);
    }
    lemma_finalize_needs_every_marker(plan, run(plan, steps, n)->Ok_0);
}

/// An operation exists under the names that the plan gives and under no
/// other: a name that is no member's operation is refused at every
/// stage of the plan.
pub proof fn lemma_unknown_operation(
    plan: BuildPlanView,
    s: StageView,
    op: Seq<char>,
    value: Seq<char>,
)
    requires
        fits(plan, s),
        forall|j: int|
            0 <= j < plan.fields.len() && managed(#[trigger] plan.fields[j])
                ==> plan.fields[j].operation != op,
    ensures
        apply_spec(plan, s, op, value) == Err::<StageView, StageError>(
            StageError::UnknownOperation,
        ),
{
    lemma_operation_index(plan.fields, op, 0);
}

/// A member that has an operation name of its own is set under that
/// name, and its own name is no operation, unless another member took
/// that name for its operation.
pub proof fn lemma_own_name_is_no_operation(
    plan: BuildPlanView,
    s: StageView,
    i: int,
    value: Seq<char>,
)
    requires
        plan_wf(plan),
        fits(plan, s),
        0 <= i < plan.fields.len(),
        managed(plan.fields[i]),
        plan.fields[i].operation != name_text(plan.fields[i].name),
        forall|j: int|
            0 <= j < plan.fields.len() && j != i && managed(#[trigger] plan.fields[j])
                ==> plan.fields[j].operation != name_text(plan.fields[i].name),
    ensures
        operation_index(plan.fields, plan.fields[i].operation, 0) == i,
        apply_spec(plan, s, name_text(plan.fields[i].name), value) == Err::<
            StageView,
            StageError,
        >(StageError::UnknownOperation),
{
    lemma_operations_and_markers(plan);
    lemma_unknown_operation(plan, s, name_text(plan.fields[i].name), value);
}

} // verus!
