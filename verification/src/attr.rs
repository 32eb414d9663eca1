//! Annotations: one occurrence with its arguments, and all of those on
//! one declaration or member.

use crate::arg::{
    Arg, ArgView, arg_views, arg_wf, clone_args, lemma_arg_views_push, path_is, path_is_ident,
    path_of, same_args,
};
use crate::error::{
    Error, ErrorView, GrammarKind, Place, at_index, in_attribute, inside, nowhere,
};
use crate::grammar::{is_args, parse_list, parse_list_spec};
use crate::token::{Token, TokenView, clone_tokens, render, same_tokens, text_of, views};
use vstd::prelude::*;

verus! {

/// One annotation: a path and the arguments in its brackets, such as
/// `display(skip, alias = "x")`.
#[derive(Debug)]
pub struct Attr {
    pub path: Vec<Token>,
    pub args: Vec<Arg>,
}

/// An annotation as a mathematical value.
pub struct AttrView {
    pub path: Seq<TokenView>,
    pub args: Seq<ArgView>,
}

impl View for Attr {
    type V = AttrView;

    open spec fn view(&self) -> AttrView
        decreases self,
    {
        AttrView { path: views(self.path@), args: arg_views(self.args@) }
    }
}

impl Attr {
    /// Whether every path in the annotation has a token.
    pub open spec fn wf(&self) -> bool {
        arg_wf(ArgView::Attr(self@))
    }

    pub fn new(path: Vec<Token>, args: Vec<Arg>) -> (r: Attr)
        ensures
            r@ == (AttrView { path: views(path@), args: arg_views(args@) }),
    {
        Attr { path, args }
    }

    pub fn path(&self) -> (r: &Vec<Token>)
        ensures
            views(r@) == self@.path,
    {
        &self.path
    }

    pub fn args(&self) -> (r: &Vec<Arg>)
        ensures
            arg_views(r@) == self@.args,
    {
        &self.args
    }

    /// Whether two annotations are structurally equal.
    pub fn same(&self, other: &Attr) -> (r: bool)
        ensures
            r == (self@ == other@),
        decreases self, 2nat,
    {
        same_tokens(&self.path, &other.path) && same_args(&self.args, &other.args)
    }
}

impl Clone for Attr {
    fn clone(&self) -> (r: Attr)
        ensures
            r@ == self@,
        decreases self, 2nat,
    {
        Attr { path: clone_tokens(&self.path), args: clone_args(&self.args) }
    }
}

impl PartialEq for Attr {
    fn eq(&self, other: &Attr) -> (r: bool) {
        self.same(other)
    }
}

impl vstd::std_specs::cmp::PartialEqSpecImpl for Attr {
    open spec fn obeys_eq_spec() -> bool {
        true
    }

    open spec fn eq_spec(&self, other: &Attr) -> bool {
        self@ == other@
    }
}

/// What follows the path of an attribute in the source.
#[derive(Debug)]
pub enum AttrBody {
    /// Nothing: `#[name]`.
    Bare,
    /// Arguments in brackets: `#[name(arguments)]`.
    List(Vec<Token>),
    /// A value: `#[name = value]`.
    Value(Vec<Token>),
}

/// An attribute as it stands on a declaration or a member, unparsed.
#[derive(Debug)]
pub struct RawAttribute {
    pub path: Vec<Token>,
    pub body: AttrBody,
}

/// Whether an attribute belongs to this generator: its path is the
/// umbrella name `moxy`.
pub open spec fn is_umbrella(raw: RawAttribute) -> bool {
    path_is(views(raw.path@), "moxy"@)
}

/// What parsing one attribute gives: the annotation with the parsed
/// arguments of its brackets, or the error of the argument list. An
/// attribute that is its path alone is an annotation without arguments;
/// one that is given a value has no argument list, which is an error.
pub open spec fn parse_attr_spec(raw: RawAttribute) -> Result<AttrView, ErrorView> {
    match raw.body {
        AttrBody::List(tokens) => match parse_list_spec(views(tokens@)) {
            Ok(args) => Ok(AttrView { path: views(raw.path@), args }),
            Err(e) => Err(e),
        },
        AttrBody::Bare => Ok(AttrView { path: views(raw.path@), args: Seq::empty() }),
        AttrBody::Value(_) => Err(
            ErrorView::Grammar { kind: GrammarKind::MissingArgument, place: at_index(0) },
        ),
    }
}

/// Whether an argument of the list has the single identifier `name` as
/// its path.
pub open spec fn has_key(args: Seq<ArgView>, name: Seq<char>) -> bool {
    exists|i: int| 0 <= i < args.len() && path_is(path_of(#[trigger] args[i]), name)
}

/// The index of the first argument from `from` on whose path is the
/// single identifier `name`, or the length of the list.
pub open spec fn index_of_key(args: Seq<ArgView>, name: Seq<char>, from: int) -> int
    decreases args.len() - from,
{
    if from < 0 || from >= args.len() {
        args.len() as int
    } else if path_is(path_of(args[from]), name) {
        from
    } else {
        index_of_key(args, name, from + 1)
    }
}

/// `index_of_key` is the first index with the key.
pub proof fn lemma_index_of_key(args: Seq<ArgView>, name: Seq<char>, from: int, n: int)
    requires
        0 <= from <= n <= args.len(),
        forall|k: int| from <= k < n ==> !path_is(path_of(#[trigger] args[k]), name),
        n == args.len() || path_is(path_of(args[n]), name),
    ensures
        index_of_key(args, name, from) == n,
    decreases n - from,
{
    if from < n {
        lemma_index_of_key(args, name, from + 1, n);
    }
}

impl Attr {
    /// Parses an attribute: its path is kept and the tokens in its
    /// brackets are parsed as a list of arguments. An attribute without
    /// brackets has no arguments; one with a value is refused.
    pub fn parse(raw: &RawAttribute) -> (r: Result<Attr, Error>)
        ensures
            match r {
                Ok(a) => parse_attr_spec(*raw) == Ok::<AttrView, ErrorView>(a@),
                Err(e) => parse_attr_spec(*raw) == Err::<AttrView, ErrorView>(e@),
            },
            r matches Ok(a) ==> (a.wf() <==> raw.path.len() > 0),
    {
        match &raw.body {
            AttrBody::List(tokens) => match parse_list(tokens) {
                Ok(args) => {
                    let a = Attr { path: clone_tokens(&raw.path), args };
                    Ok(a)
                },
                Err(e) => Err(e),
            },
            AttrBody::Bare => {
                let a = Attr { path: clone_tokens(&raw.path), args: Vec::new() };
                assert(a@.args =~= Seq::empty());
                Ok(a)
            },
            AttrBody::Value(_) => Err(
                Error::Grammar { kind: GrammarKind::MissingArgument, place: Place::index(0) },
            ),
        }
    }

    /// Whether the annotation stands under the umbrella name `moxy`.
    pub fn is_moxy(&self) -> (r: bool)
        ensures
            r == path_is(self@.path, "moxy"@),
    {
        path_is_ident(&self.path, "moxy")
    }

    /// The index of the first argument whose path is the single
    /// identifier `ident`, or the number of arguments.
    pub fn position(&self, ident: &str) -> (n: usize)
        ensures
            n == index_of_key(self@.args, ident@, 0),
            n <= self@.args.len(),
            n < self@.args.len() <==> has_key(self@.args, ident@),
    {
        let ghost args = arg_views(self.args@);
        let mut n: usize = 0;
        while n < self.args.len()
            invariant
                n <= self.args.len(),
                args == arg_views(self.args@),
                forall|k: int| 0 <= k < n ==> !path_is(path_of(#[trigger] args[k]), ident@),
            decreases self.args.len() - n,
        {
            assert(args[n as int] == self.args[n as int]@);
            if path_is_ident(self.args[n].path(), ident) {
                proof {
                    lemma_index_of_key(args, ident@, 0, n as int);
                }
                return n;
            }
            n += 1;
        }
        proof {
            lemma_index_of_key(args, ident@, 0, n as int);
        }
        n
    }

    /// Whether an argument has the single identifier `ident` as its path.
    pub fn has(&self, ident: &str) -> (r: bool)
        ensures
            r == has_key(self@.args, ident@),
    {
        self.position(ident) < self.args.len()
    }

    /// The first argument whose path is the single identifier `ident`.
    pub fn get(&self, ident: &str) -> (r: Option<&Arg>)
        ensures
            match r {
                Some(a) => has_key(self@.args, ident@) && a@ == self@.args[index_of_key(
                    self@.args,
                    ident@,
                    0,
                )],
                None => !has_key(self@.args, ident@),
            },
    {
        let n = self.position(ident);
        if n < self.args.len() {
            Some(&self.args[n])
        } else {
            None
        }
    }
}

/// The index of the first argument from `from` on that has the path
/// `path`, or the length of the list.
pub open spec fn first_with_path(acc: Seq<ArgView>, path: Seq<TokenView>, from: int) -> int
    decreases acc.len() - from,
{
    if from < 0 || from >= acc.len() {
        acc.len() as int
    } else if path_of(acc[from]) == path {
        from
    } else {
        first_with_path(acc, path, from + 1)
    }
}

/// `first_with_path` is the first index with the path.
pub proof fn lemma_first_with_path(acc: Seq<ArgView>, path: Seq<TokenView>, from: int, n: int)
    requires
        0 <= from <= n <= acc.len(),
        forall|k: int| from <= k < n ==> path_of(#[trigger] acc[k]) != path,
        n == acc.len() || path_of(acc[n]) == path,
    ensures
        first_with_path(acc, path, from) == n,
    decreases n - from,
{
    if from < n {
        lemma_first_with_path(acc, path, from + 1, n);
    }
}

/// Merging one argument into the arguments gathered so far.
///
/// An argument that is already there, structurally equal, is dropped.
/// One whose path is new is appended; a nested group is appended with
/// its own arguments merged by the same rule, as if into an empty group.
/// Where the path is taken, by the first argument that has it, and both
/// are nested groups, the newcomer's arguments are merged into that
/// group's by the same rule; otherwise the two give one key two values,
/// which is a conflict that names the key.
pub open spec fn merge_one(acc: Seq<ArgView>, a: ArgView) -> Result<Seq<ArgView>, ErrorView>
    decreases a, 0nat,
{
    if acc.contains(a) {
        Ok(acc)
    } else {
        let k = first_with_path(acc, path_of(a), 0);
        if k < 0 || k >= acc.len() {
            match a {
                ArgView::Attr(y) => match merge_from(Seq::empty(), y.args, 0) {
                    Ok(m) => Ok(acc.push(ArgView::Attr(AttrView { path: y.path, args: m }))),
                    Err(e) => Err(e),
                },
                _ => Ok(acc.push(a)),
            }
        } else {
            match (acc[k], a) {
                (ArgView::Attr(x), ArgView::Attr(y)) => match merge_from(x.args, y.args, 0) {
                    Ok(m) => Ok(acc.update(k, ArgView::Attr(AttrView { path: x.path, args: m }))),
                    Err(e) => Err(e),
                },
                _ => Err(ErrorView::Conflict { key: text_of(path_of(a)), place: nowhere() }),
            }
        }
    }
}

/// Merging the arguments of `incoming` from index `i` on, one after the
/// other, into `acc`. The first conflict ends the merge; its place
/// begins with the index of the argument that it was found at or in.
pub open spec fn merge_from(acc: Seq<ArgView>, incoming: Seq<ArgView>, i: int) -> Result<
    Seq<ArgView>,
    ErrorView,
>
    decreases incoming, (incoming.len() - i) as nat,
{
    if i < 0 || i >= incoming.len() {
        Ok(acc)
    } else {
        match merge_one(acc, incoming[i]) {
            Ok(next) => merge_from(next, incoming, i + 1),
            Err(e) => Err(inside(e, i as nat)),
        }
    }
}

/// The arguments of one occurrence, merged: each of them merged, in
/// order, into those before it.
pub open spec fn merge_once(args: Seq<ArgView>) -> Result<Seq<ArgView>, ErrorView> {
    merge_from(Seq::empty(), args, 0)
}

/// Merging a second occurrence of an annotation into a first: the
/// first's path, and the arguments of the first and then of the second,
/// each merged into those before it. The place of a conflict begins
/// with 0 where it is found in the first and with 1 where it is found
/// in the second.
pub open spec fn merge_spec(a: AttrView, b: AttrView) -> Result<AttrView, ErrorView> {
    match merge_once(a.args) {
        Ok(first) => match merge_from(first, b.args, 0) {
            Ok(m) => Ok(AttrView { path: a.path, args: m }),
            Err(e) => Err(inside(e, 1)),
        },
        Err(e) => Err(inside(e, 0)),
    }
}

/// Whether the list holds an argument structurally equal to `a`.
fn contains_arg(acc: &Vec<Arg>, a: &Arg) -> (r: bool)
    ensures
        r == arg_views(acc@).contains(a@),
{
    let ghost vs = arg_views(acc@);
    let mut i: usize = 0;
    while i < acc.len()
        invariant
            i <= acc.len(),
            vs == arg_views(acc@),
            forall|k: int| 0 <= k < i ==> vs[k] != a@,
        decreases acc.len() - i,
    {
        assert(vs[i as int] == acc[i as int]@);
        if acc[i].same(a) {
            return true;
        }
        i += 1;
    }
    false
}

/// The index of the first argument with the given path, or the length.
fn position_of_path(acc: &Vec<Arg>, path: &Vec<Token>) -> (k: usize)
    ensures
        k == first_with_path(arg_views(acc@), views(path@), 0),
        k <= acc.len(),
{
    let ghost vs = arg_views(acc@);
    let mut k: usize = 0;
    while k < acc.len()
        invariant
            k <= acc.len(),
            vs == arg_views(acc@),
            forall|j: int| 0 <= j < k ==> path_of(#[trigger] vs[j]) != views(path@),
        decreases acc.len() - k,
    {
        if same_tokens(acc[k].path(), path) {
            proof {
                lemma_first_with_path(vs, views(path@), 0, k as int);
            }
            return k;
        }
        k += 1;
    }
    proof {
        lemma_first_with_path(vs, views(path@), 0, k as int);
    }
    k
}

fn conflict(path: &Vec<Token>) -> (r: Error)
    ensures
        r@ == (ErrorView::Conflict { key: text_of(views(path@)), place: nowhere() }),
{
    Error::Conflict { key: render(path), place: Place::new() }
}

/// Merges one argument into the arguments gathered so far.
fn merge_into(acc: Vec<Arg>, a: &Arg) -> (r: Result<Vec<Arg>, Error>)
    ensures
        is_args(r, merge_one(arg_views(acc@), a@)),
    decreases a, 0nat,
{
    let mut acc = acc;
    let ghost before = arg_views(acc@);
    if contains_arg(&acc, a) {
        return Ok(acc);
    }
    let k = position_of_path(&acc, a.path());
    if k >= acc.len() {
        let copy = match a {
            Arg::Attr(y) => {
                let none: Vec<Arg> = Vec::new();
                assert(arg_views(none@) =~= Seq::empty());
                match merge_lists(none, &y.args) {
                    Ok(m) => Arg::Attr(Attr { path: clone_tokens(&y.path), args: m }),
                    Err(e) => {
                        return Err(e);
                    },
                }
            },
            _ => a.clone(),
        };
        proof {
            lemma_arg_views_push(acc@, copy);
        }
        acc.push(copy);
        return Ok(acc);
    }
    match (&acc[k], a) {
        (Arg::Attr(x), Arg::Attr(y)) => {
            let merged = merge_lists(clone_args(&x.args), &y.args);
            match merged {
                Ok(m) => {
                    let group = Arg::Attr(Attr { path: clone_tokens(&x.path), args: m });
                    acc.set(k, group);
                    assert(arg_views(acc@) =~= before.update(k as int, group@));
                    Ok(acc)
                },
                Err(e) => Err(e),
            }
        },
        _ => Err(conflict(a.path())),
    }
}

/// Merges the arguments of `incoming`, in order, into `acc`.
fn merge_lists(acc: Vec<Arg>, incoming: &Vec<Arg>) -> (r: Result<Vec<Arg>, Error>)
    ensures
        is_args(r, merge_from(arg_views(acc@), arg_views(incoming@), 0)),
    decreases incoming, 0nat,
{
    let ghost start = arg_views(acc@);
    let ghost inc = arg_views(incoming@);
    let mut out = acc;
    let mut i: usize = 0;
    while i < incoming.len()
        invariant
            i <= incoming.len(),
            inc == arg_views(incoming@),
            start == arg_views(acc@),
            merge_from(start, inc, 0) == merge_from(arg_views(out@), inc, i as int),
        decreases incoming.len() - i,
    {
        match merge_into(out, &incoming[i]) {
            Ok(next) => {
                out = next;
            },
            Err(e) => {
                return Err(e.inside(i));
            },
        }
        i += 1;
    }
    Ok(out)
}

impl Attr {
    /// Merges another occurrence of the annotation into this one and
    /// returns the merged annotation.
    ///
    /// The result has this annotation's path. Its arguments are those
    /// of this annotation and then those of `other`, each merged into
    /// the ones before it: an argument that is already there is dropped;
    /// one under a new path is appended; a nested group under a path
    /// that a nested group already has is merged into it by the same
    /// rule. Any other argument under a path that is taken is a
    /// conflict, and the error names the path.
    pub fn merge(&self, other: &Attr) -> (r: Result<Attr, Error>)
        ensures
            match r {
                Ok(a) => merge_spec(self@, other@) == Ok::<AttrView, ErrorView>(a@),
                Err(e) => merge_spec(self@, other@) == Err::<AttrView, ErrorView>(e@),
            },
            r matches Ok(a) ==> (self.wf() && other.wf() ==> a.wf()),
            r matches Ok(a) ==> distinct_keys(a@.args),
    {
        proof {
            if merge_spec(self@, other@) is Ok {
                let first = merge_once(self@.args)->Ok_0;
                lemma_merge_distinct(Seq::empty(), self@.args, 0);
                lemma_merge_distinct(first, other@.args, 0);
                if self.wf() && other.wf() {
                    lemma_merge_wf(Seq::empty(), self@.args, 0);
                    lemma_merge_wf(first, other@.args, 0);
                }
            }
        }
        let none: Vec<Arg> = Vec::new();
        assert(arg_views(none@) =~= Seq::empty());
        let first = match merge_lists(none, &self.args) {
            Ok(m) => m,
            Err(e) => {
                return Err(e.inside(0));
            },
        };
        match merge_lists(first, &other.args) {
            Ok(m) => Ok(Attr { path: clone_tokens(&self.path), args: m }),
            Err(e) => Err(e.inside(1)),
        }
    }
}

/// Whether every argument of a list has a token in each of its paths.
pub open spec fn all_wf(args: Seq<ArgView>) -> bool {
    forall|i: int| 0 <= i < args.len() ==> arg_wf(#[trigger] args[i])
}

/// Merging one well-formed argument into well-formed arguments gives
/// well-formed arguments.
pub proof fn lemma_merge_one_wf(acc: Seq<ArgView>, a: ArgView)
    requires
        all_wf(acc),
        arg_wf(a),
        merge_one(acc, a) is Ok,
    ensures
        all_wf(merge_one(acc, a)->Ok_0),
    decreases a, 0nat,
{
    if !acc.contains(a) {
        let k = first_with_path(acc, path_of(a), 0);
        if 0 <= k < acc.len() {
            match (acc[k], a) {
                (ArgView::Attr(x), ArgView::Attr(y)) => {
                    lemma_merge_wf(x.args, y.args, 0);
                },
                _ => {},
            }
        } else {
            match a {
                ArgView::Attr(y) => {
                    lemma_merge_wf(Seq::empty(), y.args, 0);
                },
                _ => {},
            }
        }
    }
}

/// Merging well-formed arguments into well-formed arguments gives
/// well-formed arguments.
pub proof fn lemma_merge_wf(acc: Seq<ArgView>, incoming: Seq<ArgView>, i: int)
    requires
        all_wf(acc),
        all_wf(incoming),
        merge_from(acc, incoming, i) is Ok,
    ensures
        all_wf(merge_from(acc, incoming, i)->Ok_0),
    decreases incoming, (incoming.len() - i) as nat,
{
    if 0 <= i < incoming.len() {
        lemma_merge_one_wf(acc, incoming[i]);
        lemma_merge_wf(merge_one(acc, incoming[i])->Ok_0, incoming, i + 1);
    }
}

/// Whether no two arguments of a list share a path, in the list and in
/// every nested group of it.
pub open spec fn distinct_keys(args: Seq<ArgView>) -> bool
    decreases args,
{
    &&& forall|i: int, j: int|
        0 <= i < j < args.len() ==> path_of(#[trigger] args[i]) != path_of(#[trigger] args[j])
    &&& forall|i: int|
        0 <= i < args.len() ==> (#[trigger] args[i] matches ArgView::Attr(x) ==> distinct_keys(
            x.args,
        ))
}

/// Merging one argument into arguments without shared paths gives
/// arguments without shared paths.
pub proof fn lemma_merge_one_distinct(acc: Seq<ArgView>, a: ArgView)
    requires
        distinct_keys(acc),
        merge_one(acc, a) is Ok,
    ensures
        distinct_keys(merge_one(acc, a)->Ok_0),
    decreases a, 0nat,
{
    if !acc.contains(a) {
        let k = first_with_path(acc, path_of(a), 0);
        lemma_first_with_path_bounds(acc, path_of(a), 0);
        if 0 <= k < acc.len() {
            match (acc[k], a) {
                (ArgView::Attr(x), ArgView::Attr(y)) => {
                    lemma_merge_distinct(x.args, y.args, 0);
                },
                _ => {},
            }
        } else {
            match a {
                ArgView::Attr(y) => {
                    lemma_merge_distinct(Seq::empty(), y.args, 0);
                },
                _ => {},
            }
        }
    }
}

/// Merging arguments into arguments without shared paths gives arguments
/// without shared paths. So what a merge from nothing gives has each
/// path once, at every depth: no two of its arguments are equal, and no
/// key has two values or two groups.
pub proof fn lemma_merge_distinct(acc: Seq<ArgView>, incoming: Seq<ArgView>, i: int)
    requires
        distinct_keys(acc),
        merge_from(acc, incoming, i) is Ok,
    ensures
        distinct_keys(merge_from(acc, incoming, i)->Ok_0),
    decreases incoming, (incoming.len() - i) as nat,
{
    if 0 <= i < incoming.len() {
        lemma_merge_one_distinct(acc, incoming[i]);
        lemma_merge_distinct(merge_one(acc, incoming[i])->Ok_0, incoming, i + 1);
    }
}

/// `first_with_path` stays inside the list and meets the path at no
/// index before the one it gives.
pub proof fn lemma_first_with_path_bounds(acc: Seq<ArgView>, path: Seq<TokenView>, from: int)
    requires
        0 <= from <= acc.len(),
    ensures
        from <= first_with_path(acc, path, from) <= acc.len(),
        first_with_path(acc, path, from) < acc.len() ==> path_of(
            acc[first_with_path(acc, path, from)],
        ) == path,
        forall|k: int|
            from <= k < first_with_path(acc, path, from) ==> path_of(#[trigger] acc[k]) != path,
    decreases acc.len() - from,
{
    if from < acc.len() && path_of(acc[from]) != path {
        lemma_first_with_path_bounds(acc, path, from + 1);
    }
}

/// The annotations on one declaration or member, in source order.
#[derive(Debug)]
pub struct Attrs(Vec<Attr>);

/// The views of a list of annotations, one for one.
pub open spec fn attr_views(attrs: Seq<Attr>) -> Seq<AttrView> {
    Seq::new(attrs.len(), |i: int| attrs[i]@)
}

impl View for Attrs {
    type V = Seq<AttrView>;

    closed spec fn view(&self) -> Seq<AttrView> {
        attr_views(self.0@)
    }
}

/// The annotations among the first `n` attributes: every attribute under
/// the umbrella name is parsed, and the first that is malformed is the
/// error of them all; attributes under other names are passed over.
pub open spec fn parse_attrs_spec(raws: Seq<RawAttribute>, n: nat) -> Result<
    Seq<AttrView>,
    ErrorView,
>
    decreases n,
{
    if n == 0 || n > raws.len() {
        Ok(Seq::empty())
    } else {
        match parse_attrs_spec(raws, (n - 1) as nat) {
            Err(e) => Err(e),
            Ok(done) => if is_umbrella(raws[n - 1]) {
                match parse_attr_spec(raws[n - 1]) {
                    Ok(a) => Ok(done.push(a)),
                    Err(e) => Err(in_attribute(e, (n - 1) as nat)),
                }
            } else {
                Ok(done)
            },
        }
    }
}

/// The nested groups named `name` among the first `n` arguments.
pub open spec fn groups_in(args: Seq<ArgView>, name: Seq<char>, n: nat) -> Seq<AttrView>
    decreases n,
{
    if n == 0 || n > args.len() {
        Seq::empty()
    } else {
        let before = groups_in(args, name, (n - 1) as nat);
        match args[n - 1] {
            ArgView::Attr(x) => if path_is(x.path, name) {
                before.push(x)
            } else {
                before
            },
            _ => before,
        }
    }
}

/// The occurrences of the feature `name` in the first `n` annotations:
/// the nested groups of that name under the umbrella, in source order.
pub open spec fn occurrences(attrs: Seq<AttrView>, name: Seq<char>, n: nat) -> Seq<AttrView>
    decreases n,
{
    if n == 0 || n > attrs.len() {
        Seq::empty()
    } else {
        let before = occurrences(attrs, name, (n - 1) as nat);
        if path_is(attrs[n - 1].path, "moxy"@) {
            before + groups_in(attrs[n - 1].args, name, attrs[n - 1].args.len())
        } else {
            before
        }
    }
}

/// Merging the arguments of the occurrences from index `i` on, one
/// occurrence after the other, into `acc`.
pub open spec fn merge_all(occ: Seq<AttrView>, i: int, acc: Seq<ArgView>) -> Result<
    Seq<ArgView>,
    ErrorView,
>
    decreases occ.len() - i,
{
    if i < 0 || i >= occ.len() {
        Ok(acc)
    } else {
        match merge_from(acc, occ[i].args, 0) {
            Ok(next) => merge_all(occ, i + 1, next),
            Err(e) => Err(inside(e, i as nat)),
        }
    }
}

/// The arguments of a feature, merged over its occurrences: every
/// argument of every occurrence, in source order, merged into those
/// before it. No occurrence gives no arguments.
pub open spec fn merged(occ: Seq<AttrView>) -> Result<Seq<ArgView>, ErrorView> {
    merge_all(occ, 0, Seq::empty())
}

/// The merged arguments of the feature `name` on a declaration or
/// member.
pub open spec fn get_spec(attrs: Seq<AttrView>, name: Seq<char>) -> Result<
    Seq<ArgView>,
    ErrorView,
> {
    merged(occurrences(attrs, name, attrs.len()))
}

/// Whether every annotation of a list has a token in each of its
/// paths.
pub open spec fn attrs_wf(attrs: Seq<AttrView>) -> bool {
    forall|i: int| 0 <= i < attrs.len() ==> arg_wf(ArgView::Attr(#[trigger] attrs[i]))
}

/// The nested groups of well-formed arguments are well formed.
pub proof fn lemma_groups_wf(args: Seq<ArgView>, name: Seq<char>, n: nat)
    requires
        all_wf(args),
        n <= args.len(),
    ensures
        attrs_wf(groups_in(args, name, n)),
    decreases n,
{
    if n > 0 {
        lemma_groups_wf(args, name, (n - 1) as nat);
    }
}

/// The occurrences of a feature in well-formed annotations are well
/// formed.
pub proof fn lemma_occurrences_wf(attrs: Seq<AttrView>, name: Seq<char>, n: nat)
    requires
        attrs_wf(attrs),
        n <= attrs.len(),
    ensures
        attrs_wf(occurrences(attrs, name, n)),
    decreases n,
{
    if n > 0 {
        lemma_occurrences_wf(attrs, name, (n - 1) as nat);
        lemma_groups_wf(attrs[n - 1].args, name, attrs[n - 1].args.len());
    }
}

/// Merging well-formed occurrences gives well-formed arguments.
pub proof fn lemma_merge_all_wf(occ: Seq<AttrView>, i: int, acc: Seq<ArgView>)
    requires
        attrs_wf(occ),
        all_wf(acc),
        0 <= i,
        merge_all(occ, i, acc) is Ok,
    ensures
        all_wf(merge_all(occ, i, acc)->Ok_0),
    decreases occ.len() - i,
{
    if i < occ.len() {
        lemma_merge_wf(acc, occ[i].args, 0);
        lemma_merge_all_wf(occ, i + 1, merge_from(acc, occ[i].args, 0)->Ok_0);
    }
}

/// The merged arguments of a feature on well-formed annotations are
/// well formed.
pub proof fn lemma_get_wf(attrs: Seq<AttrView>, name: Seq<char>)
    requires
        attrs_wf(attrs),
        get_spec(attrs, name) is Ok,
    ensures
        all_wf(get_spec(attrs, name)->Ok_0),
{
    let occ = occurrences(attrs, name, attrs.len());
    lemma_occurrences_wf(attrs, name, attrs.len());
    lemma_merge_all_wf(occ, 0, Seq::empty());
}

/// Merging occurrences into arguments without shared paths gives
/// arguments without shared paths.
pub proof fn lemma_merge_all_distinct(occ: Seq<AttrView>, i: int, acc: Seq<ArgView>)
    requires
        distinct_keys(acc),
        0 <= i,
        merge_all(occ, i, acc) is Ok,
    ensures
        distinct_keys(merge_all(occ, i, acc)->Ok_0),
    decreases occ.len() - i,
{
    if i < occ.len() {
        lemma_merge_distinct(acc, occ[i].args, 0);
        lemma_merge_all_distinct(occ, i + 1, merge_from(acc, occ[i].args, 0)->Ok_0);
    }
}

/// Whether some annotation has an argument named `name`.
pub open spec fn has_spec(attrs: Seq<AttrView>, name: Seq<char>) -> bool {
    exists|i: int| 0 <= i < attrs.len() && has_key((#[trigger] attrs[i]).args, name)
}

impl Attrs {
    /// Whether every path in every annotation has a token.
    pub open spec fn wf(&self) -> bool {
        attrs_wf(self@)
    }

    /// Parses the attributes of a declaration or member. Those under the
    /// umbrella name become annotations, in source order; the first of
    /// them that is malformed is returned as the error. Attributes under
    /// other names are passed over.
    pub fn parse(attrs: &Vec<RawAttribute>) -> (r: Result<Attrs, Error>)
        ensures
            match r {
                Ok(a) => parse_attrs_spec(attrs@, attrs.len() as nat) == Ok::<
                    Seq<AttrView>,
                    ErrorView,
                >(a@),
                Err(e) => parse_attrs_spec(attrs@, attrs.len() as nat) == Err::<
                    Seq<AttrView>,
                    ErrorView,
                >(e@),
            },
            r matches Ok(a) ==> a.wf(),
    {
        let mut out: Vec<Attr> = Vec::new();
        let mut i: usize = 0;
        assert(attr_views(out@) =~= Seq::empty());
        while i < attrs.len()
            invariant
                i <= attrs.len(),
                attrs_wf(attr_views(out@)),
                parse_attrs_spec(attrs@, i as nat) == Ok::<Seq<AttrView>, ErrorView>(
                    attr_views(out@),
                ),
            decreases attrs.len() - i,
        {
            if path_is_ident(&attrs[i].path, "moxy") {
                match Attr::parse(&attrs[i]) {
                    Ok(a) => {
                        assert(attr_views(out@.push(a)) =~= attr_views(out@).push(a@));
                        out.push(a);
                    },
                    Err(e) => {
                        proof {
                            lemma_parse_attrs_error(attrs@, (i + 1) as nat, attrs.len() as nat);
                        }
                        return Err(e.in_attribute(i));
                    },
                }
            }
            i += 1;
        }
        Ok(Attrs(out))
    }

    /// The annotations given, as they are.
    pub fn new(attrs: Vec<Attr>) -> (r: Attrs)
        ensures
            r@ == attr_views(attrs@),
    {
        Attrs(attrs)
    }

    pub fn len(&self) -> (r: usize)
        ensures
            r == self@.len(),
    {
        self.0.len()
    }

    pub fn is_empty(&self) -> (r: bool)
        ensures
            r == (self@.len() == 0),
    {
        self.0.len() == 0
    }

    /// The annotations, in source order.
    pub fn iter(&self) -> (r: &Vec<Attr>)
        ensures
            attr_views(r@) == self@,
    {
        &self.0
    }

    /// Whether some annotation has an argument named `name`.
    pub fn has(&self, name: &str) -> (r: bool)
        ensures
            r == has_spec(self@, name@),
    {
        let mut i: usize = 0;
        while i < self.0.len()
            invariant
                i <= self.0.len(),
                forall|k: int| 0 <= k < i ==> !has_key((#[trigger] self@[k]).args, name@),
            decreases self.0.len() - i,
        {
            if self.0[i].has(name) {
                assert(has_key(self@[i as int].args, name@));
                return true;
            }
            i += 1;
        }
        false
    }

    /// The occurrences of the feature `name`, in source order.
    fn collect(&self, name: &str) -> (r: Vec<Attr>)
        ensures
            attr_views(r@) == occurrences(self@, name@, self@.len()),
    {
        let mut out: Vec<Attr> = Vec::new();
        let mut i: usize = 0;
        while i < self.0.len()
            invariant
                i <= self.0.len(),
                attr_views(out@) == occurrences(self@, name@, i as nat),
            decreases self.0.len() - i,
        {
            let attr = &self.0[i];
            if attr.is_moxy() {
                let ghost before = attr_views(out@);
                let mut k: usize = 0;
                while k < attr.args.len()
                    invariant
                        k <= attr.args.len(),
                        attr_views(out@) == before + groups_in(attr@.args, name@, k as nat),
                    decreases attr.args.len() - k,
                {
                    assert(attr@.args[k as int] == attr.args[k as int]@);
                    match &attr.args[k] {
                        Arg::Attr(x) => {
                            if path_is_ident(&x.path, name) {
                                let copy = x.clone();
                                assert(attr_views(out@.push(copy)) =~= attr_views(out@).push(
                                    copy@,
                                ));
                                out.push(copy);
                            }
                        },
                        _ => {},
                    }
                    k += 1;
                }
            }
            i += 1;
        }
        out
    }

    /// The arguments of the feature `name`, merged over all of its
    /// occurrences on this declaration or member.
    ///
    /// An occurrence is a nested group `name(..)` in an annotation under
    /// the umbrella name. Every argument of every occurrence is merged,
    /// in source order, into those before it, as `Attr::merge` does: so
    /// no two arguments of the result share a path, at any depth. The result is empty where the feature does not
    /// occur or occurs without arguments. The first conflict is returned
    /// as the error.
    pub fn get(&self, name: &str) -> (r: Result<Vec<Arg>, Error>)
        ensures
            is_args(r, get_spec(self@, name@)),
            r matches Ok(v) ==> (self.wf() ==> all_wf(arg_views(v@))),
            r matches Ok(v) ==> distinct_keys(arg_views(v@)),
    {
        proof {
            if get_spec(self@, name@) is Ok {
                lemma_merge_all_distinct(
                    occurrences(self@, name@, self@.len()),
                    0,
                    Seq::empty(),
                );
                if self.wf() {
                    lemma_get_wf(self@, name@);
                }
            }
        }
        let occ = self.collect(name);
        let ghost all = attr_views(occ@);
        let mut acc: Vec<Arg> = Vec::new();
        assert(arg_views(acc@) =~= Seq::empty());
        let mut i: usize = 0;
        while i < occ.len()
            invariant
                i <= occ.len(),
                all == attr_views(occ@),
                all == occurrences(self@, name@, self@.len()),
                merge_all(all, 0, Seq::empty()) == merge_all(all, i as int, arg_views(acc@)),
            decreases occ.len() - i,
        {
            match merge_lists(acc, &occ[i].args) {
                Ok(next) => {
                    acc = next;
                },
                Err(e) => {
                    return Err(e.inside(i));
                },
            }
            i += 1;
        }
        Ok(acc)
    }
}

/// Once parsing the attributes has failed, it has failed for good.
pub proof fn lemma_parse_attrs_error(raws: Seq<RawAttribute>, n: nat, m: nat)
    requires
        1 <= n <= m <= raws.len(),
        parse_attrs_spec(raws, n) is Err,
    ensures
        parse_attrs_spec(raws, m) == parse_attrs_spec(raws, n),
    decreases m - n,
{
    if n < m {
        lemma_parse_attrs_error(raws, n, (m - 1) as nat);
    }
}

} // verus!
