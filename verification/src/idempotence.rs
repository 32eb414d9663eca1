//! The law of merging: what has been merged in once is there, and
//! merging it in again changes nothing.

use crate::arg::{ArgView, path_of};
use crate::attr::{
    AttrView, first_with_path, lemma_first_with_path, lemma_first_with_path_bounds, merge_all,
    merge_from, merge_once, merge_one, merge_spec, merged,
};
use crate::error::ErrorView;
use crate::token::TokenView;
use vstd::prelude::*;

verus! {

/// Whether merged arguments account for an argument: it is among them,
/// or it is a nested group and the first of them under its path is a
/// nested group that accounts for each of its arguments.
pub open spec fn covers(acc: Seq<ArgView>, a: ArgView) -> bool
    decreases a,
{
    acc.contains(a) || match a {
        ArgView::Attr(y) => {
            let k = first_with_path(acc, y.path, 0);
            0 <= k < acc.len() && match acc[k] {
                ArgView::Attr(x) => forall|j: int|
                    0 <= j < y.args.len() ==> covers(x.args, #[trigger] y.args[j]),
                _ => false,
            }
        },
        _ => false,
    }
}

/// Whether merged arguments account for every argument of a list.
pub open spec fn covers_all(acc: Seq<ArgView>, incoming: Seq<ArgView>) -> bool {
    forall|j: int| 0 <= j < incoming.len() ==> covers(acc, #[trigger] incoming[j])
}

/// Two lists with the same paths at the same places find every path at
/// the same place.
pub proof fn lemma_first_with_path_alike(
    a: Seq<ArgView>,
    b: Seq<ArgView>,
    path: Seq<TokenView>,
    from: int,
)
    requires
        a.len() == b.len(),
        0 <= from <= a.len(),
        forall|k: int| 0 <= k < a.len() ==> path_of(#[trigger] a[k]) == path_of(b[k]),
    ensures
        first_with_path(a, path, from) == first_with_path(b, path, from),
    decreases a.len() - from,
{
    if from < a.len() && path_of(a[from]) != path {
        lemma_first_with_path_alike(a, b, path, from + 1);
    }
}

/// A path that is found in a list is found at the same place once an
/// argument is appended.
pub proof fn lemma_first_with_path_push(
    acc: Seq<ArgView>,
    b: ArgView,
    path: Seq<TokenView>,
    from: int,
)
    requires
        0 <= from <= acc.len(),
        first_with_path(acc, path, from) < acc.len(),
    ensures
        first_with_path(acc.push(b), path, from) == first_with_path(acc, path, from),
    decreases acc.len() - from,
{
    if from < acc.len() {
        if path_of(acc[from]) != path {
            lemma_first_with_path_push(acc, b, path, from + 1);
        }
    }
}

/// Merging in an argument that is accounted for changes nothing.
pub proof fn lemma_covered_absorbed(acc: Seq<ArgView>, a: ArgView)
    requires
        covers(acc, a),
    ensures
        merge_one(acc, a) == Ok::<Seq<ArgView>, ErrorView>(acc),
    decreases a, 0nat,
{
    if !acc.contains(a) {
        match a {
            ArgView::Attr(y) => {
                let k = first_with_path(acc, y.path, 0);
                match acc[k] {
                    ArgView::Attr(x) => {
                        lemma_covered_all_absorbed(x.args, y.args, 0);
                        assert(acc.update(k, ArgView::Attr(AttrView { path: x.path, args: x.args }))
                            =~= acc);
                    },
                    _ => {},
                }
            },
            _ => {},
        }
    }
}

/// Merging in arguments that are all accounted for changes nothing.
pub proof fn lemma_covered_all_absorbed(acc: Seq<ArgView>, incoming: Seq<ArgView>, i: int)
    requires
        covers_all(acc, incoming),
        0 <= i,
    ensures
        merge_from(acc, incoming, i) == Ok::<Seq<ArgView>, ErrorView>(acc),
    decreases incoming, (incoming.len() - i) as nat,
{
    if i < incoming.len() {
        lemma_covered_absorbed(acc, incoming[i]);
        lemma_covered_all_absorbed(acc, incoming, i + 1);
    }
}

/// What is accounted for stays accounted for when one more argument is
/// merged in.
pub proof fn lemma_covers_kept(acc: Seq<ArgView>, a: ArgView, b: ArgView)
    requires
        covers(acc, a),
        merge_one(acc, b) is Ok,
    ensures
        covers(merge_one(acc, b)->Ok_0, a),
    decreases b, 0nat,
{
    let next = merge_one(acc, b)->Ok_0;
    if !acc.contains(b) {
        let kb = first_with_path(acc, path_of(b), 0);
        lemma_first_with_path_bounds(acc, path_of(b), 0);
        if kb >= acc.len() {
            let pushed = next[acc.len() as int];
            if acc.contains(a) {
                let t = choose|t: int| 0 <= t < acc.len() && acc[t] == a;
                assert(next[t] == a);
            } else {
                match a {
                    ArgView::Attr(y) => {
                        lemma_first_with_path_push(acc, pushed, y.path, 0);
                    },
                    _ => {},
                }
            }
        } else {
            match (acc[kb], b) {
                (ArgView::Attr(xb), ArgView::Attr(yb)) => {
                    let m = merge_from(xb.args, yb.args, 0)->Ok_0;
                    assert forall|k: int| 0 <= k < acc.len() implies path_of(#[trigger] acc[k])
                        == path_of(next[k]) by {}
                    if acc.contains(a) {
                        let t = choose|t: int| 0 <= t < acc.len() && acc[t] == a;
                        if t == kb {
                            lemma_first_with_path_alike(acc, next, xb.path, 0);
                            assert forall|j: int| 0 <= j < xb.args.len() implies covers(
                                m,
                                #[trigger] xb.args[j],
                            ) by {
                                lemma_covers_kept_all(xb.args, xb.args[j], yb.args, 0);
                            }
                        }
                    } else {
                        match a {
                            ArgView::Attr(y) => {
                                let ka = first_with_path(acc, y.path, 0);
                                lemma_first_with_path_alike(acc, next, y.path, 0);
                                if ka == kb {
                                    assert forall|j: int| 0 <= j < y.args.len() implies covers(
                                        m,
                                        #[trigger] y.args[j],
                                    ) by {
                                        lemma_covers_kept_all(xb.args, y.args[j], yb.args, 0);
                                    }
                                }
                            },
                            _ => {},
                        }
                    }
                },
                _ => {},
            }
        }
    }
}

/// What is accounted for stays accounted for when more arguments are
/// merged in.
pub proof fn lemma_covers_kept_all(acc: Seq<ArgView>, a: ArgView, incoming: Seq<ArgView>, i: int)
    requires
        covers(acc, a),
        0 <= i,
        merge_from(acc, incoming, i) is Ok,
    ensures
        covers(merge_from(acc, incoming, i)->Ok_0, a),
    decreases incoming, (incoming.len() - i) as nat,
{
    if i < incoming.len() {
        lemma_covers_kept(acc, a, incoming[i]);
        lemma_covers_kept_all(merge_one(acc, incoming[i])->Ok_0, a, incoming, i + 1);
    }
}

/// An argument that has been merged in is accounted for.
pub proof fn lemma_merged_covered(acc: Seq<ArgView>, a: ArgView)
    requires
        merge_one(acc, a) is Ok,
    ensures
        covers(merge_one(acc, a)->Ok_0, a),
    decreases a, 0nat,
{
    let next = merge_one(acc, a)->Ok_0;
    if !acc.contains(a) {
        let k = first_with_path(acc, path_of(a), 0);
        lemma_first_with_path_bounds(acc, path_of(a), 0);
        if k >= acc.len() {
            match a {
                ArgView::Attr(y) => {
                    let m = merge_from(Seq::empty(), y.args, 0)->Ok_0;
                    lemma_first_with_path(next, y.path, 0, acc.len() as int);
                    lemma_merged_all_covered(Seq::empty(), y.args, 0);
                },
                _ => {},
            }
        } else {
            match (acc[k], a) {
                (ArgView::Attr(x), ArgView::Attr(y)) => {
                    lemma_first_with_path_alike(acc, next, y.path, 0);
                    lemma_merged_all_covered(x.args, y.args, 0);
                },
                _ => {},
            }
        }
    }
}

/// Arguments that have been merged in are all accounted for.
pub proof fn lemma_merged_all_covered(acc: Seq<ArgView>, incoming: Seq<ArgView>, i: int)
    requires
        0 <= i,
        merge_from(acc, incoming, i) is Ok,
    ensures
        forall|j: int|
            i <= j < incoming.len() ==> covers(
                merge_from(acc, incoming, i)->Ok_0,
                #[trigger] incoming[j],
            ),
    decreases incoming, (incoming.len() - i) as nat,
{
    if i < incoming.len() {
        let next = merge_one(acc, incoming[i])->Ok_0;
        lemma_merged_covered(acc, incoming[i]);
        lemma_covers_kept_all(next, incoming[i], incoming, i + 1);
        lemma_merged_all_covered(next, incoming, i + 1);
    }
}

/// Merging is idempotent: arguments that have been merged in can be
/// merged in again, and nothing changes.
pub proof fn lemma_merge_absorbs(acc: Seq<ArgView>, incoming: Seq<ArgView>)
    requires
        merge_from(acc, incoming, 0) is Ok,
    ensures
        merge_from(merge_from(acc, incoming, 0)->Ok_0, incoming, 0) == merge_from(
            acc,
            incoming,
            0,
        ),
{
    lemma_merged_all_covered(acc, incoming, 0);
    lemma_covered_all_absorbed(merge_from(acc, incoming, 0)->Ok_0, incoming, 0);
}

/// Whether merged arguments account for the arguments of each of the
/// first `n` occurrences.
pub open spec fn covers_first(acc: Seq<ArgView>, occ: Seq<AttrView>, n: int) -> bool {
    forall|t: int| 0 <= t < n && t < occ.len() ==> covers_all(acc, (#[trigger] occ[t]).args)
}

/// What merging the occurrences gives accounts for every occurrence.
pub proof fn lemma_merge_all_covers(occ: Seq<AttrView>, i: int, acc: Seq<ArgView>)
    requires
        0 <= i <= occ.len(),
        covers_first(acc, occ, i),
        merge_all(occ, i, acc) is Ok,
    ensures
        covers_first(merge_all(occ, i, acc)->Ok_0, occ, occ.len() as int),
    decreases occ.len() - i,
{
    if i < occ.len() {
        let next = merge_from(acc, occ[i].args, 0)->Ok_0;
        lemma_merged_all_covered(acc, occ[i].args, 0);
        assert forall|t: int| 0 <= t < i + 1 implies covers_all(next, (#[trigger] occ[t]).args) by {
            if t < i {
                assert forall|j: int| 0 <= j < occ[t].args.len() implies covers(
                    next,
                    #[trigger] occ[t].args[j],
                ) by {
                    lemma_covers_kept_all(acc, occ[t].args[j], occ[i].args, 0);
                }
            }
        }
        lemma_merge_all_covers(occ, i + 1, next);
    }
}

/// Merging in occurrences that are all accounted for changes nothing.
pub proof fn lemma_merge_all_absorbed(occ: Seq<AttrView>, i: int, acc: Seq<ArgView>)
    requires
        0 <= i,
        covers_first(acc, occ, occ.len() as int),
    ensures
        merge_all(occ, i, acc) == Ok::<Seq<ArgView>, ErrorView>(acc),
    decreases occ.len() - i,
{
    if i < occ.len() {
        lemma_covered_all_absorbed(acc, occ[i].args, 0);
        lemma_merge_all_absorbed(occ, i + 1, acc);
    }
}

/// Merging two runs of occurrences is merging the first and then the
/// second, where both merge without a conflict.
pub proof fn lemma_merge_all_concat(a: Seq<AttrView>, b: Seq<AttrView>, i: int, acc: Seq<ArgView>)
    requires
        0 <= i <= a.len(),
        merge_all(a, i, acc) is Ok,
        merge_all(b, 0, merge_all(a, i, acc)->Ok_0) is Ok,
    ensures
        merge_all(a + b, i, acc) == merge_all(b, 0, merge_all(a, i, acc)->Ok_0),
    decreases a.len() - i,
{
    let all = a + b;
    if i < a.len() {
        match merge_from(acc, a[i].args, 0) {
            Ok(next) => lemma_merge_all_concat(a, b, i + 1, next),
            Err(_) => {},
        }
    } else {
        lemma_merge_all_from(all, b, i, 0, acc);
    }
}

/// Merging the rest of a list of occurrences is merging the list from
/// there on, where it merges without a conflict.
pub proof fn lemma_merge_all_from(
    all: Seq<AttrView>,
    b: Seq<AttrView>,
    k: int,
    i: int,
    acc: Seq<ArgView>,
)
    requires
        0 <= k,
        0 <= i <= b.len(),
        all.len() == k + b.len(),
        forall|t: int| 0 <= t < b.len() ==> all[k + t] == b[t],
        merge_all(b, i, acc) is Ok,
    ensures
        merge_all(all, k + i, acc) == merge_all(b, i, acc),
    decreases b.len() - i,
{
    if i < b.len() {
        match merge_from(acc, b[i].args, 0) {
            Ok(next) => lemma_merge_all_from(all, b, k, i + 1, next),
            Err(_) => {},
        }
    }
}

/// Merge idempotence: the occurrences of a feature, merged with
/// themselves once more, give what they give merged once.
pub proof fn lemma_merged_again(occ: Seq<AttrView>)
    requires
        merged(occ) is Ok,
    ensures
        merged(occ + occ) == merged(occ),
{
    let r = merged(occ)->Ok_0;
    lemma_merge_all_covers(occ, 0, Seq::empty());
    lemma_merge_all_absorbed(occ, 0, r);
    lemma_merge_all_concat(occ, occ, 0, Seq::empty());
}

/// Merge idempotence: an annotation merged with itself is the
/// annotation merged once.
pub proof fn lemma_merge_self(a: AttrView)
    requires
        merge_once(a.args) is Ok,
    ensures
        merge_spec(a, a) == Ok::<AttrView, ErrorView>(
            AttrView { path: a.path, args: merge_once(a.args)->Ok_0 },
        ),
{
    lemma_merge_absorbs(Seq::empty(), a.args);
}

} // verus!
