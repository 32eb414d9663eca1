//! The law of the grammar: what was parsed, written out as tokens and
//! parsed again, is the same.

use crate::arg::{ArgView, path_of};
use crate::error::{ErrorView, GrammarKind};
use crate::grammar::{
    count_to_group, count_until, expr_key, is_assignment, is_nested, is_positional, is_round,
    lemma_count_until, lemma_count_until_bounds, next_end, parse_flat, parse_from, parse_item,
    parse_list_spec, piece_end,
};
use crate::serialize::{arg_tokens, comma, equals, list_tokens, stands_alone};
use crate::syntax::is_path_text;
use crate::token::{TokenView, is_punct_view, lemma_settled_text, settled, text_of};
use vstd::prelude::*;

verus! {

/// Whether a piece is an assignment under the reserved key `__expr`
/// whose value is an expression: `__expr = f(x)`.
pub open spec fn keys_expr(run: Seq<TokenView>) -> bool {
    &&& !is_positional(run)
    &&& is_assignment(run)
    &&& settled(run.subrange(0, count_until(run, 0, '=') as int)) == expr_key()
    &&& parse_flat(run) matches Ok(ArgView::Expr(_, _))
}

/// Whether the argument that the tokens from `i` up to `j` are, or an
/// argument nested in it, is such an assignment.
pub open spec fn item_keys_expr(ts: Seq<TokenView>, i: int, j: int) -> bool
    decreases ts, 0nat, 0nat,
{
    let run = ts.subrange(i, j);
    if 0 <= i < j <= ts.len() && is_nested(run) {
        match ts[j - 1] {
            TokenView::Group(_, inner) => list_keys_expr(inner, 0),
            _ => false,
        }
    } else {
        keys_expr(run)
    }
}

/// Whether one of the arguments that the tokens from `i` on are, or an
/// argument nested in one, is such an assignment.
pub open spec fn list_keys_expr(ts: Seq<TokenView>, i: int) -> bool
    decreases ts, 1nat, ts.len() - i,
{
    if i < 0 || i >= ts.len() {
        false
    } else {
        let j = piece_end(ts, i, i + count_until(ts, i, ','));
        item_keys_expr(ts, i, j) || (i <= j < ts.len() && list_keys_expr(ts, j + 1))
    }
}

/// Whether index `j` of a list is a comma or the list's end.
pub open spec fn comma_or_end(ts: Seq<TokenView>, j: int) -> bool {
    j == ts.len() || (0 <= j < ts.len() && is_punct_view(ts[j], ','))
}

/// Whether the tokens from `i` are an argument up to no comma before
/// `j`.
pub open spec fn minimal(ts: Seq<TokenView>, i: int, j: int) -> bool {
    forall|c: int|
        i <= c < j && c < ts.len() && is_punct_view(ts[c], ',') ==> #[trigger] parse_item(ts, i, c)
            is Err
}

/// Where an argument ends: at a comma or at the end of the list, at a
/// comma only if the tokens up to it are an argument, and after every
/// comma up to which they are none.
pub proof fn lemma_piece_end(ts: Seq<TokenView>, i: int, j: int)
    requires
        0 <= i <= j,
        comma_or_end(ts, j),
    ensures
        j <= piece_end(ts, i, j) <= ts.len(),
        comma_or_end(ts, piece_end(ts, i, j)),
        piece_end(ts, i, j) < ts.len() ==> parse_item(ts, i, piece_end(ts, i, j)) is Ok,
        forall|c: int|
            j <= c < piece_end(ts, i, j) && is_punct_view(ts[c], ',') ==> #[trigger] parse_item(
                ts,
                i,
                c,
            ) is Err,
    decreases ts.len() - j,
{
    if j < ts.len() && !(parse_item(ts, i, j) is Ok) {
        lemma_count_until_bounds(ts, j + 1, ',');
        lemma_piece_end(ts, i, next_end(ts, j));
    }
}

/// An argument ends at `n` where `n` is a comma or the end, the tokens
/// are an argument up to `n` if `n` is a comma, and they are none up to
/// any comma before `n`.
pub proof fn lemma_piece_end_found(ts: Seq<TokenView>, i: int, j: int, n: int)
    requires
        0 <= i <= j <= n <= ts.len(),
        comma_or_end(ts, j),
        comma_or_end(ts, n),
        n < ts.len() ==> parse_item(ts, i, n) is Ok,
        forall|c: int|
            j <= c < n && is_punct_view(ts[c], ',') ==> #[trigger] parse_item(ts, i, c) is Err,
    ensures
        piece_end(ts, i, j) == n,
    decreases n - j,
{
    if j < n {
        assert(parse_item(ts, i, j) is Err);
        lemma_count_until_bounds(ts, j + 1, ',');
        let next = next_end(ts, j);
        lemma_piece_end_found(ts, i, next, n);
    }
}

/// Counting in the rest of a list is counting in the list.
pub proof fn lemma_count_until_shift(ts: Seq<TokenView>, k: int, i: int, c: char)
    requires
        0 <= k,
        0 <= i,
        k + i <= ts.len(),
    ensures
        count_until(ts, k + i, c) == count_until(ts.skip(k), i, c),
    decreases ts.len() - k - i,
{
    if k + i < ts.len() {
        if !is_punct_view(ts[k + i], c) {
            lemma_count_until_shift(ts, k, i + 1, c);
        }
    }
}

/// What a piece of a list parses to depends on the piece alone.
pub proof fn lemma_item_local(ts: Seq<TokenView>, i: int, j: int)
    requires
        0 <= i <= j <= ts.len(),
    ensures
        parse_item(ts, i, j) is Ok <==> parse_item(ts.subrange(i, j), 0, j - i) is Ok,
        parse_item(ts, i, j) is Ok ==> parse_item(ts, i, j) == parse_item(
            ts.subrange(i, j),
            0,
            j - i,
        ),
{
    let run = ts.subrange(i, j);
    assert(run.subrange(0, j - i) =~= run);
}

/// Whether the same tokens are an argument does not depend on where in
/// a list they stand.
pub proof fn lemma_item_moved(a: Seq<TokenView>, i: int, j: int, b: Seq<TokenView>, k: int)
    requires
        0 <= i <= j <= a.len(),
        0 <= k,
        k + (j - i) <= b.len(),
        a.subrange(i, j) == b.subrange(k, k + (j - i)),
    ensures
        parse_item(a, i, j) is Ok <==> parse_item(b, k, k + (j - i)) is Ok,
        parse_item(a, i, j) is Ok ==> parse_item(a, i, j) == parse_item(b, k, k + (j - i)),
{
}

/// Tokens that are an argument up to no comma of theirs are so wherever
/// they stand.
pub proof fn lemma_minimal_moved(
    a: Seq<TokenView>,
    i: int,
    from: int,
    j: int,
    b: Seq<TokenView>,
    k: int,
)
    requires
        0 <= i <= from <= j <= a.len(),
        0 <= k,
        k + (j - i) <= b.len(),
        a.subrange(i, j) == b.subrange(k, k + (j - i)),
        forall|c: int|
            from <= c < j && is_punct_view(a[c], ',') ==> #[trigger] parse_item(a, i, c) is Err,
    ensures
        forall|c: int|
            k + (from - i) <= c < k + (j - i) && is_punct_view(b[c], ',')
                ==> #[trigger] parse_item(b, k, c) is Err,
{
    assert forall|c: int|
        k + (from - i) <= c < k + (j - i) && is_punct_view(b[c], ',') implies #[trigger] parse_item(
        b,
        k,
        c,
    ) is Err by {
        let d = c - k + i;
        assert(a.subrange(i, j)[d - i] == a[d]);
        assert(a.subrange(i, d) =~= a.subrange(i, j).subrange(0, d - i));
        assert(b.subrange(k, c) =~= b.subrange(k, k + (j - i)).subrange(0, c - k));
        lemma_item_moved(a, i, d, b, k);
    }
}

/// Where an argument ends in the rest of a list is where it ends in the
/// list, and it is the same argument.
pub proof fn lemma_piece_end_shift(ts: Seq<TokenView>, k: int, i: int, first: int, e: int)
    requires
        0 <= k,
        0 <= i,
        k + i < ts.len(),
        first == i + count_until(ts.skip(k), i, ','),
        e == piece_end(ts.skip(k), i, first),
    ensures
        first <= e <= ts.len() - k,
        k + first == k + i + count_until(ts, k + i, ','),
        piece_end(ts, k + i, k + first) == k + e,
        parse_item(ts.skip(k), i, e) is Ok ==> parse_item(ts, k + i, k + e) == parse_item(
            ts.skip(k),
            i,
            e,
        ),
{
    let rest = ts.skip(k);
    lemma_count_until_shift(ts, k, i, ',');
    lemma_count_until_bounds(ts, k + i, ',');
    lemma_piece_end(rest, i, first);
    assert(rest.subrange(i, e) =~= ts.subrange(k + i, k + e));
    lemma_minimal_moved(rest, i, first, e, ts, k + i);
    lemma_piece_end_found(ts, k + i, k + first, k + e);
}

/// Parsing the rest of a list is parsing the list from there on.
pub proof fn lemma_parse_from_shift(ts: Seq<TokenView>, k: int, i: int)
    requires
        0 <= k,
        0 <= i,
        k + i <= ts.len(),
    ensures
        parse_from(ts.skip(k), i) is Ok ==> parse_from(ts, k + i) == parse_from(ts.skip(k), i),
    decreases ts.len() - k - i,
{
    let rest = ts.skip(k);
    if k + i < ts.len() && parse_from(rest, i) is Ok {
        let first = i + count_until(rest, i, ',');
        let e = piece_end(rest, i, first);
        lemma_piece_end_shift(ts, k, i, first, e);
        if e < rest.len() {
            lemma_parse_from_shift(ts, k, e + 1);
        }
    }
}

/// The tokens of a list of arguments, by its first argument and the
/// rest.
pub proof fn lemma_list_tokens_cons(a: ArgView, rest: Seq<ArgView>)
    ensures
        list_tokens(seq![a] + rest, 0) == if rest.len() == 0 {
            arg_tokens(a)
        } else {
            arg_tokens(a) + seq![comma()] + list_tokens(rest, 0)
        },
{
    if rest.len() > 0 {
        lemma_list_tokens_shift(a, rest, 0);
    }
}

/// The tokens of the arguments after the first are those of the rest.
pub proof fn lemma_list_tokens_shift(a: ArgView, rest: Seq<ArgView>, k: int)
    requires
        0 <= k <= rest.len(),
    ensures
        list_tokens(seq![a] + rest, k + 1) == list_tokens(rest, k),
    decreases rest.len() - k,
{
    if k < rest.len() {
        if k < rest.len() - 1 {
            lemma_list_tokens_shift(a, rest, k + 1);
        }
    }
}

/// A piece that is an argument and no shorter one, a comma and a list
/// that parses give a list that parses to the piece's argument and then
/// the list's.
pub proof fn lemma_parse_cons(r: Seq<TokenView>, a: ArgView, more: Seq<TokenView>, rest: Seq<
    ArgView,
>)
    requires
        r.len() > 0,
        minimal(r, 0, r.len() as int),
        parse_item(r, 0, r.len() as int) == Ok::<ArgView, ErrorView>(a),
        parse_from(more, 0) == Ok::<Seq<ArgView>, ErrorView>(rest),
    ensures
        parse_from(r + seq![comma()] + more, 0) == Ok::<Seq<ArgView>, ErrorView>(seq![a] + rest),
{
    let all = r + seq![comma()] + more;
    let n = r.len() as int;
    assert(all[n] == comma());
    lemma_count_until_bounds(all, 0, ',');
    let first = count_until(all, 0, ',') as int;
    assert forall|c: int|
        first <= c < n && is_punct_view(all[c], ',') implies #[trigger] parse_item(all, 0, c)
        is Err by {
        assert(all.subrange(0, c) =~= r.subrange(0, c));
        lemma_item_moved(all, 0, c, r, 0);
    }
    assert(all.subrange(0, n) =~= r.subrange(0, n));
    lemma_piece_end_found(all, 0, first, n);
    assert(all.skip(n + 1) =~= more);
    lemma_parse_from_shift(all, n + 1, 0);
}

/// A piece that is an argument and no shorter one is a list of one
/// argument.
pub proof fn lemma_parse_single(r: Seq<TokenView>, a: ArgView)
    requires
        r.len() > 0,
        minimal(r, 0, r.len() as int),
        parse_item(r, 0, r.len() as int) == Ok::<ArgView, ErrorView>(a),
    ensures
        parse_from(r, 0) == Ok::<Seq<ArgView>, ErrorView>(seq![a]),
{
    lemma_count_until_bounds(r, 0, ',');
    lemma_piece_end_found(r, 0, count_until(r, 0, ',') as int, r.len() as int);
}

/// Two runs of tokens that have their groups in round brackets at the
/// same places count alike.
pub proof fn lemma_count_to_group_alike(a: Seq<TokenView>, b: Seq<TokenView>, from: int)
    requires
        a.len() == b.len(),
        0 <= from <= a.len(),
        forall|k: int| 0 <= k < a.len() ==> is_round(#[trigger] a[k]) == is_round(b[k]),
    ensures
        count_to_group(a, from) == count_to_group(b, from),
    decreases a.len() - from,
{
    if from < a.len() && !is_round(a[from]) {
        lemma_count_to_group_alike(a, b, from + 1);
    }
}

/// Two runs of tokens that have the character `c` at the same places
/// count alike.
pub proof fn lemma_count_until_alike(a: Seq<TokenView>, b: Seq<TokenView>, from: int, c: char)
    requires
        a.len() == b.len(),
        0 <= from <= a.len(),
        forall|k: int|
            0 <= k < a.len() ==> is_punct_view(#[trigger] a[k], c) == is_punct_view(b[k], c),
    ensures
        count_until(a, from, c) == count_until(b, from, c),
    decreases a.len() - from,
{
    if from < a.len() && !is_punct_view(a[from], c) {
        lemma_count_until_alike(a, b, from + 1, c);
    }
}

/// A piece of an assignment that runs past its `=` and is no argument
/// is none either with another path, of the same text, before the `=`.
pub proof fn lemma_assignment_prefix(x: Seq<TokenView>, y: Seq<TokenView>, e: int)
    requires
        1 <= e < x.len(),
        x.len() == y.len(),
        forall|k: int| 0 <= k < e ==> !is_punct_view(#[trigger] x[k], '='),
        forall|k: int| 0 <= k < e ==> !is_punct_view(#[trigger] y[k], '='),
        is_punct_view(x[e], '='),
        is_punct_view(y[e], '='),
        !is_positional(x),
        !is_positional(y),
        is_path_text(text_of(x.subrange(0, e))),
        text_of(y.subrange(0, e)) == text_of(x.subrange(0, e)),
        y.subrange(e + 1, y.len() as int) == x.subrange(e + 1, x.len() as int),
        parse_item(x, 0, x.len() as int) is Err,
    ensures
        parse_item(y, 0, y.len() as int) is Err,
{
    let n = x.len() as int;
    lemma_count_until(x, 0, '=', e);
    lemma_count_until(y, 0, '=', e);
    assert(x.subrange(0, n) =~= x);
    assert(y.subrange(0, n) =~= y);
}

/// The tokens of an argument that a piece without a nested group was
/// parsed to parse to the same argument.
pub proof fn lemma_flat_again(run: Seq<TokenView>, a: ArgView)
    requires
        parse_flat(run) == Ok::<ArgView, (GrammarKind, nat)>(a),
        !is_nested(run),
        !keys_expr(run),
    ensures
        arg_tokens(a).len() > 0,
        parse_item(arg_tokens(a), 0, arg_tokens(a).len() as int) == Ok::<ArgView, ErrorView>(a),
        is_assignment(run) && !is_positional(run) && !(a is Literal && stands_alone(
            path_of(a),
            a->Literal_1,
        )) ==> {
            &&& arg_tokens(a).len() == run.len()
            &&& arg_tokens(a).subrange(0, count_until(run, 0, '=') as int) == settled(
                run.subrange(0, count_until(run, 0, '=') as int),
            )
            &&& arg_tokens(a)[count_until(run, 0, '=') as int] == equals()
            &&& !is_positional(arg_tokens(a))
            &&& forall|k: int|
                count_until(run, 0, '=') < k < run.len() - 1 ==> #[trigger] arg_tokens(a)[k]
                    == run[k]
            &&& is_punct_view(arg_tokens(a)[run.len() - 1], ',') == is_punct_view(
                run[run.len() - 1],
                ',',
            )
        },
        !is_assignment(run) && !is_positional(run) ==> arg_tokens(a) == settled(run),
        is_positional(run) ==> arg_tokens(a).len() == 1,
        a is Literal && stands_alone(path_of(a), a->Literal_1) ==> arg_tokens(a).len() == 1,
{
    let r = arg_tokens(a);
    let n = run.len() as int;
    if is_positional(run) {
        assert(r.subrange(0, r.len() as int) =~= r);
    } else if is_assignment(run) {
        let e = count_until(run, 0, '=') as int;
        let p0 = run.subrange(0, e);
        let v0 = run.subrange(e + 1, n);
        let p = settled(p0);
        let v = settled(v0);
        lemma_count_until_bounds(run, 0, '=');
        lemma_settled_text(p0);
        lemma_settled_text(v0);
        let w = if a is Ident {
            v0
        } else {
            v
        };
        if a is Literal && stands_alone(p, v) {
            assert(r.subrange(0, r.len() as int) =~= r);
        } else {
            assert(r.subrange(0, r.len() as int) =~= r);
            lemma_count_until(r, 0, '=', e);
            assert(r.subrange(0, e) =~= p);
            assert(r.subrange(e + 1, r.len() as int) =~= w);
        }
    } else {
        lemma_settled_text(run);
        assert(r.subrange(0, r.len() as int) =~= r);
        lemma_count_until_alike(run, r, 0, '=');
        let e = count_until(run, 0, '=') as int;
        if e < n {
            assert(r.subrange(0, e) =~= run.subrange(0, e));
        }
        lemma_count_to_group_alike(run, r, 0);
        let g = count_to_group(run, 0) as int;
        if g < n - 1 {
            assert(r.subrange(0, g) =~= run.subrange(0, g));
        }
    }
}

/// The tokens of an argument that a piece without a nested group was
/// parsed to parse to the same argument, and up to no comma of theirs
/// to any argument.
pub proof fn lemma_flat_round_trip(run: Seq<TokenView>, a: ArgView)
    requires
        parse_flat(run) == Ok::<ArgView, (GrammarKind, nat)>(a),
        !is_nested(run),
        minimal(run, 0, run.len() as int),
        !keys_expr(run),
    ensures
        arg_tokens(a).len() > 0,
        minimal(arg_tokens(a), 0, arg_tokens(a).len() as int),
        parse_item(arg_tokens(a), 0, arg_tokens(a).len() as int) == Ok::<ArgView, ErrorView>(a),
{
    let r = arg_tokens(a);
    let n = run.len() as int;
    lemma_flat_again(run, a);
    if r.len() > 1 {
        if is_assignment(run) {
            let e = count_until(run, 0, '=') as int;
            lemma_settled_text(run.subrange(0, e));
            assert forall|c: int|
                0 <= c < n && is_punct_view(r[c], ',') implies #[trigger] parse_item(r, 0, c)
                is Err by {
                lemma_flat_comma(run, r, e, c);
            }
        } else {
            assert forall|c: int|
                0 <= c < n && is_punct_view(r[c], ',') implies #[trigger] parse_item(r, 0, c)
                is Err by {
                assert(r.subrange(0, c) =~= run.subrange(0, c));
                lemma_item_moved(r, 0, c, run, 0);
            }
        }
    }
}

/// Up to a comma of theirs the tokens of an assignment are no argument,
/// where the tokens that they were parsed from were none.
pub proof fn lemma_flat_comma(run: Seq<TokenView>, r: Seq<TokenView>, e: int, c: int)
    requires
        r.len() == run.len(),
        1 <= e < run.len(),
        e == count_until(run, 0, '='),
        is_path_text(text_of(run.subrange(0, e))),
        !is_positional(run),
        !is_positional(r),
        r.subrange(0, e) == settled(run.subrange(0, e)),
        text_of(settled(run.subrange(0, e))) == text_of(run.subrange(0, e)),
        is_punct_view(r[e], '='),
        forall|k: int| e < k < run.len() - 1 ==> #[trigger] r[k] == run[k],
        is_punct_view(r[run.len() - 1], ',') == is_punct_view(run[run.len() - 1], ','),
        minimal(run, 0, run.len() as int),
        0 <= c < run.len(),
        is_punct_view(r[c], ','),
    ensures
        parse_item(r, 0, c) is Err,
{
    let p0 = run.subrange(0, e);
    let p = settled(p0);
    lemma_count_until_bounds(run, 0, '=');
    if c < e {
        assert(r[c] == r.subrange(0, e)[c]);
        assert(r.subrange(0, c) =~= run.subrange(0, c));
        lemma_item_moved(r, 0, c, run, 0);
    } else {
        let x = run.subrange(0, c);
        let y = r.subrange(0, c);
        assert(x.subrange(0, e) =~= p0);
        assert(y.subrange(0, e) =~= p);
        assert(y.subrange(e + 1, c) =~= x.subrange(e + 1, c));
        lemma_item_local(run, 0, c);
        lemma_item_local(r, 0, c);
        lemma_assignment_prefix(x, y, e);
    }
}

/// The tokens of an argument that a piece of a list was parsed to are
/// a piece that parses to the same argument, and up to no comma of
/// theirs to any argument.
pub proof fn lemma_item_round_trip(ts: Seq<TokenView>, i: int, j: int)
    requires
        0 <= i <= j <= ts.len(),
        parse_item(ts, i, j) is Ok,
        minimal(ts, i, j),
        !item_keys_expr(ts, i, j),
    ensures
        arg_tokens(parse_item(ts, i, j)->Ok_0).len() > 0,
        minimal(
            arg_tokens(parse_item(ts, i, j)->Ok_0),
            0,
            arg_tokens(parse_item(ts, i, j)->Ok_0).len() as int,
        ),
        parse_item(
            arg_tokens(parse_item(ts, i, j)->Ok_0),
            0,
            arg_tokens(parse_item(ts, i, j)->Ok_0).len() as int,
        ) == parse_item(ts, i, j),
    decreases ts, 0nat, 0nat,
{
    let run = ts.subrange(i, j);
    let a = parse_item(ts, i, j)->Ok_0;
    let r = arg_tokens(a);
    let n = run.len() as int;
    assert forall|c: int|
        0 <= c < n && is_punct_view(run[c], ',') implies #[trigger] parse_item(run, 0, c)
        is Err by {
        assert(run.subrange(0, c) =~= ts.subrange(i, i + c));
        lemma_item_moved(run, 0, c, ts, i);
    }
    if i < j && is_nested(run) {
        match ts[j - 1] {
            TokenView::Group(d, inner) => {
                let p0 = run.drop_last();
                let p = settled(p0);
                lemma_settled_text(p0);
                lemma_list_round_trip(inner, 0);
                assert(r.subrange(0, n) =~= r);
                assert(r.drop_last() =~= p);
                lemma_count_until_alike(run, r, 0, '=');
                let e = count_until(run, 0, '=') as int;
                if e < n {
                    assert(r.subrange(0, e) =~= run.subrange(0, e));
                }
                assert forall|c: int|
                    0 <= c < n && is_punct_view(r[c], ',') implies #[trigger] parse_item(r, 0, c)
                    is Err by {
                    assert(r.subrange(0, c) =~= run.subrange(0, c));
                    lemma_item_moved(r, 0, c, run, 0);
                }
            },
            _ => {},
        }
    } else {
        lemma_flat_round_trip(run, a);
    }
}

/// The tokens of the arguments that a list was parsed to, from index
/// `i` on, parse to the same arguments.
pub proof fn lemma_list_round_trip(ts: Seq<TokenView>, i: int)
    requires
        0 <= i <= ts.len(),
        parse_from(ts, i) is Ok,
        !list_keys_expr(ts, i),
    ensures
        parse_from(list_tokens(parse_from(ts, i)->Ok_0, 0), 0) == parse_from(ts, i),
    decreases ts, 1nat, ts.len() - i,
{
    if i < ts.len() {
        lemma_count_until_bounds(ts, i, ',');
        let first = i + count_until(ts, i, ',');
        let j = piece_end(ts, i, first);
        lemma_piece_end(ts, i, first);
        let a = parse_item(ts, i, j)->Ok_0;
        lemma_item_round_trip(ts, i, j);
        let r = arg_tokens(a);
        if j >= ts.len() {
            lemma_parse_single(r, a);
        } else {
            let rest = parse_from(ts, j + 1)->Ok_0;
            lemma_list_round_trip(ts, j + 1);
            lemma_list_tokens_cons(a, rest);
            if rest.len() == 0 {
                lemma_parse_single(r, a);
            } else {
                lemma_parse_cons(r, a, list_tokens(rest, 0), rest);
            }
        }
    }
}

/// Parsing, writing out and parsing again gives what parsing gave.
///
/// The law holds of every list of tokens that parses and in which no
/// argument, at any depth, is an assignment of an expression to the
/// reserved key `__expr`. (An expression under that key is written
/// without its key, and so nothing then tells it from an argument of
/// another form.)
pub proof fn lemma_round_trip(ts: Seq<TokenView>)
    requires
        parse_list_spec(ts) is Ok,
        !list_keys_expr(ts, 0),
    ensures
        parse_list_spec(list_tokens(parse_list_spec(ts)->Ok_0, 0)) == parse_list_spec(ts),
{
    lemma_list_round_trip(ts, 0);
}

} // verus!
