//! The grammar of annotation arguments.
//!
//! A list of arguments is split at commas that stand outside every
//! bracket; each piece is one argument. What a piece is follows from its
//! shape and from what the host language's parser says of its parts:
//!
//! ```text
//! Argument := String                  positional, under the key `__value`
//!           | Path '=' Identifier
//!           | Path '=' Literal
//!           | Path '=' Expression
//!           | Path '(' ArgumentList ')'    and nothing after it
//!           | Path
//!           | Expression              under the key `__expr`
//! ArgumentList := Argument (',' Argument)* [',']
//! ```
//!
//! The forms are tried in this order and the first that fits is taken.
//! An argument ends at the first comma up to which its tokens fit a
//! form, so an expression keeps the commas that are its own.

use crate::arg::{Arg, ArgView, arg_views, lemma_arg_views_push, path_from_ident};
use crate::attr::{Attr, AttrView};
use crate::error::{Error, ErrorView, GrammarKind, Place, at_index, inside};
use crate::syntax::{
    is_expr_text, is_ident_text, is_lit_text, is_path_text, parses_as_expr, parses_as_ident,
    parses_as_lit, parses_as_path, string_literal_value, string_value,
};
use crate::token::{
    Delimiter, Token, TokenView, copy_range, copy_settled, is_punct_view, render_range, settled,
    text_of, views,
};
use vstd::prelude::*;

verus! {

/// The reserved key of a string that stands alone.
pub open spec fn value_key() -> Seq<TokenView> {
    seq![TokenView::Ident("__value"@)]
}

/// The reserved key of an expression that stands alone.
pub open spec fn expr_key() -> Seq<TokenView> {
    seq![TokenView::Ident("__expr"@)]
}

/// How many tokens stand from index `from` on before the first
/// punctuation character `c`, or before the end where there is none.
pub open spec fn count_until(ts: Seq<TokenView>, from: int, c: char) -> nat
    decreases ts.len() - from,
{
    if from < 0 || from >= ts.len() {
        0
    } else if is_punct_view(ts[from], c) {
        0
    } else {
        1 + count_until(ts, from + 1, c)
    }
}

/// `count_until` is the distance to the first `c`.
pub proof fn lemma_count_until(ts: Seq<TokenView>, from: int, c: char, n: int)
    requires
        0 <= from <= n <= ts.len(),
        forall|k: int| from <= k < n ==> !is_punct_view(#[trigger] ts[k], c),
        n == ts.len() || is_punct_view(ts[n], c),
    ensures
        count_until(ts, from, c) == n - from,
    decreases n - from,
{
    if from < n {
        lemma_count_until(ts, from + 1, c, n);
    }
}

/// `count_until` stays inside the list, meets no `c` on its way and
/// stops at one or at the end.
pub proof fn lemma_count_until_bounds(ts: Seq<TokenView>, from: int, c: char)
    requires
        0 <= from <= ts.len(),
    ensures
        from + count_until(ts, from, c) <= ts.len(),
        forall|k: int|
            from <= k < from + count_until(ts, from, c) ==> !is_punct_view(#[trigger] ts[k], c),
        from + count_until(ts, from, c) == ts.len() || is_punct_view(
            ts[from + count_until(ts, from, c)],
            c,
        ),
    decreases ts.len() - from,
{
    if from < ts.len() && !is_punct_view(ts[from], c) {
        lemma_count_until_bounds(ts, from + 1, c);
    }
}

/// Whether a token is a string literal: a literal of which the host
/// language's parser gives a string value.
pub open spec fn is_string_token(t: TokenView) -> bool {
    t matches TokenView::Literal(s) && string_value(s) is Some
}

/// Whether an argument begins with a string, which makes it positional.
pub open spec fn is_positional(run: Seq<TokenView>) -> bool {
    run.len() > 0 && is_string_token(run[0])
}

/// Whether an argument is an assignment: before its first `=` stands a
/// path.
pub open spec fn is_assignment(run: Seq<TokenView>) -> bool {
    let e = count_until(run, 0, '=') as int;
    1 <= e < run.len() && is_path_text(text_of(run.subrange(0, e)))
}

/// Whether an argument is a nested group: a path, then one group in
/// round brackets, and neither a positional string nor an assignment.
pub open spec fn is_nested(run: Seq<TokenView>) -> bool {
    &&& !is_positional(run)
    &&& !is_assignment(run)
    &&& run.len() >= 2
    &&& run.last() matches TokenView::Group(Delimiter::Parenthesis, _)
    &&& is_path_text(text_of(run.drop_last()))
}

/// Whether a token is a group in round brackets.
pub open spec fn is_round(t: TokenView) -> bool {
    t matches TokenView::Group(Delimiter::Parenthesis, _)
}

/// How many tokens stand from index `from` on before the first group in
/// round brackets, or before the end where there is none.
pub open spec fn count_to_group(ts: Seq<TokenView>, from: int) -> nat
    decreases ts.len() - from,
{
    if from < 0 || from >= ts.len() {
        0
    } else if is_round(ts[from]) {
        0
    } else {
        1 + count_to_group(ts, from + 1)
    }
}

/// `count_to_group` is the distance to the first group in round
/// brackets.
pub proof fn lemma_count_to_group(ts: Seq<TokenView>, from: int, n: int)
    requires
        0 <= from <= n <= ts.len(),
        forall|k: int| from <= k < n ==> !is_round(#[trigger] ts[k]),
        n == ts.len() || is_round(ts[n]),
    ensures
        count_to_group(ts, from) == n - from,
    decreases n - from,
{
    if from < n {
        lemma_count_to_group(ts, from + 1, n);
    }
}

/// Whether an argument is a nested group that goes on after its
/// brackets: a path, then a group in round brackets, then more tokens;
/// and neither a positional string nor an assignment.
pub open spec fn has_trailing(run: Seq<TokenView>) -> bool {
    let g = count_to_group(run, 0) as int;
    &&& !is_positional(run)
    &&& !is_assignment(run)
    &&& 1 <= g < run.len() - 1
    &&& is_path_text(text_of(run.subrange(0, g)))
}

/// The argument that the value of an assignment makes: an identifier, a
/// literal or an expression, tried in this order.
pub open spec fn parse_value(path: Seq<TokenView>, value: Seq<TokenView>) -> Option<ArgView> {
    if value.len() == 1 && value[0] is Ident && is_ident_text(value[0]->Ident_0) {
        Some(ArgView::Ident(path, value[0]->Ident_0))
    } else if is_lit_text(text_of(value)) {
        Some(ArgView::Literal(path, settled(value)))
    } else if is_expr_text(text_of(value)) {
        Some(ArgView::Expr(path, settled(value)))
    } else {
        None
    }
}

/// The argument that a piece without a nested group is, or the kind of
/// error and the index in the piece of the token at which it is found.
/// A nested group that is followed by more tokens is an error at the
/// first of them.
/// The paths and values of the argument are the tokens of the piece,
/// each run settled.
pub open spec fn parse_flat(run: Seq<TokenView>) -> Result<ArgView, (GrammarKind, nat)> {
    if run.len() == 0 {
        Err((GrammarKind::MissingArgument, 0nat))
    } else if is_positional(run) {
        if run.len() == 1 {
            Ok(ArgView::Literal(value_key(), run))
        } else {
            Err((GrammarKind::TrailingTokens, 1nat))
        }
    } else if is_assignment(run) {
        let e = count_until(run, 0, '=');
        match parse_value(
            settled(run.subrange(0, e as int)),
            run.subrange(e as int + 1, run.len() as int),
        ) {
            Some(a) => Ok(a),
            None => Err((GrammarKind::MalformedValue, e + 1)),
        }
    } else if has_trailing(run) {
        Err((GrammarKind::TrailingTokens, count_to_group(run, 0) + 1))
    } else if is_path_text(text_of(run)) {
        Ok(ArgView::Flag(settled(run)))
    } else if is_expr_text(text_of(run)) {
        Ok(ArgView::Expr(expr_key(), settled(run)))
    } else {
        Err((GrammarKind::MalformedArgument, 0nat))
    }
}

/// The argument that the tokens from `i` up to `j` of a list are. An
/// error is placed by the index in `ts` of the offending token; one in a
/// nested list by the index of the group that holds the list, and then
/// by its place in that list.
pub open spec fn parse_item(ts: Seq<TokenView>, i: int, j: int) -> Result<ArgView, ErrorView>
    decreases ts, 0nat, 0nat,
{
    let run = ts.subrange(i, j);
    if 0 <= i < j <= ts.len() && is_nested(run) {
        match ts[j - 1] {
            TokenView::Group(_, inner) => match parse_from(inner, 0) {
                Ok(args) => Ok(ArgView::Attr(AttrView { path: settled(run.drop_last()), args })),
                Err(e) => Err(inside(e, (j - 1) as nat)),
            },
            _ => Err(
                ErrorView::Grammar {
                    kind: GrammarKind::MalformedArgument,
                    place: at_index(i as nat),
                },
            ),
        }
    } else {
        match parse_flat(run) {
            Ok(a) => Ok(a),
            Err((kind, at)) => Err(ErrorView::Grammar { kind, place: at_index((i + at) as nat) }),
        }
    }
}

/// The index of the next comma after index `j`, or the length of the
/// list where there is none.
pub open spec fn next_end(ts: Seq<TokenView>, j: int) -> int {
    if j + 1 + count_until(ts, j + 1, ',') >= ts.len() {
        ts.len() as int
    } else {
        j + 1 + count_until(ts, j + 1, ',')
    }
}

/// Where the argument that begins at `i` ends, `j` being a comma after
/// `i` or the end of the list: at `j` if the tokens up to there are an
/// argument, else at the next comma up to which they are one, else at
/// the end of the list.
pub open spec fn piece_end(ts: Seq<TokenView>, i: int, j: int) -> int
    decreases ts, 2nat, ts.len() - j,
{
    if j < 0 || j >= ts.len() || parse_item(ts, i, j) is Ok {
        j
    } else {
        piece_end(ts, i, next_end(ts, j))
    }
}

/// The arguments that the tokens from `i` on are, in order, with a comma
/// between neighbours; a comma after the last is allowed.
///
/// An argument ends at the first comma up to which the tokens are an
/// argument, so that an expression keeps the commas that are its own
/// (`|a, b| a + b`). Where the tokens are an argument up to no comma and
/// not up to the end, the error is that of the tokens up to the first
/// comma.
pub open spec fn parse_from(ts: Seq<TokenView>, i: int) -> Result<Seq<ArgView>, ErrorView>
    decreases ts, 3nat, ts.len() - i,
{
    if i < 0 || i >= ts.len() {
        Ok(Seq::empty())
    } else {
        let first = i + count_until(ts, i, ',');
        let j = piece_end(ts, i, first);
        match parse_item(ts, i, j) {
            Err(e) => match parse_item(ts, i, first) {
                Err(early) => Err(early),
                Ok(_) => Err(e),
            },
            Ok(a) => if j < i || j >= ts.len() {
                Ok(seq![a])
            } else {
                match parse_from(ts, j + 1) {
                    Ok(rest) => Ok(seq![a] + rest),
                    Err(e) => Err(e),
                }
            },
        }
    }
}

/// The arguments that a list of tokens is.
pub open spec fn parse_list_spec(ts: Seq<TokenView>) -> Result<Seq<ArgView>, ErrorView> {
    parse_from(ts, 0)
}

/// The argument that a run of tokens is, taken as a whole.
pub open spec fn parse_arg_spec(ts: Seq<TokenView>) -> Result<ArgView, ErrorView> {
    parse_item(ts, 0, ts.len() as int)
}

/// Whether an outcome of the library has the given mathematical value.
pub open spec fn is_arg(r: Result<Arg, Error>, v: Result<ArgView, ErrorView>) -> bool {
    match r {
        Ok(a) => v == Ok::<ArgView, ErrorView>(a@),
        Err(e) => v == Err::<ArgView, ErrorView>(e@),
    }
}

/// Whether an outcome of the library has the given mathematical value.
pub open spec fn is_args(r: Result<Vec<Arg>, Error>, v: Result<Seq<ArgView>, ErrorView>) -> bool {
    match r {
        Ok(a) => v == Ok::<Seq<ArgView>, ErrorView>(arg_views(a@)),
        Err(e) => v == Err::<Seq<ArgView>, ErrorView>(e@),
    }
}

/// The index of the first punctuation character `c` from `from` on and
/// before `to`, or `to` where there is none.
fn find_punct(tokens: &Vec<Token>, from: usize, to: usize, c: char) -> (n: usize)
    requires
        from <= to <= tokens.len(),
    ensures
        from <= n <= to,
        n - from == count_until(views(tokens@).subrange(from as int, to as int), 0, c),
        n < to ==> is_punct_view(tokens[n as int]@, c),
{
    let ghost run = views(tokens@).subrange(from as int, to as int);
    let mut n: usize = from;
    while n < to && !tokens[n].is_punct(c)
        invariant
            from <= n <= to <= tokens.len(),
            run == views(tokens@).subrange(from as int, to as int),
            forall|k: int| 0 <= k < n - from ==> !is_punct_view(#[trigger] run[k], c),
        decreases to - n,
    {
        n += 1;
    }
    proof {
        lemma_count_until(run, 0, c, n - from);
    }
    n
}

/// The index of the first group in round brackets from `from` on and
/// before `to`, or `to` where there is none.
fn find_group(tokens: &Vec<Token>, from: usize, to: usize) -> (n: usize)
    requires
        from <= to <= tokens.len(),
    ensures
        from <= n <= to,
        n - from == count_to_group(views(tokens@).subrange(from as int, to as int), 0),
{
    let ghost run = views(tokens@).subrange(from as int, to as int);
    let mut n: usize = from;
    while n < to
        invariant
            from <= n <= to <= tokens.len(),
            run == views(tokens@).subrange(from as int, to as int),
            forall|k: int| 0 <= k < n - from ==> !is_round(#[trigger] run[k]),
        decreases to - n,
    {
        assert(run[n - from] == tokens[n as int]@);
        match &tokens[n] {
            Token::Group(Delimiter::Parenthesis, _) => {
                proof {
                    lemma_count_to_group(run, 0, n - from);
                }
                return n;
            },
            _ => {},
        }
        n += 1;
    }
    proof {
        lemma_count_to_group(run, 0, n - from);
    }
    n
}

fn grammar_error(kind: GrammarKind, at: usize) -> (r: Error)
    ensures
        r@ == (ErrorView::Grammar { kind, place: at_index(at as nat) }),
{
    Error::Grammar { kind, place: Place::index(at) }
}

/// The argument that the value of an assignment makes; the value stands
/// from `from` to `to`.
fn parse_value_at(tokens: &Vec<Token>, path: Vec<Token>, from: usize, to: usize) -> (r: Option<
    Arg,
>)
    requires
        from <= to <= tokens.len(),
        path.len() > 0,
    ensures
        r matches Some(a) ==> parse_value(
            views(path@),
            views(tokens@).subrange(from as int, to as int),
        ) == Some(a@) && a.wf(),
        r is None ==> parse_value(views(path@), views(tokens@).subrange(from as int, to as int))
            is None,
{
    if to - from == 1 {
        match &tokens[from] {
            Token::Ident(s) => {
                if parses_as_ident(s.as_str()) {
                    return Some(Arg::from_ident(path, s.clone()));
                }
            },
            _ => {},
        }
    }
    let text = render_range(tokens, from, to);
    if parses_as_lit(text.as_str()) {
        Some(Arg::from_lit(path, copy_settled(tokens, from, to)))
    } else if parses_as_expr(text.as_str()) {
        Some(Arg::from_expr(path, copy_settled(tokens, from, to)))
    } else {
        None
    }
}

/// Whether the token is a string literal.
fn is_string(t: &Token) -> (r: bool)
    ensures
        r == is_string_token(t@),
{
    match t {
        Token::Literal(s) => string_literal_value(s.as_str()).is_some(),
        _ => false,
    }
}

/// The argument that the tokens from `from` to `to` are.
#[verifier::rlimit(50)]
fn parse_run(tokens: &Vec<Token>, from: usize, to: usize) -> (r: Result<Arg, Error>)
    requires
        from <= to <= tokens.len(),
    ensures
        is_arg(r, parse_item(views(tokens@), from as int, to as int)),
        r matches Ok(a) ==> a.wf(),
    decreases tokens, 0nat, 0nat,
{
    let ghost ts = views(tokens@);
    let ghost run = ts.subrange(from as int, to as int);
    if from == to {
        return Err(grammar_error(GrammarKind::MissingArgument, from));
    }
    if is_string(&tokens[from]) {
        if to - from == 1 {
            let path = path_from_ident("__value");
            return Ok(Arg::from_lit(path, copy_range(tokens, from, to)));
        }
        return Err(grammar_error(GrammarKind::TrailingTokens, from + 1));
    }
    let e = find_punct(tokens, from, to, '=');
    assert(run.subrange(0, e - from) =~= ts.subrange(from as int, e as int));
    if from < e && e < to && parses_as_path(render_range(tokens, from, e).as_str()) {
        let path = copy_settled(tokens, from, e);
        assert(run.subrange(e - from + 1, run.len() as int) =~= ts.subrange(e + 1, to as int));
        return match parse_value_at(tokens, path, e + 1, to) {
            Some(a) => Ok(a),
            None => Err(grammar_error(GrammarKind::MalformedValue, e + 1)),
        };
    }
    assert(run.drop_last() =~= ts.subrange(from as int, to - 1));
    if to - from >= 2 {
        match &tokens[to - 1] {
            Token::Group(Delimiter::Parenthesis, inner) => {
                if parses_as_path(render_range(tokens, from, to - 1).as_str()) {
                    return match parse_list(inner) {
                        Ok(args) => {
                            let attr = Attr::new(copy_settled(tokens, from, to - 1), args);
                            Ok(Arg::from_attr(attr))
                        },
                        Err(e) => Err(e.inside(to - 1)),
                    };
                }
            },
            _ => {},
        }
    }
    let g = find_group(tokens, from, to);
    assert(run.subrange(0, g - from) =~= ts.subrange(from as int, g as int));
    if from < g && g < to - 1 && parses_as_path(render_range(tokens, from, g).as_str()) {
        return Err(grammar_error(GrammarKind::TrailingTokens, g + 1));
    }
    let text = render_range(tokens, from, to);
    if parses_as_path(text.as_str()) {
        Ok(Arg::from_flag(copy_settled(tokens, from, to)))
    } else if parses_as_expr(text.as_str()) {
        let path = path_from_ident("__expr");
        Ok(Arg::from_expr(path, copy_settled(tokens, from, to)))
    } else {
        Err(grammar_error(GrammarKind::MalformedArgument, from))
    }
}

/// Parses a list of arguments: the contents of an annotation's brackets.
///
/// Each argument runs to the first comma up to which the tokens are an
/// argument. The first error ends the parse.
pub fn parse_list(tokens: &Vec<Token>) -> (r: Result<Vec<Arg>, Error>)
    ensures
        is_args(r, parse_list_spec(views(tokens@))),
        r matches Ok(v) ==> forall|k: int| 0 <= k < v.len() ==> (#[trigger] v[k]).wf(),
    decreases tokens, 1nat, 0nat,
{
    let ghost ts = views(tokens@);
    let n = tokens.len();
    let mut out: Vec<Arg> = Vec::new();
    let mut i: usize = 0;
    while i < n
        invariant
            i <= n == tokens.len(),
            ts == views(tokens@),
            forall|k: int| 0 <= k < out.len() ==> (#[trigger] out[k]).wf(),
            parse_from(ts, 0) == match parse_from(ts, i as int) {
                Ok(rest) => Ok::<Seq<ArgView>, ErrorView>(arg_views(out@) + rest),
                Err(e) => Err(e),
            },
        decreases n - i,
    {
        let first = find_punct(tokens, i, n, ',');
        proof {
            lemma_count_until_suffix(ts, i as int, ',');
        }
        let mut j = first;
        let mut item = parse_run(tokens, i, j);
        let mut early: Option<Error> = None;
        while item.is_err() && j < n
            invariant
                i <= first <= j <= n == tokens.len(),
                ts == views(tokens@),
                piece_end(ts, i as int, first as int) == piece_end(ts, i as int, j as int),
                is_arg(item, parse_item(ts, i as int, j as int)),
                item matches Ok(a) ==> a.wf(),
                j == first ==> early is None,
                j > first ==> (early matches Some(e) && parse_item(ts, i as int, first as int)
                    == Err::<ArgView, ErrorView>(e@)),
            decreases n - j,
        {
            let next = find_punct(tokens, j + 1, n, ',');
            proof {
                lemma_count_until_suffix(ts, j + 1, ',');
            }
            match item {
                Err(e) => {
                    if j == first {
                        early = Some(e);
                    }
                },
                Ok(_) => {},
            }
            j = next;
            item = parse_run(tokens, i, j);
        }
        match item {
            Err(e) => {
                return Err(
                    match early {
                        Some(e0) => e0,
                        None => e,
                    },
                );
            },
            Ok(a) => {
                proof {
                    lemma_arg_views_push(out@, a);
                    let rest = parse_from(ts, j + 1);
                    assert(arg_views(out@) + seq![a@] =~= arg_views(out@).push(a@));
                    if j < n && rest is Ok {
                        assert(arg_views(out@) + (seq![a@] + rest->Ok_0) =~= arg_views(out@).push(
                            a@,
                        ) + rest->Ok_0);
                    }
                }
                out.push(a);
                if j == n {
                    return Ok(out);
                }
                i = j + 1;
            },
        }
    }
    Ok(out)
}

/// Counting from index `i` of a list is counting from the start of the
/// rest of the list.
pub proof fn lemma_count_until_suffix(ts: Seq<TokenView>, i: int, c: char)
    requires
        0 <= i <= ts.len(),
    ensures
        count_until(ts, i, c) == count_until(ts.subrange(i, ts.len() as int), 0, c),
{
    lemma_count_until_bounds(ts, i, c);
    let n = count_until(ts, i, c) as int;
    let rest = ts.subrange(i, ts.len() as int);
    lemma_count_until(rest, 0, c, n);
}

impl Arg {
    /// Parses a run of tokens as one argument.
    pub fn parse(tokens: &Vec<Token>) -> (r: Result<Arg, Error>)
        ensures
            is_arg(r, parse_arg_spec(views(tokens@))),
            r matches Ok(a) ==> a.wf(),
    {
        parse_run(tokens, 0, tokens.len())
    }
}

} // verus!
