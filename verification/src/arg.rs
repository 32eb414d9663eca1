//! One argument of an annotation.

use crate::attr::{Attr, AttrView};
use crate::token::{Token, TokenView, clone_tokens, same_tokens, views};
use vstd::prelude::*;

verus! {

/// One argument of an annotation. Every form has a path, the key under
/// which it is found; a path is a run of tokens and is never empty.
#[derive(Debug)]
pub enum Arg {
    /// A bare key: `skip`.
    Flag(Vec<Token>),
    /// A key with a literal: `retries = 3`. A string that stands alone,
    /// `"text"`, is a literal under the reserved key `__value`.
    Literal(Vec<Token>, Vec<Token>),
    /// A key with an identifier: `format = compact`.
    Ident(Vec<Token>, String),
    /// A key with arguments of its own: `display(skip, alias = "x")`.
    Attr(Attr),
    /// A key with an expression: `default = Vec::new()`. An expression
    /// that stands alone, `self.name`, has the reserved key `__expr`.
    Expr(Vec<Token>, Vec<Token>),
}

/// An argument as a mathematical value.
pub enum ArgView {
    Flag(Seq<TokenView>),
    Literal(Seq<TokenView>, Seq<TokenView>),
    Ident(Seq<TokenView>, Seq<char>),
    Attr(AttrView),
    Expr(Seq<TokenView>, Seq<TokenView>),
}

impl View for Arg {
    type V = ArgView;

    open spec fn view(&self) -> ArgView
        decreases self,
    {
        match self {
            Arg::Flag(p) => ArgView::Flag(views(p@)),
            Arg::Literal(p, v) => ArgView::Literal(views(p@), views(v@)),
            Arg::Ident(p, v) => ArgView::Ident(views(p@), v@),
            Arg::Attr(a) => ArgView::Attr(a@),
            Arg::Expr(p, v) => ArgView::Expr(views(p@), views(v@)),
        }
    }
}

/// The views of a list of arguments, one for one.
pub open spec fn arg_views(args: Seq<Arg>) -> Seq<ArgView>
    decreases args,
{
    Seq::new(
        args.len(),
        |i: int|
            if 0 <= i < args.len() {
                args[i]@
            } else {
                ArgView::Flag(Seq::empty())
            },
    )
}

/// Appending one argument appends its view.
pub proof fn lemma_arg_views_push(args: Seq<Arg>, a: Arg)
    ensures
        arg_views(args.push(a)) == arg_views(args).push(a@),
{
}

/// The key of an argument.
pub open spec fn path_of(a: ArgView) -> Seq<TokenView> {
    match a {
        ArgView::Flag(p) => p,
        ArgView::Literal(p, _) => p,
        ArgView::Ident(p, _) => p,
        ArgView::Attr(attr) => attr.path,
        ArgView::Expr(p, _) => p,
    }
}

/// The tokens of the value that an argument carries, if it carries one:
/// the literal, the identifier or the expression.
pub open spec fn value_of(a: ArgView) -> Option<Seq<TokenView>> {
    match a {
        ArgView::Literal(_, v) => Some(v),
        ArgView::Ident(_, v) => Some(seq![TokenView::Ident(v)]),
        ArgView::Expr(_, v) => Some(v),
        _ => None,
    }
}

/// Whether a path is the single identifier `name`.
pub open spec fn path_is(path: Seq<TokenView>, name: Seq<char>) -> bool {
    path == seq![TokenView::Ident(name)]
}

/// Whether every path in the argument, nested ones too, has a token.
pub open spec fn arg_wf(a: ArgView) -> bool
    decreases a,
{
    match a {
        ArgView::Attr(attr) => attr.path.len() > 0 && forall|i: int|
            0 <= i < attr.args.len() ==> arg_wf(#[trigger] attr.args[i]),
        _ => path_of(a).len() > 0,
    }
}

/// Whether a path is the single identifier `name`.
pub fn path_is_ident(path: &Vec<Token>, name: &str) -> (r: bool)
    ensures
        r == path_is(views(path@), name@),
{
    if path.len() != 1 {
        assert(views(path@).len() == path.len());
        return false;
    }
    assert(views(path@) =~= seq![path[0]@]);
    match &path[0] {
        Token::Ident(s) => {
            let r = *s == name.to_owned();
            assert(!r ==> seq![path[0]@][0] != seq![TokenView::Ident(name@)][0]);
            r
        },
        _ => {
            assert(seq![path[0]@][0] != seq![TokenView::Ident(name@)][0]);
            false
        },
    }
}

/// The path that is the single identifier `name`.
pub fn path_from_ident(name: &str) -> (r: Vec<Token>)
    ensures
        path_is(views(r@), name@),
        r.len() == 1,
{
    let mut out: Vec<Token> = Vec::new();
    out.push(Token::Ident(name.to_owned()));
    assert(views(out@) =~= seq![TokenView::Ident(name@)]);
    out
}

impl Arg {
    /// Whether every path in the argument has a token.
    pub open spec fn wf(&self) -> bool {
        arg_wf(self@)
    }

    pub fn from_flag(path: Vec<Token>) -> (r: Arg)
        requires
            path.len() > 0,
        ensures
            r@ == ArgView::Flag(views(path@)),
            r.wf(),
    {
        Arg::Flag(path)
    }

    pub fn from_lit(path: Vec<Token>, value: Vec<Token>) -> (r: Arg)
        requires
            path.len() > 0,
        ensures
            r@ == ArgView::Literal(views(path@), views(value@)),
            r.wf(),
    {
        Arg::Literal(path, value)
    }

    pub fn from_ident(path: Vec<Token>, value: String) -> (r: Arg)
        requires
            path.len() > 0,
        ensures
            r@ == ArgView::Ident(views(path@), value@),
            r.wf(),
    {
        Arg::Ident(path, value)
    }

    pub fn from_attr(attr: Attr) -> (r: Arg)
        requires
            attr.wf(),
        ensures
            r@ == ArgView::Attr(attr@),
            r.wf(),
    {
        Arg::Attr(attr)
    }

    pub fn from_expr(path: Vec<Token>, expr: Vec<Token>) -> (r: Arg)
        requires
            path.len() > 0,
        ensures
            r@ == ArgView::Expr(views(path@), views(expr@)),
            r.wf(),
    {
        Arg::Expr(path, expr)
    }

    pub fn is_flag(&self) -> (r: bool)
        ensures
            r == (self@ is Flag),
    {
        matches!(self, Arg::Flag(_))
    }

    pub fn is_lit(&self) -> (r: bool)
        ensures
            r == (self@ is Literal),
    {
        matches!(self, Arg::Literal(_, _))
    }

    pub fn is_ident(&self) -> (r: bool)
        ensures
            r == (self@ is Ident),
    {
        matches!(self, Arg::Ident(_, _))
    }

    pub fn is_attr(&self) -> (r: bool)
        ensures
            r == (self@ is Attr),
    {
        matches!(self, Arg::Attr(_))
    }

    pub fn is_expr(&self) -> (r: bool)
        ensures
            r == (self@ is Expr),
    {
        matches!(self, Arg::Expr(_, _))
    }

    /// The key of the argument.
    pub fn path(&self) -> (r: &Vec<Token>)
        ensures
            views(r@) == path_of(self@),
    {
        match self {
            Arg::Flag(path) => path,
            Arg::Literal(path, _) => path,
            Arg::Ident(path, _) => path,
            Arg::Attr(attr) => attr.path(),
            Arg::Expr(path, _) => path,
        }
    }

    pub fn as_lit(&self) -> (r: Option<&Vec<Token>>)
        ensures
            r matches Some(v) ==> self@ matches ArgView::Literal(_, w) && w == views(v@),
            r is None ==> !(self@ is Literal),
    {
        match self {
            Arg::Literal(_, v) => Some(v),
            _ => None,
        }
    }

    pub fn as_ident(&self) -> (r: Option<&String>)
        ensures
            r matches Some(v) ==> self@ matches ArgView::Ident(_, w) && w == v@,
            r is None ==> !(self@ is Ident),
    {
        match self {
            Arg::Ident(_, v) => Some(v),
            _ => None,
        }
    }

    pub fn as_attr(&self) -> (r: Option<&Attr>)
        ensures
            r matches Some(v) ==> self@ == ArgView::Attr(v@),
            r is None ==> !(self@ is Attr),
    {
        match self {
            Arg::Attr(attr) => Some(attr),
            _ => None,
        }
    }

    pub fn as_expr(&self) -> (r: Option<&Vec<Token>>)
        ensures
            r matches Some(v) ==> self@ matches ArgView::Expr(_, w) && w == views(v@),
            r is None ==> !(self@ is Expr),
    {
        match self {
            Arg::Expr(_, expr) => Some(expr),
            _ => None,
        }
    }

    pub fn to_lit(self) -> (r: Option<Vec<Token>>)
        ensures
            r matches Some(v) ==> self@ matches ArgView::Literal(_, w) && w == views(v@),
            r is None ==> !(self@ is Literal),
    {
        match self {
            Arg::Literal(_, v) => Some(v),
            _ => None,
        }
    }

    pub fn to_ident(self) -> (r: Option<String>)
        ensures
            r matches Some(v) ==> self@ matches ArgView::Ident(_, w) && w == v@,
            r is None ==> !(self@ is Ident),
    {
        match self {
            Arg::Ident(_, v) => Some(v),
            _ => None,
        }
    }

    pub fn to_attr(self) -> (r: Option<Attr>)
        ensures
            r matches Some(v) ==> self@ == ArgView::Attr(v@),
            r is None ==> !(self@ is Attr),
    {
        match self {
            Arg::Attr(attr) => Some(attr),
            _ => None,
        }
    }

    /// The tokens of the value that the argument carries: its literal,
    /// its identifier or its expression; `None` for a flag and for an
    /// argument with arguments of its own.
    pub fn as_value_tokens(&self) -> (r: Option<Vec<Token>>)
        ensures
            r matches Some(v) ==> value_of(self@) == Some(views(v@)),
            r is None ==> value_of(self@) is None,
    {
        match self {
            Arg::Literal(_, v) => Some(clone_tokens(v)),
            Arg::Ident(_, v) => {
                let mut out: Vec<Token> = Vec::new();
                out.push(Token::Ident(v.clone()));
                Some(out)
            },
            Arg::Expr(_, v) => Some(clone_tokens(v)),
            _ => None,
        }
    }

    /// Whether two arguments are structurally equal.
    pub fn same(&self, other: &Arg) -> (r: bool)
        ensures
            r == (self@ == other@),
        decreases self, 0nat,
    {
        match (self, other) {
            (Arg::Flag(p), Arg::Flag(q)) => same_tokens(p, q),
            (Arg::Literal(p, v), Arg::Literal(q, w)) => same_tokens(p, q) && same_tokens(v, w),
            (Arg::Ident(p, v), Arg::Ident(q, w)) => same_tokens(p, q) && *v == *w,
            (Arg::Attr(a), Arg::Attr(b)) => a.same(b),
            (Arg::Expr(p, v), Arg::Expr(q, w)) => same_tokens(p, q) && same_tokens(v, w),
            _ => false,
        }
    }
}

impl Clone for Arg {
    fn clone(&self) -> (r: Arg)
        ensures
            r@ == self@,
        decreases self, 0nat,
    {
        match self {
            Arg::Flag(p) => Arg::Flag(clone_tokens(p)),
            Arg::Literal(p, v) => Arg::Literal(clone_tokens(p), clone_tokens(v)),
            Arg::Ident(p, v) => Arg::Ident(clone_tokens(p), v.clone()),
            Arg::Attr(a) => Arg::Attr(a.clone()),
            Arg::Expr(p, v) => Arg::Expr(clone_tokens(p), clone_tokens(v)),
        }
    }
}

impl PartialEq for Arg {
    fn eq(&self, other: &Arg) -> (r: bool) {
        self.same(other)
    }
}

impl vstd::std_specs::cmp::PartialEqSpecImpl for Arg {
    open spec fn obeys_eq_spec() -> bool {
        true
    }

    open spec fn eq_spec(&self, other: &Arg) -> bool {
        self@ == other@
    }
}

/// A copy of a list of arguments.
pub fn clone_args(args: &Vec<Arg>) -> (r: Vec<Arg>)
    ensures
        arg_views(r@) == arg_views(args@),
    decreases args, 1nat,
{
    let mut out: Vec<Arg> = Vec::new();
    let mut i: usize = 0;
    while i < args.len()
        invariant
            i <= args.len(),
            out.len() == i,
            forall|k: int| 0 <= k < i ==> out[k]@ == args[k]@,
        decreases args.len() - i,
    {
        out.push(args[i].clone());
        i += 1;
    }
    assert(arg_views(out@) =~= arg_views(args@));
    out
}

/// Whether two lists of arguments are structurally equal.
pub fn same_args(a: &Vec<Arg>, b: &Vec<Arg>) -> (r: bool)
    ensures
        r == (arg_views(a@) == arg_views(b@)),
    decreases a, 1nat,
{
    if a.len() != b.len() {
        return false;
    }
    let mut i: usize = 0;
    while i < a.len()
        invariant
            i <= a.len(),
            a.len() == b.len(),
            forall|k: int| 0 <= k < i ==> a[k]@ == b[k]@,
        decreases a.len() - i,
    {
        if !a[i].same(&b[i]) {
            assert(arg_views(a@)[i as int] != arg_views(b@)[i as int]);
            return false;
        }
        i += 1;
    }
    assert(arg_views(a@) =~= arg_views(b@));
    true
}

} // verus!
