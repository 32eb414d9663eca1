//! Arguments back into tokens.

use crate::arg::{Arg, ArgView, arg_views, path_is_ident};
use crate::attr::{Attr, AttrView, Attrs, attr_views};
use crate::field::{Field, FieldName, FieldNameView, FieldView, decimal};
use crate::grammar::{expr_key, is_string_token, value_key};
use crate::syntax::string_literal_value;
use crate::token::{Delimiter, Token, TokenView, clone_tokens, views};
use vstd::prelude::*;

verus! {

/// The `=` of an assignment.
pub open spec fn equals() -> TokenView {
    TokenView::Punct('=', false)
}

/// The `,` between arguments.
pub open spec fn comma() -> TokenView {
    TokenView::Punct(',', false)
}

/// Whether a literal under the reserved key is a string that stands
/// alone.
pub open spec fn stands_alone(p: Seq<TokenView>, v: Seq<TokenView>) -> bool {
    p == value_key() && v.len() == 1 && is_string_token(v[0])
}

/// The tokens of one argument. A flag is its path; a nested group its
/// path and its arguments in round brackets; any other its path, `=`
/// and its value. The reserved keys are not written: a string under
/// `__value` and an expression under `__expr` stand alone.
pub open spec fn arg_tokens(a: ArgView) -> Seq<TokenView>
    decreases a, 0nat, 0nat,
{
    match a {
        ArgView::Flag(p) => p,
        ArgView::Literal(p, v) => if stands_alone(p, v) {
            v
        } else {
            p + seq![equals()] + v
        },
        ArgView::Ident(p, s) => p + seq![equals()] + seq![TokenView::Ident(s)],
        ArgView::Attr(x) => x.path + seq![
            TokenView::Group(Delimiter::Parenthesis, list_tokens(x.args, 0)),
        ],
        ArgView::Expr(p, v) => if p == expr_key() {
            v
        } else {
            p + seq![equals()] + v
        },
    }
}

/// The tokens of the arguments from index `i` on, with a comma between
/// neighbours.
pub open spec fn list_tokens(args: Seq<ArgView>, i: int) -> Seq<TokenView>
    decreases args, 1nat, args.len() - i,
{
    if i < 0 || i >= args.len() {
        Seq::empty()
    } else if i == args.len() - 1 {
        arg_tokens(args[i])
    } else {
        arg_tokens(args[i]) + seq![comma()] + list_tokens(args, i + 1)
    }
}

fn push_all(out: &mut Vec<Token>, more: &Vec<Token>)
    ensures
        views(final(out)@) == views(old(out)@) + views(more@),
{
    let mut i: usize = 0;
    while i < more.len()
        invariant
            i <= more.len(),
            views(out@) == views(old(out)@) + views(more@).subrange(0, i as int),
        decreases more.len() - i,
    {
        let ghost before = views(out@);
        out.push(more[i].clone());
        assert(views(out@) =~= before.push(more[i as int]@));
        i += 1;
    }
}

fn push_punct(out: &mut Vec<Token>, c: char)
    ensures
        views(final(out)@) == views(old(out)@) + seq![TokenView::Punct(c, false)],
{
    out.push(Token::Punct(c, false));
}

/// Whether a literal under the given path is a string that stands
/// alone.
fn is_alone(p: &Vec<Token>, v: &Vec<Token>) -> (r: bool)
    ensures
        r == stands_alone(views(p@), views(v@)),
{
    if !path_is_ident(p, "__value") {
        return false;
    }
    if v.len() != 1 {
        return false;
    }
    match &v[0] {
        Token::Literal(s) => string_literal_value(s.as_str()).is_some(),
        _ => false,
    }
}

fn write_arg(a: &Arg, out: &mut Vec<Token>)
    ensures
        views(final(out)@) == views(old(out)@) + arg_tokens(a@),
    decreases a, 0nat, 0nat,
{
    match a {
        Arg::Flag(p) => push_all(out, p),
        Arg::Literal(p, v) => {
            if is_alone(p, v) {
                push_all(out, v);
            } else {
                push_all(out, p);
                push_punct(out, '=');
                push_all(out, v);
            }
        },
        Arg::Ident(p, s) => {
            push_all(out, p);
            push_punct(out, '=');
            let ghost mid = views(out@);
            out.push(Token::Ident(s.clone()));
            assert(views(out@) =~= mid.push(TokenView::Ident(s@)));
        },
        Arg::Attr(x) => {
            push_all(out, &x.path);
            let mut inner: Vec<Token> = Vec::new();
            write_args(&x.args, 0, &mut inner);
            let ghost mid = views(out@);
            let ghost g = Token::Group(Delimiter::Parenthesis, inner)@;
            out.push(Token::Group(Delimiter::Parenthesis, inner));
            assert(views(out@) =~= mid.push(g));
        },
        Arg::Expr(p, v) => {
            if path_is_ident(p, "__expr") {
                push_all(out, v);
            } else {
                push_all(out, p);
                push_punct(out, '=');
                push_all(out, v);
            }
        },
    }
}

fn write_args(args: &Vec<Arg>, i: usize, out: &mut Vec<Token>)
    requires
        i <= args.len(),
    ensures
        views(final(out)@) == views(old(out)@) + list_tokens(arg_views(args@), i as int),
    decreases args, 1nat, args.len() - i,
{
    if i >= args.len() {
        return ;
    }
    write_arg(&args[i], out);
    if i + 1 < args.len() {
        push_punct(out, ',');
        write_args(args, i + 1, out);
    }
}

impl Arg {
    /// The tokens of the argument, from which it can be parsed again.
    pub fn to_tokens(&self) -> (r: Vec<Token>)
        ensures
            views(r@) == arg_tokens(self@),
    {
        let mut out: Vec<Token> = Vec::new();
        write_arg(self, &mut out);
        out
    }
}

impl Attr {
    /// The tokens of the annotation: its path, then its arguments in
    /// round brackets with commas between them.
    pub fn to_tokens(&self) -> (r: Vec<Token>)
        ensures
            views(r@) == arg_tokens(ArgView::Attr(self@)),
    {
        let mut out = clone_tokens(self.path());
        let mut inner: Vec<Token> = Vec::new();
        write_args(self.args(), 0, &mut inner);
        out.push(Token::Group(Delimiter::Parenthesis, inner));
        out
    }
}

/// The tokens of a list of arguments, with a comma between neighbours.
pub fn list_to_tokens(args: &Vec<Arg>) -> (r: Vec<Token>)
    ensures
        views(r@) == list_tokens(arg_views(args@), 0),
{
    let mut out: Vec<Token> = Vec::new();
    write_args(args, 0, &mut out);
    out
}

/// The tokens of the annotations from index `i` on, each followed by a
/// comma.
pub open spec fn attrs_tokens(attrs: Seq<AttrView>, i: int) -> Seq<TokenView>
    decreases attrs.len() - i,
{
    if i < 0 || i >= attrs.len() {
        Seq::empty()
    } else {
        arg_tokens(ArgView::Attr(attrs[i])) + seq![comma()] + attrs_tokens(attrs, i + 1)
    }
}

/// The token that addresses a member: its name, or its position as a
/// number.
pub open spec fn name_token(name: FieldNameView) -> TokenView {
    match name {
        FieldNameView::Ident(s) => TokenView::Ident(s),
        FieldNameView::Index(i) => TokenView::Literal(decimal(i)),
    }
}

/// The tokens of a member: its annotations as one attribute, its
/// visibility, its address, a colon, its type and a comma.
pub open spec fn field_tokens(f: FieldView) -> Seq<TokenView> {
    seq![
        TokenView::Punct('#', false),
        TokenView::Group(Delimiter::Bracket, attrs_tokens(f.attrs, 0)),
    ] + f.vis + seq![name_token(f.name), TokenView::Punct(':', false)] + f.ty + seq![comma()]
}

fn write_attrs(attrs: &Vec<Attr>, i: usize, out: &mut Vec<Token>)
    requires
        i <= attrs.len(),
    ensures
        views(final(out)@) == views(old(out)@) + attrs_tokens(
            attr_views(attrs@),
            i as int,
        ),
    decreases attrs.len() - i,
{
    if i >= attrs.len() {
        return ;
    }
    let one = attrs[i].to_tokens();
    push_all(out, &one);
    push_punct(out, ',');
    write_attrs(attrs, i + 1, out);
}

impl Attrs {
    /// The tokens of the annotations, each followed by a comma.
    pub fn to_tokens(&self) -> (r: Vec<Token>)
        ensures
            views(r@) == attrs_tokens(self@, 0),
    {
        let mut out: Vec<Token> = Vec::new();
        write_attrs(self.iter(), 0, &mut out);
        out
    }
}

impl FieldName {
    /// The token that addresses the member after `self.`: its name, or
    /// its position as a number.
    pub fn to_token(&self) -> (r: Token)
        ensures
            r@ == name_token(self@),
    {
        match self {
            FieldName::Ident(s) => Token::Ident(s.clone()),
            FieldName::Index(_) => Token::Literal(self.to_text()),
        }
    }
}

impl Field {
    /// The tokens of the member as a declaration: `#[annotations]`, its
    /// visibility, its address, `:`, its type and a comma.
    pub fn to_tokens(&self) -> (r: Vec<Token>)
        ensures
            views(r@) == field_tokens(self@),
    {
        let mut out: Vec<Token> = Vec::new();
        out.push(Token::Punct('#', false));
        let inner = self.attrs().to_tokens();
        let ghost g = Token::Group(Delimiter::Bracket, inner)@;
        out.push(Token::Group(Delimiter::Bracket, inner));
        assert(views(out@) =~= seq![TokenView::Punct('#', false), g]);
        push_all(&mut out, self.vis());
        out.push(self.name().to_token());
        push_punct(&mut out, ':');
        push_all(&mut out, self.ty());
        push_punct(&mut out, ',');
        out
    }
}

} // verus!
