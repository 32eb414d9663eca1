//! Token trees: the plain values that annotations, types and expressions are
//! made of, how they are printed, and how text is lexed into them.

use crate::error::{Error, ErrorView, GrammarKind, Place, nowhere};
use crate::syntax::{lex_text, lexed};
use vstd::prelude::*;
use vstd::string::*;

verus! {

/// The bracket that encloses a group of tokens.
#[derive(Clone, Copy, Debug, PartialEq, Eq, Structural)]
pub enum Delimiter {
    Parenthesis,
    Brace,
    Bracket,
    /// A group without brackets, as macro expansion makes them.
    Invisible,
}

/// One token tree: a word, a punctuation character, a literal, or a
/// bracketed group of token trees.
#[derive(Debug)]
pub enum Token {
    Ident(String),
    /// The character, and whether the next punctuation character follows
    /// it without a gap (as the first `:` of `::` does).
    Punct(char, bool),
    /// A literal, by its source text.
    Literal(String),
    Group(Delimiter, Vec<Token>),
}

/// A token tree as a mathematical value.
pub enum TokenView {
    Ident(Seq<char>),
    Punct(char, bool),
    Literal(Seq<char>),
    Group(Delimiter, Seq<TokenView>),
}

impl View for Token {
    type V = TokenView;

    open spec fn view(&self) -> TokenView
        decreases self,
    {
        match self {
            Token::Ident(s) => TokenView::Ident(s@),
            Token::Punct(c, j) => TokenView::Punct(*c, *j),
            Token::Literal(s) => TokenView::Literal(s@),
            Token::Group(d, inner) => TokenView::Group(*d, views(inner@)),
        }
    }
}

/// The views of a list of tokens, one for one.
pub open spec fn views(tokens: Seq<Token>) -> Seq<TokenView>
    decreases tokens,
{
    Seq::new(
        tokens.len(),
        |i: int|
            if 0 <= i < tokens.len() {
                tokens[i]@
            } else {
                TokenView::Punct(' ', false)
            },
    )
}

impl Clone for Token {
    fn clone(&self) -> (r: Token)
        ensures
            r@ == self@,
        decreases self,
    {
        match self {
            Token::Ident(s) => Token::Ident(s.clone()),
            Token::Punct(c, j) => Token::Punct(*c, *j),
            Token::Literal(s) => Token::Literal(s.clone()),
            Token::Group(d, inner) => {
                let mut out: Vec<Token> = Vec::new();
                let mut i: usize = 0;
                while i < inner.len()
                    invariant
                        i <= inner.len(),
                        out.len() == i,
                        self is Group,
                        self->Group_1 == *inner,
                        forall|k: int| 0 <= k < i ==> out[k]@ == inner[k]@,
                    decreases inner.len() - i,
                {
                    out.push(inner[i].clone());
                    i += 1;
                }
                assert(views(out@) =~= views(inner@));
                Token::Group(*d, out)
            },
        }
    }
}

impl Token {
    /// Whether two token trees are the same: kind, text, spacing and, for
    /// groups, bracket and contents.
    pub fn same(&self, other: &Token) -> (r: bool)
        ensures
            r == (self@ == other@),
        decreases self,
    {
        match (self, other) {
            (Token::Ident(a), Token::Ident(b)) => *a == *b,
            (Token::Punct(a, x), Token::Punct(b, y)) => *a == *b && *x == *y,
            (Token::Literal(a), Token::Literal(b)) => *a == *b,
            (Token::Group(d, a), Token::Group(e, b)) => {
                if *d != *e || a.len() != b.len() {
                    assert(views(a@).len() == a.len() && views(b@).len() == b.len());
                    return false;
                }
                let mut i: usize = 0;
                while i < a.len()
                    invariant
                        i <= a.len(),
                        a.len() == b.len(),
                        self is Group,
                        self->Group_1 == *a,
                        other is Group,
                        other->Group_1 == *b,
                        forall|k: int| 0 <= k < i ==> a[k]@ == b[k]@,
                    decreases a.len() - i,
                {
                    if !a[i].same(&b[i]) {
                        assert(views(a@)[i as int] != views(b@)[i as int]);
                        return false;
                    }
                    i += 1;
                }
                assert(views(a@) =~= views(b@));
                true
            },
            _ => false,
        }
    }

    /// Whether this is the punctuation character `c`, whatever follows it.
    pub fn is_punct(&self, c: char) -> (r: bool)
        ensures
            r == is_punct_view(self@, c),
    {
        match self {
            Token::Punct(p, _) => *p == c,
            _ => false,
        }
    }
}

impl PartialEq for Token {
    fn eq(&self, other: &Token) -> (r: bool) {
        self.same(other)
    }
}

impl vstd::std_specs::cmp::PartialEqSpecImpl for Token {
    open spec fn obeys_eq_spec() -> bool {
        true
    }

    open spec fn eq_spec(&self, other: &Token) -> bool {
        self@ == other@
    }
}

/// Whether `t` is the punctuation character `c`.
pub open spec fn is_punct_view(t: TokenView, c: char) -> bool {
    t matches TokenView::Punct(p, _) && p == c
}

/// A copy of a list of tokens.
pub fn clone_tokens(tokens: &Vec<Token>) -> (r: Vec<Token>)
    ensures
        views(r@) == views(tokens@),
{
    copy_range(tokens, 0, tokens.len())
}

/// A copy of the tokens from index `from` up to, not including, `to`.
pub fn copy_range(tokens: &Vec<Token>, from: usize, to: usize) -> (r: Vec<Token>)
    requires
        from <= to <= tokens.len(),
    ensures
        views(r@) == views(tokens@).subrange(from as int, to as int),
        r.len() == to - from,
{
    let mut out: Vec<Token> = Vec::new();
    let mut i: usize = from;
    while i < to
        invariant
            from <= i <= to <= tokens.len(),
            out.len() == i - from,
            forall|k: int| 0 <= k < out.len() ==> out[k]@ == tokens[from + k]@,
        decreases to - i,
    {
        out.push(tokens[i].clone());
        i += 1;
    }
    out
}

/// Whether two lists of tokens are the same, token for token.
pub fn same_tokens(a: &Vec<Token>, b: &Vec<Token>) -> (r: bool)
    ensures
        r == (views(a@) == views(b@)),
{
    if a.len() != b.len() {
        return false;
    }
    let mut i: usize = 0;
    while i < a.len()
        invariant
            i <= a.len(),
            a.len() == b.len(),
            forall|k: int| 0 <= k < i ==> a[k]@ == b[k]@,
        decreases a.len() - i,
    {
        if !a[i].same(&b[i]) {
            assert(views(a@)[i as int] != views(b@)[i as int]);
            return false;
        }
        i += 1;
    }
    assert(views(a@) =~= views(b@));
    true
}

/// The views of a list of texts, one for one.
pub open spec fn text_views(texts: Seq<String>) -> Seq<Seq<char>> {
    Seq::new(texts.len(), |i: int| texts[i]@)
}

/// A text that may be missing, as a mathematical value.
pub open spec fn maybe_text(v: Option<String>) -> Option<Seq<char>> {
    match v {
        Some(s) => Some(s@),
        None => None,
    }
}

/// The text that opens a group.
pub open spec fn open_text(d: Delimiter) -> Seq<char> {
    match d {
        Delimiter::Parenthesis => seq!['('],
        Delimiter::Brace => seq!['{'],
        Delimiter::Bracket => seq!['['],
        Delimiter::Invisible => Seq::empty(),
    }
}

/// The text that closes a group.
pub open spec fn close_text(d: Delimiter) -> Seq<char> {
    match d {
        Delimiter::Parenthesis => seq![')'],
        Delimiter::Brace => seq!['}'],
        Delimiter::Bracket => seq![']'],
        Delimiter::Invisible => Seq::empty(),
    }
}

/// What stands between token `i` of a list and the one before it: nothing
/// at the start and after a punctuation character that is joined to its
/// successor, one space elsewhere.
pub open spec fn gap(ts: Seq<TokenView>, i: int) -> Seq<char> {
    if i <= 0 || i > ts.len() {
        Seq::empty()
    } else {
        match ts[i - 1] {
            TokenView::Punct(_, true) => Seq::empty(),
            _ => seq![' '],
        }
    }
}

/// The source text of one token tree.
pub open spec fn token_text(t: TokenView) -> Seq<char>
    decreases t, 0nat,
{
    match t {
        TokenView::Ident(s) => s,
        TokenView::Literal(s) => s,
        TokenView::Punct(c, _) => seq![c],
        TokenView::Group(d, inner) => open_text(d) + list_text(inner, inner.len()) + close_text(
            d,
        ),
    }
}

/// The source text of the first `n` tokens of a list.
pub open spec fn list_text(ts: Seq<TokenView>, n: nat) -> Seq<char>
    decreases ts, n,
{
    if n == 0 || n > ts.len() {
        Seq::empty()
    } else {
        list_text(ts, (n - 1) as nat) + gap(ts, n - 1) + token_text(ts[n - 1])
    }
}

/// The source text of a whole list of tokens.
pub open spec fn text_of(ts: Seq<TokenView>) -> Seq<char> {
    list_text(ts, ts.len())
}

fn write_delimiter(d: Delimiter, opening: bool, out: &mut String)
    ensures
        final(out)@ == old(out)@ + (if opening {
            open_text(d)
        } else {
            close_text(d)
        }),
{
    match d {
        Delimiter::Parenthesis => out.push(if opening { '(' } else { ')' }),
        Delimiter::Brace => out.push(if opening { '{' } else { '}' }),
        Delimiter::Bracket => out.push(if opening { '[' } else { ']' }),
        Delimiter::Invisible => {},
    }
}

fn write_token(t: &Token, out: &mut String)
    ensures
        final(out)@ == old(out)@ + token_text(t@),
    decreases t, 0nat,
{
    match t {
        Token::Ident(s) => out.append(s.as_str()),
        Token::Literal(s) => out.append(s.as_str()),
        Token::Punct(c, _) => {
            out.push(*c);
        },
        Token::Group(d, inner) => {
            write_delimiter(*d, true, out);
            write_list(inner, 0, inner.len(), out);
            write_delimiter(*d, false, out);
            assert(views(inner@).subrange(0, inner.len() as int) =~= views(inner@));
        },
    }
}

fn write_list(tokens: &Vec<Token>, from: usize, to: usize, out: &mut String)
    requires
        from <= to <= tokens.len(),
    ensures
        final(out)@ == old(out)@ + text_of(views(tokens@).subrange(from as int, to as int)),
    decreases tokens, 1nat,
{
    let ghost ts = views(tokens@).subrange(from as int, to as int);
    let mut i: usize = from;
    while i < to
        invariant
            from <= i <= to <= tokens.len(),
            ts == views(tokens@).subrange(from as int, to as int),
            out@ == old(out)@ + list_text(ts, (i - from) as nat),
        decreases to - i,
    {
        if i > from {
            match &tokens[i - 1] {
                Token::Punct(_, true) => {},
                _ => {
                    out.push(' ');
                },
            }
        }
        write_token(&tokens[i], out);
        i += 1;
    }
}

/// The source text of the tokens from index `from` up to, not including,
/// `to`: the tokens in order, groups in their brackets, one space between
/// neighbours but after a punctuation character joined to the next.
pub fn render_range(tokens: &Vec<Token>, from: usize, to: usize) -> (r: String)
    requires
        from <= to <= tokens.len(),
    ensures
        r@ == text_of(views(tokens@).subrange(from as int, to as int)),
{
    let mut out = String::new();
    write_list(tokens, from, to, &mut out);
    out
}

/// The source text of a list of tokens.
pub fn render(tokens: &Vec<Token>) -> (r: String)
    ensures
        r@ == text_of(views(tokens@)),
{
    assert(views(tokens@).subrange(0, tokens.len() as int) =~= views(tokens@));
    render_range(tokens, 0, tokens.len())
}

/// A run of tokens as it stands alone: with the spacing of its last
/// token cleared, because what followed it is not part of it.
pub open spec fn settled(ts: Seq<TokenView>) -> Seq<TokenView> {
    if ts.len() > 0 && ts.last() matches TokenView::Punct(_, true) {
        ts.update(ts.len() - 1, TokenView::Punct(ts.last()->Punct_0, false))
    } else {
        ts
    }
}

/// The text of the first `n` tokens depends on those tokens alone.
pub proof fn lemma_list_text_prefix(a: Seq<TokenView>, b: Seq<TokenView>, n: nat)
    requires
        n <= a.len(),
        n <= b.len(),
        forall|k: int| 0 <= k < n ==> a[k] == b[k],
    ensures
        list_text(a, n) == list_text(b, n),
    decreases n,
{
    if n > 0 {
        lemma_list_text_prefix(a, b, (n - 1) as nat);
    }
}

/// A run of tokens has the same text whether or not it is settled.
pub proof fn lemma_settled_text(ts: Seq<TokenView>)
    ensures
        text_of(settled(ts)) == text_of(ts),
{
    let s = settled(ts);
    if ts.len() > 0 {
        let n = ts.len() as int;
        lemma_list_text_prefix(s, ts, (n - 1) as nat);
        assert(token_text(s[n - 1]) == token_text(ts[n - 1]));
    }
}

/// A copy of the tokens from index `from` up to, not including, `to`,
/// settled.
pub fn copy_settled(tokens: &Vec<Token>, from: usize, to: usize) -> (r: Vec<Token>)
    requires
        from <= to <= tokens.len(),
    ensures
        views(r@) == settled(views(tokens@).subrange(from as int, to as int)),
        r.len() == to - from,
{
    let mut out = copy_range(tokens, from, to);
    let n = out.len();
    if n > 0 {
        let last = match &out[n - 1] {
            Token::Punct(c, true) => Some(*c),
            _ => None,
        };
        match last {
            Some(c) => {
                out.set(n - 1, Token::Punct(c, false));
            },
            None => {},
        }
    }
    out
}

/// Lexes source text into token trees.
///
/// The work is the lexer's: the result is what it makes of the text, and
/// the error is `Lexical` exactly where it rejects the text.
pub fn lex(text: &str) -> (r: Result<Vec<Token>, Error>)
    ensures
        match r {
            Ok(v) => lexed(text@) == Some(views(v@)),
            Err(e) => lexed(text@) is None && e@ == (ErrorView::Grammar {
                kind: GrammarKind::Lexical,
                place: nowhere(),
            }),
        },
{
    match lex_text(text) {
        Some(v) => Ok(v),
        None => Err(Error::Grammar { kind: GrammarKind::Lexical, place: Place::new() }),
    }
}

} // verus!
