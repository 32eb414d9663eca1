//! The questions that only a parser of the host language can answer,
//! asked of `proc_macro2` and `syn`, and the one that needs the Unicode
//! tables of the standard library.
//!
//! Nothing in this file is proved. Each function hands text to the outside
//! code and its contract names what came back; the rest of the library is
//! verified against those names.
//!
//! Inside a compiler session `proc_macro2` hands text to the compiler's
//! lexer and outside of one it uses its own. Every function here that
//! has text lexed forces `proc_macro2`'s own lexer for the call, so that
//! what it answers depends on the text and on nothing else. The switch
//! is one flag for the whole process: for the length of the call every
//! other user of `proc_macro2` in the process gets its own lexer too,
//! and afterwards the choice is detected anew, not put back to what it
//! was before.

use crate::optional::{TypeArg, TypeSegment, TypeSegmentView, segment_views};
use crate::token::{Delimiter, Token, TokenView, views};
use proc_macro2::{Spacing, TokenTree};
use quote::ToTokens;
use vstd::prelude::*;

verus! {

/// `proc_macro2::TokenStream`, of which nothing is known here: it is
/// handed from the lexer to the conversion and no further.
#[verifier::external_type_specification]
#[verifier::external_body]
pub struct ExTokenStream(proc_macro2::TokenStream);

/// The token trees that `proc_macro2` lexes a text into, if it lexes.
pub uninterp spec fn lexed(text: Seq<char>) -> Option<Seq<TokenView>>;

/// Whether `syn` parses the whole text as one path.
pub uninterp spec fn is_path_text(text: Seq<char>) -> bool;

/// Whether `syn` parses the whole text as one expression.
pub uninterp spec fn is_expr_text(text: Seq<char>) -> bool;

/// Whether `syn` parses the whole text as one literal.
pub uninterp spec fn is_lit_text(text: Seq<char>) -> bool;

/// Whether `syn` parses the whole text as one identifier that is no
/// keyword.
pub uninterp spec fn is_ident_text(text: Seq<char>) -> bool;

/// The value of the string literal that the text is, where `syn` parses
/// the whole text as one string literal.
pub uninterp spec fn string_value(text: Seq<char>) -> Option<Seq<char>>;

/// Converts the token trees of a `proc_macro2::TokenStream` one for one:
/// `Group::delimiter` and `Group::stream`, `Ident::to_string`,
/// `Punct::as_char` and `Punct::spacing`, `Literal::to_string`. Nothing is
/// claimed of the result here; `lex_text` names it.
#[verifier::external_body]
fn trees_of(stream: proc_macro2::TokenStream) -> Vec<Token> {
    stream.into_iter().map(|tree| match tree {
        TokenTree::Ident(i) => Token::Ident(i.to_string()),
        TokenTree::Literal(l) => Token::Literal(l.to_string()),
        TokenTree::Punct(p) => Token::Punct(p.as_char(), matches!(p.spacing(), Spacing::Joint)),
        TokenTree::Group(g) => Token::Group(match g.delimiter() {
            proc_macro2::Delimiter::Parenthesis => Delimiter::Parenthesis,
            proc_macro2::Delimiter::Brace => Delimiter::Brace,
            proc_macro2::Delimiter::Bracket => Delimiter::Bracket,
            proc_macro2::Delimiter::None => Delimiter::Invisible,
        }, trees_of(g.stream())),
    }).collect()
}

/// `<proc_macro2::TokenStream as FromStr>::from_str`, its token trees
/// converted one for one. The contract claims only that the outcome is a
/// function of the text, named `lexed`: `None` where the lexer rejects
/// the text.
#[verifier::external_body]
pub(crate) fn lex_text(text: &str) -> (r: Option<Vec<Token>>)
    ensures
        r matches Some(v) ==> lexed(text@) == Some(views(v@)),
        r is None ==> lexed(text@) is None,
{
    proc_macro2::fallback::force();
    let found = match text.parse::<proc_macro2::TokenStream>() {
        Ok(stream) => Some(trees_of(stream)),
        Err(_) => None,
    };
    proc_macro2::fallback::unforce();
    found
}

/// `syn::parse_str::<syn::Path>`: whether the whole text parses as a path.
/// The contract names the answer `is_path_text`.
#[verifier::external_body]
pub(crate) fn parses_as_path(text: &str) -> (r: bool)
    ensures
        r == is_path_text(text@),
{
    proc_macro2::fallback::force();
    let found = syn::parse_str::<syn::Path>(text).is_ok();
    proc_macro2::fallback::unforce();
    found
}

/// `syn::parse_str::<syn::Expr>`: whether the whole text parses as an
/// expression. The contract names the answer `is_expr_text`.
#[verifier::external_body]
pub(crate) fn parses_as_expr(text: &str) -> (r: bool)
    ensures
        r == is_expr_text(text@),
{
    proc_macro2::fallback::force();
    let found = syn::parse_str::<syn::Expr>(text).is_ok();
    proc_macro2::fallback::unforce();
    found
}

/// `syn::parse_str::<syn::Lit>`: whether the whole text parses as a
/// literal. The contract names the answer `is_lit_text`.
#[verifier::external_body]
pub(crate) fn parses_as_lit(text: &str) -> (r: bool)
    ensures
        r == is_lit_text(text@),
{
    proc_macro2::fallback::force();
    let found = syn::parse_str::<syn::Lit>(text).is_ok();
    proc_macro2::fallback::unforce();
    found
}

/// `syn::parse_str::<syn::Ident>`: whether the whole text parses as an
/// identifier, which `syn` refuses for keywords. The contract names the
/// answer `is_ident_text`.
#[verifier::external_body]
pub(crate) fn parses_as_ident(text: &str) -> (r: bool)
    ensures
        r == is_ident_text(text@),
{
    proc_macro2::fallback::force();
    let found = syn::parse_str::<syn::Ident>(text).is_ok();
    proc_macro2::fallback::unforce();
    found
}

/// `syn::parse_str::<syn::LitStr>` and `syn::LitStr::value`: the value of
/// the string literal that the whole text is, `None` where it is none.
/// The contract names the answer `string_value`.
#[verifier::external_body]
pub(crate) fn string_literal_value(text: &str) -> (r: Option<String>)
    ensures
        r matches Some(s) ==> string_value(text@) == Some(s@),
        r is None ==> string_value(text@) is None,
{
    proc_macro2::fallback::force();
    let found = match syn::parse_str::<syn::LitStr>(text) {
        Ok(lit) => Some(lit.value()),
        Err(_) => None,
    };
    proc_macro2::fallback::unforce();
    found
}

/// The segments of the path that the whole text is, where `syn` parses
/// it as a type that is a path.
pub uninterp spec fn type_path_of(text: Seq<char>) -> Option<Seq<TypeSegmentView>>;

/// `syn::parse_str::<syn::Type>`, and of a `Type::Path` the segments of
/// its path, converted one for one: the `ident` of each as text, and its
/// arguments where they are `PathArguments::AngleBracketed`, each
/// `GenericArgument::Type` written out by `to_token_stream` and every
/// other argument marked as no type. The contract names the answer
/// `type_path_of`; what in a path makes an optional wrapper is decided
/// by the caller.
#[verifier::external_body]
pub(crate) fn type_path(text: &str) -> (r: Option<Vec<TypeSegment>>)
    ensures
        r matches Some(v) ==> type_path_of(text@) == Some(segment_views(v@)),
        r is None ==> type_path_of(text@) is None,
{
    proc_macro2::fallback::force();
    let found = match syn::parse_str::<syn::Type>(text) {
        Ok(syn::Type::Path(t)) => Some(t.path.segments.iter().map(|s| TypeSegment {
            name: s.ident.to_string(),
            angle: match &s.arguments {
                syn::PathArguments::AngleBracketed(a) => Some(a.args.iter().map(|g| match g {
                    syn::GenericArgument::Type(t) => TypeArg::Type(t.to_token_stream().to_string()),
                    _ => TypeArg::Other }).collect()),
                _ => None },
        }).collect()),
        _ => None };
    proc_macro2::fallback::unforce();
    found
}

/// A text in upper case, as the standard library's Unicode tables have
/// it.
pub uninterp spec fn uppercased(text: Seq<char>) -> Seq<char>;

/// `str::to_uppercase`. The contract names the result `uppercased`.
#[verifier::external_body]
pub(crate) fn to_uppercase(text: &str) -> (r: String)
    ensures
        r@ == uppercased(text@),
{
    text.to_uppercase()
}

/// `String::push`: the text afterwards is the text before with the
/// character appended.
pub assume_specification[ String::push ](s: &mut String, c: char)
    ensures
        final(s)@ == old(s)@.push(c),
;

} // verus!
