//! One member of a record, normalised: addressed by name or by position,
//! with its annotations parsed.

use crate::arg::{Arg, ArgView, arg_views, path_is, path_is_ident, path_of, value_of};
use crate::attr::{
    AttrBody, AttrView, Attrs, RawAttribute, get_spec, has_key, index_of_key, lemma_index_of_key,
    parse_attrs_spec,
};
use crate::error::{Error, ErrorView, on_member};
use crate::params::Member;
use crate::syntax::{string_literal_value, string_value};
use crate::token::{Token, TokenView, clone_tokens, views};
use vstd::prelude::*;
use vstd::string::*;

verus! {

/// How a member is addressed: by its position or by its name.
#[derive(Debug, PartialEq, Eq)]
pub enum FieldName {
    Index(usize),
    Ident(String),
}

/// A member's address as a mathematical value.
pub enum FieldNameView {
    Index(nat),
    Ident(Seq<char>),
}

impl View for FieldName {
    type V = FieldNameView;

    open spec fn view(&self) -> FieldNameView {
        match self {
            FieldName::Index(i) => FieldNameView::Index(*i as nat),
            FieldName::Ident(s) => FieldNameView::Ident(s@),
        }
    }
}

/// The decimal digits of a number, the most significant first.
pub open spec fn decimal(n: nat) -> Seq<char>
    decreases n,
{
    if n < 10 {
        seq![digit(n)]
    } else {
        decimal(n / 10).push(digit(n % 10))
    }
}

/// The character of one decimal digit.
pub open spec fn digit(d: nat) -> char {
    if d == 0 {
        '0'
    } else if d == 1 {
        '1'
    } else if d == 2 {
        '2'
    } else if d == 3 {
        '3'
    } else if d == 4 {
        '4'
    } else if d == 5 {
        '5'
    } else if d == 6 {
        '6'
    } else if d == 7 {
        '7'
    } else if d == 8 {
        '8'
    } else {
        '9'
    }
}

/// A member's address as text: the name, or the position in decimal.
pub open spec fn name_text(name: FieldNameView) -> Seq<char> {
    match name {
        FieldNameView::Index(i) => decimal(i),
        FieldNameView::Ident(s) => s,
    }
}

fn digit_char(d: usize) -> (c: char)
    requires
        d < 10,
    ensures
        c == digit(d as nat),
{
    if d == 0 {
        '0'
    } else if d == 1 {
        '1'
    } else if d == 2 {
        '2'
    } else if d == 3 {
        '3'
    } else if d == 4 {
        '4'
    } else if d == 5 {
        '5'
    } else if d == 6 {
        '6'
    } else if d == 7 {
        '7'
    } else if d == 8 {
        '8'
    } else {
        '9'
    }
}

fn write_decimal(n: usize, out: &mut String)
    ensures
        final(out)@ == old(out)@ + decimal(n as nat),
    decreases n,
{
    if n >= 10 {
        write_decimal(n / 10, out);
    }
    out.push(digit_char(n % 10));
}

impl FieldName {
    pub fn is_index(&self) -> (r: bool)
        ensures
            r == (self@ is Index),
    {
        matches!(self, FieldName::Index(_))
    }

    pub fn is_ident(&self) -> (r: bool)
        ensures
            r == (self@ is Ident),
    {
        matches!(self, FieldName::Ident(_))
    }

    /// The address as text: the name, or the position in decimal.
    pub fn to_text(&self) -> (r: String)
        ensures
            r@ == name_text(self@),
    {
        match self {
            FieldName::Ident(s) => s.clone(),
            FieldName::Index(i) => {
                let mut out = String::new();
                write_decimal(*i, &mut out);
                out
            },
        }
    }

    /// Whether two addresses are the same.
    pub fn same(&self, other: &FieldName) -> (r: bool)
        ensures
            r == (self@ == other@),
    {
        match (self, other) {
            (FieldName::Index(a), FieldName::Index(b)) => *a == *b,
            (FieldName::Ident(a), FieldName::Ident(b)) => *a == *b,
            _ => false,
        }
    }
}

impl Clone for FieldName {
    fn clone(&self) -> (r: FieldName)
        ensures
            r@ == self@,
    {
        match self {
            FieldName::Index(i) => FieldName::Index(*i),
            FieldName::Ident(s) => FieldName::Ident(s.clone()),
        }
    }
}

/// The string that a literal is, where it is one token that the host
/// language's parser reads as a string.
pub open spec fn literal_string(lit: Seq<TokenView>) -> Option<Seq<char>> {
    if lit.len() == 1 && lit[0] is Literal {
        string_value(lit[0]->Literal_0)
    } else {
        None
    }
}

/// The string under `key`: the value of the first argument from `from`
/// on that has the key and is a string literal.
pub open spec fn string_under(args: Seq<ArgView>, key: Seq<char>, from: int) -> Option<Seq<char>>
    decreases args.len() - from,
{
    if from < 0 || from >= args.len() {
        None
    } else {
        let here = match args[from] {
            ArgView::Literal(p, lit) => if path_is(p, key) {
                literal_string(lit)
            } else {
                None
            },
            _ => None,
        };
        if here is Some {
            here
        } else {
            string_under(args, key, from + 1)
        }
    }
}

/// The value under `key`: the tokens of the literal, identifier or
/// expression of the first argument from `from` on that has the key;
/// `None` where no argument has it or the first that has it carries no
/// value.
pub open spec fn value_under(args: Seq<ArgView>, key: Seq<char>, from: int) -> Option<
    Seq<TokenView>,
>
    decreases args.len() - from,
{
    if from < 0 || from >= args.len() {
        None
    } else if path_is(path_of(args[from]), key) {
        value_of(args[from])
    } else {
        value_under(args, key, from + 1)
    }
}

/// The string that a literal is, if it is a string.
pub fn literal_text(lit: &Vec<Token>) -> (r: Option<String>)
    ensures
        r matches Some(s) ==> literal_string(views(lit@)) == Some(s@),
        r is None ==> literal_string(views(lit@)) is None,
{
    if lit.len() != 1 {
        return None;
    }
    match &lit[0] {
        Token::Literal(s) => string_literal_value(s.as_str()),
        _ => None,
    }
}

/// The string under `key` in a list of arguments: the value of the
/// first argument that has the key and is a string literal.
pub fn find_string(args: &Vec<Arg>, key: &str) -> (r: Option<String>)
    ensures
        r matches Some(s) ==> string_under(arg_views(args@), key@, 0) == Some(s@),
        r is None ==> string_under(arg_views(args@), key@, 0) is None,
{
    let ghost vs = arg_views(args@);
    let mut i: usize = 0;
    while i < args.len()
        invariant
            i <= args.len(),
            vs == arg_views(args@),
            string_under(vs, key@, 0) == string_under(vs, key@, i as int),
        decreases args.len() - i,
    {
        match &args[i] {
            Arg::Literal(p, lit) => {
                if path_is_ident(p, key) {
                    match literal_text(lit) {
                        Some(s) => {
                            return Some(s);
                        },
                        None => {},
                    }
                }
            },
            _ => {},
        }
        i += 1;
    }
    None
}

/// The value under `key` in a list of arguments: the tokens that the
/// first argument with the key carries.
pub fn find_value(args: &Vec<Arg>, key: &str) -> (r: Option<Vec<Token>>)
    ensures
        r matches Some(v) ==> value_under(arg_views(args@), key@, 0) == Some(views(v@)),
        r is None ==> value_under(arg_views(args@), key@, 0) is None,
{
    let ghost vs = arg_views(args@);
    let mut i: usize = 0;
    while i < args.len()
        invariant
            i <= args.len(),
            vs == arg_views(args@),
            value_under(vs, key@, 0) == value_under(vs, key@, i as int),
        decreases args.len() - i,
    {
        if path_is_ident(args[i].path(), key) {
            return args[i].as_value_tokens();
        }
        i += 1;
    }
    None
}

/// The string literal under `key`: the tokens of the literal of the
/// first argument from `from` on that has the key and is a string
/// literal.
pub open spec fn literal_under(args: Seq<ArgView>, key: Seq<char>, from: int) -> Option<
    Seq<TokenView>,
>
    decreases args.len() - from,
{
    if from < 0 || from >= args.len() {
        None
    } else {
        let here = match args[from] {
            ArgView::Literal(p, lit) => path_is(p, key) && literal_string(lit) is Some,
            _ => false,
        };
        if here {
            Some(args[from]->Literal_1)
        } else {
            literal_under(args, key, from + 1)
        }
    }
}

/// The string literal under `key` in a list of arguments, as tokens.
pub fn find_literal(args: &Vec<Arg>, key: &str) -> (r: Option<Vec<Token>>)
    ensures
        r matches Some(v) ==> literal_under(arg_views(args@), key@, 0) == Some(views(v@)),
        r is None ==> literal_under(arg_views(args@), key@, 0) is None,
{
    let ghost vs = arg_views(args@);
    let mut i: usize = 0;
    while i < args.len()
        invariant
            i <= args.len(),
            vs == arg_views(args@),
            literal_under(vs, key@, 0) == literal_under(vs, key@, i as int),
        decreases args.len() - i,
    {
        match &args[i] {
            Arg::Literal(p, lit) => {
                if path_is_ident(p, key) && literal_text(lit).is_some() {
                    return Some(clone_tokens(lit));
                }
            },
            _ => {},
        }
        i += 1;
    }
    None
}

/// The index of the first argument whose path is the single identifier
/// `key`, or the number of arguments.
pub fn position_of_key(args: &Vec<Arg>, key: &str) -> (n: usize)
    ensures
        n == index_of_key(arg_views(args@), key@, 0),
        n <= args.len(),
        n < args.len() <==> has_key(arg_views(args@), key@),
{
    let ghost vs = arg_views(args@);
    let mut n: usize = 0;
    while n < args.len()
        invariant
            n <= args.len(),
            vs == arg_views(args@),
            forall|k: int| 0 <= k < n ==> !path_is(path_of(#[trigger] vs[k]), key@),
        decreases args.len() - n,
    {
        assert(vs[n as int] == args[n as int]@);
        if path_is_ident(args[n].path(), key) {
            proof {
                lemma_index_of_key(vs, key@, 0, n as int);
            }
            return n;
        }
        n += 1;
    }
    proof {
        lemma_index_of_key(vs, key@, 0, n as int);
    }
    n
}

/// The documentation on a member among its first `n` attributes: the
/// value of every `#[doc = ..]`, in source order.
pub open spec fn docs_of(raws: Seq<RawAttribute>, n: nat) -> Seq<Seq<TokenView>>
    decreases n,
{
    if n == 0 || n > raws.len() {
        Seq::empty()
    } else {
        let before = docs_of(raws, (n - 1) as nat);
        match raws[n - 1].body {
            AttrBody::Value(v) => if path_is(views(raws[n - 1].path@), "doc"@) {
                before.push(views(v@))
            } else {
                before
            },
            _ => before,
        }
    }
}

/// One member of a record, normalised.
#[derive(Debug)]
pub struct Field {
    attrs: Attrs,
    vis: Vec<Token>,
    name: FieldName,
    ty: Vec<Token>,
    docs: Vec<Vec<Token>>,
}

/// A normalised member as a mathematical value.
pub struct FieldView {
    pub attrs: Seq<AttrView>,
    pub vis: Seq<TokenView>,
    pub name: FieldNameView,
    pub ty: Seq<TokenView>,
    pub docs: Seq<Seq<TokenView>>,
}

impl View for Field {
    type V = FieldView;

    closed spec fn view(&self) -> FieldView {
        FieldView {
            attrs: self.attrs@,
            vis: views(self.vis@),
            name: self.name@,
            ty: views(self.ty@),
            docs: Seq::new(self.docs.len() as nat, |i: int| views(self.docs[i]@)),
        }
    }
}

/// The address of the member at position `i`: its name if it has one,
/// else the position.
pub open spec fn address_of(member: Member, i: nat) -> FieldNameView {
    match member.ident {
        Some(s) => FieldNameView::Ident(s@),
        None => FieldNameView::Index(i),
    }
}

/// What normalising the member at position `i` gives; an error is
/// placed on that member.
pub open spec fn field_spec(i: nat, member: Member) -> Result<FieldView, ErrorView> {
    match parse_attrs_spec(member.attrs@, member.attrs.len() as nat) {
        Ok(attrs) => Ok(
            FieldView {
                attrs,
                vis: views(member.vis@),
                name: address_of(member, i),
                ty: views(member.ty@),
                docs: docs_of(member.attrs@, member.attrs.len() as nat),
            },
        ),
        Err(e) => Err(on_member(e, i)),
    }
}

/// The name under which a member is shown: the string under `alias` in
/// the merged arguments of `display`, else the member's own address as
/// text. A conflict among the arguments of `display` is the error.
pub open spec fn display_name_spec(field: FieldView) -> Result<Seq<char>, ErrorView> {
    match get_spec(field.attrs, "display"@) {
        Ok(args) => match string_under(args, "alias"@, 0) {
            Some(s) => Ok(s),
            None => Ok(name_text(field.name)),
        },
        Err(e) => Err(e),
    }
}

impl Field {
    /// Normalises the member at position `i` of a record: parses its
    /// annotations, and addresses it by its name or, where it has none,
    /// by `i`. A malformed annotation is the error.
    pub fn parse(i: usize, member: &Member) -> (r: Result<Field, Error>)
        ensures
            match r {
                Ok(f) => field_spec(i as nat, *member) == Ok::<FieldView, ErrorView>(f@),
                Err(e) => field_spec(i as nat, *member) == Err::<FieldView, ErrorView>(e@),
            },
    {
        let attrs = match Attrs::parse(&member.attrs) {
            Ok(a) => a,
            Err(e) => {
                return Err(e.on_member(i));
            },
        };
        let name = match &member.ident {
            Some(s) => FieldName::Ident(s.clone()),
            None => FieldName::Index(i),
        };
        let mut docs: Vec<Vec<Token>> = Vec::new();
        let mut k: usize = 0;
        while k < member.attrs.len()
            invariant
                k <= member.attrs.len(),
                Seq::new(docs.len() as nat, |j: int| views(docs[j]@)) == docs_of(
                    member.attrs@,
                    k as nat,
                ),
            decreases member.attrs.len() - k,
        {
            match &member.attrs[k].body {
                AttrBody::Value(v) => {
                    if path_is_ident(&member.attrs[k].path, "doc") {
                        docs.push(clone_tokens(v));
                    }
                },
                _ => {},
            }
            k += 1;
        }
        Ok(
            Field {
                attrs,
                vis: clone_tokens(&member.vis),
                name,
                ty: clone_tokens(&member.ty),
                docs,
            },
        )
    }

    pub fn attrs(&self) -> (r: &Attrs)
        ensures
            r@ == self@.attrs,
    {
        &self.attrs
    }

    pub fn vis(&self) -> (r: &Vec<Token>)
        ensures
            views(r@) == self@.vis,
    {
        &self.vis
    }

    pub fn name(&self) -> (r: &FieldName)
        ensures
            r@ == self@.name,
    {
        &self.name
    }

    pub fn ty(&self) -> (r: &Vec<Token>)
        ensures
            views(r@) == self@.ty,
    {
        &self.ty
    }

    /// The documentation on the member: the value of each `#[doc = ..]`.
    pub fn docs(&self) -> (r: &Vec<Vec<Token>>)
        ensures
            r.len() == self@.docs.len(),
            forall|i: int| 0 <= i < r.len() ==> views(r[i]@) == self@.docs[i],
    {
        &self.docs
    }

    /// The name under which the member is shown: its alias, if the
    /// arguments of `display` give one as a string, else its own name or
    /// position as text.
    pub fn display_name(&self) -> (r: Result<String, Error>)
        ensures
            match r {
                Ok(s) => display_name_spec(self@) == Ok::<Seq<char>, ErrorView>(s@),
                Err(e) => display_name_spec(self@) == Err::<Seq<char>, ErrorView>(e@),
            },
    {
        match self.attrs.get("display") {
            Ok(args) => match find_string(&args, "alias") {
                Some(s) => Ok(s),
                None => Ok(self.name.to_text()),
            },
            Err(e) => Err(e),
        }
    }
}

/// The members of a record, normalised: the first `n` of them, or the
/// error of the first that is malformed.
pub open spec fn fields_spec(members: Seq<Member>, n: nat) -> Result<Seq<FieldView>, ErrorView>
    decreases n,
{
    if n == 0 || n > members.len() {
        Ok(Seq::empty())
    } else {
        match fields_spec(members, (n - 1) as nat) {
            Err(e) => Err(e),
            Ok(done) => match field_spec((n - 1) as nat, members[n - 1]) {
                Ok(f) => Ok(done.push(f)),
                Err(e) => Err(e),
            },
        }
    }
}

/// Once normalising the members has failed, it has failed for good.
pub proof fn lemma_fields_error(members: Seq<Member>, n: nat, m: nat)
    requires
        1 <= n <= m <= members.len(),
        fields_spec(members, n) is Err,
    ensures
        fields_spec(members, m) == fields_spec(members, n),
    decreases m - n,
{
    if n < m {
        lemma_fields_error(members, n, (m - 1) as nat);
    }
}

/// The views of a list of normalised members, one for one.
pub open spec fn field_views(fields: Seq<Field>) -> Seq<FieldView> {
    Seq::new(fields.len(), |i: int| fields[i]@)
}

/// Normalises every member of a record, in order. The first malformed
/// annotation is the error.
pub fn parse_fields(members: &Vec<Member>) -> (r: Result<Vec<Field>, Error>)
    ensures
        match r {
            Ok(v) => fields_spec(members@, members.len() as nat) == Ok::<
                Seq<FieldView>,
                ErrorView,
            >(field_views(v@)),
            Err(e) => fields_spec(members@, members.len() as nat) == Err::<
                Seq<FieldView>,
                ErrorView,
            >(e@),
        },
{
    let mut out: Vec<Field> = Vec::new();
    let mut i: usize = 0;
    assert(field_views(out@) =~= Seq::empty());
    while i < members.len()
        invariant
            i <= members.len(),
            fields_spec(members@, i as nat) == Ok::<Seq<FieldView>, ErrorView>(field_views(out@)),
        decreases members.len() - i,
    {
        match Field::parse(i, &members[i]) {
            Ok(f) => {
                assert(field_views(out@.push(f)) =~= field_views(out@).push(f@));
                out.push(f);
            },
            Err(e) => {
                proof {
                    lemma_fields_error(members@, (i + 1) as nat, members.len() as nat);
                }
                return Err(e);
            },
        }
        i += 1;
    }
    Ok(out)
}

} // verus!
