//! The plan of how a record is displayed.
//!
//! The arguments of `display` on the record choose among a format
//! pattern of the author's own, the styles `debug`, `compact`,
//! `keyvalue`, `map` and `json`, and the default style; `pretty` puts
//! the members on lines of their own, `color` paints the parts, and
//! `alias` renames the record. On a member, `skip` leaves it out and
//! `alias` renames it.

use crate::arg::{Arg, ArgView, arg_views, path_of};
use crate::attr::{Attrs, get_spec, has_key, index_of_key, parse_attrs_spec};
use crate::error::{Error, ErrorView, ShapeKind, on_member};
use crate::field::{
    Field, FieldName, FieldNameView, FieldView, display_name_spec, field_views, fields_spec,
    find_literal, find_string, literal_string, literal_text, literal_under, name_text,
    parse_fields, position_of_key, string_under,
};
use crate::layout::{
    Entry, EntryView, FmtArg, FmtArgView, Layout, emit_plain, emit_themed, entry_views,
    fmt_arg_views, lay_out, plain_args, plain_fmt, segments_of, themed_args, themed_fmt,
};
use crate::params::{Fields, Generics, GenericsView, StructParams};
use crate::themes::{get, palette_of};
use crate::token::{Token, TokenView, clone_tokens, maybe_text, text_views, views};
use vstd::prelude::*;
use vstd::string::*;

verus! {

/// One argument of a format pattern of the author's own.
#[derive(Debug, PartialEq)]
pub enum CustomArg {
    /// An expression, as written.
    Expr(Vec<Token>),
    /// The value of a member.
    Member(FieldName),
}

/// An argument of a pattern as a mathematical value.
pub enum CustomArgView {
    Expr(Seq<TokenView>),
    Member(FieldNameView),
}

impl View for CustomArg {
    type V = CustomArgView;

    open spec fn view(&self) -> CustomArgView {
        match self {
            CustomArg::Expr(t) => CustomArgView::Expr(views(t@)),
            CustomArg::Member(f) => CustomArgView::Member(f@),
        }
    }
}

/// The views of the arguments of a pattern, one for one.
pub open spec fn custom_arg_views(args: Seq<CustomArg>) -> Seq<CustomArgView> {
    Seq::new(args.len(), |i: int| args[i]@)
}

/// What the display of a record does.
#[derive(Debug, PartialEq)]
pub enum Body {
    /// Writes a format string with its arguments.
    Write { fmt: String, args: Vec<FmtArg> },
    /// Shows the record as the standard debug form of a record or
    /// tuple does: the name, then each member in debug form, with its
    /// label where `named`.
    Debug { name: String, named: bool, entries: Vec<Entry> },
    /// Shows the record as JSON: an object of the members by label
    /// where `named`, else an array of them.
    Json { named: bool, pretty: bool, entries: Vec<Entry> },
    /// Writes the author's pattern. The members in `binds` are in scope
    /// by name; `values` are the pattern's arguments.
    Custom { pattern: Vec<Token>, binds: Vec<String>, values: Vec<CustomArg> },
}

/// A body as a mathematical value.
pub enum BodyView {
    Write { fmt: Seq<char>, args: Seq<FmtArgView> },
    Debug { name: Seq<char>, named: bool, entries: Seq<EntryView> },
    Json { named: bool, pretty: bool, entries: Seq<EntryView> },
    Custom { pattern: Seq<TokenView>, binds: Seq<Seq<char>>, values: Seq<CustomArgView> },
}

impl View for Body {
    type V = BodyView;

    open spec fn view(&self) -> BodyView {
        match self {
            Body::Write { fmt, args } => BodyView::Write { fmt: fmt@, args: fmt_arg_views(args@) },
            Body::Debug { name, named, entries } => BodyView::Debug {
                name: name@,
                named: *named,
                entries: entry_views(entries@),
            },
            Body::Json { named, pretty, entries } => BodyView::Json {
                named: *named,
                pretty: *pretty,
                entries: entry_views(entries@),
            },
            Body::Custom { pattern, binds, values } => BodyView::Custom {
                pattern: views(pattern@),
                binds: text_views(binds@),
                values: custom_arg_views(values@),
            },
        }
    }
}

/// What is generated: the display of a record.
#[derive(Debug, PartialEq)]
pub struct DisplayPlan {
    pub target: String,
    pub generics: Generics,
    pub body: Body,
    /// Whether the body paints its parts.
    pub colored: bool,
}

/// A plan as a mathematical value.
pub struct DisplayPlanView {
    pub target: Seq<char>,
    pub generics: GenericsView,
    pub body: BodyView,
    pub colored: bool,
}

impl View for DisplayPlan {
    type V = DisplayPlanView;

    open spec fn view(&self) -> DisplayPlanView {
        DisplayPlanView {
            target: self.target@,
            generics: self.generics@,
            body: self.body@,
            colored: self.colored,
        }
    }
}

/// Whether a name is that of a style; `json` is one only where it is
/// switched on.
pub open spec fn is_style(name: Seq<char>, json: bool) -> bool {
    name == "debug"@ || name == "compact"@ || name == "keyvalue"@ || name == "map"@ || (json
        && name == "json"@)
}

/// The style that an argument names, if its path is the name of one.
pub open spec fn style_of(a: ArgView, json: bool) -> Option<Seq<char>> {
    let p = path_of(a);
    if p.len() == 1 && p[0] is Ident && is_style(p[0]->Ident_0, json) {
        Some(p[0]->Ident_0)
    } else {
        None
    }
}

/// The styles that the first `n` arguments name, in order.
pub open spec fn styles(args: Seq<ArgView>, json: bool, n: nat) -> Seq<Seq<char>>
    decreases n,
{
    if n == 0 || n > args.len() {
        Seq::empty()
    } else {
        let before = styles(args, json, (n - 1) as nat);
        match style_of(args[n - 1], json) {
            Some(s) => before.push(s),
            None => before,
        }
    }
}

/// The theme that the arguments ask for: none where colours are
/// switched off or `color` is not among them; else the string that
/// `color` is given, or the empty name where it is given none.
pub open spec fn theme_of(args: Seq<ArgView>, color: bool) -> Option<Seq<char>> {
    let k = index_of_key(args, "color"@, 0);
    if !color || k < 0 || k >= args.len() {
        None
    } else {
        match args[k] {
            ArgView::Literal(_, lit) => match literal_string(lit) {
                Some(s) => Some(s),
                None => Some(Seq::empty()),
            },
            _ => Some(Seq::empty()),
        }
    }
}

/// The expressions among the first `n` arguments, in order.
pub open spec fn exprs_of(args: Seq<ArgView>, n: nat) -> Seq<Seq<TokenView>>
    decreases n,
{
    if n == 0 || n > args.len() {
        Seq::empty()
    } else {
        let before = exprs_of(args, (n - 1) as nat);
        match args[n - 1] {
            ArgView::Expr(_, e) => before.push(e),
            _ => before,
        }
    }
}

/// The members that are shown among the first `n`: those whose merged
/// arguments of `display` do not have `skip`. A conflict among the
/// arguments of a member is the error.
pub open spec fn visible_spec(fields: Seq<FieldView>, n: nat) -> Result<Seq<FieldView>, ErrorView>
    decreases n,
{
    if n == 0 || n > fields.len() {
        Ok(Seq::empty())
    } else {
        match visible_spec(fields, (n - 1) as nat) {
            Err(e) => Err(e),
            Ok(done) => match get_spec(fields[n - 1].attrs, "display"@) {
                Err(e) => Err(on_member(e, (n - 1) as nat)),
                Ok(a) => if has_key(a, "skip"@) {
                    Ok(done)
                } else {
                    Ok(done.push(fields[n - 1]))
                },
            },
        }
    }
}

/// Once looking for the shown members has failed, it has failed for
/// good.
pub proof fn lemma_visible_error(fields: Seq<FieldView>, n: nat, m: nat)
    requires
        1 <= n <= m <= fields.len(),
        visible_spec(fields, n) is Err,
    ensures
        visible_spec(fields, m) == visible_spec(fields, n),
    decreases m - n,
{
    if n < m {
        lemma_visible_error(fields, n, (m - 1) as nat);
    }
}

/// The label of a member: its alias, else its name or position.
pub open spec fn label_of(f: FieldView) -> Seq<char> {
    match display_name_spec(f) {
        Ok(s) => s,
        Err(_) => name_text(f.name),
    }
}

/// The entries of the shown members, one for one.
pub open spec fn entries_of(fields: Seq<FieldView>) -> Seq<EntryView> {
    Seq::new(fields.len(), |i: int| EntryView { label: label_of(fields[i]), field: fields[i].name })
}

/// The names of those of the first `n` entries that are addressed by
/// name.
pub open spec fn ident_names(entries: Seq<EntryView>, n: nat) -> Seq<Seq<char>>
    decreases n,
{
    if n == 0 || n > entries.len() {
        Seq::empty()
    } else {
        let before = ident_names(entries, (n - 1) as nat);
        match entries[n - 1].field {
            FieldNameView::Ident(s) => before.push(s),
            _ => before,
        }
    }
}

/// What is written for a layout: in the colours of the theme where one
/// is asked for, else plainly.
pub open spec fn written(
    layout: Layout,
    name: Seq<char>,
    entries: Seq<EntryView>,
    pretty: bool,
    debug: bool,
    theme: Option<Seq<char>>,
) -> BodyView {
    let segments = segments_of(layout, name, entries, pretty, debug);
    match theme {
        Some(t) => BodyView::Write {
            fmt: themed_fmt(segments, segments.len()),
            args: themed_args(segments, palette_of(t), segments.len()),
        },
        None => BodyView::Write {
            fmt: plain_fmt(segments, segments.len()),
            args: plain_args(segments, segments.len()),
        },
    }
}

/// The layout with the record's name: in braces with labels for members
/// with names, in round brackets for members by position.
pub open spec fn named_layout(named: bool) -> Layout {
    if named {
        Layout::Record
    } else {
        Layout::Tuple
    }
}

/// The default style.
pub open spec fn default_body(
    entries: Seq<EntryView>,
    named: bool,
    name: Seq<char>,
    pretty: bool,
    theme: Option<Seq<char>>,
) -> BodyView {
    written(named_layout(named), name, entries, pretty, false, theme)
}

/// The style `debug`: the standard debug form where neither `pretty` nor
/// a theme is asked for, else the default layout with every member in
/// debug form.
pub open spec fn debug_body(
    entries: Seq<EntryView>,
    named: bool,
    name: Seq<char>,
    pretty: bool,
    theme: Option<Seq<char>>,
) -> BodyView {
    if theme is None && !pretty {
        BodyView::Debug { name, named, entries }
    } else {
        written(named_layout(named), name, entries, pretty, true, theme)
    }
}

/// The style `compact`: the values with one space between them.
pub open spec fn compact_body(entries: Seq<EntryView>) -> BodyView {
    written(Layout::Compact, Seq::empty(), entries, false, false, None)
}

/// The style `keyvalue`: `label=value`, with a space or, where
/// `pretty`, a line break between them.
pub open spec fn keyvalue_body(entries: Seq<EntryView>, pretty: bool, theme: Option<Seq<char>>)
    -> BodyView {
    written(Layout::KeyValue, Seq::empty(), entries, pretty, false, theme)
}

/// The style `map`: the default layout of members with names, without
/// the record's name.
pub open spec fn map_body(entries: Seq<EntryView>, pretty: bool, theme: Option<Seq<char>>)
    -> BodyView {
    written(Layout::Mapping, Seq::empty(), entries, pretty, false, theme)
}

/// The style `json`.
pub open spec fn json_body(entries: Seq<EntryView>, named: bool, pretty: bool) -> BodyView {
    BodyView::Json { named, pretty, entries }
}

/// Every name among the styles that arguments name is the name of a
/// style.
pub proof fn lemma_styles_are_styles(args: Seq<ArgView>, json: bool, n: nat)
    requires
        n <= args.len(),
    ensures
        forall|k: int|
            0 <= k < styles(args, json, n).len() ==> is_style(
                #[trigger] styles(args, json, n)[k],
                json,
            ),
    decreases n,
{
    if n > 0 {
        lemma_styles_are_styles(args, json, (n - 1) as nat);
        let before = styles(args, json, (n - 1) as nat);
        assert forall|k: int| 0 <= k < styles(args, json, n).len() implies is_style(
            #[trigger] styles(args, json, n)[k],
            json,
        ) by {
            if k < before.len() {
                assert(styles(args, json, n)[k] == before[k]);
            }
        }
    }
}

/// The body of a style by its name, for the name of a style.
pub open spec fn style_body(
    style: Seq<char>,
    entries: Seq<EntryView>,
    named: bool,
    name: Seq<char>,
    pretty: bool,
    theme: Option<Seq<char>>,
) -> BodyView {
    if style == "debug"@ {
        debug_body(entries, named, name, pretty, theme)
    } else if style == "compact"@ {
        compact_body(entries)
    } else if style == "keyvalue"@ {
        keyvalue_body(entries, pretty, theme)
    } else if style == "map"@ {
        map_body(entries, pretty, theme)
    } else {
        json_body(entries, named, pretty)
    }
}

/// The body of a pattern of the author's own. For members with names
/// the members are in scope by name and the arguments are the
/// expressions given; for members by position the arguments are the
/// expressions, or the members in order where none is given.
pub open spec fn custom_body(
    entries: Seq<EntryView>,
    named: bool,
    pattern: Seq<TokenView>,
    exprs: Seq<Seq<TokenView>>,
) -> BodyView {
    BodyView::Custom {
        pattern,
        binds: if named {
            ident_names(entries, entries.len())
        } else {
            Seq::empty()
        },
        values: if !named && exprs.len() == 0 {
            Seq::new(entries.len(), |i: int| CustomArgView::Member(entries[i].field))
        } else {
            Seq::new(exprs.len(), |i: int| CustomArgView::Expr(exprs[i]))
        },
    }
}

/// The body of the display, chosen by the record's arguments `d` of
/// `display`: the bare name for a record without shown members; else
/// the author's pattern where a string stands alone among the
/// arguments; else the style that is named; else the default style.
pub open spec fn body_spec(
    ident: Seq<char>,
    shape: Fields,
    entries: Seq<EntryView>,
    d: Seq<ArgView>,
    json: bool,
    color: bool,
) -> BodyView {
    let name = match string_under(d, "alias"@, 0) {
        Some(s) => s,
        None => ident,
    };
    let named = shape == Fields::Named;
    let pretty = has_key(d, "pretty"@);
    let theme = theme_of(d, color);
    let st = styles(d, json, d.len());
    if shape == Fields::Unit || entries.len() == 0 {
        BodyView::Write { fmt: name, args: Seq::empty() }
    } else if literal_under(d, "__value"@, 0) is Some {
        custom_body(entries, named, literal_under(d, "__value"@, 0)->Some_0, exprs_of(d, d.len()))
    } else if st.len() > 0 {
        style_body(st[0], entries, named, name, pretty, theme)
    } else {
        default_body(entries, named, name, pretty, theme)
    }
}

/// The plan of the display of a record, or why there is none. The
/// errors, in the order in which they are looked for: a malformed
/// annotation on the record; a conflict among the record's arguments of
/// `display`; more than one style; a malformed annotation on a member; a
/// conflict among a member's arguments of `display`.
pub open spec fn display_spec(args: StructParams, json: bool, color: bool) -> Result<
    DisplayPlanView,
    ErrorView,
> {
    match parse_attrs_spec(args.input.attrs@, args.input.attrs.len() as nat) {
        Err(e) => Err(e),
        Ok(attrs) => match get_spec(attrs, "display"@) {
            Err(e) => Err(e),
            Ok(d) => if styles(d, json, d.len()).len() > 1 {
                Err(ErrorView::Shape { shape: ShapeKind::ConflictingStyles })
            } else {
                match fields_spec(args.data.members@, args.data.members.len() as nat) {
                    Err(e) => Err(e),
                    Ok(fs) => match visible_spec(fs, fs.len()) {
                        Err(e) => Err(e),
                        Ok(vis) => Ok(
                            DisplayPlanView {
                                target: args.input.ident@,
                                generics: args.input.generics@,
                                body: body_spec(
                                    args.input.ident@,
                                    args.data.fields,
                                    entries_of(vis),
                                    d,
                                    json,
                                    color,
                                ),
                                colored: theme_of(d, color) is Some,
                            },
                        ),
                    },
                }
            },
        },
    }
}

/// A copy of a list of entries.
fn clone_entries(entries: &Vec<Entry>) -> (r: Vec<Entry>)
    ensures
        entry_views(r@) == entry_views(entries@),
{
    let mut out: Vec<Entry> = Vec::new();
    let mut i: usize = 0;
    while i < entries.len()
        invariant
            i <= entries.len(),
            out.len() == i,
            forall|k: int| 0 <= k < i ==> out[k]@ == entries[k]@,
        decreases entries.len() - i,
    {
        out.push(Entry { label: entries[i].label.clone(), field: entries[i].field.clone() });
        i += 1;
    }
    out
}

/// Writes a layout, in the colours of the theme where one is given.
fn write_layout(
    layout: Layout,
    name: &str,
    entries: &Vec<Entry>,
    pretty: bool,
    debug: bool,
    theme: &Option<String>,
) -> (r: Body)
    ensures
        r@ == written(layout, name@, entry_views(entries@), pretty, debug, maybe_text(*theme)),
{
    let segments = lay_out(layout, name, entries, pretty, debug);
    let (fmt, args) = match theme {
        Some(t) => emit_themed(&segments, get(t.as_str())),
        None => emit_plain(&segments),
    };
    Body::Write { fmt, args }
}

/// The default style: the record's name, then the members, in braces
/// with their labels or in round brackets without.
pub fn render_default(
    entries: &Vec<Entry>,
    named: bool,
    name: &str,
    pretty: bool,
    theme: &Option<String>,
) -> (r: Body)
    ensures
        r@ == default_body(entry_views(entries@), named, name@, pretty, maybe_text(*theme)),
{
    let layout = if named {
        Layout::Record
    } else {
        Layout::Tuple
    };
    write_layout(layout, name, entries, pretty, false, theme)
}

/// The style `debug`.
pub fn render_debug(
    entries: &Vec<Entry>,
    named: bool,
    name: &str,
    pretty: bool,
    theme: &Option<String>,
) -> (r: Body)
    ensures
        r@ == debug_body(entry_views(entries@), named, name@, pretty, maybe_text(*theme)),
{
    if theme.is_none() && !pretty {
        return Body::Debug { name: name.to_owned(), named, entries: clone_entries(entries) };
    }
    let layout = if named {
        Layout::Record
    } else {
        Layout::Tuple
    };
    write_layout(layout, name, entries, pretty, true, theme)
}

/// The style `compact`.
pub fn render_compact(entries: &Vec<Entry>) -> (r: Body)
    ensures
        r@ == compact_body(entry_views(entries@)),
{
    let r = write_layout(Layout::Compact, "", entries, false, false, &None);
    proof {
        reveal_strlit("");
    }
    r
}

/// The style `keyvalue`.
pub fn render_keyvalue(entries: &Vec<Entry>, pretty: bool, theme: &Option<String>) -> (r: Body)
    ensures
        r@ == keyvalue_body(entry_views(entries@), pretty, maybe_text(*theme)),
{
    let r = write_layout(Layout::KeyValue, "", entries, pretty, false, theme);
    proof {
        reveal_strlit("");
    }
    r
}

/// The style `map`.
pub fn render_map(entries: &Vec<Entry>, pretty: bool, theme: &Option<String>) -> (r: Body)
    ensures
        r@ == map_body(entry_views(entries@), pretty, maybe_text(*theme)),
{
    let r = write_layout(Layout::Mapping, "", entries, pretty, false, theme);
    proof {
        reveal_strlit("");
    }
    r
}

/// The style `json`.
pub fn render_json(entries: &Vec<Entry>, named: bool, pretty: bool) -> (r: Body)
    ensures
        r@ == json_body(entry_views(entries@), named, pretty),
{
    Body::Json { named, pretty, entries: clone_entries(entries) }
}

/// The body of a style by its name, which is one of `debug`,
/// `compact`, `keyvalue`, `map` and `json`.
pub fn render_style(
    style: &str,
    entries: &Vec<Entry>,
    named: bool,
    name: &str,
    pretty: bool,
    theme: &Option<String>,
) -> (r: Body)
    requires
        is_style(style@, true),
    ensures
        r@ == style_body(style@, entry_views(entries@), named, name@, pretty, maybe_text(*theme)),
{
    let style = style.to_owned();
    if style == "debug".to_owned() {
        render_debug(entries, named, name, pretty, theme)
    } else if style == "compact".to_owned() {
        render_compact(entries)
    } else if style == "keyvalue".to_owned() {
        render_keyvalue(entries, pretty, theme)
    } else if style == "map".to_owned() {
        render_map(entries, pretty, theme)
    } else {
        render_json(entries, named, pretty)
    }
}

/// The body of a pattern of the author's own.
pub fn render_custom_fmt(
    entries: &Vec<Entry>,
    named: bool,
    pattern: Vec<Token>,
    exprs: Vec<Vec<Token>>,
) -> (r: Body)
    ensures
        r@ == custom_body(
            entry_views(entries@),
            named,
            views(pattern@),
            Seq::new(exprs.len() as nat, |i: int| views(exprs[i]@)),
        ),
{
    let ghost es = entry_views(entries@);
    let ghost xs = Seq::new(exprs.len() as nat, |i: int| views(exprs[i]@));
    let mut binds: Vec<String> = Vec::new();
    if named {
        let mut i: usize = 0;
        while i < entries.len()
            invariant
                i <= entries.len(),
                es == entry_views(entries@),
                text_views(binds@) == ident_names(es, i as nat),
            decreases entries.len() - i,
        {
            match &entries[i].field {
                FieldName::Ident(s) => {
                    binds.push(s.clone());
                },
                _ => {},
            }
            i += 1;
        }
    } else {
        assert(text_views(binds@) =~= Seq::empty());
    }
    let mut args: Vec<CustomArg> = Vec::new();
    if !named && exprs.len() == 0 {
        let mut i: usize = 0;
        while i < entries.len()
            invariant
                i <= entries.len(),
                es == entry_views(entries@),
                args.len() == i,
                forall|k: int| 0 <= k < i ==> args[k]@ == CustomArgView::Member(es[k].field),
            decreases entries.len() - i,
        {
            args.push(CustomArg::Member(entries[i].field.clone()));
            i += 1;
        }
        assert(custom_arg_views(args@) =~= Seq::new(
            es.len(),
            |i: int| CustomArgView::Member(es[i].field),
        ));
    } else {
        let mut i: usize = 0;
        while i < exprs.len()
            invariant
                i <= exprs.len(),
                args.len() == i,
                forall|k: int| 0 <= k < i ==> args[k]@ == CustomArgView::Expr(views(exprs[k]@)),
            decreases exprs.len() - i,
        {
            args.push(CustomArg::Expr(clone_tokens(&exprs[i])));
            i += 1;
        }
        assert(custom_arg_views(args@) =~= Seq::new(
            xs.len(),
            |i: int| CustomArgView::Expr(xs[i]),
        ));
    }
    Body::Custom { pattern, binds, values: args }
}

/// Whether a name is that of a style.
fn names_style(name: &String, json: bool) -> (r: bool)
    ensures
        r == is_style(name@, json),
{
    *name == "debug".to_owned() || *name == "compact".to_owned() || *name == "keyvalue".to_owned()
        || *name == "map".to_owned() || (json && *name == "json".to_owned())
}

/// The styles that the arguments name, in order.
fn find_styles(args: &Vec<Arg>, json: bool) -> (r: Vec<String>)
    ensures
        text_views(r@) == styles(arg_views(args@), json, args.len() as nat),
{
    let ghost vs = arg_views(args@);
    let mut out: Vec<String> = Vec::new();
    let mut i: usize = 0;
    while i < args.len()
        invariant
            i <= args.len(),
            vs == arg_views(args@),
            text_views(out@) == styles(vs, json, i as nat),
        decreases args.len() - i,
    {
        let path = args[i].path();
        if path.len() == 1 {
            match &path[0] {
                Token::Ident(s) => {
                    if names_style(s, json) {
                        out.push(s.clone());
                    }
                },
                _ => {},
            }
        }
        i += 1;
    }
    out
}

/// The theme that the arguments ask for.
fn find_theme(args: &Vec<Arg>, color: bool) -> (r: Option<String>)
    ensures
        maybe_text(r) == theme_of(arg_views(args@), color),
{
    if !color {
        return None;
    }
    let k = position_of_key(args, "color");
    if k >= args.len() {
        return None;
    }
    match &args[k] {
        Arg::Literal(_, lit) => match literal_text(lit) {
            Some(s) => Some(s),
            None => Some(String::new()),
        },
        _ => Some(String::new()),
    }
}

/// The expressions among the arguments, in order.
fn find_exprs(args: &Vec<Arg>) -> (r: Vec<Vec<Token>>)
    ensures
        Seq::new(r.len() as nat, |i: int| views(r[i]@)) == exprs_of(
            arg_views(args@),
            args.len() as nat,
        ),
{
    let ghost vs = arg_views(args@);
    let mut out: Vec<Vec<Token>> = Vec::new();
    let mut i: usize = 0;
    while i < args.len()
        invariant
            i <= args.len(),
            vs == arg_views(args@),
            Seq::new(out.len() as nat, |i: int| views(out[i]@)) == exprs_of(vs, i as nat),
        decreases args.len() - i,
    {
        match &args[i] {
            Arg::Expr(_, e) => {
                out.push(clone_tokens(e));
            },
            _ => {},
        }
        i += 1;
    }
    out
}

/// The entries of the members that are shown.
fn visible_entries(fields: &Vec<Field>) -> (r: Result<Vec<Entry>, Error>)
    ensures
        match r {
            Ok(v) => visible_spec(field_views(fields@), fields.len() as nat) is Ok && entry_views(
                v@,
            ) == entries_of(visible_spec(field_views(fields@), fields.len() as nat)->Ok_0),
            Err(e) => visible_spec(field_views(fields@), fields.len() as nat) == Err::<
                Seq<FieldView>,
                ErrorView,
            >(e@),
        },
{
    let ghost fs = field_views(fields@);
    let mut out: Vec<Entry> = Vec::new();
    let ghost mut vis: Seq<FieldView> = Seq::empty();
    let mut i: usize = 0;
    while i < fields.len()
        invariant
            i <= fields.len(),
            fs == field_views(fields@),
            visible_spec(fs, i as nat) == Ok::<Seq<FieldView>, ErrorView>(vis),
            entry_views(out@) == entries_of(vis),
        decreases fields.len() - i,
    {
        match fields[i].attrs().get("display") {
            Err(e) => {
                proof {
                    lemma_visible_error(fs, (i + 1) as nat, fs.len());
                }
                return Err(e.on_member(i));
            },
            Ok(a) => {
                if position_of_key(&a, "skip") >= a.len() {
                    let label = match fields[i].display_name() {
                        Ok(s) => s,
                        Err(_) => fields[i].name().to_text(),
                    };
                    let e = Entry { label, field: fields[i].name().clone() };
                    proof {
                        let ghost before = entry_views(out@);
                        assert(entry_views(out@.push(e)) =~= before.push(e@));
                        vis = vis.push(fs[i as int]);
                    }
                    out.push(e);
                }
            },
        }
        i += 1;
    }
    Ok(out)
}

/// The generator of the display for records.
#[derive(Clone, Copy, Debug, Default)]
pub struct StructSyntax {
    /// Whether the style `json` is available.
    pub json: bool,
    /// Whether colours are available.
    pub color: bool,
}

impl StructSyntax {
    /// Plans the display of a record.
    ///
    /// The record's merged arguments of `display` choose the body; the
    /// members shown are those not marked `skip`, each under its alias or
    /// its own name. Asking for more than one style is the error
    /// `ConflictingStyles`.
    pub fn render(&self, args: &StructParams) -> (r: Result<DisplayPlan, Error>)
        ensures
            match r {
                Ok(p) => display_spec(*args, self.json, self.color) == Ok::<
                    DisplayPlanView,
                    ErrorView,
                >(p@),
                Err(e) => display_spec(*args, self.json, self.color) == Err::<
                    DisplayPlanView,
                    ErrorView,
                >(e@),
            },
    {
        let attrs = match Attrs::parse(&args.input.attrs) {
            Ok(a) => a,
            Err(e) => {
                return Err(e);
            },
        };
        let d = match attrs.get("display") {
            Ok(d) => d,
            Err(e) => {
                return Err(e);
            },
        };
        let st = find_styles(&d, self.json);
        if st.len() > 1 {
            return Err(Error::Shape { shape: ShapeKind::ConflictingStyles });
        }
        let fields = match parse_fields(&args.data.members) {
            Ok(f) => f,
            Err(e) => {
                return Err(e);
            },
        };
        let entries = match visible_entries(&fields) {
            Ok(v) => v,
            Err(e) => {
                return Err(e);
            },
        };
        let name = match find_string(&d, "alias") {
            Some(s) => s,
            None => args.input.ident.clone(),
        };
        let named = matches!(args.data.fields, Fields::Named);
        let pretty = position_of_key(&d, "pretty") < d.len();
        let theme = find_theme(&d, self.color);
        let colored = theme.is_some();
        let body = if matches!(args.data.fields, Fields::Unit) || entries.len() == 0 {
            let none: Vec<FmtArg> = Vec::new();
            assert(fmt_arg_views(none@) =~= Seq::empty());
            Body::Write { fmt: name, args: none }
        } else {
            match find_literal(&d, "__value") {
                Some(pattern) => render_custom_fmt(&entries, named, pattern, find_exprs(&d)),
                None => if st.len() > 0 {
                    proof {
                        lemma_styles_are_styles(arg_views(d@), self.json, d.len() as nat);
                    }
                    render_style(st[0].as_str(), &entries, named, name.as_str(), pretty, &theme)
                } else {
                    render_default(&entries, named, name.as_str(), pretty, &theme)
                },
            }
        };
        Ok(
            DisplayPlan {
                target: args.input.ident.clone(),
                generics: args.input.generics.clone(),
                body,
                colored,
            },
        )
    }
}

} // verus!
