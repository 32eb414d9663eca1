//! How the members of a record are laid out as text, and how a layout
//! becomes a format string with its arguments.

use crate::field::{FieldName, FieldNameView};
use crate::themes::{Palette, Rgb};
use vstd::prelude::*;
use vstd::string::*;

verus! {

/// What a piece of text in a layout is, which decides its colour.
#[derive(Clone, Copy, Debug, PartialEq, Eq, Structural)]
pub enum Role {
    /// The name of the record.
    Name,
    /// The name of a member.
    Field,
    /// Brackets and separators.
    Punct,
}

/// One piece of a layout.
#[derive(Debug, PartialEq)]
pub enum Segment {
    /// Fixed text, coloured by its role where colours are used.
    Text(Role, String),
    /// Fixed text that is never coloured: indentation, and the gaps of
    /// the styles without brackets.
    Gap(String),
    /// The value of a member; `true` where it is shown in debug form.
    Value(FieldName, bool),
}

/// A piece of a layout as a mathematical value.
pub enum SegmentView {
    Text(Role, Seq<char>),
    Gap(Seq<char>),
    Value(FieldNameView, bool),
}

impl View for Segment {
    type V = SegmentView;

    open spec fn view(&self) -> SegmentView {
        match self {
            Segment::Text(r, t) => SegmentView::Text(*r, t@),
            Segment::Gap(t) => SegmentView::Gap(t@),
            Segment::Value(f, d) => SegmentView::Value(f@, *d),
        }
    }
}

/// The views of a list of segments, one for one.
pub open spec fn segment_views(segments: Seq<Segment>) -> Seq<SegmentView> {
    Seq::new(segments.len(), |i: int| segments[i]@)
}

/// A member as it is shown: the label that stands for it, and its
/// address.
#[derive(Debug, PartialEq)]
pub struct Entry {
    pub label: String,
    pub field: FieldName,
}

/// An entry as a mathematical value.
pub struct EntryView {
    pub label: Seq<char>,
    pub field: FieldNameView,
}

impl View for Entry {
    type V = EntryView;

    open spec fn view(&self) -> EntryView {
        EntryView { label: self.label@, field: self.field@ }
    }
}

/// The views of a list of entries, one for one.
pub open spec fn entry_views(entries: Seq<Entry>) -> Seq<EntryView> {
    Seq::new(entries.len(), |i: int| entries[i]@)
}

/// The shapes a layout can have.
#[derive(Clone, Copy, Debug, PartialEq, Eq, Structural)]
pub enum Layout {
    /// `Name { a: 1, b: 2 }`
    Record,
    /// `Name(1, 2)`
    Tuple,
    /// `{ a: 1, b: 2 }`
    Mapping,
    /// `a=1 b=2`
    KeyValue,
    /// `1 2`
    Compact,
}

/// What stands before the members.
pub open spec fn head(layout: Layout, name: Seq<char>, pretty: bool) -> Seq<SegmentView> {
    match layout {
        Layout::Record => seq![
            SegmentView::Text(Role::Name, name),
            SegmentView::Text(
                Role::Punct,
                if pretty {
                    " {\n"@
                } else {
                    " { "@
                },
            ),
        ],
        Layout::Tuple => seq![
            SegmentView::Text(Role::Name, name),
            SegmentView::Text(
                Role::Punct,
                if pretty {
                    "(\n"@
                } else {
                    "("@
                },
            ),
        ],
        Layout::Mapping => seq![
            SegmentView::Text(
                Role::Punct,
                if pretty {
                    "{\n"@
                } else {
                    "{ "@
                },
            ),
        ],
        _ => Seq::empty(),
    }
}

/// What stands after the members.
pub open spec fn tail(layout: Layout, pretty: bool) -> Seq<SegmentView> {
    match layout {
        Layout::Record | Layout::Mapping => seq![
            SegmentView::Text(
                Role::Punct,
                if pretty {
                    "}"@
                } else {
                    " }"@
                },
            ),
        ],
        Layout::Tuple => seq![SegmentView::Text(Role::Punct, ")"@)],
        _ => Seq::empty(),
    }
}

/// Whether the members are on lines of their own, each indented and
/// followed by a comma.
pub open spec fn on_lines(layout: Layout, pretty: bool) -> bool {
    pretty && (layout == Layout::Record || layout == Layout::Tuple || layout == Layout::Mapping)
}

/// What stands before one member: its indentation, and its label where
/// the layout has labels.
pub open spec fn lead(layout: Layout, e: EntryView, pretty: bool) -> Seq<SegmentView> {
    let indent = if on_lines(layout, pretty) {
        seq![SegmentView::Gap("    "@)]
    } else {
        Seq::empty()
    };
    match layout {
        Layout::Record | Layout::Mapping => indent + seq![
            SegmentView::Text(Role::Field, e.label),
            SegmentView::Text(Role::Punct, ": "@),
        ],
        Layout::KeyValue => seq![
            SegmentView::Text(Role::Field, e.label),
            SegmentView::Text(Role::Punct, "="@),
        ],
        _ => indent,
    }
}

/// What stands after one member; `last` tells whether it is the last.
pub open spec fn follow(layout: Layout, pretty: bool, last: bool) -> Seq<SegmentView> {
    match layout {
        Layout::Record | Layout::Tuple | Layout::Mapping => if pretty {
            seq![SegmentView::Text(Role::Punct, ",\n"@)]
        } else if last {
            Seq::empty()
        } else {
            seq![SegmentView::Text(Role::Punct, ", "@)]
        },
        Layout::KeyValue => if last {
            Seq::empty()
        } else {
            seq![
                SegmentView::Gap(
                    if pretty {
                        "\n"@
                    } else {
                        " "@
                    },
                ),
            ]
        },
        Layout::Compact => if last {
            Seq::empty()
        } else {
            seq![SegmentView::Gap(" "@)]
        },
    }
}

/// One member in a layout.
pub open spec fn item(layout: Layout, e: EntryView, pretty: bool, debug: bool, last: bool) -> Seq<
    SegmentView,
> {
    lead(layout, e, pretty) + seq![SegmentView::Value(e.field, debug)] + follow(
        layout,
        pretty,
        last,
    )
}

/// The first `n` members in a layout.
pub open spec fn items(
    layout: Layout,
    entries: Seq<EntryView>,
    pretty: bool,
    debug: bool,
    n: nat,
) -> Seq<SegmentView>
    decreases n,
{
    if n == 0 || n > entries.len() {
        Seq::empty()
    } else {
        items(layout, entries, pretty, debug, (n - 1) as nat) + item(
            layout,
            entries[n - 1],
            pretty,
            debug,
            n == entries.len(),
        )
    }
}

/// A whole layout: what stands before the members, the members, and
/// what stands after them.
pub open spec fn segments_of(
    layout: Layout,
    name: Seq<char>,
    entries: Seq<EntryView>,
    pretty: bool,
    debug: bool,
) -> Seq<SegmentView> {
    head(layout, name, pretty) + items(layout, entries, pretty, debug, entries.len()) + tail(
        layout,
        pretty,
    )
}

fn push_text(out: &mut Vec<Segment>, role: Role, text: &str)
    ensures
        segment_views(final(out)@) == segment_views(old(out)@).push(
            SegmentView::Text(role, text@),
        ),
{
    out.push(Segment::Text(role, text.to_owned()));
}

fn push_gap(out: &mut Vec<Segment>, text: &str)
    ensures
        segment_views(final(out)@) == segment_views(old(out)@).push(SegmentView::Gap(text@)),
{
    out.push(Segment::Gap(text.to_owned()));
}

fn push_value(out: &mut Vec<Segment>, field: &FieldName, debug: bool)
    ensures
        segment_views(final(out)@) == segment_views(old(out)@).push(
            SegmentView::Value(field@, debug),
        ),
{
    out.push(Segment::Value(field.clone(), debug));
}

fn push_head(out: &mut Vec<Segment>, layout: Layout, name: &str, pretty: bool)
    ensures
        segment_views(final(out)@) == segment_views(old(out)@) + head(layout, name@, pretty),
{
    match layout {
        Layout::Record => {
            push_text(out, Role::Name, name);
            push_text(out, Role::Punct, if pretty { " {\n" } else { " { " });
        },
        Layout::Tuple => {
            push_text(out, Role::Name, name);
            push_text(out, Role::Punct, if pretty { "(\n" } else { "(" });
        },
        Layout::Mapping => {
            push_text(out, Role::Punct, if pretty { "{\n" } else { "{ " });
        },
        _ => {},
    }
}

fn push_tail(out: &mut Vec<Segment>, layout: Layout, pretty: bool)
    ensures
        segment_views(final(out)@) == segment_views(old(out)@) + tail(layout, pretty),
{
    match layout {
        Layout::Record | Layout::Mapping => {
            push_text(out, Role::Punct, if pretty { "}" } else { " }" });
        },
        Layout::Tuple => {
            push_text(out, Role::Punct, ")");
        },
        _ => {},
    }
}

fn push_item(
    out: &mut Vec<Segment>,
    layout: Layout,
    e: &Entry,
    pretty: bool,
    debug: bool,
    last: bool,
)
    ensures
        segment_views(final(out)@) == segment_views(old(out)@) + item(
            layout,
            e@,
            pretty,
            debug,
            last,
        ),
{
    let lines = pretty && (layout == Layout::Record || layout == Layout::Tuple || layout
        == Layout::Mapping);
    if lines {
        push_gap(out, "    ");
    }
    match layout {
        Layout::Record | Layout::Mapping => {
            push_text(out, Role::Field, e.label.as_str());
            push_text(out, Role::Punct, ": ");
        },
        Layout::KeyValue => {
            push_text(out, Role::Field, e.label.as_str());
            push_text(out, Role::Punct, "=");
        },
        _ => {},
    }
    push_value(out, &e.field, debug);
    match layout {
        Layout::Record | Layout::Tuple | Layout::Mapping => {
            if pretty {
                push_text(out, Role::Punct, ",\n");
            } else if !last {
                push_text(out, Role::Punct, ", ");
            }
        },
        Layout::KeyValue => {
            if !last {
                push_gap(out, if pretty { "\n" } else { " " });
            }
        },
        Layout::Compact => {
            if !last {
                push_gap(out, " ");
            }
        },
    }
}

/// Lays out the members of a record: what stands before them, each
/// member with its label and separator as the layout has them, and what
/// stands after them.
pub fn lay_out(layout: Layout, name: &str, entries: &Vec<Entry>, pretty: bool, debug: bool) -> (r:
    Vec<Segment>)
    ensures
        segment_views(r@) == segments_of(layout, name@, entry_views(entries@), pretty, debug),
{
    let ghost es = entry_views(entries@);
    let mut out: Vec<Segment> = Vec::new();
    push_head(&mut out, layout, name, pretty);
    let mut i: usize = 0;
    while i < entries.len()
        invariant
            i <= entries.len(),
            es == entry_views(entries@),
            segment_views(out@) == head(layout, name@, pretty) + items(
                layout,
                es,
                pretty,
                debug,
                i as nat,
            ),
        decreases entries.len() - i,
    {
        push_item(&mut out, layout, &entries[i], pretty, debug, i + 1 == entries.len());
        i += 1;
    }
    push_tail(&mut out, layout, pretty);
    out
}

/// A text as a literal part of a format string: every brace doubled.
pub open spec fn escaped(text: Seq<char>, n: nat) -> Seq<char>
    decreases n,
{
    if n == 0 || n > text.len() {
        Seq::empty()
    } else {
        let before = escaped(text, (n - 1) as nat);
        let c = text[n - 1];
        if c == '{' || c == '}' {
            before.push(c).push(c)
        } else {
            before.push(c)
        }
    }
}

/// What is shown in a colour.
#[derive(Debug, PartialEq)]
pub enum Paint {
    /// A fixed text.
    Literal(String),
    /// The value of a member, as it displays.
    Shown(FieldName),
    /// The value of a member, in debug form.
    Debugged(FieldName),
}

/// A painted text as a mathematical value.
pub enum PaintView {
    Literal(Seq<char>),
    Shown(FieldNameView),
    Debugged(FieldNameView),
}

impl View for Paint {
    type V = PaintView;

    open spec fn view(&self) -> PaintView {
        match self {
            Paint::Literal(t) => PaintView::Literal(t@),
            Paint::Shown(f) => PaintView::Shown(f@),
            Paint::Debugged(f) => PaintView::Debugged(f@),
        }
    }
}

/// One argument of a format string.
#[derive(Debug, PartialEq)]
pub enum FmtArg {
    /// The value of a member.
    Member(FieldName),
    /// A text in a colour, bold or not.
    Painted { text: Paint, color: Rgb, bold: bool },
}

/// An argument as a mathematical value.
pub enum FmtArgView {
    Member(FieldNameView),
    Painted { text: PaintView, color: Rgb, bold: bool },
}

impl View for FmtArg {
    type V = FmtArgView;

    open spec fn view(&self) -> FmtArgView {
        match self {
            FmtArg::Member(f) => FmtArgView::Member(f@),
            FmtArg::Painted { text, color, bold } => FmtArgView::Painted {
                text: text@,
                color: *color,
                bold: *bold,
            },
        }
    }
}

/// The views of a list of arguments, one for one.
pub open spec fn fmt_arg_views(args: Seq<FmtArg>) -> Seq<FmtArgView> {
    Seq::new(args.len(), |i: int| args[i]@)
}

/// The part of a plain format string that one segment makes. Brackets
/// and separators are escaped; names stand as they are; a value is a
/// placeholder.
pub open spec fn plain_text(s: SegmentView) -> Seq<char> {
    match s {
        SegmentView::Text(Role::Punct, t) => escaped(t, t.len()),
        SegmentView::Text(_, t) => t,
        SegmentView::Gap(t) => t,
        SegmentView::Value(_, debug) => if debug {
            "{:?}"@
        } else {
            "{}"@
        },
    }
}

/// The plain format string of the first `n` segments.
pub open spec fn plain_fmt(segments: Seq<SegmentView>, n: nat) -> Seq<char>
    decreases n,
{
    if n == 0 || n > segments.len() {
        Seq::empty()
    } else {
        plain_fmt(segments, (n - 1) as nat) + plain_text(segments[n - 1])
    }
}

/// The arguments of the plain format string of the first `n` segments:
/// the members whose values are shown, in order.
pub open spec fn plain_args(segments: Seq<SegmentView>, n: nat) -> Seq<FmtArgView>
    decreases n,
{
    if n == 0 || n > segments.len() {
        Seq::empty()
    } else {
        let before = plain_args(segments, (n - 1) as nat);
        match segments[n - 1] {
            SegmentView::Value(f, _) => before.push(FmtArgView::Member(f)),
            _ => before,
        }
    }
}

/// The colour of a role in a palette.
pub open spec fn colour_of(palette: Palette, role: Role) -> Rgb {
    match role {
        Role::Name => palette.name,
        Role::Field => palette.field,
        Role::Punct => palette.punct,
    }
}

/// The part of a coloured format string that one segment makes: a
/// placeholder, but for a gap, which stands as it is.
pub open spec fn themed_text(s: SegmentView) -> Seq<char> {
    match s {
        SegmentView::Gap(t) => t,
        _ => "{}"@,
    }
}

/// The coloured format string of the first `n` segments.
pub open spec fn themed_fmt(segments: Seq<SegmentView>, n: nat) -> Seq<char>
    decreases n,
{
    if n == 0 || n > segments.len() {
        Seq::empty()
    } else {
        themed_fmt(segments, (n - 1) as nat) + themed_text(segments[n - 1])
    }
}

/// The arguments of the coloured format string of the first `n`
/// segments: each text in the colour of its role, the record's name in
/// bold, and each value in the colour of values.
pub open spec fn themed_args(segments: Seq<SegmentView>, palette: Palette, n: nat) -> Seq<
    FmtArgView,
>
    decreases n,
{
    if n == 0 || n > segments.len() {
        Seq::empty()
    } else {
        let before = themed_args(segments, palette, (n - 1) as nat);
        match segments[n - 1] {
            SegmentView::Text(role, t) => before.push(
                FmtArgView::Painted {
                    text: PaintView::Literal(t),
                    color: colour_of(palette, role),
                    bold: role == Role::Name,
                },
            ),
            SegmentView::Gap(_) => before,
            SegmentView::Value(f, debug) => before.push(
                FmtArgView::Painted {
                    text: if debug {
                        PaintView::Debugged(f)
                    } else {
                        PaintView::Shown(f)
                    },
                    color: palette.value,
                    bold: false,
                },
            ),
        }
    }
}

/// Appends a text with every brace doubled.
fn write_escaped(out: &mut String, text: &str)
    ensures
        final(out)@ == old(out)@ + escaped(text@, text@.len()),
{
    let n = text.unicode_len();
    let mut i: usize = 0;
    while i < n
        invariant
            i <= n == text@.len(),
            out@ == old(out)@ + escaped(text@, i as nat),
        decreases n - i,
    {
        let c = text.get_char(i);
        out.push(c);
        if c == '{' || c == '}' {
            out.push(c);
        }
        i += 1;
    }
}

/// The plain format string of a layout and its arguments.
pub fn emit_plain(segments: &Vec<Segment>) -> (r: (String, Vec<FmtArg>))
    ensures
        r.0@ == plain_fmt(segment_views(segments@), segments.len() as nat),
        fmt_arg_views(r.1@) == plain_args(segment_views(segments@), segments.len() as nat),
{
    let ghost ss = segment_views(segments@);
    let mut fmt = String::new();
    let mut args: Vec<FmtArg> = Vec::new();
    let mut i: usize = 0;
    while i < segments.len()
        invariant
            i <= segments.len(),
            ss == segment_views(segments@),
            fmt@ == plain_fmt(ss, i as nat),
            fmt_arg_views(args@) == plain_args(ss, i as nat),
        decreases segments.len() - i,
    {
        match &segments[i] {
            Segment::Text(role, t) => {
                match role {
                    Role::Punct => write_escaped(&mut fmt, t.as_str()),
                    _ => fmt.append(t.as_str()),
                }
            },
            Segment::Gap(t) => fmt.append(t.as_str()),
            Segment::Value(f, debug) => {
                fmt.append(if *debug { "{:?}" } else { "{}" });
                args.push(FmtArg::Member(f.clone()));
            },
        }
        i += 1;
    }
    (fmt, args)
}

/// The coloured format string of a layout and its arguments.
pub fn emit_themed(segments: &Vec<Segment>, palette: Palette) -> (r: (String, Vec<FmtArg>))
    ensures
        r.0@ == themed_fmt(segment_views(segments@), segments.len() as nat),
        fmt_arg_views(r.1@) == themed_args(
            segment_views(segments@),
            palette,
            segments.len() as nat,
        ),
{
    let ghost ss = segment_views(segments@);
    let mut fmt = String::new();
    let mut args: Vec<FmtArg> = Vec::new();
    let mut i: usize = 0;
    while i < segments.len()
        invariant
            i <= segments.len(),
            ss == segment_views(segments@),
            fmt@ == themed_fmt(ss, i as nat),
            fmt_arg_views(args@) == themed_args(ss, palette, i as nat),
        decreases segments.len() - i,
    {
        match &segments[i] {
            Segment::Text(role, t) => {
                fmt.append("{}");
                let color = match role {
                    Role::Name => palette.name,
                    Role::Field => palette.field,
                    Role::Punct => palette.punct,
                };
                let a = FmtArg::Painted {
                    text: Paint::Literal(t.clone()),
                    color,
                    bold: matches!(role, Role::Name),
                };
                args.push(a);
            },
            Segment::Gap(t) => fmt.append(t.as_str()),
            Segment::Value(f, debug) => {
                fmt.append("{}");
                let text = if *debug {
                    Paint::Debugged(f.clone())
                } else {
                    Paint::Shown(f.clone())
                };
                let a = FmtArg::Painted { text, color: palette.value, bold: false };
                args.push(a);
            },
        }
        i += 1;
    }
    (fmt, args)
}

} // verus!
