//! Markdown for Evee's replies: paragraphs with inline styles, headings,
//! lists, quotes and fenced code, and the styled runs a paragraph is drawn in.
use crate::text::{
    byte_size, chars_of, lemma_encode_append, string_of, string_of_range, trim,
    trim_end_char, trim_end_len, trimmed,
};
use pulldown_cmark::{CodeBlockKind, Event, Options, Parser, Tag, TagEnd};
use std::ops::Range;
use vstd::prelude::*;
use vstd::utf8::{encode_utf8, is_char_boundary};

verus! {

#[derive(Clone, Copy, Debug, PartialEq, Eq, Structural)]
pub enum Style {
    Bold,
    Italic,
    Code,
    Link,
}

/// A paragraph's text with styled byte ranges, which may overlap.
#[derive(Clone, Debug, PartialEq, Eq)]
pub struct Inline {
    pub text: String,
    pub spans: Vec<(Range<usize>, Style)>,
}

impl Inline {
    pub fn new() -> (r: Inline)
        ensures
            r.text@.len() == 0,
            r.spans@.len() == 0,
    {
        Inline { text: String::new(), spans: Vec::new() }
    }
}

/// Whether `p` may split the text: a span end inside the text, on a
/// character boundary.
pub open spec fn cut_point(text: Seq<char>, spans: Seq<(Range<usize>, Style)>, p: usize) -> bool {
    &&& exists|i: int| #![trigger spans[i]] 0 <= i < spans.len() && (spans[i].0.start == p || spans[i].0.end == p)
    &&& p <= encode_utf8(text).len()
    &&& is_char_boundary(encode_utf8(text), p as int)
}

/// Each value is larger than the one before.
pub open spec fn strictly_increasing(s: Seq<usize>) -> bool {
    forall|a: int, b: int| 0 <= a < b < s.len() ==> #[trigger] s[a] < #[trigger] s[b]
}

/// The styles of the spans that cover `[start, end)`, in span order.
pub open spec fn covering(spans: Seq<(Range<usize>, Style)>, start: usize, end: usize) -> Seq<Style>
    decreases spans.len(),
{
    if spans.len() == 0 {
        Seq::empty()
    } else {
        let before = covering(spans.drop_last(), start, end);
        if spans.last().0.start <= start && spans.last().0.end >= end {
            before.push(spans.last().1)
        } else {
            before
        }
    }
}

/// The styled runs between consecutive cut points, skipping unstyled ones.
pub open spec fn runs(points: Seq<usize>, spans: Seq<(Range<usize>, Style)>) -> Seq<(usize, usize, Seq<Style>)>
    decreases points.len(),
{
    if points.len() < 2 {
        Seq::empty()
    } else {
        let before = runs(points.drop_last(), spans);
        let start = points[points.len() - 2];
        let end = points.last();
        let styles = covering(spans, start, end);
        if styles.len() > 0 {
            before.push((start, end, styles))
        } else {
            before
        }
    }
}

pub open spec fn run_view(r: (Range<usize>, Vec<Style>)) -> (usize, usize, Seq<Style>) {
    (r.0.start, r.0.end, r.1@)
}

fn covering_exec(spans: &Vec<(Range<usize>, Style)>, start: usize, end: usize) -> (r: Vec<Style>)
    ensures
        r@ == covering(spans@, start, end),
{
    let mut out: Vec<Style> = Vec::new();
    let mut i: usize = 0;
    while i < spans.len()
        invariant
            i <= spans.len(),
            out@ == covering(spans@.take(i as int), start, end),
        decreases spans.len() - i,
    {
        proof {
            assert(spans@.take(i + 1).drop_last() == spans@.take(i as int));
        }
        if spans[i].0.start <= start && spans[i].0.end >= end {
            out.push(spans[i].1);
        }
        i += 1;
    }
    proof {
        assert(spans@.take(spans.len() as int) == spans@);
    }
    out
}

/// What a sequence holds once `p` is inserted into it.
proof fn lemma_insert_contains(before: Seq<usize>, k: int, p: usize)
    requires
        0 <= k <= before.len(),
    ensures
        forall|q: usize| #[trigger] before.insert(k, p).contains(q) <==> (before.contains(q) || q == p),
{
    let points = before.insert(k, p);
    assert forall|q: usize| points.contains(q) <==> (before.contains(q) || q == p) by {
        if points.contains(q) {
            let m = choose|m: int| 0 <= m < points.len() && points[m] == q;
            if m < k {
                assert(before[m] == q);
            } else if m > k {
                assert(before[m - 1] == q);
            }
        }
        if before.contains(q) {
            let m = choose|m: int| 0 <= m < before.len() && before[m] == q;
            if m < k {
                assert(points[m] == q);
            } else {
                assert(points[m + 1] == q);
            }
        }
        if q == p {
            assert(points[k] == p);
        }
    }
}

/// Add `p` to an increasing list of distinct points, keeping it so.
fn insert_point(points: &mut Vec<usize>, p: usize)
    requires
        strictly_increasing(old(points)@),
    ensures
        strictly_increasing(final(points)@),
        forall|q: usize| final(points)@.contains(q) <==> (old(points)@.contains(q) || q == p),
{
    let mut k: usize = 0;
    while k < points.len() && points[k] < p
        invariant
            points@ == old(points)@,
            k <= points.len(),
            strictly_increasing(points@),
            forall|m: int| 0 <= m < k ==> #[trigger] points@[m] < p,
        decreases points.len() - k,
    {
        k += 1;
    }
    if k < points.len() && points[k] == p {
        assert(points@[k as int] == p);
        return;
    }
    let ghost before = points@;
    points.insert(k, p);
    proof {
        assert(points@ == before.insert(k as int, p));
        assert forall|a: int, b: int| 0 <= a < b < points.len() implies #[trigger] points@[a]
            < #[trigger] points@[b] by {
            if b < k {
                assert(points@[a] == before[a] && points@[b] == before[b]);
            } else if b == k {
                assert(points@[a] == before[a]);
            } else if a < k {
                assert(points@[a] == before[a] && points@[b] == before[b - 1]);
            } else if a == k {
                assert(points@[b] == before[b - 1]);
                if b - 1 > k {
                    assert(before[k as int] < before[b - 1]);
                }
                assert(before[k as int] > p);
            } else {
                assert(points@[a] == before[a - 1] && points@[b] == before[b - 1]);
            }
        }
        lemma_insert_contains(before, k as int, p);
    }
}

/// `p` is a cut point among the first `i` spans.
pub open spec fn cut_upto(text: Seq<char>, spans: Seq<(Range<usize>, Style)>, i: int, p: usize) -> bool {
    &&& exists|j: int| #![trigger spans[j]] 0 <= j < i && (spans[j].0.start == p || spans[j].0.end == p)
    &&& p <= encode_utf8(text).len()
    &&& is_char_boundary(encode_utf8(text), p as int)
}

proof fn lemma_cut_step(text: Seq<char>, spans: Seq<(Range<usize>, Style)>, i: int, p: usize)
    requires
        0 <= i < spans.len(),
    ensures
        cut_upto(text, spans, i + 1, p) <==> (cut_upto(text, spans, i, p) || ((spans[i].0.start == p
            || spans[i].0.end == p) && p <= encode_utf8(text).len() && is_char_boundary(
            encode_utf8(text),
            p as int,
        ))),
{
    if cut_upto(text, spans, i + 1, p) {
        let j = choose|j: int| #![trigger spans[j]] 0 <= j < i + 1 && (spans[j].0.start == p || spans[j].0.end == p);
        if j < i {
            assert(spans[j] == spans[j]);
            assert(cut_upto(text, spans, i, p));
        }
    }
    if cut_upto(text, spans, i, p) {
        let j = choose|j: int| #![trigger spans[j]] 0 <= j < i && (spans[j].0.start == p || spans[j].0.end == p);
        assert(spans[j] == spans[j]);
        assert(cut_upto(text, spans, i + 1, p));
    }
    if (spans[i].0.start == p || spans[i].0.end == p) {
        assert(spans[i] == spans[i]);
    }
}

/// Non-overlapping styled ranges in text order, since overlapping spans
/// (bold inside italic) must be split before they become text runs: every
/// span end inside the text on a character boundary is a cut, and each
/// stretch between neighbouring cuts carries the styles of the spans that
/// cover it.
pub fn segments(inline: &Inline) -> (r: Vec<(Range<usize>, Vec<Style>)>)
    ensures
        exists|points: Seq<usize>|
            #![trigger runs(points, inline.spans@)]
            strictly_increasing(points) && (forall|p: usize|
                points.contains(p) <==> cut_point(inline.text@, inline.spans@, p)) && r@.map_values(
                |x: (Range<usize>, Vec<Style>)| run_view(x),
            ) == runs(points, inline.spans@),
{
    let text = inline.text.as_str();
    let len = text.as_bytes().len();
    let ghost bytes = encode_utf8(inline.text@);
    let mut points: Vec<usize> = Vec::new();
    let mut i: usize = 0;
    while i < inline.spans.len()
        invariant
            i <= inline.spans.len(),
            text@ == inline.text@,
            bytes == encode_utf8(inline.text@),
            len == bytes.len(),
            strictly_increasing(points@),
            forall|p: usize| points@.contains(p) <==> cut_upto(inline.text@, inline.spans@, i as int, p),
        decreases inline.spans.len() - i,
    {
        let start = inline.spans[i].0.start;
        let end = inline.spans[i].0.end;
        let ghost old_points = points@;
        if start <= len && text.is_char_boundary(start) {
            insert_point(&mut points, start);
        }
        if end <= len && text.is_char_boundary(end) {
            insert_point(&mut points, end);
        }
        proof {
            assert forall|p: usize|
                points@.contains(p) <==> cut_upto(inline.text@, inline.spans@, i + 1, p) by {
                lemma_cut_step(inline.text@, inline.spans@, i as int, p);
            }
        }
        i += 1;
    }
    proof {
        assert forall|p: usize| points@.contains(p) <==> cut_point(inline.text@, inline.spans@, p) by {
            let spans = inline.spans@;
            if cut_upto(inline.text@, spans, spans.len() as int, p) {
                let j = choose|j: int| #![trigger spans[j]] 0 <= j < spans.len() && (spans[j].0.start == p || spans[j].0.end == p);
                assert(spans[j] == spans[j]);
            }
            if cut_point(inline.text@, spans, p) {
                let j = choose|j: int| #![trigger spans[j]] 0 <= j < spans.len() && (spans[j].0.start == p || spans[j].0.end == p);
                assert(spans[j] == spans[j]);
            }
        }
    }
    let mut out: Vec<(Range<usize>, Vec<Style>)> = Vec::new();
    if points.len() < 2 {
        proof {
            assert(out@.map_values(|x: (Range<usize>, Vec<Style>)| run_view(x)) =~= runs(
                points@,
                inline.spans@,
            ));
        }
        return out;
    }
    let mut k: usize = 1;
    proof {
        assert(out@.map_values(|x: (Range<usize>, Vec<Style>)| run_view(x)) =~= runs(
            points@.take(1),
            inline.spans@,
        ));
    }
    while k < points.len()
        invariant
            1 <= k <= points.len(),
            out@.map_values(|x: (Range<usize>, Vec<Style>)| run_view(x)) == runs(
                points@.take(k as int),
                inline.spans@,
            ),
        decreases points.len() - k,
    {
        let start = points[k - 1];
        let end = points[k];
        let styles = covering_exec(&inline.spans, start, end);
        let ghost taken = points@.take(k + 1);
        proof {
            assert(taken.drop_last() == points@.take(k as int));
            assert(taken[taken.len() - 2] == start);
            assert(taken.last() == end);
        }
        if styles.len() > 0 {
            let ghost before = out@;
            out.push((start..end, styles));
            proof {
                assert(out@.map_values(|x: (Range<usize>, Vec<Style>)| run_view(x)) =~= before.map_values(
                    |x: (Range<usize>, Vec<Style>)| run_view(x),
                ).push((start, end, covering(inline.spans@, start, end))));
            }
        }
        k += 1;
    }
    proof {
        assert(points@.take(points.len() as int) == points@);
    }
    out
}


// ----- Reading a reply into blocks ---------------------------------------------

/// A block of a reply.
#[derive(Clone, Debug, PartialEq, Eq)]
pub enum Block {
    Paragraph(Inline),
    Heading(u8, Inline),
    Code { language: Option<String>, text: String },
    List { ordered: bool, items: Vec<Inline> },
    Quote(Inline),
    Rule,
}

/// An inline run of text as plain values.
pub struct InlineView {
    pub text: Seq<char>,
    pub spans: Seq<(Range<usize>, Style)>,
}

/// A block as plain values.
pub enum BlockView {
    Paragraph(InlineView),
    Heading(u8, InlineView),
    Code { language: Option<Seq<char>>, text: Seq<char> },
    List { ordered: bool, items: Seq<InlineView> },
    Quote(InlineView),
    Rule,
}

impl View for Inline {
    type V = InlineView;

    open spec fn view(&self) -> InlineView {
        InlineView { text: self.text@, spans: self.spans@ }
    }
}

/// The items of a list as plain values.
pub open spec fn items_view(items: Seq<Inline>) -> Seq<InlineView> {
    items.map_values(|i: Inline| i@)
}

/// A language name as plain characters.
pub open spec fn language_view(language: Option<String>) -> Option<Seq<char>> {
    match language {
        Some(l) => Some(l@),
        None => None,
    }
}

impl View for Block {
    type V = BlockView;

    open spec fn view(&self) -> BlockView {
        match self {
            Block::Paragraph(i) => BlockView::Paragraph(i@),
            Block::Heading(level, i) => BlockView::Heading(*level, i@),
            Block::Code { language, text } => BlockView::Code {
                language: language_view(*language),
                text: text@,
            },
            Block::List { ordered, items } => BlockView::List {
                ordered: *ordered,
                items: items_view(items@),
            },
            Block::Quote(i) => BlockView::Quote(i@),
            Block::Rule => BlockView::Rule,
        }
    }
}

/// The blocks as plain values.
pub open spec fn blocks_view(blocks: Seq<Block>) -> Seq<BlockView> {
    blocks.map_values(|b: Block| b@)
}

/// What the reader takes from CommonMark's event stream.
#[derive(Clone, Debug, PartialEq, Eq)]
pub enum MdEvent {
    /// A code block opens, with its info string when fenced.
    StartCodeBlock(Option<String>),
    EndCodeBlock,
    StartHeading(u8),
    StartQuote,
    EndQuote,
    /// A list opens, with its first number when ordered.
    StartList(Option<u64>),
    EndList,
    EndItem,
    EndParagraph,
    EndHeading,
    StartStrong,
    EndStrong,
    StartEmphasis,
    EndEmphasis,
    StartLink,
    EndLink,
    Code(String),
    Text(String),
    SoftBreak,
    HardBreak,
    Rule,
    TaskListMarker(bool),
    Other,
}

/// The reader's state between events: the blocks so far, the inline text
/// being gathered with its open styles, and the heading, quotes, lists and
/// code block it is inside.
pub struct ReadState {
    pub blocks: Seq<BlockView>,
    pub inline: InlineView,
    pub open: Seq<(Style, usize)>,
    pub heading: Option<u8>,
    pub quote: nat,
    pub lists: Seq<(bool, Seq<InlineView>)>,
    pub code: Option<(Option<Seq<char>>, Seq<char>)>,
    pub marker: Seq<char>,
}

/// An empty inline run.
pub open spec fn no_inline() -> InlineView {
    InlineView { text: Seq::empty(), spans: Seq::empty() }
}

/// The reader before any event.
pub open spec fn start_state() -> ReadState {
    ReadState {
        blocks: Seq::empty(),
        inline: no_inline(),
        open: Seq::empty(),
        heading: None,
        quote: 0,
        lists: Seq::empty(),
        code: None,
        marker: Seq::empty(),
    }
}

/// The gathered text ends: blank text is dropped; otherwise it becomes an
/// item of the innermost list, else a heading, a quote or a paragraph.
pub open spec fn flushed(s: ReadState) -> ReadState {
    if trim(s.inline.text).len() == 0 {
        ReadState { inline: no_inline(), ..s }
    } else if s.lists.len() > 0 {
        let (ordered, items) = s.lists.last();
        ReadState {
            inline: no_inline(),
            lists: s.lists.drop_last().push((ordered, items.push(s.inline))),
            ..s
        }
    } else {
        match s.heading {
            Some(level) => ReadState {
                inline: no_inline(),
                heading: None,
                blocks: s.blocks.push(BlockView::Heading(level, s.inline)),
                ..s
            },
            None => ReadState {
                inline: no_inline(),
                blocks: s.blocks.push(
                    if s.quote > 0 {
                        BlockView::Quote(s.inline)
                    } else {
                        BlockView::Paragraph(s.inline)
                    },
                ),
                ..s
            },
        }
    }
}

/// The text's length in bytes.
pub open spec fn text_bytes(text: Seq<char>) -> usize {
    encode_utf8(text).len() as usize
}

/// `text` appended to the gathered text.
pub open spec fn appended(s: ReadState, text: Seq<char>) -> ReadState {
    ReadState { inline: InlineView { text: s.inline.text + text, ..s.inline }, ..s }
}

/// The last open style `style`, searching `open[..i]`.
pub open spec fn last_open(open: Seq<(Style, usize)>, style: Style, i: int) -> Option<int>
    decreases i,
{
    if i <= 0 || i > open.len() {
        None
    } else if open[i - 1].0 == style {
        Some(i - 1)
    } else {
        last_open(open, style, i - 1)
    }
}

/// A style closes: the latest open one of its kind ends here, and covers
/// what was gathered since it opened, if anything.
pub open spec fn closed(s: ReadState, style: Style) -> ReadState {
    match last_open(s.open, style, s.open.len() as int) {
        None => s,
        Some(k) => {
            let start = s.open[k].1;
            let end = text_bytes(s.inline.text);
            ReadState {
                open: s.open.remove(k),
                inline: InlineView {
                    spans: if start < end {
                        s.inline.spans.push((start..end, style))
                    } else {
                        s.inline.spans
                    },
                    ..s.inline
                },
                ..s
            }
        },
    }
}

/// A style opens where the gathered text now ends.
pub open spec fn opened(s: ReadState, style: Style) -> ReadState {
    ReadState { open: s.open.push((style, text_bytes(s.inline.text))), ..s }
}

/// A span moved `m` bytes on.
pub open spec fn shift_span(s: (Range<usize>, Style), m: int) -> (Range<usize>, Style) {
    (((s.0.start + m) as usize)..((s.0.end + m) as usize), s.1)
}

/// An item of a nested list, indented by `marker` as it joins its parent.
pub open spec fn indented(item: InlineView, marker: Seq<char>) -> InlineView {
    let m = encode_utf8(marker).len() as int;
    InlineView {
        text: marker + item.text,
        spans: item.spans.map_values(|s: (Range<usize>, Style)| shift_span(s, m)),
    }
}

/// The language of a code block: a fenced block's info string, trimmed, if any.
pub open spec fn language_of(info: Option<String>) -> Option<Seq<char>> {
    match info {
        Some(l) => if trim(l@).len() > 0 {
            Some(trim(l@))
        } else {
            None
        },
        None => None,
    }
}

/// A list ends: a nested one's items join their parent, indented; an
/// outer one becomes a block.
pub open spec fn list_ended(s: ReadState) -> ReadState {
    if s.lists.len() == 0 {
        s
    } else {
        let (ordered, items) = s.lists.last();
        let rest = s.lists.drop_last();
        if rest.len() > 0 {
            let (parent_ordered, parent) = rest.last();
            ReadState {
                lists: rest.drop_last().push(
                    (parent_ordered, parent + items.map_values(|i: InlineView| indented(i, s.marker))),
                ),
                marker: s.marker.take(if s.marker.len() >= 2 {
                    s.marker.len() - 2
                } else {
                    0
                }),
                ..s
            }
        } else {
            ReadState {
                lists: rest,
                blocks: s.blocks.push(BlockView::List { ordered, items }),
                ..s
            }
        }
    }
}

/// The reader after one more event.
pub open spec fn read_step(s: ReadState, e: MdEvent) -> ReadState {
    match s.code {
        Some((language, text)) => match e {
            MdEvent::Text(t) => ReadState { code: Some((language, text + t@)), ..s },
            MdEvent::EndCodeBlock => ReadState {
                code: None,
                blocks: s.blocks.push(
                    BlockView::Code { language, text: trim_end_char(text, '\n') },
                ),
                ..s
            },
            _ => s,
        },
        None => match e {
            MdEvent::StartCodeBlock(info) => ReadState {
                code: Some((language_of(info), Seq::empty())),
                ..flushed(s)
            },
            MdEvent::StartHeading(level) => ReadState { heading: Some(level), ..flushed(s) },
            MdEvent::StartQuote => ReadState { quote: flushed(s).quote + 1, ..flushed(s) },
            MdEvent::EndQuote => ReadState {
                quote: if flushed(s).quote > 0 {
                    (flushed(s).quote - 1) as nat
                } else {
                    0
                },
                ..flushed(s)
            },
            MdEvent::StartList(first) => {
                let f = flushed(s);
                ReadState {
                    marker: if f.lists.len() > 0 {
                        f.marker + "  "@
                    } else {
                        f.marker
                    },
                    lists: f.lists.push((first is Some, Seq::empty())),
                    ..f
                }
            },
            MdEvent::EndList => list_ended(flushed(s)),
            MdEvent::EndItem => flushed(s),
            MdEvent::EndParagraph | MdEvent::EndHeading => if s.lists.len() == 0 {
                flushed(s)
            } else if s.inline.text.len() > 0 && s.inline.text.last() != ' ' {
                appended(s, seq![' '])
            } else {
                s
            },
            MdEvent::StartStrong => opened(s, Style::Bold),
            MdEvent::EndStrong => closed(s, Style::Bold),
            MdEvent::StartEmphasis => opened(s, Style::Italic),
            MdEvent::EndEmphasis => closed(s, Style::Italic),
            MdEvent::StartLink => opened(s, Style::Link),
            MdEvent::EndLink => closed(s, Style::Link),
            MdEvent::Code(t) => {
                let start = text_bytes(s.inline.text);
                let text = s.inline.text + t@;
                ReadState {
                    inline: InlineView {
                        text,
                        spans: s.inline.spans.push((start..text_bytes(text), Style::Code)),
                    },
                    ..s
                }
            },
            MdEvent::Text(t) => appended(s, t@),
            MdEvent::SoftBreak => appended(s, seq![' ']),
            MdEvent::HardBreak => appended(s, seq!['\n']),
            MdEvent::Rule => ReadState { blocks: flushed(s).blocks.push(BlockView::Rule), ..flushed(s) },
            MdEvent::TaskListMarker(done) => appended(s, if done { "☑ "@ } else { "☐ "@ }),
            _ => s,
        },
    }
}

/// The reader after a run of events.
pub open spec fn read_all(events: Seq<MdEvent>) -> ReadState
    decreases events.len(),
{
    if events.len() == 0 {
        start_state()
    } else {
        read_step(read_all(events.drop_last()), events.last())
    }
}

/// The blocks a run of events reads as, once the last text is flushed.
pub open spec fn blocks_of(events: Seq<MdEvent>) -> Seq<BlockView> {
    flushed(read_all(events)).blocks
}

/// Text with a character in it takes at least one byte.
proof fn lemma_text_takes_bytes(t: Seq<char>)
    requires
        t.len() > 0,
    ensures
        encode_utf8(t).len() >= 1,
{
    assert(t =~= seq![t[0]] + t.drop_first());
    crate::text::lemma_encode_append(seq![t[0]], t.drop_first());
    crate::text::lemma_scalar_width(t[0]);
}

/// A link around text styles exactly that text: whatever was gathered
/// before, reading `[t](..)` (the link opening, its text, the link closing)
/// adds `t` to the text and one `Link` span over `t`'s bytes, and leaves the
/// open styles and the blocks as they were.
pub proof fn law_link_styles_its_text(s: ReadState, t: String)
    requires
        s.code is None,
        t@.len() > 0,
        encode_utf8(s.inline.text + t@).len() < usize::MAX,
    ensures
        ({
            let r = read_step(
                read_step(read_step(s, MdEvent::StartLink), MdEvent::Text(t)),
                MdEvent::EndLink,
            );
            let start = encode_utf8(s.inline.text).len();
            let end = encode_utf8(s.inline.text + t@).len();
            &&& r.inline.text == s.inline.text + t@
            &&& end == start + encode_utf8(t@).len() && start < end
            &&& r.inline.spans == s.inline.spans.push(((start as usize)..(end as usize), Style::Link))
            &&& r.open == s.open
            &&& r.blocks == s.blocks
        }),
{
    crate::text::lemma_encode_append(s.inline.text, t@);
    lemma_text_takes_bytes(t@);
    let o = opened(s, Style::Link);
    let a = appended(o, t@);
    assert(last_open(a.open, Style::Link, a.open.len() as int) == Some(s.open.len() as int));
    assert(a.open.remove(s.open.len() as int) =~= s.open);
}

/// The events that open and close a style: strong text is bold, emphasis
/// italic, a link a link.
pub open spec fn style_events(style: Style) -> (MdEvent, MdEvent) {
    match style {
        Style::Bold => (MdEvent::StartStrong, MdEvent::EndStrong),
        Style::Italic => (MdEvent::StartEmphasis, MdEvent::EndEmphasis),
        _ => (MdEvent::StartLink, MdEvent::EndLink),
    }
}

/// Strong text, emphasis and links style exactly their text: reading the
/// opening event, some text and the closing event adds the text and one
/// span of the matching style (bold, italic, link) over the text's bytes,
/// and leaves the open styles and the blocks as they were.
pub proof fn law_styles_cover_their_text(s: ReadState, style: Style, t: String)
    requires
        s.code is None,
        style != Style::Code,
        t@.len() > 0,
        encode_utf8(s.inline.text + t@).len() < usize::MAX,
    ensures
        ({
            let r = read_step(
                read_step(read_step(s, style_events(style).0), MdEvent::Text(t)),
                style_events(style).1,
            );
            let start = encode_utf8(s.inline.text).len();
            let end = encode_utf8(s.inline.text + t@).len();
            &&& r.inline.text == s.inline.text + t@
            &&& end == start + encode_utf8(t@).len() && start < end
            &&& r.inline.spans == s.inline.spans.push(((start as usize)..(end as usize), style))
            &&& r.open == s.open
            &&& r.blocks == s.blocks
        }),
{
    crate::text::lemma_encode_append(s.inline.text, t@);
    lemma_text_takes_bytes(t@);
    let o = opened(s, style);
    let a = appended(o, t@);
    assert(last_open(a.open, style, a.open.len() as int) == Some(s.open.len() as int));
    assert(a.open.remove(s.open.len() as int) =~= s.open);
}

/// Inline code is a `Code` span over exactly its text.
pub proof fn law_inline_code_is_styled(s: ReadState, t: String)
    requires
        s.code is None,
        encode_utf8(s.inline.text + t@).len() < usize::MAX,
    ensures
        ({
            let r = read_step(s, MdEvent::Code(t));
            &&& r.inline.text == s.inline.text + t@
            &&& r.inline.spans == s.inline.spans.push(
                ((encode_utf8(s.inline.text).len() as usize)..(encode_utf8(s.inline.text + t@).len() as usize), Style::Code),
            )
            &&& r.open == s.open
            &&& r.blocks == s.blocks
        }),
{
}

/// Reading one more event.
proof fn lemma_read_one_more(events: Seq<MdEvent>, k: int)
    requires
        0 <= k < events.len(),
    ensures
        read_all(events.take(k + 1)) == read_step(read_all(events.take(k)), events[k]),
{
    assert(events.take(k + 1).drop_last() =~= events.take(k));
    assert(events.take(k + 1).last() == events[k]);
}

/// A paragraph with a link in it: the text before, the link's text and the
/// text after read as one paragraph whose only span is a `Link` over the
/// link's text.
pub proof fn law_paragraph_with_a_link(a: String, t: String, b: String)
    requires
        t@.len() > 0,
        trim(a@ + t@ + b@).len() > 0,
        encode_utf8(a@ + t@ + b@).len() < usize::MAX,
    ensures
        blocks_of(
            seq![
                MdEvent::Text(a),
                MdEvent::StartLink,
                MdEvent::Text(t),
                MdEvent::EndLink,
                MdEvent::Text(b),
                MdEvent::EndParagraph,
            ],
        ) == seq![
            BlockView::Paragraph(
                InlineView {
                    text: a@ + t@ + b@,
                    spans: seq![
                        ((encode_utf8(a@).len() as usize)..(encode_utf8(a@ + t@).len() as usize), Style::Link),
                    ],
                },
            ),
        ],
{
    let events = seq![
        MdEvent::Text(a),
        MdEvent::StartLink,
        MdEvent::Text(t),
        MdEvent::EndLink,
        MdEvent::Text(b),
        MdEvent::EndParagraph,
    ];
    crate::text::lemma_encode_append(a@ + t@, b@);
    lemma_read_one_more(events, 0);
    lemma_read_one_more(events, 1);
    lemma_read_one_more(events, 2);
    lemma_read_one_more(events, 3);
    lemma_read_one_more(events, 4);
    lemma_read_one_more(events, 5);
    assert(events.take(0) =~= Seq::<MdEvent>::empty());
    assert(events.take(6) =~= events);
    let s1 = read_all(events.take(1));
    assert(s1.inline.text =~= a@);
    law_link_styles_its_text(s1, t);
    let s4 = read_all(events.take(4));
    assert(s4.inline.spans =~= seq![
        ((encode_utf8(a@).len() as usize)..(encode_utf8(a@ + t@).len() as usize), Style::Link),
    ]);
    let s5 = read_all(events.take(5));
    assert(s5.inline.text =~= a@ + t@ + b@);
    let s6 = read_all(events);
    assert(s6.blocks =~= seq![BlockView::Paragraph(s5.inline)]);
    assert(trim(s6.inline.text) =~= Seq::<char>::empty()) by {
        assert(s6.inline.text =~= Seq::<char>::empty());
    }
}

/// A run's spans lie within its text, each running forward.
pub open spec fn inline_fits(i: InlineView) -> bool {
    forall|k: int|
        0 <= k < i.spans.len() ==> #[trigger] i.spans[k].0.start <= i.spans[k].0.end
            <= encode_utf8(i.text).len()
}

/// What keeps the reader's arithmetic within `usize`: spans lie within
/// their texts.
pub open spec fn state_fits(s: ReadState) -> bool {
    &&& inline_fits(s.inline)
    &&& forall|a: int, b: int|
        0 <= a < s.lists.len() && 0 <= b < s.lists[a].1.len() ==> inline_fits(#[trigger] s.lists[a].1[b])
}

/// The lists being read as plain values.
pub open spec fn lists_view(lists: Seq<(bool, Vec<Inline>)>) -> Seq<(bool, Seq<InlineView>)> {
    lists.map_values(|l: (bool, Vec<Inline>)| (l.0, items_view(l.1@)))
}

/// The reader's working state.
struct Reader {
    blocks: Vec<Block>,
    text: String,
    spans: Vec<(Range<usize>, Style)>,
    open: Vec<(Style, usize)>,
    heading: Option<u8>,
    quote: usize,
    lists: Vec<(bool, Vec<Inline>)>,
    code: Option<(Option<String>, String)>,
    marker: String,
}

impl Reader {
    spec fn state(&self) -> ReadState {
        ReadState {
            blocks: blocks_view(self.blocks@),
            inline: InlineView { text: self.text@, spans: self.spans@ },
            open: self.open@,
            heading: self.heading,
            quote: self.quote as nat,
            lists: lists_view(self.lists@),
            code: match self.code {
                Some((language, text)) => Some((language_view(language), text@)),
                None => None,
            },
            marker: self.marker@,
        }
    }

    fn new() -> (r: Reader)
        ensures
            r.state() == start_state(),
            state_fits(r.state()),
    {
        let r = Reader {
            blocks: Vec::new(),
            text: String::new(),
            spans: Vec::new(),
            open: Vec::new(),
            heading: None,
            quote: 0,
            lists: Vec::new(),
            code: None,
            marker: String::new(),
        };
        proof {
            assert(blocks_view(r.blocks@) =~= Seq::<BlockView>::empty());
            assert(lists_view(r.lists@) =~= Seq::<(bool, Seq<InlineView>)>::empty());
            assert(r.text@ =~= Seq::<char>::empty());
            assert(r.marker@ =~= Seq::<char>::empty());
        }
        r
    }

    /// Take the gathered run out, leaving an empty one.
    fn take_inline(&mut self) -> (r: Inline)
        ensures
            r@ == old(self).state().inline,
            final(self).state() == (ReadState { inline: no_inline(), ..old(self).state() }),
    {
        let mut text = String::new();
        std::mem::swap(&mut text, &mut self.text);
        let mut spans: Vec<(Range<usize>, Style)> = Vec::new();
        std::mem::swap(&mut spans, &mut self.spans);
        proof {
            assert(self.text@ =~= Seq::<char>::empty());
            assert(self.spans@ =~= Seq::<(Range<usize>, Style)>::empty());
        }
        Inline { text, spans }
    }

    /// The gathered text ends.
    fn flush(&mut self)
        requires
            state_fits(old(self).state()),
        ensures
            final(self).state() == flushed(old(self).state()),
            state_fits(final(self).state()),
    {
        let ghost s = self.state();
        let blank = trimmed(&chars_of(self.text.as_str())).len() == 0;
        let inline = self.take_inline();
        if blank {
            return;
        }
        if self.lists.len() > 0 {
            let ghost before = self.lists@;
            match self.lists.pop() {
                Some((ordered, mut items)) => {
                    let ghost old_items = items@;
                    items.push(inline);
                    self.lists.push((ordered, items));
                    proof {
                        assert(items_view(items@) =~= items_view(old_items).push(s.inline));
                        assert(lists_view(self.lists@) =~= lists_view(before).drop_last().push(
                            (ordered, items_view(old_items).push(s.inline)),
                        ));
                        assert(before.last().0 == ordered && before.last().1@ == old_items);
                        assert forall|a: int, b: int|
                            0 <= a < self.state().lists.len() && 0 <= b < self.state().lists[a].1.len()
                            implies inline_fits(#[trigger] self.state().lists[a].1[b]) by {
                            if a < self.lists.len() - 1 {
                                assert(self.state().lists[a] == s.lists[a]);
                            } else if b < old_items.len() {
                                assert(self.state().lists[a].1[b] == s.lists[a].1[b]);
                            }
                        }
                    }
                },
                None => {},
            }
        } else {
            let ghost before = self.blocks@;
            match self.heading {
                Some(level) => {
                    self.heading = None;
                    self.blocks.push(Block::Heading(level, inline));
                },
                None => {
                    if self.quote > 0 {
                        self.blocks.push(Block::Quote(inline));
                    } else {
                        self.blocks.push(Block::Paragraph(inline));
                    }
                },
            }
            proof {
                assert(blocks_view(self.blocks@) =~= blocks_view(before).push(self.blocks@.last()@));
            }
        }
    }
}


impl Reader {
    /// Append to the gathered text.
    fn append(&mut self, t: &str)
        requires
            state_fits(old(self).state()),
        ensures
            final(self).state() == appended(old(self).state(), t@),
            state_fits(final(self).state()),
    {
        let ghost before = self.text@;
        self.text.append(t);
        proof {
            lemma_encode_append(before, t@);
        }
    }

    /// A style opens where the gathered text now ends.
    fn open_style(&mut self, style: Style)
        requires
            state_fits(old(self).state()),
        ensures
            final(self).state() == opened(old(self).state(), style),
            state_fits(final(self).state()),
    {
        let at = byte_size(&self.text);
        self.open.push((style, at));
    }

    /// A style closes.
    fn close_style(&mut self, style: Style)
        requires
            state_fits(old(self).state()),
        ensures
            final(self).state() == closed(old(self).state(), style),
            state_fits(final(self).state()),
    {
        let ghost s = self.state();
        let mut i = self.open.len();
        while i > 0
            invariant
                self.state() == s,
                s == old(self).state(),
                state_fits(s),
                i <= self.open.len(),
                last_open(s.open, style, s.open.len() as int) == last_open(s.open, style, i as int),
            decreases i,
        {
            if self.open[i - 1].0 == style {
                assert(last_open(s.open, style, i as int) == Some(i - 1));
                let (_, start) = self.open.remove(i - 1);
                let end = byte_size(&self.text);
                if start < end {
                    self.spans.push((start..end, style));
                }
                proof {
                    assert(self.open@ == s.open.remove(i - 1));
                    assert(self.state().open == closed(s, style).open);
                    assert(self.state().inline == closed(s, style).inline);
                }
                return;
            }
            i -= 1;
        }
    }

    /// Inline code: its text, styled as code.
    fn inline_code(&mut self, t: &String)
        requires
            state_fits(old(self).state()),
            old(self).code is None,
        ensures
            final(self).state() == read_step(old(self).state(), MdEvent::Code(*t)),
            state_fits(final(self).state()),
    {
        let ghost s = self.state();
        let start = byte_size(&self.text);
        let ghost before = self.text@;
        self.text.append(t.as_str());
        proof {
            lemma_encode_append(before, t@);
        }
        let end = byte_size(&self.text);
        let ghost spans = self.spans@;
        self.spans.push((start..end, Style::Code));
        proof {
            assert forall|k: int| 0 <= k < self.spans@.len() implies #[trigger] self.spans@[k].0.start
                <= self.spans@[k].0.end <= encode_utf8(self.text@).len() by {
                if k < spans.len() {
                    assert(self.spans@[k] == s.inline.spans[k]);
                    assert(s.inline.spans[k].0.start <= s.inline.spans[k].0.end <= encode_utf8(
                        before,
                    ).len());
                }
            }
        }
    }
}


/// `item` indented by `marker`, `m` being the marker's length in bytes.
fn indent(item: &Inline, marker: &String, m: usize) -> (r: Inline)
    requires
        inline_fits(item@),
        m == encode_utf8(marker@).len(),
    ensures
        r@ == indented(item@, marker@),
        inline_fits(r@),
{
    let mut text = marker.clone();
    text.append(item.text.as_str());
    let total = byte_size(&text);
    proof {
        lemma_encode_append(marker@, item.text@);
    }
    let mut spans: Vec<(Range<usize>, Style)> = Vec::new();
    let mut k: usize = 0;
    while k < item.spans.len()
        invariant
            inline_fits(item@),
            m == encode_utf8(marker@).len(),
            total == m + encode_utf8(item.text@).len(),
            k <= item.spans.len(),
            spans@ == item.spans@.take(k as int).map_values(|s: (Range<usize>, Style)| shift_span(s, m as int)),
        decreases item.spans.len() - k,
    {
        assert(item@.spans[k as int].0.start <= item@.spans[k as int].0.end <= encode_utf8(
            item@.text,
        ).len());
        let start = item.spans[k].0.start + m;
        let end = item.spans[k].0.end + m;
        spans.push((start..end, item.spans[k].1));
        proof {
            assert(item.spans@.take(k + 1).map_values(
                |s: (Range<usize>, Style)| shift_span(s, m as int),
            ) =~= item.spans@.take(k as int).map_values(
                |s: (Range<usize>, Style)| shift_span(s, m as int),
            ).push(shift_span(item.spans@[k as int], m as int)));
        }
        k += 1;
    }
    proof {
        assert(item.spans@.take(item.spans.len() as int) =~= item.spans@);
        assert(spans@.len() == item@.spans.len());
        assert forall|j: int| 0 <= j < spans@.len() implies #[trigger] spans@[j].0.start
            <= spans@[j].0.end <= encode_utf8(text@).len() by {
            assert(item@.spans[j].0.start <= item@.spans[j].0.end <= encode_utf8(item@.text).len());
        }
    }
    Inline { text, spans }
}

impl Reader {
    /// A list ends.
    fn end_list(&mut self)
        requires
            state_fits(old(self).state()),
        ensures
            final(self).state() == list_ended(old(self).state()),
            state_fits(final(self).state()),
    {
        let ghost s = self.state();
        if self.lists.len() == 0 {
            return;
        }
        let ghost all = self.lists@;
        let (ordered, items) = match self.lists.pop() {
            Some(last) => last,
            None => (false, Vec::new()),
        };
        proof {
            assert(all.last() == (ordered, items));
            assert(lists_view(self.lists@) =~= s.lists.drop_last());
            assert forall|b: int| 0 <= b < items.len() implies inline_fits(#[trigger] items@[b]@) by {
                assert(s.lists[all.len() - 1].1[b] == items@[b]@);
            }
        }
        if self.lists.len() > 0 {
            let ghost rest = self.lists@;
            let (parent_ordered, mut parent) = match self.lists.pop() {
                Some(last) => last,
                None => (false, Vec::new()),
            };
            let ghost old_parent = parent@;
            proof {
                assert(rest.last() == (parent_ordered, parent));
                assert forall|b: int| 0 <= b < parent.len() implies inline_fits(#[trigger] parent@[b]@) by {
                    assert(s.lists[rest.len() - 1].1[b] == parent@[b]@);
                }
            }
            let m = byte_size(&self.marker);
            let mut j: usize = 0;
            while j < items.len()
                invariant
                    m == encode_utf8(self.marker@).len(),
                    self.marker@ == s.marker,
                    forall|b: int| 0 <= b < items.len() ==> inline_fits(#[trigger] items@[b]@),
                    j <= items.len(),
                    parent@.len() == old_parent.len() + j,
                    forall|b: int| 0 <= b < parent.len() ==> inline_fits(#[trigger] parent@[b]@),
                    items_view(parent@) == items_view(old_parent) + items_view(items@).take(
                        j as int,
                    ).map_values(|i: InlineView| indented(i, s.marker)),
                decreases items.len() - j,
            {
                let nested = indent(&items[j], &self.marker, m);
                let ghost before = parent@;
                parent.push(nested);
                proof {
                    assert(items_view(parent@) =~= items_view(before).push(nested@));
                    assert(items_view(items@).take(j + 1).map_values(
                        |i: InlineView| indented(i, s.marker),
                    ) =~= items_view(items@).take(j as int).map_values(
                        |i: InlineView| indented(i, s.marker),
                    ).push(indented(items@[j as int]@, s.marker)));
                    assert forall|b: int| 0 <= b < parent.len() implies inline_fits(
                        #[trigger] parent@[b]@,
                    ) by {
                        if b < before.len() {
                            assert(parent@[b] == before[b]);
                        }
                    }
                }
                j += 1;
            }
            proof {
                assert(items_view(items@).take(items.len() as int) =~= items_view(items@));
            }
            let ghost grandparents = self.lists@;
            self.lists.push((parent_ordered, parent));
            let chars = chars_of(self.marker.as_str());
            let keep = if chars.len() >= 2 {
                chars.len() - 2
            } else {
                0
            };
            self.marker = string_of_range(&chars, 0, keep);
            proof {
                assert(lists_view(self.lists@) =~= lists_view(grandparents).push(
                    (parent_ordered, items_view(parent@)),
                ));
                assert(lists_view(grandparents) =~= s.lists.drop_last().drop_last());
                assert(chars@.subrange(0, keep as int) =~= s.marker.take(keep as int));
                assert forall|a: int, b: int|
                    0 <= a < self.state().lists.len() && 0 <= b < self.state().lists[a].1.len()
                    implies inline_fits(#[trigger] self.state().lists[a].1[b]) by {
                    if a < grandparents.len() {
                        assert(self.state().lists[a] == s.lists[a]);
                    } else {
                        assert(self.state().lists[a].1[b] == parent@[b]@);
                    }
                }
            }
        } else {
            let ghost before = self.blocks@;
            self.blocks.push(Block::List { ordered, items });
            proof {
                assert(blocks_view(self.blocks@) =~= blocks_view(before).push(
                    self.blocks@.last()@,
                ));
            }
        }
    }

    /// A list starts.
    fn start_list(&mut self, first: &Option<u64>)
        requires
            state_fits(old(self).state()),
        ensures
            final(self).state() == (ReadState {
                marker: if old(self).state().lists.len() > 0 {
                    old(self).state().marker + "  "@
                } else {
                    old(self).state().marker
                },
                lists: old(self).state().lists.push((first is Some, Seq::empty())),
                ..old(self).state()
            }),
            state_fits(final(self).state()),
    {
        let ghost s = self.state();
        if self.lists.len() > 0 {
            self.marker.append("  ");
        }
        let ghost before = self.lists@;
        self.lists.push((first.is_some(), Vec::new()));
        proof {
            assert(items_view(self.lists@.last().1@) =~= Seq::<InlineView>::empty());
            assert(lists_view(self.lists@) =~= lists_view(before).push(
                (first is Some, Seq::<InlineView>::empty()),
            ));
            assert forall|a: int, b: int|
                0 <= a < self.state().lists.len() && 0 <= b < self.state().lists[a].1.len()
                implies inline_fits(#[trigger] self.state().lists[a].1[b]) by {
                assert(self.state().lists[a] == s.lists[a]);
            }
        }
    }

    /// A code block starts: the gathered text ends first.
    fn start_code(&mut self, info: &Option<String>)
        requires
            state_fits(old(self).state()),
        ensures
            final(self).state() == (ReadState {
                code: Some((language_of(*info), Seq::empty())),
                ..flushed(old(self).state())
            }),
            state_fits(final(self).state()),
    {
        self.flush();
        let language = match info {
            Some(l) => {
                let t = trimmed(&chars_of(l.as_str()));
                if t.len() > 0 {
                    Some(string_of(&t))
                } else {
                    None
                }
            },
            None => None,
        };
        let empty = String::new();
        proof {
            assert(empty@ =~= Seq::<char>::empty());
        }
        self.code = Some((language, empty));
    }

    /// Inside a code block: text gathers until the block ends.
    fn code_event(&mut self, e: &MdEvent)
        requires
            state_fits(old(self).state()),
            old(self).code is Some,
        ensures
            final(self).state() == read_step(old(self).state(), *e),
            state_fits(final(self).state()),
    {
        let mut code: Option<(Option<String>, String)> = None;
        std::mem::swap(&mut code, &mut self.code);
        match code {
            Some((language, mut text)) => match e {
                MdEvent::Text(t) => {
                    text.append(t.as_str());
                    self.code = Some((language, text));
                },
                MdEvent::EndCodeBlock => {
                    let chars = chars_of(text.as_str());
                    let end = trim_end_len(&chars, '\n');
                    let ghost before = self.blocks@;
                    self.blocks.push(Block::Code { language, text: string_of_range(&chars, 0, end) });
                    proof {
                        assert(chars@.subrange(0, end as int) =~= chars@.take(end as int));
                        assert(blocks_view(self.blocks@) =~= blocks_view(before).push(
                            self.blocks@.last()@,
                        ));
                    }
                },
                _ => {
                    self.code = Some((language, text));
                },
            },
            None => {},
        }
    }
}


impl Reader {
    /// The reader takes one more event.
    fn step(&mut self, e: &MdEvent)
        requires
            state_fits(old(self).state()),
            old(self).quote < usize::MAX,
        ensures
            final(self).state() == read_step(old(self).state(), *e),
            state_fits(final(self).state()),
            final(self).quote <= old(self).quote + 1,
    {
        if self.code.is_some() {
            self.code_event(e);
            return;
        }
        match e {
            MdEvent::StartCodeBlock(info) => self.start_code(info),
            MdEvent::StartHeading(level) => {
                self.flush();
                self.heading = Some(*level);
            },
            MdEvent::StartQuote => {
                self.flush();
                self.quote = self.quote + 1;
            },
            MdEvent::EndQuote => {
                self.flush();
                if self.quote > 0 {
                    self.quote = self.quote - 1;
                }
            },
            MdEvent::StartList(first) => {
                self.flush();
                self.start_list(first);
            },
            MdEvent::EndList => {
                self.flush();
                self.end_list();
            },
            MdEvent::EndItem => self.flush(),
            MdEvent::EndParagraph | MdEvent::EndHeading => {
                if self.lists.len() == 0 {
                    self.flush();
                } else {
                    let chars = chars_of(self.text.as_str());
                    if chars.len() > 0 && chars[chars.len() - 1] != ' ' {
                        proof {
                            reveal_strlit(" ");
                            assert(" "@ =~= seq![' ']);
                        }
                        self.append(" ");
                    }
                }
            },
            MdEvent::StartStrong => self.open_style(Style::Bold),
            MdEvent::EndStrong => self.close_style(Style::Bold),
            MdEvent::StartEmphasis => self.open_style(Style::Italic),
            MdEvent::EndEmphasis => self.close_style(Style::Italic),
            MdEvent::StartLink => self.open_style(Style::Link),
            MdEvent::EndLink => self.close_style(Style::Link),
            MdEvent::Code(t) => self.inline_code(t),
            MdEvent::Text(t) => self.append(t.as_str()),
            MdEvent::SoftBreak => {
                proof {
                    reveal_strlit(" ");
                    assert(" "@ =~= seq![' ']);
                }
                self.append(" ");
            },
            MdEvent::HardBreak => {
                proof {
                    reveal_strlit("\n");
                    assert("\n"@ =~= seq!['\n']);
                }
                self.append("\n");
            },
            MdEvent::Rule => {
                self.flush();
                let ghost before = self.blocks@;
                self.blocks.push(Block::Rule);
                proof {
                    assert(blocks_view(self.blocks@) =~= blocks_view(before).push(BlockView::Rule));
                }
            },
            MdEvent::TaskListMarker(done) => {
                if *done {
                    self.append("☑ ");
                } else {
                    self.append("☐ ");
                }
            },
            _ => {},
        }
    }

    /// The blocks read, once the last text is flushed.
    fn finish(self) -> (r: Vec<Block>)
        requires
            state_fits(self.state()),
        ensures
            blocks_view(r@) == flushed(self.state()).blocks,
    {
        let mut reader = self;
        reader.flush();
        reader.blocks
    }
}

/// The blocks a run of CommonMark events reads as: paragraphs with their
/// inline styles, headings, lists (nested items joining their parent,
/// indented), quotes, code blocks and rules; blank text is dropped.
pub fn read_events(events: &Vec<MdEvent>) -> (r: Vec<Block>)
    ensures
        blocks_view(r@) == blocks_of(events@),
{
    let mut reader = Reader::new();
    let mut i: usize = 0;
    while i < events.len()
        invariant
            i <= events.len(),
            reader.state() == read_all(events@.take(i as int)),
            state_fits(reader.state()),
            reader.quote <= i,
        decreases events.len() - i,
    {
        proof {
            assert(events@.take(i + 1).drop_last() =~= events@.take(i as int));
        }
        reader.step(&events[i]);
        i += 1;
    }
    proof {
        assert(events@.take(events.len() as int) =~= events@);
    }
    reader.finish()
}

/// The events pulldown-cmark reads from `source`, with strikethrough and
/// tables on, as the reader takes them.
pub uninterp spec fn commonmark_events(source: Seq<char>) -> Seq<MdEvent>;

/// pulldown-cmark's `Parser::new_ext` with strikethrough and tables, each
/// event converted one for one. The events are named, not stated.
#[verifier::external_body]
fn events_of(source: &str) -> (r: Vec<MdEvent>)
    ensures
        r@ == commonmark_events(source@),
{
    let options = Options::ENABLE_STRIKETHROUGH | Options::ENABLE_TABLES;
    Parser::new_ext(source, options).map(md_event).collect()
}

/// One pulldown-cmark event as the reader takes it.
#[verifier::external_body]
fn md_event(event: Event) -> MdEvent {
    match event {
        Event::Start(tag) => md_start(tag),
        Event::End(tag) => md_end(tag),
        Event::Code(text) => MdEvent::Code(text.to_string()),
        Event::Text(text) => MdEvent::Text(text.to_string()),
        Event::SoftBreak => MdEvent::SoftBreak,
        Event::HardBreak => MdEvent::HardBreak,
        Event::Rule => MdEvent::Rule,
        Event::TaskListMarker(done) => MdEvent::TaskListMarker(done),
        _ => MdEvent::Other,
    }
}

/// An opening tag as the reader takes it.
#[verifier::external_body]
fn md_start(tag: Tag) -> MdEvent {
    match tag {
        Tag::CodeBlock(CodeBlockKind::Fenced(info)) => MdEvent::StartCodeBlock(Some(info.to_string())),
        Tag::CodeBlock(CodeBlockKind::Indented) => MdEvent::StartCodeBlock(None),
        Tag::Heading { level, .. } => MdEvent::StartHeading(level as u8),
        Tag::BlockQuote(_) => MdEvent::StartQuote,
        Tag::List(first) => MdEvent::StartList(first),
        Tag::Strong => MdEvent::StartStrong,
        Tag::Emphasis => MdEvent::StartEmphasis,
        Tag::Link { .. } => MdEvent::StartLink,
        _ => MdEvent::Other,
    }
}

/// A closing tag as the reader takes it.
#[verifier::external_body]
fn md_end(tag: TagEnd) -> MdEvent {
    match tag {
        TagEnd::CodeBlock => MdEvent::EndCodeBlock,
        TagEnd::BlockQuote(_) => MdEvent::EndQuote,
        TagEnd::List(_) => MdEvent::EndList,
        TagEnd::Item => MdEvent::EndItem,
        TagEnd::Paragraph => MdEvent::EndParagraph,
        TagEnd::Heading(_) => MdEvent::EndHeading,
        TagEnd::Strong => MdEvent::EndStrong,
        TagEnd::Emphasis => MdEvent::EndEmphasis,
        TagEnd::Link => MdEvent::EndLink,
        _ => MdEvent::Other,
    }
}

/// pulldown-cmark's event.
#[verifier::external_type_specification]
#[verifier::external_body]
pub struct ExEvent<'a>(Event<'a>);

/// pulldown-cmark's opening tag.
#[verifier::external_type_specification]
#[verifier::external_body]
pub struct ExTag<'a>(Tag<'a>);

/// pulldown-cmark's closing tag.
#[verifier::external_type_specification]
#[verifier::external_body]
pub struct ExTagEnd(TagEnd);

/// Markdown for Evee's replies as blocks: what pulldown-cmark reads from
/// `source`, gathered into paragraphs, headings, lists, quotes, code and rules.
pub fn parse(source: &str) -> (r: Vec<Block>)
    ensures
        blocks_view(r@) == blocks_of(commonmark_events(source@)),
{
    let events = events_of(source);
    read_events(&events)
}

} // verus!
