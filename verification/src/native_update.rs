//! What the updater window shows and reports: release notes as HTML the
//! AppKit importer draws well, and the action the window hands back.
use crate::text::{chars_of, push_str, replace_all, replace_seq, string_of};
use pulldown_cmark::{html, Event, Options, Parser};
use vstd::prelude::*;

verus! {

/// An event of the release notes as far as escaping goes: raw HTML, inline
/// raw HTML, text to write escaped, or any other event, which passes on as
/// pulldown-cmark read it.
#[derive(Clone, Debug, PartialEq, Eq)]
pub enum NoteEvent {
    Html(String),
    InlineHtml(String),
    Text(String),
    Other,
}

pub const RAW_HTML: u8 = 0;
pub const INLINE_HTML: u8 = 1;
pub const TEXT: u8 = 2;
pub const OTHER: u8 = 3;

/// An event as its kind and its text.
pub open spec fn note_view(e: NoteEvent) -> (u8, Seq<char>) {
    match e {
        NoteEvent::Html(s) => (RAW_HTML, s@),
        NoteEvent::InlineHtml(s) => (INLINE_HTML, s@),
        NoteEvent::Text(s) => (TEXT, s@),
        NoteEvent::Other => (OTHER, Seq::empty()),
    }
}

pub open spec fn notes_view(events: Seq<NoteEvent>) -> Seq<(u8, Seq<char>)> {
    events.map_values(|e: NoteEvent| note_view(e))
}

/// The events pulldown-cmark reads from `markdown` with strikethrough on,
/// raw HTML kept apart and every other event as `OTHER`.
pub uninterp spec fn note_events_of(markdown: Seq<char>) -> Seq<(u8, Seq<char>)>;

/// The HTML pulldown-cmark's `push_html` writes for the events it reads from
/// `markdown` with strikethrough on, each replaced as `events` says.
pub uninterp spec fn html_with(markdown: Seq<char>, events: Seq<(u8, Seq<char>)>) -> Seq<char>;

/// pulldown-cmark's `Parser::new_ext` with strikethrough, each event kept
/// apart as raw HTML, inline raw HTML or any other. The events are named,
/// not stated.
#[verifier::external_body]
fn note_events(markdown: &str) -> (r: Vec<NoteEvent>)
    ensures
        notes_view(r@) == note_events_of(markdown@),
{
    Parser::new_ext(markdown, Options::ENABLE_STRIKETHROUGH).map(|event| match event {
        Event::Html(raw) => NoteEvent::Html(raw.to_string()),
        Event::InlineHtml(raw) => NoteEvent::InlineHtml(raw.to_string()),
        _ => NoteEvent::Other,
    }).collect()
}

/// pulldown-cmark's `push_html` over the events `Parser::new_ext` reads
/// from `markdown` with strikethrough on, each replaced by the one `events`
/// holds in its place (`Other` keeps the event read). The HTML is named,
/// not stated.
#[verifier::external_body]
fn push_html_with(markdown: &str, events: Vec<NoteEvent>) -> (r: String)
    ensures
        r@ == html_with(markdown@, notes_view(events@)),
{
    let read = Parser::new_ext(markdown, Options::ENABLE_STRIKETHROUGH);
    let mut body = String::new();
    html::push_html(&mut body, read.zip(events).map(|(event, given)| match given {
        NoteEvent::Html(raw) => Event::Html(raw.into()),
        NoteEvent::InlineHtml(raw) => Event::InlineHtml(raw.into()),
        NoteEvent::Text(text) => Event::Text(text.into()),
        NoteEvent::Other => event,
    }));
    body
}

/// Raw HTML is written as text, so that it shows escaped; every other
/// event passes on unchanged.
pub open spec fn escaped(e: (u8, Seq<char>)) -> (u8, Seq<char>) {
    if e.0 == RAW_HTML || e.0 == INLINE_HTML {
        (TEXT, e.1)
    } else {
        e
    }
}

/// The release notes' events with raw HTML turned into text.
pub fn escape_raw(events: Vec<NoteEvent>) -> (r: Vec<NoteEvent>)
    ensures
        notes_view(r@) == notes_view(events@).map_values(|e: (u8, Seq<char>)| escaped(e)),
{
    let mut out: Vec<NoteEvent> = Vec::new();
    let mut i: usize = 0;
    while i < events.len()
        invariant
            i <= events.len(),
            notes_view(out@) == notes_view(events@.take(i as int)).map_values(
                |e: (u8, Seq<char>)| escaped(e),
            ),
        decreases events.len() - i,
    {
        let e = match &events[i] {
            NoteEvent::Html(s) => NoteEvent::Text(s.clone()),
            NoteEvent::InlineHtml(s) => NoteEvent::Text(s.clone()),
            NoteEvent::Text(s) => NoteEvent::Text(s.clone()),
            NoteEvent::Other => NoteEvent::Other,
        };
        let ghost before = out@;
        out.push(e);
        proof {
            assert(events@.take(i + 1) =~= events@.take(i as int).push(events@[i as int]));
            assert(notes_view(out@) =~= notes_view(before).push(note_view(e)));
            assert(notes_view(events@.take(i + 1)) =~= notes_view(events@.take(i as int)).push(
                note_view(events@[i as int]),
            ));
        }
        i += 1;
    }
    proof {
        assert(events@.take(events.len() as int) =~= events@);
    }
    out
}

/// List items as paragraphs with a bullet: AppKit's HTML importer paints
/// two bullets for `<li>`.
pub open spec fn as_paragraphs(body: Seq<char>) -> Seq<char> {
    replace_all(
        replace_all(
            replace_all(replace_all(body, "<ul>"@, ""@), "</ul>"@, ""@),
            "<li>"@,
            "<p>• "@,
        ),
        "</li>"@,
        "</p>"@,
    )
}

/// The page the update window shows for an HTML body.
pub open spec fn spec_notes_page(body: Seq<char>) -> Seq<char> {
    "<html><body style=\"font: 13px -apple-system; color: -apple-system-label;\">"@ + as_paragraphs(
        body,
    ) + "</body></html>"@
}

/// The page the update window shows for an HTML body: list items become
/// bulleted paragraphs, in the system font and label colour.
pub fn notes_page(body: &str) -> (r: String)
    ensures
        r@ == spec_notes_page(body@),
{
    let ul = chars_of("<ul>");
    let ul_end = chars_of("</ul>");
    let li = chars_of("<li>");
    let li_end = chars_of("</li>");
    let nothing = chars_of("");
    let bullet = chars_of("<p>• ");
    let p_end = chars_of("</p>");
    proof {
        reveal_strlit("<ul>");
        reveal_strlit("</ul>");
        reveal_strlit("<li>");
        reveal_strlit("</li>");
    }
    let mut v = replace_seq(&chars_of(body), &ul, &nothing);
    v = replace_seq(&v, &ul_end, &nothing);
    v = replace_seq(&v, &li, &bullet);
    v = replace_seq(&v, &li_end, &p_end);
    let mut page: Vec<char> = Vec::new();
    push_str(&mut page, "<html><body style=\"font: 13px -apple-system; color: -apple-system-label;\">");
    let ghost head = page@;
    let mut i: usize = 0;
    while i < v.len()
        invariant
            i <= v.len(),
            page@ == head + v@.take(i as int),
        decreases v.len() - i,
    {
        page.push(v[i]);
        proof {
            assert(v@.take(i + 1) =~= v@.take(i as int).push(v@[i as int]));
        }
        i += 1;
    }
    proof {
        assert(v@.take(v.len() as int) =~= v@);
    }
    push_str(&mut page, "</body></html>");
    string_of(&page)
}

/// Release notes as the update window's HTML: the Markdown rendered, raw
/// HTML in it escaped, list items as bulleted paragraphs.
pub fn notes_html(markdown: &str) -> (r: String)
    ensures
        r@ == spec_notes_page(
            html_with(markdown@, note_events_of(markdown@).map_values(|e: (u8, Seq<char>)| escaped(e))),
        ),
{
    let events = escape_raw(note_events(markdown));
    let body = push_html_with(markdown, events);
    notes_page(body.as_str())
}

/// The last action the update window reported, waiting to be taken.
pub struct UpdateAction {
    action: i32,
    automatic: bool,
}

impl UpdateAction {
    /// The action waiting, 0 for none, and whether it came from an
    /// automatic check.
    pub closed spec fn waiting(&self) -> (i32, bool) {
        (self.action, self.automatic)
    }

    /// Nothing reported yet.
    pub fn new() -> (r: Self)
        ensures
            r.waiting() == (0i32, false),
    {
        UpdateAction { action: 0, automatic: false }
    }

    /// The window reports an action.
    pub fn report(&mut self, action: i32, automatic: bool)
        ensures
            final(self).waiting() == (action, automatic),
    {
        self.automatic = automatic;
        self.action = action;
    }
}

/// What taking finds in a slot holding `w`: the action, unless none waits.
pub open spec fn found(w: (i32, bool)) -> Option<(i32, bool)> {
    if w.0 != 0 {
        Some(w)
    } else {
        None
    }
}

/// Take the action the window reported, if any; the slot is emptied.
pub fn take_action(slot: &mut UpdateAction) -> (r: Option<(i32, bool)>)
    ensures
        r == found(old(slot).waiting()),
        final(slot).waiting() == (0i32, old(slot).waiting().1),
{
    let action = slot.action;
    slot.action = 0;
    if action != 0 {
        Some((action, slot.automatic))
    } else {
        None
    }
}

/// An action the window reports is taken exactly once: the first take
/// after the report finds it, the next finds nothing.
pub proof fn law_an_action_is_taken_once(action: i32, automatic: bool)
    requires
        action != 0,
    ensures
        found((action, automatic)) == Some((action, automatic)),
        found((0i32, automatic)) is None,
{
}

} // verus!
