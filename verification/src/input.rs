//! The text field's editing logic: where the cursor may go (lines, words,
//! grapheme clusters), UTF-16 offsets for the platform's input system, the
//! selection, and edits with undo and redo. Offsets are UTF-8 byte offsets.
use crate::text::{
    byte_len, chars_of, get_slice, lemma_byte_len_bound, lemma_byte_len_step,
    lemma_concat_boundary, lemma_encode_append, lemma_prefix_boundary, lemma_scalar_width,
    lemma_split_at_boundary, len_utf16, len_utf8, piece, push_str, string_of, utf16_width,
    utf8_width,
};
use std::ops::Range;
use unicode_segmentation::UnicodeSegmentation;
use vstd::prelude::*;
use vstd::utf8::{
    encode_utf8, encode_utf8_valid_utf8, is_ascii_chars, is_char_boundary,
    is_char_boundary_iff_not_is_continuation_byte, length_of_first_scalar, pop_first_scalar,
    valid_utf8,
};

verus! {

/// Byte offset `i` falls on a character boundary of `text`.
pub open spec fn on_boundary(text: Seq<char>, i: int) -> bool {
    0 <= i <= encode_utf8(text).len() && is_char_boundary(encode_utf8(text), i)
}

/// In valid UTF-8, the byte after a one-byte character starts a character.
proof fn lemma_after_ascii(bytes: Seq<u8>, i: int)
    requires
        valid_utf8(bytes),
        is_char_boundary(bytes, i),
        0 <= i < bytes.len(),
        bytes[i] < 0x80,
    ensures
        is_char_boundary(bytes, i + 1),
    decreases bytes.len(),
{
    let rest = pop_first_scalar(bytes);
    let first = length_of_first_scalar(bytes);
    assert(valid_utf8(rest));
    if i == 0 {
        assert(first == 1);
        assert(is_char_boundary(rest, 0));
    } else {
        assert(is_char_boundary(rest, i - first));
        assert(rest[i - first] == bytes[i]);
        lemma_after_ascii(rest, i - first);
    }
}

/// A newline starts a character, and so does the byte after it.
proof fn lemma_newline_boundaries(text: Seq<char>, i: int)
    requires
        0 <= i < encode_utf8(text).len(),
        encode_utf8(text)[i] == 10,
    ensures
        on_boundary(text, i),
        on_boundary(text, i + 1),
{
    let b = encode_utf8(text);
    encode_utf8_valid_utf8(text);
    is_char_boundary_iff_not_is_continuation_byte(b, i);
    lemma_after_ascii(b, i);
}

// ----- Lines -------------------------------------------------------------------

/// The first newline at or after byte `i`, or the end.
pub open spec fn next_newline(b: Seq<u8>, i: int) -> int
    decreases b.len() - i,
{
    if i < 0 || i >= b.len() {
        b.len() as int
    } else if b[i] == 10 {
        i
    } else {
        next_newline(b, i + 1)
    }
}

/// Where the line holding byte `i` starts: just after the last newline
/// before `i`, or the start.
pub open spec fn line_start(b: Seq<u8>, i: int) -> int
    decreases i,
{
    if i <= 0 || i > b.len() {
        0
    } else if b[i - 1] == 10 {
        i
    } else {
        line_start(b, i - 1)
    }
}

/// The end (forward) or the start of the line holding `offset`.
pub open spec fn spec_line_boundary(text: Seq<char>, offset: int, forward: bool) -> int {
    if forward {
        next_newline(encode_utf8(text), offset)
    } else {
        line_start(encode_utf8(text), offset)
    }
}

/// The end (forward) or the start of the line holding `offset`.
pub fn line_boundary(text: &str, offset: usize, forward: bool) -> (r: usize)
    requires
        on_boundary(text@, offset as int),
    ensures
        r == spec_line_boundary(text@, offset as int, forward),
        on_boundary(text@, r as int),
{
    let b = text.as_bytes();
    let ghost bytes = encode_utf8(text@);
    proof {
        encode_utf8_valid_utf8(text@);
        vstd::utf8::is_char_boundary_start_end_of_seq(bytes);
    }
    if forward {
        let mut i = offset;
        while i < b.len()
            invariant
                b@ == bytes,
                bytes == encode_utf8(text@),
                forward,
                offset <= i <= b.len(),
                next_newline(bytes, offset as int) == next_newline(bytes, i as int),
            decreases b.len() - i,
        {
            if b[i] == 10 {
                proof {
                    lemma_newline_boundaries(text@, i as int);
                    assert(bytes[i as int] == 10);
                    assert(next_newline(bytes, i as int) == i);
                }
                return i;
            }
            i += 1;
        }
        b.len()
    } else {
        let mut i = offset;
        while i > 0
            invariant
                b@ == bytes,
                bytes == encode_utf8(text@),
                !forward,
                i <= offset <= b.len(),
                line_start(bytes, offset as int) == line_start(bytes, i as int),
            decreases i,
        {
            if b[i - 1] == 10 {
                proof {
                    lemma_newline_boundaries(text@, i - 1);
                    assert(bytes[i - 1] == 10);
                    assert(line_start(bytes, i as int) == i);
                }
                return i;
            }
            i -= 1;
        }
        0
    }
}

// ----- What the field draws ---------------------------------------------------

/// How many newline bytes come before byte `end`.
pub open spec fn newlines_before(b: Seq<u8>, end: int) -> nat
    decreases end,
{
    if end <= 0 || end > b.len() {
        0
    } else {
        newlines_before(b, end - 1) + (if b[end - 1] == 10 {
            1nat
        } else {
            0nat
        })
    }
}

/// The number of newline bytes in `b[..end]`.
fn count_newlines(b: &[u8], end: usize) -> (r: usize)
    requires
        end <= b@.len(),
    ensures
        r == newlines_before(b@, end as int),
{
    let mut n: usize = 0;
    let mut i: usize = 0;
    while i < end
        invariant
            i <= end <= b@.len(),
            n == newlines_before(b@, i as int),
            n <= i,
        decreases end - i,
    {
        if b[i] == 10 {
            n += 1;
        }
        i += 1;
    }
    n
}

/// The rows a field is laid out with: one for a single line; else its
/// lines, at least two and at most five.
pub fn shown_rows(text: &str, multiline: bool) -> (r: usize)
    ensures
        r == (if !multiline {
            1
        } else if newlines_before(encode_utf8(text@), encode_utf8(text@).len() as int) + 1 < 2 {
            2
        } else if newlines_before(encode_utf8(text@), encode_utf8(text@).len() as int) + 1 > 5 {
            5
        } else {
            newlines_before(encode_utf8(text@), encode_utf8(text@).len() as int) + 1
        }),
{
    if !multiline {
        return 1;
    }
    let b = text.as_bytes();
    let lines = count_newlines(b, b.len());
    if lines < 1 {
        2
    } else if lines > 4 {
        5
    } else {
        lines + 1
    }
}

/// The first row a multi-line field shows: four rows above the cursor's
/// row, or the top.
pub fn first_row(text: &str, cursor: usize) -> (r: usize)
    requires
        cursor <= encode_utf8(text@).len(),
    ensures
        r == (if newlines_before(encode_utf8(text@), cursor as int) >= 4 {
            newlines_before(encode_utf8(text@), cursor as int) - 4
        } else {
            0
        }),
{
    let b = text.as_bytes();
    let row = count_newlines(b, cursor);
    if row >= 4 {
        row - 4
    } else {
        0
    }
}

/// The part of the selection on the line that starts at byte `offset` and
/// is `len` bytes long, from the line's start, or nothing when the
/// selection does not reach into it.
pub fn line_selection(selected: Range<usize>, offset: usize, len: usize) -> (r: Option<(usize, usize)>)
    requires
        offset + len <= usize::MAX,
    ensures
        ({
            let start = if selected.start > offset {
                selected.start as int
            } else {
                offset as int
            };
            let end = if selected.end < offset + len {
                selected.end as int
            } else {
                offset + len
            };
            r == (if start < end {
                Some(((start - offset) as usize, (end - offset) as usize))
            } else {
                None
            })
        }),
{
    let start = if selected.start > offset {
        selected.start
    } else {
        offset
    };
    let end = if selected.end < offset + len {
        selected.end
    } else {
        offset + len
    };
    if start < end {
        Some((start - offset, end - offset))
    } else {
        None
    }
}

/// What a one-line field shows: the placeholder (drawn grey) while it is
/// empty, a star for each byte of a secret field, or the text.
pub open spec fn spec_shown_text(content: Seq<char>, placeholder: Seq<char>, secret: bool) -> (Seq<char>, bool) {
    if content.len() == 0 {
        (placeholder, true)
    } else if secret {
        (Seq::new(encode_utf8(content).len(), |i: int| '*'), false)
    } else {
        (content, false)
    }
}

/// What a one-line field shows, and whether it is the placeholder.
pub fn shown_text(content: &str, placeholder: &str, secret: bool) -> (r: (String, bool))
    ensures
        (r.0@, r.1) == spec_shown_text(content@, placeholder@, secret),
{
    let b = content.as_bytes();
    if b.len() == 0 {
        proof {
            if content@.len() > 0 {
                lemma_byte_len_bound(content@, 1);
                lemma_byte_len_step(content@, 0);
                assert(content@.take(0) =~= Seq::<char>::empty());
            }
        }
        return (placeholder.to_string(), true);
    }
    assert(content@.len() > 0) by {
        if content@.len() == 0 {
            assert(content@ =~= Seq::<char>::empty());
        }
    }
    if secret {
        let mut stars: Vec<char> = Vec::new();
        let mut i: usize = 0;
        while i < b.len()
            invariant
                i <= b@.len(),
                stars@ =~= Seq::new(i as nat, |k: int| '*'),
            decreases b.len() - i,
        {
            stars.push('*');
            i += 1;
        }
        (string_of(&stars), false)
    } else {
        (content.to_string(), false)
    }
}

// ----- Words ---------------------------------------------------------------------

/// The words of `text` as `unicode_word_indices` finds them (the UAX #29
/// pieces that hold a letter or a digit), each as its byte offset and byte
/// length, in order.
pub uninterp spec fn unicode_words(text: Seq<char>) -> Seq<(usize, usize)>;

/// `unicode_segmentation`'s `unicode_word_indices`, each word given by its
/// offset and length. Each word is a slice of `text`, so both its ends fall
/// on character boundaries; the words themselves are named, not stated.
#[verifier::external_body]
fn word_indices(text: &str) -> (r: Vec<(usize, usize)>)
    ensures
        r@ == unicode_words(text@),
        forall|i: int|
            0 <= i < r.len() ==> on_boundary(text@, #[trigger] r[i].0 as int) && on_boundary(
                text@,
                r[i].0 + r[i].1,
            ),
{
    text.unicode_word_indices().map(|(start, word)| (start, word.len())).collect()
}

/// The end of the first of `words[i..]` that ends after `offset`, or `end`.
pub open spec fn word_end_after(words: Seq<(usize, usize)>, offset: int, end: int, i: int) -> int
    decreases words.len() - i,
{
    if i < 0 || i >= words.len() {
        end
    } else if words[i].0 + words[i].1 > offset {
        words[i].0 + words[i].1
    } else {
        word_end_after(words, offset, end, i + 1)
    }
}

/// The start of the last of `words[..i]` that starts before `offset`, or 0.
pub open spec fn word_start_before(words: Seq<(usize, usize)>, offset: int, i: int) -> int
    decreases i,
{
    if i <= 0 || i > words.len() {
        0
    } else if words[i - 1].0 < offset {
        words[i - 1].0 as int
    } else {
        word_start_before(words, offset, i - 1)
    }
}

/// Where a word move from `offset` lands: the end of the next word that
/// ends after it, or the start of the last word that starts before it.
pub open spec fn spec_word_boundary(text: Seq<char>, offset: int, forward: bool) -> int {
    let words = unicode_words(text);
    if forward {
        word_end_after(words, offset, encode_utf8(text).len() as int, 0)
    } else {
        word_start_before(words, offset, words.len() as int)
    }
}

/// Where a word move from `offset` lands.
pub fn word_boundary(text: &str, offset: usize, forward: bool) -> (r: usize)
    ensures
        r == spec_word_boundary(text@, offset as int, forward),
        on_boundary(text@, r as int),
{
    let words = word_indices(text);
    let size = text.as_bytes().len();
    proof {
        encode_utf8_valid_utf8(text@);
        vstd::utf8::is_char_boundary_start_end_of_seq(encode_utf8(text@));
    }
    if forward {
        let mut i: usize = 0;
        while i < words.len()
            invariant
                size == encode_utf8(text@).len(),
                words@ == unicode_words(text@),
                forall|k: int|
                    0 <= k < words.len() ==> on_boundary(text@, #[trigger] words[k].0 as int)
                        && on_boundary(text@, words[k].0 + words[k].1),
                i <= words.len(),
                spec_word_boundary(text@, offset as int, forward) == word_end_after(
                    words@,
                    offset as int,
                    size as int,
                    i as int,
                ),
            decreases words.len() - i,
        {
            let (start, len) = words[i];
            assert(on_boundary(text@, words[i as int].0 as int));
            if start + len > offset {
                return start + len;
            }
            i += 1;
        }
        size
    } else {
        let mut i: usize = words.len();
        while i > 0
            invariant
                words@ == unicode_words(text@),
                forall|k: int|
                    0 <= k < words.len() ==> on_boundary(text@, #[trigger] words[k].0 as int)
                        && on_boundary(text@, words[k].0 + words[k].1),
                i <= words.len(),
                spec_word_boundary(text@, offset as int, forward) == word_start_before(
                    words@,
                    offset as int,
                    i as int,
                ),
            decreases i,
        {
            let (start, _) = words[i - 1];
            assert(on_boundary(text@, words[i - 1].0 as int));
            if start < offset {
                return start;
            }
            i -= 1;
        }
        0
    }
}

// ----- Grapheme clusters -------------------------------------------------------

/// The byte offsets where the extended grapheme clusters of `text` start,
/// as `grapheme_indices(true)` lists them, in order.
pub uninterp spec fn grapheme_starts(text: Seq<char>) -> Seq<usize>;

/// `unicode_segmentation`'s `grapheme_indices(true)`, each cluster given by
/// its offset. Each cluster is a slice of `text`, so it starts on a
/// character boundary; the clusters themselves are named, not stated.
#[verifier::external_body]
fn grapheme_offsets(text: &str) -> (r: Vec<usize>)
    ensures
        r@ == grapheme_starts(text@),
        forall|i: int| 0 <= i < r.len() ==> on_boundary(text@, #[trigger] r[i] as int),
{
    text.grapheme_indices(true).map(|(start, _)| start).collect()
}

/// The last of `starts[..i]` before `offset`, or 0.
pub open spec fn start_before(starts: Seq<usize>, offset: int, i: int) -> int
    decreases i,
{
    if i <= 0 || i > starts.len() {
        0
    } else if starts[i - 1] < offset {
        starts[i - 1] as int
    } else {
        start_before(starts, offset, i - 1)
    }
}

/// The first of `starts[i..]` after `offset`, or `end`.
pub open spec fn start_after(starts: Seq<usize>, offset: int, end: int, i: int) -> int
    decreases starts.len() - i,
{
    if i < 0 || i >= starts.len() {
        end
    } else if starts[i] > offset {
        starts[i] as int
    } else {
        start_after(starts, offset, end, i + 1)
    }
}

/// The start of the grapheme cluster before `offset`, or 0.
pub fn previous_boundary(text: &str, offset: usize) -> (r: usize)
    ensures
        r == start_before(grapheme_starts(text@), offset as int, grapheme_starts(text@).len() as int),
        on_boundary(text@, r as int),
{
    let starts = grapheme_offsets(text);
    proof {
        encode_utf8_valid_utf8(text@);
        vstd::utf8::is_char_boundary_start_end_of_seq(encode_utf8(text@));
    }
    let mut i: usize = starts.len();
    while i > 0
        invariant
            starts@ == grapheme_starts(text@),
            forall|k: int| 0 <= k < starts.len() ==> on_boundary(text@, #[trigger] starts[k] as int),
            i <= starts.len(),
            start_before(starts@, offset as int, starts.len() as int) == start_before(
                starts@,
                offset as int,
                i as int,
            ),
        decreases i,
    {
        assert(on_boundary(text@, starts[i - 1] as int));
        if starts[i - 1] < offset {
            return starts[i - 1];
        }
        i -= 1;
    }
    0
}

/// The start of the grapheme cluster after `offset`, or the end.
pub fn next_boundary(text: &str, offset: usize) -> (r: usize)
    ensures
        r == start_after(grapheme_starts(text@), offset as int, encode_utf8(text@).len() as int, 0),
        on_boundary(text@, r as int),
{
    let starts = grapheme_offsets(text);
    let size = text.as_bytes().len();
    proof {
        encode_utf8_valid_utf8(text@);
        vstd::utf8::is_char_boundary_start_end_of_seq(encode_utf8(text@));
    }
    let mut i: usize = 0;
    while i < starts.len()
        invariant
            size == encode_utf8(text@).len(),
            starts@ == grapheme_starts(text@),
            forall|k: int| 0 <= k < starts.len() ==> on_boundary(text@, #[trigger] starts[k] as int),
            i <= starts.len(),
            start_after(starts@, offset as int, size as int, 0) == start_after(
                starts@,
                offset as int,
                size as int,
                i as int,
            ),
        decreases starts.len() - i,
    {
        assert(on_boundary(text@, starts[i as int] as int));
        if starts[i] > offset {
            return starts[i];
        }
        i += 1;
    }
    size
}

// ----- UTF-16 offsets ----------------------------------------------------------

/// The UTF-16 offset of byte `offset`: the UTF-16 length of the characters
/// counted until their UTF-8 length reaches `offset`.
pub open spec fn utf16_offset(chars: Seq<char>, offset: int) -> int
    decreases chars.len(),
{
    if chars.len() == 0 || offset <= 0 {
        0
    } else {
        utf16_width(chars[0]) + utf16_offset(chars.drop_first(), offset - utf8_width(chars[0]))
    }
}

/// The byte offset of UTF-16 offset `offset`: the UTF-8 length of the
/// characters counted until their UTF-16 length reaches `offset`.
pub open spec fn utf8_offset(chars: Seq<char>, offset: int) -> int
    decreases chars.len(),
{
    if chars.len() == 0 || offset <= 0 {
        0
    } else {
        utf8_width(chars[0]) + utf8_offset(chars.drop_first(), offset - utf16_width(chars[0]))
    }
}

/// The UTF-16 offset of byte `offset` in `text`.
pub fn offset_to_utf16(text: &str, offset: usize) -> (r: usize)
    ensures
        r == utf16_offset(text@, offset as int),
{
    let chars = chars_of(text);
    let size = text.as_bytes().len();
    let mut count8: usize = 0;
    let mut count16: usize = 0;
    let mut i: usize = 0;
    assert(chars@.skip(0) =~= chars@);
    while i < chars.len()
        invariant
            chars@ == text@,
            size == encode_utf8(text@).len(),
            i <= chars.len(),
            count8 == byte_len(chars@, i as int),
            count16 <= count8,
            utf16_offset(chars@, offset as int) == count16 + utf16_offset(
                chars@.skip(i as int),
                offset - count8,
            ),
        ensures
            i >= chars.len() || count8 >= offset,
        decreases chars.len() - i,
    {
        if count8 >= offset {
            break;
        }
        proof {
            lemma_byte_len_step(chars@, i as int);
            lemma_byte_len_bound(chars@, i + 1);
            assert(chars@.skip(i as int).drop_first() =~= chars@.skip(i + 1));
        }
        count16 += len_utf16(chars[i]);
        count8 += len_utf8(chars[i]);
        i += 1;
    }
    count16
}

/// The byte offset of UTF-16 offset `offset` in `text`; it always falls on
/// a character boundary.
pub fn offset_from_utf16(text: &str, offset: usize) -> (r: usize)
    ensures
        r == utf8_offset(text@, offset as int),
        on_boundary(text@, r as int),
{
    let chars = chars_of(text);
    let size = text.as_bytes().len();
    let mut count8: usize = 0;
    let mut count16: usize = 0;
    let mut i: usize = 0;
    proof {
        lemma_prefix_boundary(chars@, 0);
        assert(chars@.skip(0) =~= chars@);
    }
    while i < chars.len()
        invariant
            chars@ == text@,
            size == encode_utf8(text@).len(),
            i <= chars.len(),
            count8 == byte_len(chars@, i as int),
            count16 <= count8,
            on_boundary(text@, count8 as int),
            utf8_offset(chars@, offset as int) == count8 + utf8_offset(
                chars@.skip(i as int),
                offset - count16,
            ),
        ensures
            i >= chars.len() || count16 >= offset,
        decreases chars.len() - i,
    {
        if count16 >= offset {
            break;
        }
        proof {
            lemma_byte_len_step(chars@, i as int);
            lemma_byte_len_bound(chars@, i + 1);
            lemma_prefix_boundary(chars@, i + 1);
            assert(chars@.skip(i as int).drop_first() =~= chars@.skip(i + 1));
        }
        count16 += len_utf16(chars[i]);
        count8 += len_utf8(chars[i]);
        i += 1;
    }
    count8
}


// ----- The field -----------------------------------------------------------------

/// A text, its selection and the selection's direction, as an undo step
/// brings them back.
pub struct Snapshot {
    pub content: String,
    pub range: Range<usize>,
    pub reversed: bool,
}

/// A text field's editing state. The selection runs from `start` to `end`
/// in bytes; when it is reversed the cursor is at its start.
pub struct TextInput {
    pub secret: bool,
    pub multiline: bool,
    pub submit: bool,
    pub content: String,
    pub placeholder: String,
    pub selected_range: Range<usize>,
    pub selection_reversed: bool,
    pub marked_range: Option<Range<usize>>,
    pub is_selecting: bool,
    pub undo: Vec<Snapshot>,
    pub redo: Vec<Snapshot>,
}

/// A range of `text` that runs forward between character boundaries.
pub open spec fn range_in(text: Seq<char>, r: Range<usize>) -> bool {
    r.start <= r.end && on_boundary(text, r.start as int) && on_boundary(text, r.end as int)
}

/// A snapshot whose selection fits its text.
pub open spec fn snapshot_ok(s: Snapshot) -> bool {
    range_in(s.content@, s.range)
}

/// The snapshot of a field.
pub open spec fn snap_of(t: TextInput) -> Snapshot {
    Snapshot { content: t.content, range: t.selected_range, reversed: t.selection_reversed }
}

/// The field with another selection.
pub open spec fn with_selection(t: TextInput, r: Range<usize>, reversed: bool) -> TextInput {
    TextInput { selected_range: r, selection_reversed: reversed, ..t }
}

/// The field with the cursor alone at `offset`.
pub open spec fn moved(t: TextInput, offset: int) -> TextInput {
    with_selection(t, (offset as usize)..(offset as usize), false)
}

/// The field after the selection's moving end is taken to `offset`; the
/// selection flips when that end passes the other one.
pub open spec fn selected_to(t: TextInput, offset: int) -> TextInput {
    let (start, end) = if t.selection_reversed {
        (offset, t.selected_range.end as int)
    } else {
        (t.selected_range.start as int, offset)
    };
    if end < start {
        with_selection(t, (end as usize)..(start as usize), !t.selection_reversed)
    } else {
        with_selection(t, (start as usize)..(end as usize), t.selection_reversed)
    }
}

impl TextInput {
    /// Everything the field holds fits its text.
    pub open spec fn wf(&self) -> bool {
        &&& range_in(self.content@, self.selected_range)
        &&& self.marked_range matches Some(m) ==> range_in(self.content@, m)
        &&& forall|i: int| 0 <= i < self.undo.len() ==> snapshot_ok(#[trigger] self.undo[i])
        &&& forall|i: int| 0 <= i < self.redo.len() ==> snapshot_ok(#[trigger] self.redo[i])
    }

    /// Where the cursor is: the selection's moving end.
    pub open spec fn cursor(&self) -> int {
        if self.selection_reversed {
            self.selected_range.start as int
        } else {
            self.selected_range.end as int
        }
    }

    /// An empty field.
    pub fn new() -> (r: Self)
        ensures
            r.wf(),
            r.content@.len() == 0,
            r.placeholder@.len() == 0,
            r.selected_range == (0usize..0usize),
            !r.selection_reversed,
            r.marked_range is None,
            !r.secret && !r.multiline && !r.submit && !r.is_selecting,
            r.undo@.len() == 0,
            r.redo@.len() == 0,
    {
        proof {
            encode_utf8_valid_utf8(Seq::<char>::empty());
            vstd::utf8::is_char_boundary_start_end_of_seq(encode_utf8(Seq::<char>::empty()));
        }
        let r = TextInput {
            secret: false,
            multiline: false,
            submit: false,
            content: String::new(),
            placeholder: String::new(),
            selected_range: 0..0,
            selection_reversed: false,
            marked_range: None,
            is_selecting: false,
            undo: Vec::new(),
            redo: Vec::new(),
        };
        proof {
            assert(r.content@ =~= Seq::<char>::empty());
        }
        r
    }

    /// A one-line field that submits on Return; a secret one hides its text.
    pub fn field(placeholder: &str, secret: bool) -> (r: Self)
        ensures
            r.wf(),
            r.content@.len() == 0,
            r.placeholder@ == placeholder@,
            r.secret == secret,
            r.submit,
            !r.multiline,
            r.selected_range == (0usize..0usize),
            r.undo@.len() == 0,
            r.redo@.len() == 0,
    {
        let mut input = Self::new();
        input.placeholder = placeholder.to_string();
        input.secret = secret;
        input.submit = true;
        input
    }

    /// The Evee composer: a field of many lines.
    pub fn composer() -> (r: Self)
        ensures
            r.wf(),
            r.content@.len() == 0,
            r.placeholder@ == "Ask Evee…"@,
            !r.secret,
            r.submit,
            r.multiline,
            r.undo@.len() == 0,
            r.redo@.len() == 0,
    {
        let mut input = Self::field("Ask Evee…", false);
        input.multiline = true;
        input
    }

    /// Where the cursor is.
    pub fn cursor_offset(&self) -> (r: usize)
        ensures
            r == self.cursor(),
    {
        if self.selection_reversed {
            self.selected_range.start
        } else {
            self.selected_range.end
        }
    }

    /// Put the cursor alone at `offset`.
    pub fn move_to(&mut self, offset: usize)
        requires
            old(self).wf(),
            on_boundary(old(self).content@, offset as int),
        ensures
            final(self).wf(),
            *final(self) == moved(*old(self), offset as int),
    {
        self.selected_range = offset..offset;
        self.selection_reversed = false;
    }

    /// Take the selection's moving end to `offset`.
    pub fn select_to(&mut self, offset: usize)
        requires
            old(self).wf(),
            on_boundary(old(self).content@, offset as int),
        ensures
            final(self).wf(),
            *final(self) == selected_to(*old(self), offset as int),
    {
        if self.selection_reversed {
            self.selected_range.start = offset;
        } else {
            self.selected_range.end = offset;
        }
        if self.selected_range.end < self.selected_range.start {
            self.selection_reversed = !self.selection_reversed;
            self.selected_range = self.selected_range.end..self.selected_range.start;
        }
    }

    /// The text's length in bytes.
    fn size(&self) -> (r: usize)
        ensures
            r == encode_utf8(self.content@).len(),
            on_boundary(self.content@, r as int),
            on_boundary(self.content@, 0),
    {
        proof {
            encode_utf8_valid_utf8(self.content@);
            vstd::utf8::is_char_boundary_start_end_of_seq(encode_utf8(self.content@));
        }
        self.content.as_str().as_bytes().len()
    }

    /// Left: to the selection's start, or back one grapheme cluster.
    pub fn left(&mut self)
        requires
            old(self).wf(),
        ensures
            final(self).wf(),
            *final(self) == moved(
                *old(self),
                if old(self).selected_range.start == old(self).selected_range.end {
                    start_before(
                        grapheme_starts(old(self).content@),
                        old(self).cursor(),
                        grapheme_starts(old(self).content@).len() as int,
                    )
                } else {
                    old(self).selected_range.start as int
                },
            ),
    {
        if self.selected_range.start == self.selected_range.end {
            let to = previous_boundary(self.content.as_str(), self.cursor_offset());
            self.move_to(to);
        } else {
            let to = self.selected_range.start;
            self.move_to(to);
        }
    }

    /// Right: to the selection's end, or on one grapheme cluster.
    pub fn right(&mut self)
        requires
            old(self).wf(),
        ensures
            final(self).wf(),
            *final(self) == moved(
                *old(self),
                if old(self).selected_range.start == old(self).selected_range.end {
                    start_after(
                        grapheme_starts(old(self).content@),
                        old(self).selected_range.end as int,
                        encode_utf8(old(self).content@).len() as int,
                        0,
                    )
                } else {
                    old(self).selected_range.end as int
                },
            ),
    {
        if self.selected_range.start == self.selected_range.end {
            let to = next_boundary(self.content.as_str(), self.selected_range.end);
            self.move_to(to);
        } else {
            let to = self.selected_range.end;
            self.move_to(to);
        }
    }

    /// Shift-left: the cursor end goes back one grapheme cluster.
    pub fn select_left(&mut self)
        requires
            old(self).wf(),
        ensures
            final(self).wf(),
            *final(self) == selected_to(
                *old(self),
                start_before(
                    grapheme_starts(old(self).content@),
                    old(self).cursor(),
                    grapheme_starts(old(self).content@).len() as int,
                ),
            ),
    {
        let to = previous_boundary(self.content.as_str(), self.cursor_offset());
        self.select_to(to);
    }

    /// Shift-right: the cursor end goes on one grapheme cluster.
    pub fn select_right(&mut self)
        requires
            old(self).wf(),
        ensures
            final(self).wf(),
            *final(self) == selected_to(
                *old(self),
                start_after(
                    grapheme_starts(old(self).content@),
                    old(self).cursor(),
                    encode_utf8(old(self).content@).len() as int,
                    0,
                ),
            ),
    {
        let to = next_boundary(self.content.as_str(), self.cursor_offset());
        self.select_to(to);
    }

    /// Select the whole text, the cursor at its end.
    pub fn select_all(&mut self)
        requires
            old(self).wf(),
        ensures
            final(self).wf(),
            *final(self) == with_selection(
                *old(self),
                0usize..(encode_utf8(old(self).content@).len() as usize),
                false,
            ),
    {
        let end = self.size();
        self.move_to(0);
        self.select_to(end);
    }

    /// Home: the start of the cursor's line.
    pub fn home(&mut self)
        requires
            old(self).wf(),
        ensures
            final(self).wf(),
            *final(self) == moved(
                *old(self),
                spec_line_boundary(old(self).content@, old(self).cursor(), false),
            ),
    {
        let to = line_boundary(self.content.as_str(), self.cursor_offset(), false);
        self.move_to(to);
    }

    /// End: the end of the cursor's line.
    pub fn end(&mut self)
        requires
            old(self).wf(),
        ensures
            final(self).wf(),
            *final(self) == moved(
                *old(self),
                spec_line_boundary(old(self).content@, old(self).cursor(), true),
            ),
    {
        let to = line_boundary(self.content.as_str(), self.cursor_offset(), true);
        self.move_to(to);
    }
}


// ----- Edits -----------------------------------------------------------------

/// `text.replace("\r\n", "\n").replace('\r', "\n")`: every line break becomes "\n".
pub open spec fn unify_newlines(s: Seq<char>) -> Seq<char>
    decreases s.len(),
{
    if s.len() == 0 {
        s
    } else if s[0] == '\r' && s.len() > 1 && s[1] == '\n' {
        unify_newlines(s.drop_first())
    } else if s[0] == '\r' {
        seq!['\n'] + unify_newlines(s.drop_first())
    } else {
        seq![s[0]] + unify_newlines(s.drop_first())
    }
}

/// `text.replace(['\n', '\r'], " ")`: a one-line field takes line breaks as spaces.
pub open spec fn flatten_lines(s: Seq<char>) -> Seq<char> {
    s.map_values(|c: char| if c == '\n' || c == '\r' { ' ' } else { c })
}

/// What a field inserts for `s`.
pub open spec fn normalized(multiline: bool, s: Seq<char>) -> Seq<char> {
    if multiline {
        unify_newlines(s)
    } else {
        flatten_lines(s)
    }
}

/// Writing line breaks one way or another never makes a text longer.
proof fn lemma_normalized_len(multiline: bool, s: Seq<char>)
    ensures
        encode_utf8(normalized(multiline, s)).len() <= encode_utf8(s).len(),
    decreases s.len(),
{
    if s.len() > 0 {
        let rest = s.drop_first();
        lemma_normalized_len(multiline, rest);
        lemma_scalar_width(s[0]);
        if multiline {
            if s[0] == '\r' && s.len() > 1 && s[1] == '\n' {
            } else if s[0] == '\r' {
                lemma_encode_append(seq!['\n'], unify_newlines(rest));
                lemma_scalar_width('\n');
            } else {
                lemma_encode_append(seq![s[0]], unify_newlines(rest));
            }
        } else {
            let c = if s[0] == '\n' || s[0] == '\r' {
                ' '
            } else {
                s[0]
            };
            assert(flatten_lines(s) =~= seq![c] + flatten_lines(rest));
            lemma_encode_append(seq![c], flatten_lines(rest));
            lemma_scalar_width(c);
        }
    }
}

/// What a field inserts for `text`.
fn normalize(multiline: bool, text: &str) -> (r: String)
    ensures
        r@ == normalized(multiline, text@),
{
    let chars = chars_of(text);
    let mut out: Vec<char> = Vec::new();
    let mut i: usize = 0;
    proof {
        assert(chars@.skip(0) =~= chars@);
    }
    while i < chars.len()
        invariant
            chars@ == text@,
            i <= chars.len(),
            normalized(multiline, text@) == out@ + normalized(multiline, chars@.skip(i as int)),
        decreases chars.len() - i,
    {
        let c = chars[i];
        let ghost rest = chars@.skip(i as int);
        proof {
            assert(rest.drop_first() =~= chars@.skip(i + 1));
            assert(rest[0] == c);
        }
        if multiline {
            if c == '\r' && i + 1 < chars.len() && chars[i + 1] == '\n' {
                assert(rest[1] == chars@[i + 1]);
            } else if c == '\r' {
                out.push('\n');
                proof {
                    assert(out@ =~= out@.drop_last() + seq!['\n']);
                }
            } else {
                out.push(c);
                proof {
                    assert(out@ =~= out@.drop_last() + seq![c]);
                }
            }
        } else {
            let d = if c == '\n' || c == '\r' {
                ' '
            } else {
                c
            };
            out.push(d);
            proof {
                assert(flatten_lines(rest) =~= seq![d] + flatten_lines(chars@.skip(i + 1)));
                assert(out@ =~= out@.drop_last() + seq![d]);
            }
        }
        i += 1;
    }
    proof {
        assert(chars@.skip(chars.len() as int) =~= Seq::<char>::empty());
        assert(out@ + Seq::<char>::empty() =~= out@);
    }
    string_of(&out)
}

/// `text` with the bytes of `r` replaced by `new`.
pub open spec fn spliced(text: Seq<char>, r: Range<usize>, new: Seq<char>) -> Seq<char> {
    piece(text, 0, r.start as int) + new + piece(text, r.end as int, encode_utf8(text).len() as int)
}

/// The undo stack keeps the last hundred steps.
pub open spec fn capped(undo: Seq<Snapshot>) -> Seq<Snapshot> {
    if undo.len() == 100 {
        undo.drop_first()
    } else {
        undo
    }
}

/// Two fields that differ at most in their text, selection and history.
pub open spec fn same_settings(a: TextInput, b: TextInput) -> bool {
    &&& a.secret == b.secret
    &&& a.multiline == b.multiline
    &&& a.submit == b.submit
    &&& a.placeholder == b.placeholder
    &&& a.is_selecting == b.is_selecting
}

impl TextInput {
    /// Whether the field takes `new_text`: a secret field only ASCII, and
    /// no field more than 64 KiB in all.
    pub open spec fn accepts(&self, new_text: Seq<char>) -> bool {
        &&& !(self.secret && !is_ascii_chars(new_text))
        &&& encode_utf8(self.content@).len() + encode_utf8(new_text).len() <= 65536
    }

    /// The bytes an edit replaces: the given UTF-16 range, else the marked
    /// text, else the selection.
    pub open spec fn edit_range(&self, range_utf16: Option<Range<usize>>) -> Range<usize> {
        match range_utf16 {
            Some(r) => (utf8_offset(self.content@, r.start as int) as usize)..(utf8_offset(
                self.content@,
                r.end as int,
            ) as usize),
            None => match self.marked_range {
                Some(m) => m,
                None => self.selected_range,
            },
        }
    }
}

/// `after` is `before` once `new_text` has been typed over the edit range:
/// the step can be undone, redo is forgotten, and the cursor follows the
/// inserted text. A field that does not take the text stays as it was.
pub open spec fn replaced(
    before: TextInput,
    after: TextInput,
    range_utf16: Option<Range<usize>>,
    new_text: Seq<char>,
) -> bool {
    if !before.accepts(new_text) {
        after == before
    } else {
        let r = before.edit_range(range_utf16);
        let n = normalized(before.multiline, new_text);
        let at = r.start + encode_utf8(n).len();
        &&& after.content@ == spliced(before.content@, r, n)
        &&& after.selected_range == ((at as usize)..(at as usize))
        &&& after.selection_reversed == before.selection_reversed
        &&& after.marked_range is None
        &&& after.undo@ == capped(before.undo@).push(snap_of(before))
        &&& after.redo@.len() == 0
        &&& same_settings(before, after)
    }
}

/// `after` is `before` with its last step undone: the text and selection
/// come back from the undo stack and the present goes on the redo stack.
pub open spec fn undone(before: TextInput, after: TextInput) -> bool {
    if before.undo.len() == 0 {
        after == before
    } else {
        let s = before.undo@.last();
        &&& after.content == s.content
        &&& after.selected_range == s.range
        &&& after.selection_reversed == s.reversed
        &&& after.marked_range is None
        &&& after.undo@ == before.undo@.drop_last()
        &&& after.redo@ == before.redo@.push(snap_of(before))
        &&& same_settings(before, after)
    }
}

/// `after` is `before` with its last undone step redone.
pub open spec fn redone(before: TextInput, after: TextInput) -> bool {
    if before.redo.len() == 0 {
        after == before
    } else {
        let s = before.redo@.last();
        &&& after.content == s.content
        &&& after.selected_range == s.range
        &&& after.selection_reversed == s.reversed
        &&& after.marked_range is None
        &&& after.redo@ == before.redo@.drop_last()
        &&& after.undo@ == before.undo@.push(snap_of(before))
        &&& same_settings(before, after)
    }
}

impl TextInput {
    /// The text, selection and direction, to come back to.
    fn snapshot(&self) -> (r: Snapshot)
        ensures
            r == snap_of(*self),
    {
        Snapshot {
            content: self.content.clone(),
            range: self.selected_range.start..self.selected_range.end,
            reversed: self.selection_reversed,
        }
    }

    /// Bring back a snapshot; any marked text is let go.
    fn restore(&mut self, snapshot: Snapshot)
        requires
            snapshot_ok(snapshot),
            old(self).wf(),
        ensures
            *final(self) == (TextInput {
                content: snapshot.content,
                selected_range: snapshot.range,
                selection_reversed: snapshot.reversed,
                marked_range: None,
                ..*old(self)
            }),
            final(self).wf(),
    {
        self.content = snapshot.content;
        self.selected_range = snapshot.range;
        self.selection_reversed = snapshot.reversed;
        self.marked_range = None;
    }

    /// Undo the last edit.
    pub fn undo(&mut self)
        requires
            old(self).wf(),
        ensures
            final(self).wf(),
            undone(*old(self), *final(self)),
    {
        let ghost before = *self;
        if self.undo.len() == 0 {
            return;
        }
        match self.undo.pop() {
            Some(snapshot) => {
                let now = self.snapshot();
                self.redo.push(now);
                proof {
                    assert(snapshot == before.undo@.last());
                    assert(snapshot_ok(before.undo[before.undo.len() - 1]));
                }
                self.restore(snapshot);
                proof {
                    assert forall|i: int| 0 <= i < self.redo.len() implies snapshot_ok(
                        #[trigger] self.redo[i],
                    ) by {
                        if i < before.redo.len() {
                            assert(self.redo[i] == before.redo[i]);
                        }
                    }
                }
            },
            None => {},
        }
    }

    /// Redo the last undone edit.
    pub fn redo(&mut self)
        requires
            old(self).wf(),
        ensures
            final(self).wf(),
            redone(*old(self), *final(self)),
    {
        let ghost before = *self;
        if self.redo.len() == 0 {
            return;
        }
        match self.redo.pop() {
            Some(snapshot) => {
                let now = self.snapshot();
                self.undo.push(now);
                proof {
                    assert(snapshot == before.redo@.last());
                    assert(snapshot_ok(before.redo[before.redo.len() - 1]));
                }
                self.restore(snapshot);
                proof {
                    assert forall|i: int| 0 <= i < self.undo.len() implies snapshot_ok(
                        #[trigger] self.undo[i],
                    ) by {
                        if i < before.undo.len() {
                            assert(self.undo[i] == before.undo[i]);
                        }
                    }
                }
            },
            None => {},
        }
    }

    /// The bytes an edit replaces: the given UTF-16 range, else the marked
    /// text, else the selection.
    fn resolve_range(&self, range_utf16: &Option<Range<usize>>) -> (r: Range<usize>)
        requires
            self.wf(),
        ensures
            r == self.edit_range(*range_utf16),
            on_boundary(self.content@, r.start as int),
            on_boundary(self.content@, r.end as int),
    {
        match range_utf16 {
            Some(r) => offset_from_utf16(self.content.as_str(), r.start)..offset_from_utf16(
                self.content.as_str(),
                r.end,
            ),
            None => match &self.marked_range {
                Some(m) => m.start..m.end,
                None => self.selected_range.start..self.selected_range.end,
            },
        }
    }

    /// Type `new_text` over the given UTF-16 range, the marked text or the
    /// selection. A secret field takes only ASCII, and no field grows past
    /// 64 KiB; line breaks follow the field's kind.
    pub fn replace_text_in_range(&mut self, range_utf16: Option<Range<usize>>, new_text: &str)
        requires
            old(self).wf(),
        ensures
            final(self).wf(),
            replaced(*old(self), *final(self), range_utf16, new_text@),
    {
        let ghost before = *self;
        let size = self.size();
        let added = new_text.as_bytes().len();
        if (self.secret && !new_text.is_ascii()) || added > 65536 || size > 65536 - added {
            return;
        }
        let text = normalize(self.multiline, new_text);
        proof {
            lemma_normalized_len(self.multiline, new_text@);
        }
        let range = self.resolve_range(&range_utf16);
        if self.undo.len() == 100 {
            self.undo.remove(0);
        }
        let now = self.snapshot();
        self.undo.push(now);
        self.redo = Vec::new();
        let mut out: Vec<char> = Vec::new();
        proof {
            lemma_split_at_boundary(before.content@, range.start as int);
            lemma_split_at_boundary(before.content@, range.end as int);
        }
        match get_slice(self.content.as_str(), 0, range.start) {
            Some(head) => push_str(&mut out, head),
            None => {},
        }
        push_str(&mut out, text.as_str());
        match get_slice(self.content.as_str(), range.end, size) {
            Some(tail) => push_str(&mut out, tail),
            None => {},
        }
        let inserted = text.as_str().as_bytes().len();
        let at = range.start + inserted;
        self.content = string_of(&out);
        self.selected_range = at..at;
        self.marked_range = None;
        proof {
            let head = piece(before.content@, 0, range.start as int);
            let tail = piece(before.content@, range.end as int, size as int);
            lemma_encode_append(head, text@);
            lemma_concat_boundary(head + text@, tail);
            lemma_encode_append(head + text@, tail);
            assert(out@ == head + text@ + tail);
            assert forall|i: int| 0 <= i < self.undo.len() implies snapshot_ok(
                #[trigger] self.undo[i],
            ) by {
                if i < self.undo.len() - 1 {
                    if before.undo.len() == 100 {
                        assert(self.undo[i] == before.undo[i + 1]);
                    } else {
                        assert(self.undo[i] == before.undo[i]);
                    }
                }
            }
        }
    }
}

/// Undo takes back an edit the field took: the text, the selection and
/// its direction are as before it. Redo then brings the edit back.
pub proof fn law_undo_takes_back_an_edit(
    t0: TextInput,
    t1: TextInput,
    t2: TextInput,
    t3: TextInput,
    range_utf16: Option<Range<usize>>,
    new_text: Seq<char>,
)
    requires
        t0.accepts(new_text),
        replaced(t0, t1, range_utf16, new_text),
        undone(t1, t2),
        redone(t2, t3),
    ensures
        t2.content == t0.content,
        t2.selected_range == t0.selected_range,
        t2.selection_reversed == t0.selection_reversed,
        t2.undo@ == capped(t0.undo@),
        t2.redo@ == seq![snap_of(t1)],
        t3.content == t1.content,
        t3.selected_range == t1.selected_range,
        t3.selection_reversed == t1.selection_reversed,
        t3.redo@.len() == 0,
{
    assert(t1.undo@.last() == snap_of(t0));
    assert(t1.undo@.drop_last() =~= capped(t0.undo@));
    assert(t2.redo@ =~= seq![snap_of(t1)]);
    assert(seq![snap_of(t1)].drop_last() =~= Seq::<Snapshot>::empty());
}


// ----- Commands on the field ---------------------------------------------------

/// What a boundary move goes by.
#[derive(Clone, Copy, Debug, PartialEq, Eq, Structural)]
pub enum Boundary {
    Word,
    Line,
}

/// A move to the next word or line boundary, which may select or delete
/// what it passes.
#[derive(Clone, Copy, Debug, PartialEq, Eq, Structural)]
pub struct BoundaryEdit {
    pub boundary: Boundary,
    pub forward: bool,
    pub select: bool,
    pub delete: bool,
}

/// Where a boundary move from `offset` lands.
pub open spec fn boundary_target(text: Seq<char>, offset: int, boundary: Boundary, forward: bool) -> int {
    match boundary {
        Boundary::Word => spec_word_boundary(text, offset, forward),
        Boundary::Line => spec_line_boundary(text, offset, forward),
    }
}

/// The field before a deletion: an empty selection is first stretched to `to`.
pub open spec fn stretched(t: TextInput, to: int) -> TextInput {
    if t.selected_range.start == t.selected_range.end {
        selected_to(t, to)
    } else {
        t
    }
}

/// Each UTF-16 offset of a text lands no earlier than those before it.
proof fn lemma_utf8_offset_monotone(chars: Seq<char>, a: int, b: int)
    requires
        a <= b,
    ensures
        0 <= utf8_offset(chars, a) <= utf8_offset(chars, b),
    decreases chars.len(),
{
    if chars.len() > 0 && a > 0 {
        lemma_utf8_offset_monotone(chars.drop_first(), a - utf16_width(chars[0]), b - utf16_width(chars[0]));
    } else if chars.len() > 0 && b > 0 {
        lemma_utf8_offset_monotone(
            chars.drop_first(),
            b - utf16_width(chars[0]),
            b - utf16_width(chars[0]),
        );
    }
}

/// The characters between two byte offsets of `text`, as `&text[start..end]` gives them.
fn slice_text(text: &str, start: usize, end: usize) -> (r: String)
    requires
        start <= end,
        on_boundary(text@, start as int),
        on_boundary(text@, end as int),
    ensures
        r@ == piece(text@, start as int, end as int),
{
    let mut out: Vec<char> = Vec::new();
    match get_slice(text, start, end) {
        Some(p) => push_str(&mut out, p),
        None => {},
    }
    string_of(&out)
}

impl TextInput {
    /// Backspace: delete the selection, or the grapheme cluster before the cursor.
    pub fn backspace(&mut self)
        requires
            old(self).wf(),
        ensures
            final(self).wf(),
            replaced(
                stretched(
                    *old(self),
                    start_before(
                        grapheme_starts(old(self).content@),
                        old(self).cursor(),
                        grapheme_starts(old(self).content@).len() as int,
                    ),
                ),
                *final(self),
                None,
                ""@,
            ),
    {
        if self.selected_range.start == self.selected_range.end {
            let to = previous_boundary(self.content.as_str(), self.cursor_offset());
            self.select_to(to);
        }
        self.replace_text_in_range(None, "");
    }

    /// Delete: delete the selection, or the grapheme cluster after the cursor.
    pub fn delete(&mut self)
        requires
            old(self).wf(),
        ensures
            final(self).wf(),
            replaced(
                stretched(
                    *old(self),
                    start_after(
                        grapheme_starts(old(self).content@),
                        old(self).cursor(),
                        encode_utf8(old(self).content@).len() as int,
                        0,
                    ),
                ),
                *final(self),
                None,
                ""@,
            ),
    {
        if self.selected_range.start == self.selected_range.end {
            let to = next_boundary(self.content.as_str(), self.cursor_offset());
            self.select_to(to);
        }
        self.replace_text_in_range(None, "");
    }

    /// Move to the next word or line boundary, selecting or deleting on the way.
    pub fn boundary_edit(&mut self, action: &BoundaryEdit)
        requires
            old(self).wf(),
        ensures
            final(self).wf(),
            ({
                let to = boundary_target(
                    old(self).content@,
                    old(self).cursor(),
                    action.boundary,
                    action.forward,
                );
                if action.delete {
                    replaced(stretched(*old(self), to), *final(self), None, ""@)
                } else if action.select {
                    *final(self) == selected_to(*old(self), to)
                } else {
                    *final(self) == moved(*old(self), to)
                }
            }),
    {
        let offset = match action.boundary {
            Boundary::Word => word_boundary(self.content.as_str(), self.cursor_offset(), action.forward),
            Boundary::Line => line_boundary(self.content.as_str(), self.cursor_offset(), action.forward),
        };
        if action.delete {
            if self.selected_range.start == self.selected_range.end {
                self.select_to(offset);
            }
            self.replace_text_in_range(None, "");
        } else if action.select {
            self.select_to(offset);
        } else {
            self.move_to(offset);
        }
    }

    /// What Copy puts on the clipboard: the selected text, unless the field
    /// is secret or nothing is selected.
    pub fn copy(&self) -> (r: Option<String>)
        requires
            self.wf(),
        ensures
            match r {
                Some(t) => !self.secret && self.selected_range.start < self.selected_range.end
                    && t@ == piece(
                    self.content@,
                    self.selected_range.start as int,
                    self.selected_range.end as int,
                ),
                None => self.secret || self.selected_range.start == self.selected_range.end,
            },
    {
        if !self.secret && self.selected_range.start != self.selected_range.end {
            Some(slice_text(self.content.as_str(), self.selected_range.start, self.selected_range.end))
        } else {
            None
        }
    }

    /// Cut: the selection goes, and what the clipboard gets is returned (nothing
    /// for a secret field). Without a selection nothing happens.
    pub fn cut(&mut self) -> (r: Option<String>)
        requires
            old(self).wf(),
        ensures
            final(self).wf(),
            old(self).selected_range.start == old(self).selected_range.end ==> r is None
                && *final(self) == *old(self),
            old(self).selected_range.start != old(self).selected_range.end ==> {
                &&& replaced(*old(self), *final(self), None, ""@)
                &&& match r {
                    Some(t) => !old(self).secret && t@ == piece(
                        old(self).content@,
                        old(self).selected_range.start as int,
                        old(self).selected_range.end as int,
                    ),
                    None => old(self).secret,
                }
            },
    {
        if self.selected_range.start == self.selected_range.end {
            return None;
        }
        let clip = if !self.secret {
            Some(slice_text(self.content.as_str(), self.selected_range.start, self.selected_range.end))
        } else {
            None
        };
        self.replace_text_in_range(None, "");
        clip
    }

    /// Paste the clipboard's text over the selection.
    pub fn paste(&mut self, text: &str)
        requires
            old(self).wf(),
        ensures
            final(self).wf(),
            replaced(*old(self), *final(self), None, text@),
    {
        self.replace_text_in_range(None, text);
    }

    /// Empty the field and forget its history.
    pub fn reset(&mut self)
        requires
            old(self).wf(),
        ensures
            final(self).wf(),
            final(self).content@.len() == 0,
            final(self).selected_range == (0usize..0usize),
            !final(self).selection_reversed,
            final(self).marked_range is None,
            !final(self).is_selecting,
            final(self).undo@.len() == 0,
            final(self).redo@.len() == 0,
            final(self).secret == old(self).secret,
            final(self).multiline == old(self).multiline,
            final(self).submit == old(self).submit,
            final(self).placeholder == old(self).placeholder,
    {
        proof {
            encode_utf8_valid_utf8(Seq::<char>::empty());
            vstd::utf8::is_char_boundary_start_end_of_seq(encode_utf8(Seq::<char>::empty()));
        }
        self.content = String::new();
        self.selected_range = 0..0;
        self.selection_reversed = false;
        self.marked_range = None;
        self.is_selecting = false;
        self.undo = Vec::new();
        self.redo = Vec::new();
        proof {
            assert(self.content@ =~= Seq::<char>::empty());
        }
    }

    /// Replace the whole text, the cursor at its end, with no history.
    pub fn set_text(&mut self, text: &str)
        requires
            old(self).wf(),
        ensures
            final(self).wf(),
            final(self).content@ == text@,
            final(self).selected_range == ((encode_utf8(text@).len() as usize)..(encode_utf8(
                text@,
            ).len() as usize)),
            !final(self).selection_reversed,
            final(self).marked_range is None,
            !final(self).is_selecting,
            final(self).undo@.len() == 0,
            final(self).redo@.len() == 0,
            final(self).secret == old(self).secret,
            final(self).multiline == old(self).multiline,
            final(self).submit == old(self).submit,
            final(self).placeholder == old(self).placeholder,
    {
        self.reset();
        self.content = text.to_string();
        let end = self.size();
        self.selected_range = end..end;
    }

    /// The text in a UTF-16 range and the range it really covers, unless
    /// the field is secret.
    pub fn text_for_range(&self, range_utf16: Range<usize>) -> (r: Option<(String, Range<usize>)>)
        requires
            self.wf(),
            range_utf16.start <= range_utf16.end,
        ensures
            self.secret ==> r is None,
            !self.secret ==> (r matches Some((t, actual)) && {
                let start = utf8_offset(self.content@, range_utf16.start as int);
                let end = utf8_offset(self.content@, range_utf16.end as int);
                &&& t@ == piece(self.content@, start, end)
                &&& actual.start == utf16_offset(self.content@, start)
                &&& actual.end == utf16_offset(self.content@, end)
            }),
    {
        if self.secret {
            return None;
        }
        let text = self.content.as_str();
        let start = offset_from_utf16(text, range_utf16.start);
        let end = offset_from_utf16(text, range_utf16.end);
        proof {
            lemma_utf8_offset_monotone(self.content@, range_utf16.start as int, range_utf16.end as int);
        }
        let actual = offset_to_utf16(text, start)..offset_to_utf16(text, end);
        Some((slice_text(text, start, end), actual))
    }

    /// The selection in UTF-16 offsets, and whether it is reversed.
    pub fn selected_text_range(&self) -> (r: (Range<usize>, bool))
        ensures
            r.0.start == utf16_offset(self.content@, self.selected_range.start as int),
            r.0.end == utf16_offset(self.content@, self.selected_range.end as int),
            r.1 == self.selection_reversed,
    {
        let text = self.content.as_str();
        (
            offset_to_utf16(text, self.selected_range.start)..offset_to_utf16(text, self.selected_range.end),
            self.selection_reversed,
        )
    }

    /// The marked text in UTF-16 offsets.
    pub fn marked_text_range(&self) -> (r: Option<Range<usize>>)
        ensures
            match self.marked_range {
                Some(m) => (r matches Some(u) && u.start == utf16_offset(self.content@, m.start as int)
                    && u.end == utf16_offset(self.content@, m.end as int)),
                None => r is None,
            },
    {
        match &self.marked_range {
            Some(m) => {
                let text = self.content.as_str();
                Some(offset_to_utf16(text, m.start)..offset_to_utf16(text, m.end))
            },
            None => None,
        }
    }

    /// Let go of the marked text.
    pub fn unmark_text(&mut self)
        requires
            old(self).wf(),
        ensures
            final(self).wf(),
            *final(self) == (TextInput { marked_range: None, ..*old(self) }),
    {
        self.marked_range = None;
    }
}


/// Whether a selection the input system gives for newly marked text lands
/// on character boundaries of the text it leaves; elsewhere later edits
/// of the field could not slice it.
pub open spec fn marked_selection_fits(
    before: TextInput,
    range_utf16: Option<Range<usize>>,
    new_text: Seq<char>,
    new_selected_range_utf16: Option<Range<usize>>,
) -> bool {
    before.accepts(new_text) ==> match new_selected_range_utf16 {
        Some(s) => {
            let r = before.edit_range(range_utf16);
            let c = spliced(before.content@, r, normalized(before.multiline, new_text));
            let a = utf8_offset(c, s.start as int) + r.start;
            let b = utf8_offset(c, s.end as int) + r.start;
            a <= b && on_boundary(c, a) && on_boundary(c, b)
        },
        None => true,
    }
}

/// `after` is `before` once the input system has put `new_text` over the
/// edit range as marked text, still being composed. This is no undo step.
pub open spec fn marked_in(
    before: TextInput,
    after: TextInput,
    range_utf16: Option<Range<usize>>,
    new_text: Seq<char>,
    new_selected_range_utf16: Option<Range<usize>>,
) -> bool {
    if !before.accepts(new_text) {
        after == before
    } else {
        let r = before.edit_range(range_utf16);
        let n = normalized(before.multiline, new_text);
        let c = spliced(before.content@, r, n);
        let at = r.start + encode_utf8(n).len();
        &&& after.content@ == c
        &&& after.marked_range == (if n.len() > 0 {
            Some(r.start..(at as usize))
        } else {
            None
        })
        &&& after.selected_range == match new_selected_range_utf16 {
            Some(s) => ((utf8_offset(c, s.start as int) + r.start) as usize)..((utf8_offset(
                c,
                s.end as int,
            ) + r.start) as usize),
            None => (at as usize)..(at as usize),
        }
        &&& after.selection_reversed == before.selection_reversed
        &&& after.undo == before.undo
        &&& after.redo == before.redo
        &&& same_settings(before, after)
    }
}

impl TextInput {
    /// Put `new_text` over the given UTF-16 range, the marked text or the
    /// selection, and mark it as text still being composed; the selection
    /// is the one the input system gives within it, or the end of it.
    pub fn replace_and_mark_text_in_range(
        &mut self,
        range_utf16: Option<Range<usize>>,
        new_text: &str,
        new_selected_range_utf16: Option<Range<usize>>,
    )
        requires
            old(self).wf(),
            marked_selection_fits(*old(self), range_utf16, new_text@, new_selected_range_utf16),
        ensures
            final(self).wf(),
            marked_in(*old(self), *final(self), range_utf16, new_text@, new_selected_range_utf16),
    {
        let ghost before = *self;
        let size = self.size();
        let added = new_text.as_bytes().len();
        if (self.secret && !new_text.is_ascii()) || added > 65536 || size > 65536 - added {
            return;
        }
        let text = normalize(self.multiline, new_text);
        proof {
            lemma_normalized_len(self.multiline, new_text@);
        }
        let range = self.resolve_range(&range_utf16);
        let mut out: Vec<char> = Vec::new();
        proof {
            lemma_split_at_boundary(before.content@, range.start as int);
            lemma_split_at_boundary(before.content@, range.end as int);
        }
        match get_slice(self.content.as_str(), 0, range.start) {
            Some(head) => push_str(&mut out, head),
            None => {},
        }
        push_str(&mut out, text.as_str());
        match get_slice(self.content.as_str(), range.end, size) {
            Some(tail) => push_str(&mut out, tail),
            None => {},
        }
        let inserted = text.as_str().as_bytes().len();
        let at = range.start + inserted;
        self.content = string_of(&out);
        proof {
            let head = piece(before.content@, 0, range.start as int);
            let tail = piece(before.content@, range.end as int, size as int);
            lemma_encode_append(head, text@);
            lemma_concat_boundary(head + text@, tail);
            lemma_encode_append(head + text@, tail);
            assert(out@ == head + text@ + tail);
            lemma_concat_boundary(head, text@ + tail);
            assert(head + (text@ + tail) =~= head + text@ + tail);
        }
        if text.as_str().as_bytes().len() != 0 {
            self.marked_range = Some(range.start..at);
        } else {
            self.marked_range = None;
        }
        match &new_selected_range_utf16 {
            Some(s) => {
                let new_size = self.size();
                let content = self.content.as_str();
                let from = offset_from_utf16(content, s.start);
                let to = offset_from_utf16(content, s.end);
                assert(from + range.start <= new_size);
                assert(to + range.start <= new_size);
                self.selected_range = (from + range.start)..(to + range.start);
            },
            None => {
                self.selected_range = at..at;
            },
        }
    }
}

} // verus!
