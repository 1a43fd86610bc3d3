//! Splitting text into ANSI escape sequences and visible characters,
//! measuring its visible width, and truncating it to a visible width.
use vstd::prelude::*;
use vstd::utf8::encode_utf8;

use crate::text::{chars_of, push_char, push_text};

verus! {

/// The escape character that starts an ANSI control sequence.
pub open spec fn escape_char() -> char {
    '\u{1b}'
}

/// Scanning from `k`, the index just past the first `m`, or the end of the text
/// when there is none: where an escape sequence that started before `k` ends.
pub open spec fn escape_end(s: Seq<char>, k: int) -> int
    decreases s.len() - k,
{
    if k >= s.len() {
        s.len() as int
    } else if s[k] == 'm' {
        k + 1
    } else {
        escape_end(s, k + 1)
    }
}

/// Where the segment that starts at `i` ends: an escape sequence runs up to and
/// including the next `m`; any other character is a segment of its own.
pub open spec fn segment_end(s: Seq<char>, i: int) -> int {
    if s[i] == escape_char() {
        escape_end(s, i + 1)
    } else {
        i + 1
    }
}

/// An escape sequence ends between where the scan starts and the end of the text.
pub proof fn lemma_escape_end_bounds(s: Seq<char>, k: int)
    requires
        0 <= k,
    ensures
        k <= s.len() ==> k <= escape_end(s, k) <= s.len(),
        k > s.len() ==> escape_end(s, k) == s.len(),
    decreases s.len() - k,
{
    if k < s.len() && s[k] != 'm' {
        lemma_escape_end_bounds(s, k + 1);
    }
}

/// Every segment holds at least one character and ends within the text.
pub proof fn lemma_segment_end_bounds(s: Seq<char>, i: int)
    requires
        0 <= i < s.len(),
    ensures
        i < segment_end(s, i) <= s.len(),
{
    lemma_escape_end_bounds(s, i + 1);
}

/// The number of visible characters from position `i` on: characters outside
/// escape sequences.
pub open spec fn visible_from(s: Seq<char>, i: int) -> nat
    decreases s.len() - i,
{
    if i < 0 || i >= s.len() {
        0
    } else {
        proof {
            lemma_segment_end_bounds(s, i);
        }
        if s[i] == escape_char() {
            visible_from(s, segment_end(s, i))
        } else {
            1 + visible_from(s, i + 1)
        }
    }
}

/// The number of visible characters of `s`.
pub open spec fn visible_length(s: Seq<char>) -> nat {
    visible_from(s, 0)
}

/// Scanning from `i`, where the visible character that comes after `budget` more
/// visible characters starts (the end of the text if there is none).
pub open spec fn cut_index(s: Seq<char>, i: int, budget: nat) -> int
    decreases s.len() - i,
{
    if i < 0 || i >= s.len() {
        s.len() as int
    } else {
        proof {
            lemma_segment_end_bounds(s, i);
        }
        if s[i] == escape_char() {
            cut_index(s, segment_end(s, i), budget)
        } else if budget == 0 {
            i
        } else {
            cut_index(s, i + 1, (budget - 1) as nat)
        }
    }
}

/// Byte length of the UTF-8 encoding of `s`, as `str::len` reports it.
pub open spec fn byte_len(s: Seq<char>) -> usize {
    encode_utf8(s).len() as usize
}

/// `text` cut down to at most `max_len` visible characters, ending in `overflow`.
/// The room left for text is `max_len` less the byte length of `overflow`;
/// escape sequences before the cut are kept.
pub open spec fn truncated(text: Seq<char>, overflow: Seq<char>, max_len: nat) -> Seq<char> {
    let overflow_len = byte_len(overflow);
    if visible_length(text) <= max_len {
        text
    } else if max_len <= overflow_len {
        overflow
    } else {
        text.take(cut_index(text, 0, (max_len - overflow_len) as nat)) + overflow
    }
}

proof fn lemma_escape_end_shift(a: Seq<char>, b: Seq<char>, k: int)
    requires
        0 <= k,
    ensures
        escape_end(a + b, a.len() + k) == a.len() + escape_end(b, k),
    decreases b.len() - k,
{
    if k < b.len() && b[k] != 'm' {
        lemma_escape_end_shift(a, b, k + 1);
    }
}

/// Counting visible characters from a position depends only on what follows it.
proof fn lemma_visible_from_shift(a: Seq<char>, b: Seq<char>, k: int)
    requires
        0 <= k,
    ensures
        visible_from(a + b, a.len() + k) == visible_from(b, k),
    decreases b.len() - k,
{
    if k < b.len() {
        lemma_segment_end_bounds(b, k);
        if b[k] == escape_char() {
            lemma_escape_end_shift(a, b, k + 1);
            lemma_visible_from_shift(a, b, segment_end(b, k));
        } else {
            lemma_visible_from_shift(a, b, k + 1);
        }
    }
}

/// An escape sequence that ends before the end of the text ends at an `m`.
proof fn lemma_escape_end_found(s: Seq<char>, k: int)
    requires
        0 <= k,
        escape_end(s, k) < s.len(),
    ensures
        k < escape_end(s, k),
        s[escape_end(s, k) - 1] == 'm',
    decreases s.len() - k,
{
    if s[k] != 'm' {
        lemma_escape_end_found(s, k + 1);
    }
}

/// Two texts that agree up to `c` end an escape sequence at the same `m` when
/// that `m` lies before `c`.
proof fn lemma_escape_end_prefix(s: Seq<char>, t: Seq<char>, k: int, c: int)
    requires
        0 <= k,
        c <= t.len(),
        c <= s.len(),
        forall|j: int| 0 <= j < c ==> t[j] == s[j],
        k < escape_end(s, k) <= c,
        s[escape_end(s, k) - 1] == 'm',
    ensures
        escape_end(t, k) == escape_end(s, k),
    decreases s.len() - k,
{
    lemma_escape_end_bounds(s, k);
    if s[k] != 'm' {
        lemma_escape_end_prefix(s, t, k + 1, c);
    }
}

proof fn lemma_visible_from_bound(s: Seq<char>, i: int)
    requires
        0 <= i,
    ensures
        visible_from(s, i) <= if i <= s.len() { s.len() - i } else { 0 },
    decreases s.len() - i,
{
    if i < s.len() {
        lemma_segment_end_bounds(s, i);
        lemma_visible_from_bound(s, segment_end(s, i));
    }
}

/// Keeping the text before the cut and appending `o` leaves exactly `r`
/// visible characters of the text, then those of `o`.
proof fn lemma_cut_visible(s: Seq<char>, o: Seq<char>, i: int, r: nat)
    requires
        0 <= i <= s.len(),
        r < visible_from(s, i),
    ensures
        i <= cut_index(s, i, r) < s.len(),
        visible_from(s.take(cut_index(s, i, r)) + o, i) == r + visible_from(o, 0),
    decreases s.len() - i,
{
    let c = cut_index(s, i, r);
    lemma_segment_end_bounds(s, i);
    if s[i] == escape_char() {
        let e = segment_end(s, i);
        lemma_escape_end_bounds(s, i + 1);
        assert(visible_from(s, i) == visible_from(s, e));
        assert(e < s.len());
        lemma_escape_end_found(s, i + 1);
        lemma_cut_visible(s, o, e, r);
        let t = s.take(c) + o;
        assert forall|j: int| 0 <= j < c implies t[j] == s[j] by {}
        lemma_escape_end_prefix(s, t, i + 1, c);
    } else if r == 0 {
        lemma_visible_from_shift(s.take(i), o, 0);
    } else {
        lemma_cut_visible(s, o, i + 1, (r - 1) as nat);
    }
}

proof fn lemma_encode_utf8_len(s: Seq<char>)
    ensures
        s.len() <= encode_utf8(s).len(),
    decreases s.len(),
{
    if s.len() > 0 {
        lemma_encode_utf8_len(s.drop_first());
    }
}

proof fn lemma_visible_from_plain(s: Seq<char>, i: int)
    requires
        0 <= i <= s.len(),
        forall|j: int| 0 <= j < s.len() ==> s[j] != escape_char(),
    ensures
        visible_from(s, i) == s.len() - i,
    decreases s.len() - i,
{
    if i < s.len() {
        lemma_visible_from_plain(s, i + 1);
    }
}

/// Text without escape characters shows every one of its characters.
pub proof fn law_visible_length_plain(s: Seq<char>)
    requires
        forall|j: int| 0 <= j < s.len() ==> s[j] != escape_char(),
    ensures
        visible_length(s) == s.len(),
{
    lemma_visible_from_plain(s, 0);
}

/// A character other than the escape character in front of a text adds one
/// visible character.
pub proof fn law_visible_length_prepend(c: char, s: Seq<char>)
    requires
        c != escape_char(),
    ensures
        visible_length(seq![c] + s) == 1 + visible_length(s),
{
    let t = seq![c] + s;
    assert(t[0] == c);
    assert(visible_from(t, 0) == 1 + visible_from(t, 1));
    lemma_visible_from_shift(seq![c], s, 0);
}

proof fn lemma_escape_end_scan(t: Seq<char>, k: int, e: int)
    requires
        1 <= k <= e < t.len(),
        t[e] == 'm',
        forall|j: int| k <= j < e ==> t[j] != 'm',
    ensures
        escape_end(t, k) == e + 1,
    decreases e - k,
{
    if k < e {
        lemma_escape_end_scan(t, k + 1, e);
    }
}

/// An escape sequence (the escape character, then anything but `m`, then
/// `m`) in front of a text takes no room: the text shows as many visible
/// characters as without it.
pub proof fn law_visible_length_skips_escape(params: Seq<char>, s: Seq<char>)
    requires
        forall|j: int| 0 <= j < params.len() ==> params[j] != 'm',
    ensures
        visible_length(seq![escape_char()] + params + seq!['m'] + s) == visible_length(s),
{
    let prefix = seq![escape_char()] + params + seq!['m'];
    let t = prefix + s;
    let e: int = params.len() as int + 1;
    assert(t[e] == 'm');
    assert forall|j: int| 1 <= j < e implies t[j] != 'm' by {
        assert(t[j] == params[j - 1]);
    }
    lemma_escape_end_scan(t, 1, e);
    assert(t[0] == escape_char());
    assert(visible_from(t, 0) == visible_from(t, e + 1));
    assert(prefix.len() == e + 1);
    lemma_visible_from_shift(prefix, s, 0);
}

/// When the text does not fit and the overflow marker leaves room, the
/// truncated text shows exactly `max_len` less the marker's byte length of the
/// text's visible characters, followed by the marker's visible characters; so
/// it never shows more than `max_len` visible characters.
pub proof fn law_truncated_visible_length(text: Seq<char>, overflow: Seq<char>, max_len: nat)
    requires
        encode_utf8(overflow).len() <= usize::MAX,
        visible_length(text) > max_len,
        max_len > byte_len(overflow),
    ensures
        visible_length(truncated(text, overflow, max_len)) == (max_len - byte_len(overflow))
            + visible_length(overflow),
        visible_length(truncated(text, overflow, max_len)) <= max_len,
{
    let target = (max_len - byte_len(overflow)) as nat;
    lemma_cut_visible(text, overflow, 0, target);
    lemma_visible_from_bound(overflow, 0);
    lemma_encode_utf8_len(overflow);
}

/// Text that fits is left as it is; otherwise the result always ends with the
/// overflow marker and, before it, keeps a prefix of the text.
pub proof fn law_truncated_shape(text: Seq<char>, overflow: Seq<char>, max_len: nat)
    ensures
        visible_length(text) <= max_len ==> truncated(text, overflow, max_len) == text,
        visible_length(text) > max_len ==> exists|k: int|
            0 <= k <= text.len() && truncated(text, overflow, max_len) == text.take(k) + overflow,
{
    if visible_length(text) > max_len {
        if max_len <= byte_len(overflow) {
            assert(truncated(text, overflow, max_len) == text.take(0) + overflow);
        } else {
            let target = (max_len - byte_len(overflow)) as nat;
            lemma_visible_from_bound(text, 0);
            if target < visible_length(text) {
                lemma_cut_visible(text, overflow, 0, target);
            }
            let k = cut_index(text, 0, target);
            assert(0 <= k <= text.len());
        }
    }
}

/// Truncating a non-empty text to a positive width never gives an empty text.
pub proof fn law_truncated_nonempty(text: Seq<char>, overflow: Seq<char>, max_len: nat)
    requires
        text.len() > 0,
        max_len > 0,
    ensures
        truncated(text, overflow, max_len).len() > 0,
{
    if visible_length(text) > max_len {
        if overflow.len() == 0 {
            assert(encode_utf8(overflow) =~= Seq::<u8>::empty()) by {
                vstd::utf8::is_ascii_chars_encode_utf8(overflow);
            }
            assert(byte_len(overflow) == 0);
            let target = (max_len - byte_len(overflow)) as nat;
            lemma_cut_visible(text, overflow, 0, target);
            let t = truncated(text, overflow, max_len);
            assert(visible_from(t, 0) > 0);
        }
    }
}

/// Truncating a text that truncation produced, with the same marker and limit,
/// leaves it as it is.
pub proof fn law_truncated_idempotent(text: Seq<char>, overflow: Seq<char>, max_len: nat)
    requires
        encode_utf8(overflow).len() <= usize::MAX,
    ensures
        truncated(truncated(text, overflow, max_len), overflow, max_len) == truncated(text, overflow, max_len),
{
    if visible_length(text) > max_len {
        if max_len <= byte_len(overflow) {
        } else {
            law_truncated_visible_length(text, overflow, max_len);
        }
    }
}

/// The texts of the segments from position `i` on, one after the other.
pub open spec fn segments_text(s: Seq<char>, i: int) -> Seq<char>
    decreases s.len() - i,
{
    if i < 0 || i >= s.len() {
        seq![]
    } else {
        proof {
            lemma_segment_end_bounds(s, i);
        }
        s.subrange(i, segment_end(s, i)) + segments_text(s, segment_end(s, i))
    }
}

/// The number of segments from position `i` on.
pub open spec fn segment_count(s: Seq<char>, i: int) -> nat
    decreases s.len() - i,
{
    if i < 0 || i >= s.len() {
        0
    } else {
        proof {
            lemma_segment_end_bounds(s, i);
        }
        1 + segment_count(s, segment_end(s, i))
    }
}

/// The segments that the parser hands out one after another, each starting
/// where the one before ended, give back the text when put together, and there
/// are no more of them than characters.
pub proof fn law_segments_cover_text(s: Seq<char>, i: int)
    requires
        0 <= i <= s.len(),
    ensures
        segments_text(s, i) == s.subrange(i, s.len() as int),
        segment_count(s, i) <= s.len() - i,
    decreases s.len() - i,
{
    if i < s.len() {
        lemma_segment_end_bounds(s, i);
        let e = segment_end(s, i);
        law_segments_cover_text(s, e);
        assert(s.subrange(i, e) + s.subrange(e, s.len() as int) =~= s.subrange(i, s.len() as int));
    } else {
        assert(s.subrange(i, s.len() as int) =~= seq![]);
    }
}

/// A piece of text as the parser hands it out.
pub enum AnsiSegment {
    EscapeSequence(String),
    VisibleChar(char),
}

/// Walks a text segment by segment.
pub struct AnsiParser {
    chars: Vec<char>,
    pos: usize,
}

impl AnsiParser {
    /// The text being parsed.
    pub closed spec fn text(&self) -> Seq<char> {
        self.chars@
    }

    /// How far the parser has got.
    pub closed spec fn position(&self) -> int {
        self.pos as int
    }

    pub closed spec fn wf(&self) -> bool {
        self.pos <= self.chars@.len()
    }

    pub fn new(text: &str) -> (p: Self)
        ensures
            p.wf(),
            p.text() == text@,
            p.position() == 0,
    {
        AnsiParser { chars: chars_of(text), pos: 0 }
    }

    /// The next segment: an escape sequence up to and including the next `m`
    /// (or to the end), or one visible character; `None` at the end, where the
    /// position stays, so that every later call gives `None` as well.
    pub fn next_segment(&mut self) -> (seg: Option<AnsiSegment>)
        requires
            old(self).wf(),
        ensures
            final(self).wf(),
            final(self).text() == old(self).text(),
            old(self).position() >= old(self).text().len() ==> seg is None && final(self).position()
                == old(self).position(),
            old(self).position() < old(self).text().len() ==> {
                let s = old(self).text();
                let i = old(self).position();
                &&& final(self).position() == segment_end(s, i)
                &&& match seg {
                    Some(AnsiSegment::EscapeSequence(e)) => s[i] == escape_char() && e@
                        == s.subrange(i, segment_end(s, i)),
                    Some(AnsiSegment::VisibleChar(c)) => s[i] != escape_char() && c == s[i],
                    None => false,
                }
            },
    {
        if self.pos >= self.chars.len() {
            return None;
        }
        let ch = self.chars[self.pos];
        self.pos = self.pos + 1;
        if ch == '\u{1b}' {
            let ghost s = self.chars@;
            let ghost start = self.pos - 1;
            let mut escape_seq = String::new();
            push_char(&mut escape_seq, ch);
            assert(escape_seq@ =~= s.subrange(start, self.pos as int));
            while self.pos < self.chars.len()
                invariant_except_break
                    self.chars@ == s,
                    0 <= start < self.pos <= s.len(),
                    s[start] == escape_char(),
                    escape_seq@ == s.subrange(start, self.pos as int),
                    escape_end(s, start + 1) == escape_end(s, self.pos as int),
                ensures
                    self.chars@ == s,
                    self.pos <= s.len(),
                    escape_seq@ == s.subrange(start, self.pos as int),
                    self.pos == escape_end(s, start + 1),
                decreases s.len() - self.pos,
            {
                let escape_ch = self.chars[self.pos];
                push_char(&mut escape_seq, escape_ch);
                assert(escape_seq@ =~= s.subrange(start, self.pos + 1));
                self.pos = self.pos + 1;
                if escape_ch == 'm' {
                    break;
                }
            }
            Some(AnsiSegment::EscapeSequence(escape_seq))
        } else {
            Some(AnsiSegment::VisibleChar(ch))
        }
    }
}

/// The number of visible characters of `text`: escape sequences take no room.
pub fn calculate_visible_length(text: &str) -> (len: usize)
    ensures
        len == visible_length(text@),
{
    let mut parser = AnsiParser::new(text);
    let ghost s = text@;
    let mut len: usize = 0;
    loop
        invariant
            parser.wf(),
            parser.text() == s,
            0 <= parser.position() <= s.len(),
            len <= parser.position(),
            len + visible_from(s, parser.position()) == visible_from(s, 0),
        ensures
            len == visible_from(s, 0),
        decreases s.len() - parser.position(),
    {
        let ghost i = parser.position();
        let segment = parser.next_segment();
        match segment {
            None => {
                break;
            },
            Some(seg) => {
                proof {
                    lemma_segment_end_bounds(s, i);
                }
                if let AnsiSegment::VisibleChar(_) = seg {
                    len = len + 1;
                }
            },
        }
    }
    len
}

/// `text` shortened so that, with `overflow_str` after it, it fits in `max_len`
/// visible characters; unchanged when it already fits.
pub fn truncate_ansi_string(text: &str, overflow_str: &str, max_len: usize) -> (r: String)
    ensures
        r@ == truncated(text@, overflow_str@, max_len as nat),
{
    let visible_len = calculate_visible_length(text);
    let overflow_len = overflow_str.len();

    if visible_len <= max_len {
        return crate::text::owned(text);
    }
    if max_len <= overflow_len {
        return crate::text::owned(overflow_str);
    }
    let target_len = max_len - overflow_len;
    let mut result = String::new();
    let mut visible_count: usize = 0;
    let mut parser = AnsiParser::new(text);
    let ghost s = text@;
    loop
        invariant_except_break
            parser.wf(),
            parser.text() == s,
            0 <= parser.position() <= s.len(),
            visible_count <= target_len,
            result@ == s.take(parser.position()),
            cut_index(s, 0, target_len as nat) == cut_index(
                s,
                parser.position(),
                (target_len - visible_count) as nat,
            ),
        ensures
            result@ == s.take(cut_index(s, 0, target_len as nat)),
        decreases s.len() - parser.position(),
    {
        let ghost i = parser.position();
        let segment = parser.next_segment();
        match segment {
            None => {
                assert(s.take(i) =~= s.take(s.len() as int));
                break;
            },
            Some(AnsiSegment::EscapeSequence(seq)) => {
                proof {
                    lemma_segment_end_bounds(s, i);
                }
                push_text(&mut result, seq.as_str());
                assert(result@ =~= s.take(parser.position()));
            },
            Some(AnsiSegment::VisibleChar(ch)) => {
                if visible_count >= target_len {
                    break;
                }
                push_char(&mut result, ch);
                visible_count = visible_count + 1;
                assert(result@ =~= s.take(parser.position()));
            },
        }
    }
    push_text(&mut result, overflow_str);
    result
}

} // verus!
