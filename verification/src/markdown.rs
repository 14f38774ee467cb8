use vstd::prelude::*;
use vstd::string::StringSliceAdditionalSpecFns;
use vstd::utf8::{encode_utf8, is_char_boundary, is_continuation_byte, valid_utf8};
use crate::text::{cut_ok, wrap_text, wrapped_lines, chars_of, lowercase, lowercase_chars, same_chars, slice_chars, starts_with, starts_with_chars, string_of};

verus! {

broadcast use vstd::string::group_string_axioms;

/// The style of a piece of article text.
#[derive(Clone, Copy, PartialEq, Eq, Debug)]
pub enum SegStyle {
    Plain,
    Bold,
    Italic,
    Link,
}

/// A run of text with one style.
#[derive(Debug, Clone)]
pub enum StyledSegment {
    Plain(String),
    Bold(String),
    Italic(String),
    /// displayed as underlined text
    Link(String),
}

impl View for StyledSegment {
    type V = (SegStyle, Seq<char>);

    open spec fn view(&self) -> (SegStyle, Seq<char>) {
        match self {
            StyledSegment::Plain(t) => (SegStyle::Plain, t@),
            StyledSegment::Bold(t) => (SegStyle::Bold, t@),
            StyledSegment::Italic(t) => (SegStyle::Italic, t@),
            StyledSegment::Link(t) => (SegStyle::Link, t@),
        }
    }
}

/// The abstract content of a list of segments.
pub open spec fn segs_view(v: Seq<StyledSegment>) -> Seq<(SegStyle, Seq<char>)> {
    v.map_values(|x: StyledSegment| x@)
}

/// Builds the segment of the given style holding `t`.
pub fn make_segment(style: SegStyle, t: String) -> (r: StyledSegment)
    ensures
        r@ == (style, t@),
{
    match style {
        SegStyle::Plain => StyledSegment::Plain(t),
        SegStyle::Bold => StyledSegment::Bold(t),
        SegStyle::Italic => StyledSegment::Italic(t),
        SegStyle::Link => StyledSegment::Link(t),
    }
}

impl StyledSegment {
    /// The text of the segment, whatever its style.
    pub fn text(&self) -> (r: &str)
        ensures
            r@ == self@.1,
    {
        match self {
            StyledSegment::Plain(t) => t.as_str(),
            StyledSegment::Bold(t) => t.as_str(),
            StyledSegment::Italic(t) => t.as_str(),
            StyledSegment::Link(t) => t.as_str(),
        }
    }

    /// The style of the segment.
    pub fn style(&self) -> (r: SegStyle)
        ensures
            r == self@.0,
    {
        match self {
            StyledSegment::Plain(_) => SegStyle::Plain,
            StyledSegment::Bold(_) => SegStyle::Bold,
            StyledSegment::Italic(_) => SegStyle::Italic,
            StyledSegment::Link(_) => SegStyle::Link,
        }
    }
}

// ── The markup grammar, as functions on character positions ──

/// The first position at or after `p` that holds `c`, or the end of `s`.
pub open spec fn find_from(s: Seq<char>, p: int, c: char) -> int
    decreases s.len() - p,
{
    if p >= s.len() {
        s.len() as int
    } else if s[p] == c {
        p
    } else {
        find_from(s, p + 1, c)
    }
}

/// The position just after the delimiter found at `j` (the end of `s` if none was found).
pub open spec fn past(s: Seq<char>, j: int) -> int {
    if j < s.len() {
        j + 1
    } else {
        s.len() as int
    }
}

/// A pending run of plain text, as the segments it yields (none when it is empty).
pub open spec fn flush(buf: Seq<char>) -> Seq<(SegStyle, Seq<char>)> {
    if buf.len() > 0 {
        seq![(SegStyle::Plain, buf)]
    } else {
        seq![]
    }
}

/// Opening tags (lower-cased) that start bold text: `<b>`, `<strong>`.
pub open spec fn is_bold_tag(low: Seq<char>) -> bool {
    low == "b"@ || low == "strong"@
}

/// Opening tags (lower-cased) that start italic text: `<em>`, `<i>`.
pub open spec fn is_italic_tag(low: Seq<char>) -> bool {
    low == "em"@ || low == "i"@
}

/// Opening tags (lower-cased) that start a link: `<a>` or `<a ...>`.
pub open spec fn is_link_tag(low: Seq<char>) -> bool {
    starts_with(low, "a "@) || low == "a"@
}

/// `low` is `/` followed by one of `closes`.
pub open spec fn is_closing(low: Seq<char>, closes: Seq<Seq<char>>) -> bool {
    exists|k: int| 0 <= k < closes.len() && low == seq!['/'] + closes[k]
}

/// The content of a styled HTML element that starts at `p`, up to a closing tag
/// named in `closes` (or the end of input), and the position after it.
/// Other tags inside it, nested style tags among them, are dropped.
pub open spec fn tag_content(s: Seq<char>, p: int, closes: Seq<Seq<char>>) -> (Seq<char>, int)
    decreases s.len() - p,
{
    if p >= s.len() {
        (seq![], s.len() as int)
    } else if s[p] == '<' {
        let j = find_from(s, p + 1, '>');
        let low = lowercase(s.subrange(p + 1, j));
        proof {
            lemma_find_from_bounds(s, p + 1, '>');
        }
        if is_closing(low, closes) {
            (seq![], past(s, j))
        } else {
            tag_content(s, past(s, j), closes)
        }
    } else {
        let rest = tag_content(s, p + 1, closes);
        (seq![s[p]] + rest.0, rest.1)
    }
}

/// The position just after the `)` that closes a link target, with `depth`
/// parentheses open at `p` (the end of input if it is never closed).
pub open spec fn skip_target(s: Seq<char>, p: int, depth: int) -> int
    decreases s.len() - p,
{
    if p >= s.len() {
        s.len() as int
    } else if s[p] == '(' {
        skip_target(s, p + 1, depth + 1)
    } else if s[p] == ')' {
        if depth - 1 == 0 {
            p + 1
        } else {
            skip_target(s, p + 1, depth - 1)
        }
    } else {
        skip_target(s, p + 1, depth)
    }
}

/// The text of `**bold**` starting at `p` (just after the opening `**`), up to
/// the closing `**` or the end of input, and the position after it.
/// A lone `*` inside is kept.
pub open spec fn star_bold(s: Seq<char>, p: int) -> (Seq<char>, int)
    decreases s.len() - p,
{
    if p >= s.len() {
        (seq![], s.len() as int)
    } else if s[p] == '*' {
        if p + 1 < s.len() && s[p + 1] == '*' {
            (seq![], p + 2)
        } else {
            let rest = star_bold(s, p + 1);
            (seq!['*'] + rest.0, rest.1)
        }
    } else {
        let rest = star_bold(s, p + 1);
        (seq![s[p]] + rest.0, rest.1)
    }
}

/// The segments of `s` from position `p` on, with `buf` the plain text
/// gathered so far and not yet emitted.
pub open spec fn md_from(s: Seq<char>, p: int, buf: Seq<char>) -> Seq<(SegStyle, Seq<char>)>
    decreases s.len() - p,
{
    if p >= s.len() {
        flush(buf)
    } else if s[p] == '<' {
        let j = find_from(s, p + 1, '>');
        let low = lowercase(s.subrange(p + 1, j));
        let next = past(s, j);
        proof {
            lemma_find_from_bounds(s, p + 1, '>');
        }
        if is_bold_tag(low) {
            let c = tag_content(s, next, seq!["b"@, "strong"@]);
            proof {
                lemma_tag_content_advances(s, next, seq!["b"@, "strong"@]);
            }
            flush(buf) + seq![(SegStyle::Bold, c.0)] + md_from(s, c.1, seq![])
        } else if is_italic_tag(low) {
            let c = tag_content(s, next, seq!["em"@, "i"@]);
            proof {
                lemma_tag_content_advances(s, next, seq!["em"@, "i"@]);
            }
            flush(buf) + seq![(SegStyle::Italic, c.0)] + md_from(s, c.1, seq![])
        } else if is_link_tag(low) {
            let c = tag_content(s, next, seq!["a"@]);
            proof {
                lemma_tag_content_advances(s, next, seq!["a"@]);
            }
            flush(buf) + seq![(SegStyle::Link, c.0)] + md_from(s, c.1, seq![])
        } else {
            flush(buf) + md_from(s, next, seq![])
        }
    } else if s[p] == '[' {
        let j = find_from(s, p + 1, ']');
        let text = s.subrange(p + 1, j);
        let next = past(s, j);
        proof {
            lemma_find_from_bounds(s, p + 1, ']');
        }
        if j < s.len() && next < s.len() && s[next] == '(' {
            let q = skip_target(s, next + 1, 1);
            proof {
                lemma_skip_target_advances(s, next + 1, 1);
            }
            flush(buf) + seq![(SegStyle::Link, text)] + md_from(s, q, seq![])
        } else {
            let closing = if j < s.len() {
                seq![']']
            } else {
                seq![]
            };
            flush(buf) + md_from(s, next, seq!['['] + text + closing)
        }
    } else if s[p] == '*' {
        if p + 1 < s.len() && s[p + 1] == '*' {
            let b = star_bold(s, p + 2);
            proof {
                lemma_star_bold_advances(s, p + 2);
            }
            flush(buf) + seq![(SegStyle::Bold, b.0)] + md_from(s, b.1, seq![])
        } else {
            let j = find_from(s, p + 1, '*');
            proof {
                lemma_find_from_bounds(s, p + 1, '*');
            }
            flush(buf) + seq![(SegStyle::Italic, s.subrange(p + 1, j))] + md_from(
                s,
                past(s, j),
                seq![],
            )
        }
    } else {
        md_from(s, p + 1, buf.push(s[p]))
    }
}

/// The segments that the markup `s` is read as.
pub open spec fn md_segments(s: Seq<char>) -> Seq<(SegStyle, Seq<char>)> {
    md_from(s, 0, seq![])
}

// ── Facts about the grammar functions ──

pub proof fn lemma_find_from_bounds(s: Seq<char>, p: int, c: char)
    requires
        p <= s.len(),
    ensures
        p <= find_from(s, p, c) <= s.len(),
        find_from(s, p, c) < s.len() ==> s[find_from(s, p, c)] == c,
        forall|k: int| p <= k < find_from(s, p, c) ==> s[k] != c,
    decreases s.len() - p,
{
    if p < s.len() && s[p] != c {
        lemma_find_from_bounds(s, p + 1, c);
    }
}

pub proof fn lemma_tag_content_advances(s: Seq<char>, p: int, closes: Seq<Seq<char>>)
    requires
        p <= s.len(),
    ensures
        p <= tag_content(s, p, closes).1 <= s.len(),
    decreases s.len() - p,
{
    if p < s.len() {
        if s[p] == '<' {
            let j = find_from(s, p + 1, '>');
            lemma_find_from_bounds(s, p + 1, '>');
            lemma_tag_content_advances(s, past(s, j), closes);
        } else {
            lemma_tag_content_advances(s, p + 1, closes);
        }
    }
}

pub proof fn lemma_skip_target_advances(s: Seq<char>, p: int, depth: int)
    requires
        p <= s.len(),
    ensures
        p <= skip_target(s, p, depth) <= s.len(),
    decreases s.len() - p,
{
    if p < s.len() {
        lemma_skip_target_advances(s, p + 1, depth + 1);
        lemma_skip_target_advances(s, p + 1, depth - 1);
        lemma_skip_target_advances(s, p + 1, depth);
    }
}

pub proof fn lemma_star_bold_advances(s: Seq<char>, p: int)
    requires
        p <= s.len(),
    ensures
        p <= star_bold(s, p).1 <= s.len(),
    decreases s.len() - p,
{
    if p < s.len() {
        lemma_star_bold_advances(s, p + 1);
    }
}

// ── Executable reading ──

/// The first position at or after `p` holding `c`, or `s.len()`.
fn find_char_from(s: &Vec<char>, p: usize, c: char) -> (r: usize)
    requires
        p <= s.len(),
    ensures
        r == find_from(s@, p as int, c),
{
    let mut i = p;
    while i < s.len() && s[i] != c
        invariant
            p <= i <= s.len(),
            find_from(s@, p as int, c) == find_from(s@, i as int, c),
        decreases s.len() - i,
    {
        i += 1;
    }
    i
}

/// Collects the content of a styled HTML element that starts at `pos`, up to
/// one of the closing tags `close_tags` (compared after lower-casing), and
/// returns it with the position after the closing tag; other tags inside it
/// are dropped.
pub fn consume_until_tag(chars: &Vec<char>, pos: usize, close_tags: &[&str]) -> (r: (String, usize))
    requires
        pos <= chars.len(),
    ensures
        (r.0@, r.1 as int) == tag_content(chars@, pos as int, close_tags@.map_values(|t: &str| t@)),
{
    let ghost s = chars@;
    let ghost closes = close_tags@.map_values(|t: &str| t@);
    let mut content: Vec<char> = Vec::new();
    let mut i = pos;
    let mut closed = false;
    while i < chars.len() && !closed
        invariant
            pos <= i <= chars.len(),
            s == chars@,
            closes == close_tags@.map_values(|t: &str| t@),
            !closed ==> tag_content(s, pos as int, closes) == (
                content@ + tag_content(s, i as int, closes).0,
                tag_content(s, i as int, closes).1,
            ),
            closed ==> tag_content(s, pos as int, closes) == (content@, i as int),
        decreases chars.len() - i, if closed { 0int } else { 1int },
    {
        let c = chars[i];
        if c == '<' {
            let j = find_char_from(chars, i + 1, '>');
            proof {
                lemma_find_from_bounds(s, i + 1, '>');
            }
            let look = slice_chars(chars, i + 1, j);
            let low = lowercase_chars(&look);
            let next = if j < chars.len() {
                j + 1
            } else {
                chars.len()
            };
            let mut is_close = false;
            let mut k: usize = 0;
            while k < close_tags.len() && !is_close
                invariant
                    k <= close_tags.len(),
                    closes == close_tags@.map_values(|t: &str| t@),
                    is_close ==> is_closing(low@, closes),
                    !is_close ==> forall|m: int| 0 <= m < k ==> low@ != seq!['/'] + closes[m],
                decreases close_tags.len() - k, if is_close { 0int } else { 1int },
            {
                let mut want: Vec<char> = vec!['/'];
                let name = chars_of(close_tags[k]);
                let mut n: usize = 0;
                while n < name.len()
                    invariant
                        n <= name.len(),
                        want@ == seq!['/'] + name@.take(n as int),
                    decreases name.len() - n,
                {
                    want.push(name[n]);
                    n += 1;
                    assert(want@ =~= seq!['/'] + name@.take(n as int));
                }
                assert(name@.take(name.len() as int) =~= name@);
                if same_chars(&low, &want) {
                    is_close = true;
                    assert(low@ == seq!['/'] + closes[k as int]);
                }
                k += 1;
            }
            if is_close {
                closed = true;
                i = next;
                assert(content@ + seq![] =~= content@);
            } else {
                i = next;
            }
        } else {
            let ghost before = content@;
            content.push(c);
            i += 1;
            assert(content@ + tag_content(s, i as int, closes).0 =~= before + (seq![c]
                + tag_content(s, i as int, closes).0));
        }
    }
    if !closed {
        assert(content@ + seq![] =~= content@);
    }
    (string_of(&content), i)
}

/// The position after the `)` that closes a link target starting at `pos`
/// (with one parenthesis already open).
fn skip_link_target(chars: &Vec<char>, pos: usize) -> (r: usize)
    requires
        1 <= pos <= chars.len(),
    ensures
        r as int == skip_target(chars@, pos as int, 1),
{
    let ghost s = chars@;
    let mut depth: usize = 1;
    let mut i = pos;
    while i < chars.len()
        invariant
            s == chars@,
            1 <= pos <= i <= chars.len(),
            1 <= depth <= i - pos + 1,
            skip_target(s, pos as int, 1) == skip_target(s, i as int, depth as int),
        decreases chars.len() - i,
    {
        let c = chars[i];
        i += 1;
        if c == '(' {
            depth += 1;
        }
        if c == ')' {
            depth -= 1;
            if depth == 0 {
                return i;
            }
        }
    }
    i
}

/// The text of `**bold**` from `pos` (just after the opening `**`) and the
/// position after the closing `**`.
fn read_star_bold(chars: &Vec<char>, pos: usize) -> (r: (Vec<char>, usize))
    requires
        pos <= chars.len(),
    ensures
        (r.0@, r.1 as int) == star_bold(chars@, pos as int),
{
    let ghost s = chars@;
    let mut text: Vec<char> = Vec::new();
    let mut i = pos;
    let mut done = false;
    while i < chars.len() && !done
        invariant
            s == chars@,
            pos <= i <= chars.len(),
            !done ==> star_bold(s, pos as int) == (text@ + star_bold(s, i as int).0, star_bold(
                s,
                i as int,
            ).1),
            done ==> star_bold(s, pos as int) == (text@, i as int),
        decreases chars.len() - i, if done { 0int } else { 1int },
    {
        let ghost before = text@;
        if chars[i] == '*' {
            if i + 1 < chars.len() && chars[i + 1] == '*' {
                i += 2;
                done = true;
                assert(text@ + seq![] =~= text@);
            } else {
                text.push('*');
                i += 1;
                assert(text@ + star_bold(s, i as int).0 =~= before + (seq!['*'] + star_bold(
                    s,
                    i as int,
                ).0));
            }
        } else {
            text.push(chars[i]);
            i += 1;
            assert(text@ + star_bold(s, i as int).0 =~= before + (seq![s[i - 1]] + star_bold(
                s,
                i as int,
            ).0));
        }
    }
    if !done {
        assert(text@ + seq![] =~= text@);
    }
    (text, i)
}

/// Emits the pending plain text, if any, and clears it.
fn flush_plain(segments: &mut Vec<StyledSegment>, buf: &mut Vec<char>)
    ensures
        segs_view(final(segments)@) == segs_view(old(segments)@) + flush(old(buf)@),
        final(buf)@ == Seq::<char>::empty(),
{
    if buf.len() > 0 {
        let t = string_of(buf);
        segments.push(StyledSegment::Plain(t));
        assert(segs_view(segments@) =~= segs_view(old(segments)@) + flush(old(buf)@));
    } else {
        assert(segs_view(segments@) =~= segs_view(old(segments)@) + flush(old(buf)@));
    }
    *buf = Vec::new();
}

/// The style that an opening tag (lower-cased) starts: bold for `<b>` and
/// `<strong>`, italics for `<em>` and `<i>`, a link for `<a>` and `<a ...>`;
/// none for other tags.
pub fn tag_style(low: &Vec<char>) -> (r: Option<SegStyle>)
    ensures
        r == (if is_bold_tag(low@) {
            Some(SegStyle::Bold)
        } else if is_italic_tag(low@) {
            Some(SegStyle::Italic)
        } else if is_link_tag(low@) {
            Some(SegStyle::Link)
        } else {
            None
        }),
{
    if same_chars(low, &chars_of("b")) || same_chars(low, &chars_of("strong")) {
        Some(SegStyle::Bold)
    } else if same_chars(low, &chars_of("em")) || same_chars(low, &chars_of("i")) {
        Some(SegStyle::Italic)
    } else if starts_with_chars(low, &chars_of("a ")) || same_chars(low, &chars_of("a")) {
        Some(SegStyle::Link)
    } else {
        None
    }
}

/// Reads an HTML tag at `p0` and, for a style tag, the element it opens.
fn step_tag(chars: &Vec<char>, p0: usize, segments: &mut Vec<StyledSegment>, buf: &mut Vec<char>) -> (r: usize)
    requires
        p0 < chars.len(),
        chars@[p0 as int] == '<',
    ensures
        p0 < r <= chars.len(),
        segs_view(final(segments)@) + md_from(chars@, r as int, final(buf)@) == segs_view(old(segments)@)
            + md_from(chars@, p0 as int, old(buf)@),
{
    let ghost s = chars@;
    let ghost seg0 = segs_view(segments@);
    let ghost buf0 = buf@;
    let mut p = p0;
        flush_plain(segments, buf);
        let j = find_char_from(chars, p + 1, '>');
        proof {
            lemma_find_from_bounds(s, p + 1, '>');
        }
        let tag = slice_chars(chars, p + 1, j);
        let low = lowercase_chars(&tag);
        let next = if j < chars.len() {
            j + 1
        } else {
            chars.len()
        };
        match tag_style(&low) {
            Some(SegStyle::Bold) => {
            let closes: [&str; 2] = ["b", "strong"];
            let (content, q) = consume_until_tag(chars, next, &closes);
            assert(closes@.map_values(|t: &str| t@) =~= seq!["b"@, "strong"@]);
            proof {
                lemma_tag_content_advances(s, next as int, seq!["b"@, "strong"@]);
            }
            let ghost mid = segs_view(segments@);
            segments.push(StyledSegment::Bold(content));
            assert(segs_view(segments@) =~= mid + seq![(SegStyle::Bold, content@)]);
            assert(md_from(s, p0 as int, buf0) == flush(buf0) + seq![(SegStyle::Bold, content@)]
                + md_from(s, q as int, seq![]));
            p = q;
            },
            Some(SegStyle::Italic) => {
            let closes: [&str; 2] = ["em", "i"];
            let (content, q) = consume_until_tag(chars, next, &closes);
            assert(closes@.map_values(|t: &str| t@) =~= seq!["em"@, "i"@]);
            proof {
                lemma_tag_content_advances(s, next as int, seq!["em"@, "i"@]);
            }
            let ghost mid = segs_view(segments@);
            segments.push(StyledSegment::Italic(content));
            assert(segs_view(segments@) =~= mid + seq![(SegStyle::Italic, content@)]);
            assert(md_from(s, p0 as int, buf0) == flush(buf0) + seq![(SegStyle::Italic, content@)]
                + md_from(s, q as int, seq![]));
            p = q;
            },
            Some(SegStyle::Link) => {
            let closes: [&str; 1] = ["a"];
            let (content, q) = consume_until_tag(chars, next, &closes);
            assert(closes@.map_values(|t: &str| t@) =~= seq!["a"@]);
            proof {
                lemma_tag_content_advances(s, next as int, seq!["a"@]);
            }
            let ghost mid = segs_view(segments@);
            segments.push(StyledSegment::Link(content));
            assert(segs_view(segments@) =~= mid + seq![(SegStyle::Link, content@)]);
            assert(md_from(s, p0 as int, buf0) == flush(buf0) + seq![(SegStyle::Link, content@)]
                + md_from(s, q as int, seq![]));
            p = q;
            },
            _ => {
                p = next;
            },
        }
        assert(segs_view(segments@) + md_from(s, p as int, buf@) =~= seg0 + md_from(s, p0 as int, buf0));
    p
}

/// Reads a `[text](target)` link at `p0`, or keeps the bracket as text.
fn step_bracket(chars: &Vec<char>, p0: usize, segments: &mut Vec<StyledSegment>, buf: &mut Vec<char>) -> (r: usize)
    requires
        p0 < chars.len(),
        chars@[p0 as int] == '[',
    ensures
        p0 < r <= chars.len(),
        segs_view(final(segments)@) + md_from(chars@, r as int, final(buf)@) == segs_view(old(segments)@)
            + md_from(chars@, p0 as int, old(buf)@),
{
    let ghost s = chars@;
    let ghost seg0 = segs_view(segments@);
    let ghost buf0 = buf@;
    let mut p = p0;
        flush_plain(segments, buf);
        let j = find_char_from(chars, p + 1, ']');
        proof {
            lemma_find_from_bounds(s, p + 1, ']');
        }
        let text = slice_chars(chars, p + 1, j);
        let found = j < chars.len();
        let next = if found {
            j + 1
        } else {
            chars.len()
        };
        if found && next < chars.len() && chars[next] == '(' {
            let q = skip_link_target(chars, next + 1);
            proof {
                lemma_skip_target_advances(s, next + 1, 1);
            }
            let ghost mid = segs_view(segments@);
            let lt = string_of(&text);
            segments.push(StyledSegment::Link(lt));
            assert(segs_view(segments@) =~= mid + seq![(SegStyle::Link, text@)]);
            assert(md_from(s, p0 as int, buf0) == flush(buf0) + seq![(SegStyle::Link, text@)]
                + md_from(s, q as int, seq![]));
            p = q;
            assert(segs_view(segments@) + md_from(s, p as int, buf@) =~= seg0 + md_from(s, p0 as int, buf0));
        } else {
            let mut nb: Vec<char> = Vec::new();
            nb.push('[');
            let mut k: usize = 0;
            while k < text.len()
                invariant
                    k <= text.len(),
                    nb@ == seq!['['] + text@.take(k as int),
                decreases text.len() - k,
            {
                nb.push(text[k]);
                k += 1;
                assert(nb@ =~= seq!['['] + text@.take(k as int));
            }
            assert(text@.take(text.len() as int) =~= text@);
            if found {
                nb.push(']');
            }
            *buf = nb;
            p = next;
            assert(buf@ =~= seq!['['] + text@ + (if found { seq![']'] } else { seq![] }));
            assert(md_from(s, p0 as int, buf0) == flush(buf0) + md_from(s, p as int, buf@));
            assert(segs_view(segments@) + md_from(s, p as int, buf@) =~= seg0 + md_from(s, p0 as int, buf0));
        }
    p
}

/// Reads `**bold**` or `*italic*` text at `p0`.
fn step_star(chars: &Vec<char>, p0: usize, segments: &mut Vec<StyledSegment>, buf: &mut Vec<char>) -> (r: usize)
    requires
        p0 < chars.len(),
        chars@[p0 as int] == '*',
    ensures
        p0 < r <= chars.len(),
        segs_view(final(segments)@) + md_from(chars@, r as int, final(buf)@) == segs_view(old(segments)@)
            + md_from(chars@, p0 as int, old(buf)@),
{
    let ghost s = chars@;
    let ghost seg0 = segs_view(segments@);
    let ghost buf0 = buf@;
    let mut p = p0;
        if p + 1 < chars.len() && chars[p + 1] == '*' {
            flush_plain(segments, buf);
            let (t, q) = read_star_bold(chars, p + 2);
            proof {
                lemma_star_bold_advances(s, p + 2);
            }
            let ghost mid = segs_view(segments@);
            let bt = string_of(&t);
            segments.push(StyledSegment::Bold(bt));
            assert(segs_view(segments@) =~= mid + seq![(SegStyle::Bold, t@)]);
            assert(md_from(s, p0 as int, buf0) == flush(buf0) + seq![(SegStyle::Bold, t@)] + md_from(
                s,
                q as int,
                seq![],
            ));
            p = q;
        } else {
            flush_plain(segments, buf);
            let j = find_char_from(chars, p + 1, '*');
            proof {
                lemma_find_from_bounds(s, p + 1, '*');
            }
            let t = slice_chars(chars, p + 1, j);
            let ghost mid = segs_view(segments@);
            let it = string_of(&t);
            segments.push(StyledSegment::Italic(it));
            assert(segs_view(segments@) =~= mid + seq![(SegStyle::Italic, t@)]);
            p = if j < chars.len() {
                j + 1
            } else {
                chars.len()
            };
            assert(md_from(s, p0 as int, buf0) == flush(buf0) + seq![(SegStyle::Italic, t@)] + md_from(
                s,
                p as int,
                seq![],
            ));
        }
        assert(segs_view(segments@) + md_from(s, p as int, buf@) =~= seg0 + md_from(s, p0 as int, buf0));
    p
}

/// Parses a markdown/HTML string into styled segments.
/// Handles `**bold**`, `*italic*`, `[links](url)`, `<b>`, `<em>`, `<i>`,
/// `<strong>`, `<a href="...">`; other HTML tags are stripped.
pub fn parse_md(input: &str) -> (r: Vec<StyledSegment>)
    ensures
        segs_view(r@) == md_segments(input@),
{
    let chars = chars_of(input);
    let ghost s = chars@;
    let mut segments: Vec<StyledSegment> = Vec::new();
    let mut buf: Vec<char> = Vec::new();
    let mut p: usize = 0;
    assert(segs_view(segments@) + md_from(s, 0, buf@) =~= md_segments(s));
    while p < chars.len()
        invariant
            s == chars@,
            p <= chars.len(),
            md_segments(s) == segs_view(segments@) + md_from(s, p as int, buf@),
        decreases chars.len() - p,
    {
        let ch = chars[p];
        if ch == '<' {
            p = step_tag(&chars, p, &mut segments, &mut buf);
        } else if ch == '[' {
            p = step_bracket(&chars, p, &mut segments, &mut buf);
        } else if ch == '*' {
            p = step_star(&chars, p, &mut segments, &mut buf);
        } else {
            buf.push(ch);
            p += 1;
        }
    }
    flush_plain(&mut segments, &mut buf);
    assert(segs_view(segments@) =~= md_segments(s));
    segments
}

/// The text of a list of segments, joined.
pub open spec fn plain_text(v: Seq<(SegStyle, Seq<char>)>) -> Seq<char>
    decreases v.len(),
{
    if v.len() == 0 {
        seq![]
    } else {
        plain_text(v.drop_last()) + v.last().1
    }
}

/// Flattens segments to plain text (for wrapping calculations).
pub fn segments_to_plain(segments: &[StyledSegment]) -> (r: String)
    ensures
        r@ == plain_text(segs_view(segments@)),
{
    let mut out = String::new();
    let mut i: usize = 0;
    while i < segments.len()
        invariant
            i <= segments.len(),
            out@ == plain_text(segs_view(segments@.take(i as int))),
        decreases segments.len() - i,
    {
        let t = segments[i].text();
        out.append(t);
        i += 1;
        assert(segs_view(segments@.take(i as int)).drop_last() =~= segs_view(
            segments@.take(i - 1),
        ));
    }
    assert(segments@.take(segments.len() as int) =~= segments@);
    out
}

// ── Splitting segments along wrapped lines ──

/// A segment with its text as UTF-8 bytes.
pub type ByteSeg = (SegStyle, Seq<u8>);

/// The segments of `v` with their text as UTF-8 bytes.
pub open spec fn byte_segs(v: Seq<StyledSegment>) -> Seq<ByteSeg> {
    v.map_values(|x: StyledSegment| (x@.0, encode_utf8(x@.1)))
}

/// Lines of segments with their text as UTF-8 bytes.
pub open spec fn byte_lines(v: Seq<Vec<StyledSegment>>) -> Seq<Seq<ByteSeg>> {
    v.map_values(|l: Vec<StyledSegment>| byte_segs(l@))
}

/// Takes `remaining` bytes of text from the segments, starting at byte `off`
/// of segment `k`, keeping each piece's style. Returns the pieces and where
/// the next line starts, or `None` where a cut would split a character.
pub open spec fn fill_line(segs: Seq<ByteSeg>, k: int, off: int, remaining: int) -> Option<
    (Seq<ByteSeg>, int, int),
>
    decreases segs.len() - k, remaining,
{
    if remaining <= 0 || k >= segs.len() || k < 0 {
        Some((seq![], k, off))
    } else {
        let b = segs[k].1;
        let avail = b.len() - off;
        if avail <= 0 {
            fill_line(segs, k + 1, 0, remaining)
        } else {
            let take = if remaining < avail {
                remaining
            } else {
                avail
            };
            let end = off + take;
            if !cut_ok(b, off) || !cut_ok(b, end) {
                None
            } else {
                let piece = (segs[k].0, b.subrange(off, end));
                let rest = if end >= b.len() {
                    fill_line(segs, k + 1, 0, remaining - take)
                } else {
                    fill_line(segs, k, end, remaining - take)
                };
                match rest {
                    Some(r) => Some((seq![piece] + r.0, r.1, r.2)),
                    None => None,
                }
            }
        }
    }
}

/// The first position at or after segment `k`, byte `off`, that is not a
/// space, moving on over used-up segments.
pub open spec fn skip_gap_spaces(segs: Seq<ByteSeg>, k: int, off: int) -> (int, int)
    decreases segs.len() - k, segs[k].1.len() - off,
{
    if k < 0 || k >= segs.len() || off < 0 {
        (k, off)
    } else if off >= segs[k].1.len() {
        skip_gap_spaces(segs, k + 1, 0)
    } else if segs[k].1[off] == 32u8 {
        skip_gap_spaces(segs, k, off + 1)
    } else {
        (k, off)
    }
}

/// Where the text resumes after a line break: what textwrap drops there is
/// skipped, that is the spaces and then the newline that ends a line of the
/// text, if there is one.
pub open spec fn skip_break(segs: Seq<ByteSeg>, k: int, off: int) -> (int, int) {
    let c = skip_gap_spaces(segs, k, off);
    if 0 <= c.0 < segs.len() && 0 <= c.1 < segs[c.0].1.len() && segs[c.0].1[c.1] == 10u8 {
        (c.0, c.1 + 1)
    } else {
        c
    }
}

/// The segments cut into lines of the byte lengths `lens`, from segment `k`,
/// byte `off` on; `None` where a cut would split a character.
pub open spec fn distribute(segs: Seq<ByteSeg>, lens: Seq<int>, k: int, off: int) -> Option<
    Seq<Seq<ByteSeg>>,
>
    decreases lens.len(),
{
    if lens.len() == 0 {
        Some(seq![])
    } else {
        match fill_line(segs, k, off, lens[0]) {
            None => None,
            Some(f) => {
                let c = skip_break(segs, f.1, f.2);
                match distribute(segs, lens.drop_first(), c.0, c.1) {
                    None => None,
                    Some(rest) => Some(seq![f.0] + rest),
                }
            },
        }
    }
}

proof fn lemma_cut_ok_boundary(b: Seq<u8>, i: int)
    requires
        valid_utf8(b),
        cut_ok(b, i),
    ensures
        is_char_boundary(b, i),
{
    broadcast use vstd::utf8::is_char_boundary_start_end_of_seq;
    if i < b.len() {
        vstd::utf8::is_char_boundary_iff_not_is_continuation_byte(b, i);
    }
}

/// The bytes `off..end` of a segment's text, as a new segment of its style.
fn cut_piece(seg: &StyledSegment, off: usize, end: usize) -> (r: StyledSegment)
    requires
        off < end <= encode_utf8(seg@.1).len(),
        cut_ok(encode_utf8(seg@.1), off as int),
        cut_ok(encode_utf8(seg@.1), end as int),
    ensures
        r@.0 == seg@.0,
        encode_utf8(r@.1) == encode_utf8(seg@.1).subrange(off as int, end as int),
{
    let text = seg.text();
    let ghost b = encode_utf8(seg@.1);
    proof {
        vstd::utf8::encode_utf8_valid_utf8(seg@.1);
        lemma_cut_ok_boundary(b, end as int);
    }
    let (head, _) = text.split_at(end);
    proof {
        vstd::utf8::valid_utf8_split(b, end as int);
        assert(head.spec_bytes() =~= b.subrange(0, end as int));
        vstd::utf8::is_char_boundary_iff_not_is_continuation_byte(head.spec_bytes(), off as int);
    }
    let (_, piece) = head.split_at(off);
    assert(piece.spec_bytes() =~= b.subrange(off as int, end as int));
    let owned = piece.to_owned();
    make_segment(seg.style(), owned)
}

/// Takes `remaining` bytes of text from `segments` starting at byte `off0` of
/// segment `k0`; `None` where a cut would split a character.
fn fill_line_exec(segments: &Vec<StyledSegment>, k0: usize, off0: usize, remaining0: usize) -> (r:
    Option<(Vec<StyledSegment>, usize, usize)>)
    requires
        k0 <= segments.len(),
        k0 < segments.len() ==> off0 <= encode_utf8(segments@[k0 as int]@.1).len(),
    ensures
        match r {
            Some(x) => {
                &&& fill_line(byte_segs(segments@), k0 as int, off0 as int, remaining0 as int)
                    == Some((byte_segs(x.0@), x.1 as int, x.2 as int))
                &&& x.1 <= segments.len()
                &&& x.1 < segments.len() ==> x.2 <= encode_utf8(segments@[x.1 as int]@.1).len()
            },
            None => fill_line(byte_segs(segments@), k0 as int, off0 as int, remaining0 as int)
                is None,
        },
{
    let ghost sb = byte_segs(segments@);
    let mut line: Vec<StyledSegment> = Vec::new();
    let mut k = k0;
    let mut off = off0;
    let mut remaining = remaining0;
    while remaining > 0 && k < segments.len()
        invariant
            sb == byte_segs(segments@),
            k <= segments.len(),
            k < segments.len() ==> off <= sb[k as int].1.len(),
            fill_line(sb, k0 as int, off0 as int, remaining0 as int) == match fill_line(
                sb,
                k as int,
                off as int,
                remaining as int,
            ) {
                Some(f) => Some((byte_segs(line@) + f.0, f.1, f.2)),
                None => None::<(Seq<ByteSeg>, int, int)>,
            },
        decreases segments.len() - k, remaining,
    {
        let seg = &segments[k];
        let bytes = seg.text().as_bytes();
        let ghost b = sb[k as int].1;
        assert(bytes@ == b);
        let avail = bytes.len() - off;
        if avail == 0 {
            k += 1;
            off = 0;
        } else {
            let take = if remaining < avail {
                remaining
            } else {
                avail
            };
            let end = off + take;
            let start_ok = off == bytes.len() || !(128u8 <= bytes[off] && bytes[off] <= 191u8);
            let end_ok = end == bytes.len() || !(128u8 <= bytes[end] && bytes[end] <= 191u8);
            if !start_ok || !end_ok {
                return None;
            }
            let piece = cut_piece(seg, off, end);
            let ghost before = byte_segs(line@);
            let ghost kp = k as int;
            let ghost op = off as int;
            line.push(piece);
            assert(byte_segs(line@) =~= before + seq![(sb[k as int].0, b.subrange(off as int, end as int))]);
            remaining -= take;
            if end >= bytes.len() {
                k += 1;
                off = 0;
            } else {
                off = end;
            }
            proof {
                let f = fill_line(sb, k as int, off as int, remaining as int);
                if f is Some {
                    assert(byte_segs(line@) + f.unwrap().0 =~= before + (seq![(sb[kp].0, b.subrange(
                        op, end as int))] + f.unwrap().0));
                }
            }
        }
    }
    assert(byte_segs(line@) + seq![] =~= byte_segs(line@));
    Some((line, k, off))
}

/// Moves the cursor past what textwrap drops at a line break: spaces, then a newline.
fn skip_break_exec(segments: &Vec<StyledSegment>, k0: usize, off0: usize) -> (r: (usize, usize))
    requires
        k0 <= segments.len(),
        k0 < segments.len() ==> off0 <= encode_utf8(segments@[k0 as int]@.1).len(),
    ensures
        (r.0 as int, r.1 as int) == skip_break(byte_segs(segments@), k0 as int, off0 as int),
        r.0 <= segments.len(),
        r.0 < segments.len() ==> r.1 <= encode_utf8(segments@[r.0 as int]@.1).len(),
{
    let ghost sb = byte_segs(segments@);
    let mut k = k0;
    let mut o = off0;
    let mut done = false;
    while k < segments.len() && !done
        invariant
            sb == byte_segs(segments@),
            k <= segments.len(),
            k < segments.len() ==> o <= encode_utf8(segments@[k as int]@.1).len(),
            done ==> k < segments.len(),
            skip_gap_spaces(sb, k0 as int, off0 as int) == (if done {
                (k as int, o as int)
            } else {
                skip_gap_spaces(sb, k as int, o as int)
            }),
        decreases segments.len() - k, (if k < segments.len() {
            encode_utf8(segments@[k as int]@.1).len() - o
        } else {
            0
        }), (if done {
            0int
        } else {
            1int
        }),
    {
        let bytes = segments[k].text().as_bytes();
        assert(bytes@ == sb[k as int].1);
        if o >= bytes.len() {
            k += 1;
            o = 0;
        } else if bytes[o] == 32u8 {
            o += 1;
        } else {
            done = true;
        }
    }
    if k < segments.len() {
        let bytes = segments[k].text().as_bytes();
        assert(bytes@ == sb[k as int].1);
        if o < bytes.len() && bytes[o] == 10u8 {
            return (k, o + 1);
        }
    }
    (k, o)
}

/// Cuts `segments` into lines of the given byte lengths, keeping each piece's
/// style; the spaces and the newline at each break are dropped. `None` where a cut would fall
/// inside a character.
pub fn distribute_lines(segments: &Vec<StyledSegment>, line_lens: &Vec<usize>) -> (r: Option<
    Vec<Vec<StyledSegment>>,
>)
    ensures
        match r {
            Some(lines) => distribute(
                byte_segs(segments@),
                line_lens@.map_values(|n: usize| n as int),
                0,
                0,
            ) == Some(byte_lines(lines@)),
            None => distribute(
                byte_segs(segments@),
                line_lens@.map_values(|n: usize| n as int),
                0,
                0,
            ) is None,
        },
{
    let ghost sb = byte_segs(segments@);
    let ghost lens = line_lens@.map_values(|n: usize| n as int);
    let mut result: Vec<Vec<StyledSegment>> = Vec::new();
    let mut k: usize = 0;
    let mut off: usize = 0;
    let mut i: usize = 0;
    assert(lens.skip(0) =~= lens);
    proof {
        let d = distribute(sb, lens, 0, 0);
        if d is Some {
            assert(byte_lines(result@) + d.unwrap() =~= d.unwrap());
        }
    }
    while i < line_lens.len()
        invariant
            sb == byte_segs(segments@),
            lens == line_lens@.map_values(|n: usize| n as int),
            i <= line_lens.len(),
            k <= segments.len(),
            k < segments.len() ==> off <= encode_utf8(segments@[k as int]@.1).len(),
            distribute(sb, lens, 0, 0) == match distribute(sb, lens.skip(i as int), k as int, off as int) {
                Some(rest) => Some(byte_lines(result@) + rest),
                None => None::<Seq<Seq<ByteSeg>>>,
            },
        decreases line_lens.len() - i,
    {
        let ghost tail = lens.skip(i as int);
        assert(tail[0] == line_lens@[i as int] as int);
        assert(tail.drop_first() =~= lens.skip(i + 1));
        match fill_line_exec(segments, k, off, line_lens[i]) {
            None => {
                return None;
            },
            Some((line, k2, off2)) => {
                let (k3, off3) = skip_break_exec(segments, k2, off2);
                let ghost before = byte_lines(result@);
                let ghost lv = byte_segs(line@);
                result.push(line);
                assert(byte_lines(result@) =~= before + seq![lv]);
                k = k3;
                off = off3;
                i += 1;
                proof {
                    let d = distribute(sb, lens.skip(i as int), k as int, off as int);
                    if d is Some {
                        assert(byte_lines(result@) + d.unwrap() =~= before + (seq![lv] + d.unwrap()));
                    }
                }
            },
        }
    }
    assert(lens.skip(i as int) =~= Seq::<int>::empty());
    assert(byte_lines(result@) + seq![] =~= byte_lines(result@));
    Some(result)
}

/// Segments with their text as UTF-8 bytes.
pub open spec fn byte_view(v: Seq<(SegStyle, Seq<char>)>) -> Seq<ByteSeg> {
    v.map_values(|x: (SegStyle, Seq<char>)| (x.0, encode_utf8(x.1)))
}

/// The byte lengths of lines of text.
pub open spec fn byte_lengths(lines: Seq<Seq<char>>) -> Seq<int> {
    lines.map_values(|l: Seq<char>| encode_utf8(l).len() as int)
}

/// The markup `s` read into segments and cut along the lines that textwrap
/// gives for its plain text at `width`.
pub open spec fn md_wrap(s: Seq<char>, width: usize) -> Option<Seq<Seq<ByteSeg>>> {
    let segs = md_segments(s);
    distribute(byte_view(segs), byte_lengths(wrapped_lines(plain_text(segs), width)), 0, 0)
}

/// Parses markdown, wraps it to `width` and returns lines with their inline
/// styles kept: each element is one wrapped line. `None` where a line break
/// would cut a segment inside a character.
pub fn wrap_md(input: &str, width: usize) -> (r: Option<Vec<Vec<StyledSegment>>>)
    ensures
        match r {
            Some(lines) => md_wrap(input@, width) == Some(byte_lines(lines@)),
            None => md_wrap(input@, width) is None,
        },
{
    let segments = parse_md(input);
    let plain = segments_to_plain(segments.as_slice());
    let wrapped = wrap_text(plain.as_str(), width);
    let ghost bl = byte_lengths(wrapped@.map_values(|l: String| l@));
    let mut lens: Vec<usize> = Vec::new();
    let mut i: usize = 0;
    while i < wrapped.len()
        invariant
            i <= wrapped.len(),
            bl == byte_lengths(wrapped@.map_values(|l: String| l@)),
            lens@.len() == i,
            forall|j: int| 0 <= j < i ==> lens@[j] as int == bl[j],
        decreases wrapped.len() - i,
    {
        let bs = wrapped[i].as_str().as_bytes();
        let n = bs.len();
        assert(n as int == bl[i as int]);
        lens.push(n);
        i += 1;
    }
    assert(lens@.map_values(|n: usize| n as int) =~= bl);
    assert(byte_segs(segments@) =~= byte_view(md_segments(input@)));
    distribute_lines(&segments, &lens)
}

// ── Laws ──

/// The characters that start markup.
pub open spec fn is_markup_char(c: char) -> bool {
    c == '<' || c == '[' || c == '*'
}

proof fn lemma_plain_run(s: Seq<char>, p: int, buf: Seq<char>)
    requires
        0 <= p <= s.len(),
        forall|i: int| 0 <= i < s.len() ==> !is_markup_char(#[trigger] s[i]),
    ensures
        md_from(s, p, buf) == flush(buf + s.subrange(p, s.len() as int)),
    decreases s.len() - p,
{
    if p < s.len() {
        lemma_plain_run(s, p + 1, buf.push(s[p]));
        assert(buf.push(s[p]) + s.subrange(p + 1, s.len() as int) =~= buf + s.subrange(
            p,
            s.len() as int,
        ));
    } else {
        assert(buf + s.subrange(p, s.len() as int) =~= buf);
    }
}

/// Text without markup characters is read as one plain segment (none when empty).
pub proof fn law_plain_text_is_one_segment(s: Seq<char>)
    requires
        forall|i: int| 0 <= i < s.len() ==> !is_markup_char(#[trigger] s[i]),
    ensures
        md_segments(s) == (if s.len() > 0 {
            seq![(SegStyle::Plain, s)]
        } else {
            seq![]
        }),
{
    lemma_plain_run(s, 0, seq![]);
    assert(Seq::<char>::empty() + s.subrange(0, s.len() as int) =~= s);
}

/// `**t**`, for a text `t` without `*`, is read as `t` in bold.
pub proof fn law_double_star_is_bold(t: Seq<char>)
    requires
        forall|i: int| 0 <= i < t.len() ==> #[trigger] t[i] != '*',
    ensures
        md_segments(seq!['*', '*'] + t + seq!['*', '*']) == seq![(SegStyle::Bold, t)],
{
    let s = seq!['*', '*'] + t + seq!['*', '*'];
    assert forall|k: int| 2 <= k <= t.len() + 2 implies star_bold(s, k) == (t.subrange(
        k - 2,
        t.len() as int,
    ), t.len() as int + 4) by {
        lemma_star_bold_tail(s, t, k);
    }
    assert(t.subrange(0, t.len() as int) =~= t);
    assert(md_from(s, t.len() as int + 4, seq![]) == flush(seq![]));
    assert(flush(seq![]) + seq![(SegStyle::Bold, t)] + flush(seq![]) =~= seq![(SegStyle::Bold, t)]);
}

proof fn lemma_star_bold_tail(s: Seq<char>, t: Seq<char>, k: int)
    requires
        s == seq!['*', '*'] + t + seq!['*', '*'],
        forall|i: int| 0 <= i < t.len() ==> #[trigger] t[i] != '*',
        2 <= k <= t.len() + 2,
    ensures
        star_bold(s, k) == (t.subrange(k - 2, t.len() as int), t.len() as int + 4),
    decreases t.len() + 2 - k,
{
    if k == t.len() + 2 {
        assert(s[k] == '*' && s[k + 1] == '*');
        assert(t.subrange(k - 2, t.len() as int) =~= Seq::<char>::empty());
    } else {
        assert(s[k] == t[k - 2]);
        lemma_star_bold_tail(s, t, k + 1);
        assert(seq![s[k]] + t.subrange(k - 1, t.len() as int) =~= t.subrange(k - 2, t.len() as int));
    }
}

/// `*t*`, for a text `t` without `*`, is read as `t` in italics.
pub proof fn law_single_star_is_italic(t: Seq<char>)
    requires
        t.len() > 0,
        forall|i: int| 0 <= i < t.len() ==> #[trigger] t[i] != '*',
    ensures
        md_segments(seq!['*'] + t + seq!['*']) == seq![(SegStyle::Italic, t)],
{
    let s = seq!['*'] + t + seq!['*'];
    assert(s[1] == t[0]);
    assert forall|k: int| 1 <= k <= t.len() + 1 implies find_from(s, k, '*') == t.len() + 1 by {
        lemma_find_tail(s, t, k);
    }
    assert(s.subrange(1, t.len() as int + 1) =~= t);
    assert(md_from(s, t.len() as int + 2, seq![]) == flush(seq![]));
    assert(flush(seq![]) + seq![(SegStyle::Italic, t)] + flush(seq![]) =~= seq![(SegStyle::Italic, t)]);
}

proof fn lemma_find_tail(s: Seq<char>, t: Seq<char>, k: int)
    requires
        s == seq!['*'] + t + seq!['*'],
        forall|i: int| 0 <= i < t.len() ==> #[trigger] t[i] != '*',
        1 <= k <= t.len() + 1,
    ensures
        find_from(s, k, '*') == t.len() + 1,
    decreases t.len() + 1 - k,
{
    if k < t.len() + 1 {
        assert(s[k] == t[k - 1]);
        lemma_find_tail(s, t, k + 1);
    }
}

/// The text of segments laid end to end is the text of each, in order.
pub proof fn law_plain_text_concat(a: Seq<(SegStyle, Seq<char>)>, b: Seq<(SegStyle, Seq<char>)>)
    ensures
        plain_text(a + b) == plain_text(a) + plain_text(b),
    decreases b.len(),
{
    if b.len() == 0 {
        assert(a + b =~= a);
    } else {
        assert((a + b).drop_last() =~= a + b.drop_last());
        law_plain_text_concat(a, b.drop_last());
    }
}

/// A byte sequence that encodes ASCII text only.
pub open spec fn ascii_bytes(b: Seq<u8>) -> bool {
    forall|i: int| 0 <= i < b.len() ==> #[trigger] b[i] < 128
}

/// Segments whose text is ASCII only.
pub open spec fn ascii_segs(segs: Seq<ByteSeg>) -> bool {
    forall|k: int| 0 <= k < segs.len() ==> ascii_bytes(#[trigger] segs[k].1)
}

proof fn lemma_fill_line_ascii(segs: Seq<ByteSeg>, k: int, off: int, remaining: int)
    requires
        ascii_segs(segs),
        0 <= off,
        0 <= k < segs.len() ==> off <= segs[k].1.len(),
    ensures
        fill_line(segs, k, off, remaining) is Some,
        fill_line(segs, k, off, remaining) matches Some(f) ==> (0 <= f.1 < segs.len() ==> 0 <= f.2
            <= segs[f.1].1.len()) && 0 <= f.2,
    decreases segs.len() - k, remaining,
{
    if remaining <= 0 || k >= segs.len() || k < 0 {
    } else {
        let b = segs[k].1;
        let avail = b.len() - off;
        if avail <= 0 {
            lemma_fill_line_ascii(segs, k + 1, 0, remaining);
        } else {
            let take = if remaining < avail {
                remaining
            } else {
                avail
            };
            let end = off + take;
            assert(ascii_bytes(segs[k].1));
            if end < b.len() {
                assert(b[end] < 128);
            }
            if off < b.len() {
                assert(b[off] < 128);
            }
            if end >= b.len() {
                lemma_fill_line_ascii(segs, k + 1, 0, remaining - take);
            } else {
                lemma_fill_line_ascii(segs, k, end, remaining - take);
            }
        }
    }
}

proof fn lemma_skip_gap_bound(segs: Seq<ByteSeg>, k: int, off: int)
    requires
        0 <= off,
        0 <= k < segs.len() ==> off <= segs[k].1.len(),
    ensures
        0 <= skip_gap_spaces(segs, k, off).1,
        0 <= skip_gap_spaces(segs, k, off).0 < segs.len() ==> skip_gap_spaces(segs, k, off).1
            <= segs[skip_gap_spaces(segs, k, off).0].1.len(),
    decreases segs.len() - k, segs[k].1.len() - off,
{
    if k < 0 || k >= segs.len() {
    } else if off >= segs[k].1.len() {
        lemma_skip_gap_bound(segs, k + 1, 0);
    } else if segs[k].1[off] == 32u8 {
        lemma_skip_gap_bound(segs, k, off + 1);
    }
}

proof fn lemma_distribute_ascii(segs: Seq<ByteSeg>, lens: Seq<int>, k: int, off: int)
    requires
        ascii_segs(segs),
        0 <= off,
        0 <= k < segs.len() ==> off <= segs[k].1.len(),
    ensures
        distribute(segs, lens, k, off) is Some,
    decreases lens.len(),
{
    if lens.len() > 0 {
        lemma_fill_line_ascii(segs, k, off, lens[0]);
        let f = fill_line(segs, k, off, lens[0]).unwrap();
        lemma_skip_gap_bound(segs, f.1, f.2);
        let c = skip_break(segs, f.1, f.2);
        lemma_distribute_ascii(segs, lens.drop_first(), c.0, c.1);
    }
}

/// Text that is ASCII only can be cut along any line lengths: no cut falls
/// inside a character.
pub proof fn law_ascii_always_splits(segs: Seq<ByteSeg>, lens: Seq<int>)
    requires
        ascii_segs(segs),
    ensures
        distribute(segs, lens, 0, 0) is Some,
{
    lemma_distribute_ascii(segs, lens, 0, 0);
}

proof fn lemma_find_over(s: Seq<char>, p: int, q: int, c: char)
    requires
        0 <= p <= q < s.len(),
        s[q] == c,
        forall|k: int| p <= k < q ==> #[trigger] s[k] != c,
    ensures
        find_from(s, p, c) == q,
    decreases q - p,
{
    if p < q {
        lemma_find_over(s, p + 1, q, c);
    }
}

proof fn lemma_skip_over(s: Seq<char>, p: int, q: int)
    requires
        0 <= p <= q < s.len(),
        s[q] == ')',
        forall|k: int| p <= k < q ==> #[trigger] s[k] != '(' && s[k] != ')',
    ensures
        skip_target(s, p, 1) == q + 1,
    decreases q - p,
{
    if p < q {
        lemma_skip_over(s, p + 1, q);
    }
}

/// `[t](u)`, for a text `t` without `]` and a target `u` without
/// parentheses, is read as the link text `t`.
pub proof fn law_markdown_link(t: Seq<char>, u: Seq<char>)
    requires
        forall|i: int| 0 <= i < t.len() ==> #[trigger] t[i] != ']',
        forall|i: int| 0 <= i < u.len() ==> #[trigger] u[i] != '(' && u[i] != ')',
    ensures
        md_segments(seq!['['] + t + seq![']', '('] + u + seq![')']) == seq![(SegStyle::Link, t)],
{
    let s = seq!['['] + t + seq![']', '('] + u + seq![')'];
    let j: int = t.len() as int + 1;
    assert forall|k: int| 1 <= k < j implies #[trigger] s[k] != ']' by {
        assert(s[k] == t[k - 1]);
    }
    assert(s[j] == ']');
    lemma_find_over(s, 1, j, ']');
    assert(s[j + 1] == '(');
    let q: int = s.len() - 1;
    assert forall|k: int| j + 2 <= k < q implies #[trigger] s[k] != '(' && s[k] != ')' by {
        assert(s[k] == u[k - j - 2]);
    }
    assert(s[q] == ')');
    lemma_skip_over(s, j + 2, q);
    assert(s.subrange(1, j) =~= t);
    assert(md_from(s, s.len() as int, seq![]) == flush(seq![]));
    assert(flush(seq![]) + seq![(SegStyle::Link, t)] + flush(seq![]) =~= seq![(SegStyle::Link, t)]);
}

proof fn lemma_distribute_len(segs: Seq<ByteSeg>, lens: Seq<int>, k: int, off: int)
    requires
        distribute(segs, lens, k, off) is Some,
    ensures
        distribute(segs, lens, k, off).unwrap().len() == lens.len(),
    decreases lens.len(),
{
    if lens.len() > 0 {
        let f = fill_line(segs, k, off, lens[0]).unwrap();
        let c = skip_break(segs, f.1, f.2);
        lemma_distribute_len(segs, lens.drop_first(), c.0, c.1);
    }
}

/// Wrapping markup gives one line of segments for each line that textwrap
/// gives for its plain text.
pub proof fn law_wrap_one_line_per_wrapped_line(s: Seq<char>, width: usize)
    requires
        md_wrap(s, width) is Some,
    ensures
        md_wrap(s, width).unwrap().len() == wrapped_lines(plain_text(md_segments(s)), width).len(),
{
    let segs = md_segments(s);
    lemma_distribute_len(
        byte_view(segs),
        byte_lengths(wrapped_lines(plain_text(segs), width)),
        0,
        0,
    );
}

/// No segment of `v` is plain text that is empty.
pub open spec fn plain_nonempty(v: Seq<(SegStyle, Seq<char>)>) -> bool {
    forall|i: int| 0 <= i < v.len() && (#[trigger] v[i]).0 == SegStyle::Plain ==> v[i].1.len() > 0
}

proof fn lemma_plain_nonempty_concat(a: Seq<(SegStyle, Seq<char>)>, b: Seq<(SegStyle, Seq<char>)>)
    requires
        plain_nonempty(a),
        plain_nonempty(b),
    ensures
        plain_nonempty(a + b),
{
    assert forall|i: int| 0 <= i < (a + b).len() && (#[trigger] (a + b)[i]).0 == SegStyle::Plain
        implies (a + b)[i].1.len() > 0 by {
        if i < a.len() {
            assert((a + b)[i] == a[i]);
        } else {
            assert((a + b)[i] == b[i - a.len()]);
        }
    }
}

proof fn lemma_styled_then(
    buf: Seq<char>,
    seg: (SegStyle, Seq<char>),
    rest: Seq<(SegStyle, Seq<char>)>,
)
    requires
        seg.0 != SegStyle::Plain,
        plain_nonempty(rest),
    ensures
        plain_nonempty(flush(buf) + seq![seg] + rest),
{
    lemma_plain_nonempty_concat(flush(buf), seq![seg]);
    lemma_plain_nonempty_concat(flush(buf) + seq![seg], rest);
}

proof fn lemma_md_from_plain_nonempty(s: Seq<char>, p: int, buf: Seq<char>)
    requires
        0 <= p <= s.len(),
    ensures
        plain_nonempty(md_from(s, p, buf)),
    decreases s.len() - p,
{
    if p >= s.len() {
    } else if s[p] == '<' {
        let j = find_from(s, p + 1, '>');
        lemma_find_from_bounds(s, p + 1, '>');
        let low = lowercase(s.subrange(p + 1, j));
        let next = past(s, j);
        if is_bold_tag(low) || is_italic_tag(low) || is_link_tag(low) {
            let closes = if is_bold_tag(low) {
                seq!["b"@, "strong"@]
            } else if is_italic_tag(low) {
                seq!["em"@, "i"@]
            } else {
                seq!["a"@]
            };
            let style = if is_bold_tag(low) {
                SegStyle::Bold
            } else if is_italic_tag(low) {
                SegStyle::Italic
            } else {
                SegStyle::Link
            };
            let c = tag_content(s, next, closes);
            lemma_tag_content_advances(s, next, closes);
            lemma_md_from_plain_nonempty(s, c.1, seq![]);
            lemma_styled_then(buf, (style, c.0), md_from(s, c.1, seq![]));
        } else {
            lemma_md_from_plain_nonempty(s, next, seq![]);
            lemma_plain_nonempty_concat(flush(buf), md_from(s, next, seq![]));
        }
    } else if s[p] == '[' {
        let j = find_from(s, p + 1, ']');
        lemma_find_from_bounds(s, p + 1, ']');
        let text = s.subrange(p + 1, j);
        let next = past(s, j);
        if j < s.len() && next < s.len() && s[next] == '(' {
            let q = skip_target(s, next + 1, 1);
            lemma_skip_target_advances(s, next + 1, 1);
            lemma_md_from_plain_nonempty(s, q, seq![]);
            lemma_styled_then(buf, (SegStyle::Link, text), md_from(s, q, seq![]));
        } else {
            let closing = if j < s.len() {
                seq![']']
            } else {
                seq![]
            };
            lemma_md_from_plain_nonempty(s, next, seq!['['] + text + closing);
            lemma_plain_nonempty_concat(flush(buf), md_from(s, next, seq!['['] + text + closing));
        }
    } else if s[p] == '*' {
        if p + 1 < s.len() && s[p + 1] == '*' {
            let b = star_bold(s, p + 2);
            lemma_star_bold_advances(s, p + 2);
            lemma_md_from_plain_nonempty(s, b.1, seq![]);
            lemma_styled_then(buf, (SegStyle::Bold, b.0), md_from(s, b.1, seq![]));
        } else {
            let j = find_from(s, p + 1, '*');
            lemma_find_from_bounds(s, p + 1, '*');
            lemma_md_from_plain_nonempty(s, past(s, j), seq![]);
            lemma_styled_then(
                buf,
                (SegStyle::Italic, s.subrange(p + 1, j)),
                md_from(s, past(s, j), seq![]),
            );
        }
    } else {
        lemma_md_from_plain_nonempty(s, p + 1, buf.push(s[p]));
    }
}

/// Reading markup never gives an empty plain segment (styled ones may be
/// empty, as in `****`).
pub proof fn law_no_empty_plain_segment(s: Seq<char>)
    ensures
        plain_nonempty(md_segments(s)),
{
    lemma_md_from_plain_nonempty(s, 0, seq![]);
}

} // verus!
