use vstd::prelude::*;
use vstd::string::{StrSliceExecFns, StringExecFns};
use crate::api::{first_present, Edition, EditionItem, ItemContent};
use crate::app::{ScrollView, View};
use vstd::view::View as _;
use crate::app::{append_joined, join, texts};
use crate::markdown::{md_segments, parse_md, plain_text, segments_to_plain};
use crate::text::{chars_of, decimal, push_decimal, string_of, wrap_text, wrapped_lines};

verus! {

broadcast use vstd::string::group_string_axioms;

/// How a piece of a card's line is drawn.
#[derive(Debug, Clone, Copy, PartialEq, Eq)]
pub enum PieceStyle {
    Plain,
    Bold,
    Italic,
    Dim,
    ItalicDim,
    /// In the color, or dim without one.
    Fg(Option<(u8, u8, u8)>),
    /// Black on the color, or black on red without one.
    Label(Option<(u8, u8, u8)>),
}

/// A piece of text of a card's line, with how it is drawn.
#[derive(Debug, Clone)]
pub struct Piece {
    pub text: String,
    pub style: PieceStyle,
}

/// A line of pieces as plain values.
pub open spec fn pieces_view(v: Seq<Piece>) -> Seq<(PieceStyle, Seq<char>)> {
    v.map_values(|p: Piece| (p.style, p.text@))
}

/// Lines of pieces as plain values.
pub open spec fn lines_of_pieces(v: Seq<Vec<Piece>>) -> Seq<Seq<(PieceStyle, Seq<char>)>> {
    v.map_values(|l: Vec<Piece>| pieces_view(l@))
}

/// The marker in front of a card: a triangle when it is selected.
pub open spec fn sel_marker(selected: bool) -> Seq<char> {
    if selected {
        "\u{25B8} "@
    } else {
        "  "@
    }
}

/// An item's title, or "Untitled".
pub open spec fn title_or_untitled(t: Option<String>) -> Seq<char> {
    match t {
        Some(s) => s@,
        None => "Untitled"@,
    }
}

/// The accent color of an item's header color, if it has one.
pub open spec fn accent_of(c: ItemContent) -> Option<(u8, u8, u8)> {
    match c.spec_header_color() {
        Some(hc) => first_present(hc.light, hc.dark),
        None => None,
    }
}

/// A label as drawn: with a space on each side.
pub open spec fn label_text(l: Seq<char>) -> Seq<char> {
    " "@ + l + " "@
}

/// The dot drawn before a header.
pub open spec fn dot_text() -> Seq<char> {
    "\u{25CF} "@
}

/// The plain text of a markdown text.
pub open spec fn plain_md(t: Seq<char>) -> Seq<char> {
    plain_text(md_segments(t))
}

/// At most the first `n` characters of `s`.
pub open spec fn first_chars(s: Seq<char>, n: int) -> Seq<char> {
    if s.len() <= n {
        s
    } else {
        s.take(n)
    }
}

/// At most the first `n` lines of `s`.
pub open spec fn first_lines(s: Seq<Seq<char>>, n: int) -> Seq<Seq<char>> {
    if s.len() <= n {
        s
    } else {
        s.take(n)
    }
}

/// The first line of a compact card: marker, header (with its dot), label
/// and title (bold when selected).
pub open spec fn compact_first(item: EditionItem, selected: bool) -> Seq<(PieceStyle, Seq<char>)> {
    let hc = accent_of(item.content);
    seq![(PieceStyle::Plain, "  "@), (PieceStyle::Plain, sel_marker(selected))] + match item.content.spec_header() {
        Some(h) => seq![
            (PieceStyle::Fg(hc), dot_text()),
            (PieceStyle::Fg(hc), h),
            (PieceStyle::Dim, "  "@),
        ],
        None => seq![],
    } + match item.content.spec_label_info() {
        Some(li) => seq![
            (PieceStyle::Label(li.1.light), label_text(li.0)),
            (PieceStyle::Plain, " "@),
        ],
        None => seq![],
    } + seq![
        (
            if selected {
                PieceStyle::Bold
            } else {
                PieceStyle::Plain
            },
            title_or_untitled(item.title),
        ),
    ]
}

/// The minutes of reading, as drawn.
pub open spec fn minutes_text(m: nat) -> Seq<char> {
    decimal(m) + " min"@
}

/// The second line of a compact card: the authors and the minutes of reading
/// (when there is at least one), with a dot between them.
pub open spec fn compact_second(item: EditionItem) -> Seq<(PieceStyle, Seq<char>)> {
    let authors = texts(item.content.spec_authors());
    let mins = (item.read_time_secs / 60) as nat;
    seq![(PieceStyle::Plain, "      "@)] + (if authors.len() > 0 {
        seq![(PieceStyle::ItalicDim, join(authors, ", "@))]
    } else {
        seq![]
    }) + (if mins > 0 {
        (if authors.len() > 0 {
            seq![(PieceStyle::Dim, "  \u{00B7}  "@)]
        } else {
            seq![]
        }) + seq![(PieceStyle::Dim, minutes_text(mins))]
    } else {
        seq![]
    })
}

fn push_piece(line: &mut Vec<Piece>, style: PieceStyle, text: &str)
    ensures
        pieces_view(final(line)@) == pieces_view(old(line)@).push((style, text@)),
{
    let ghost before = pieces_view(line@);
    line.push(Piece { text: String::from_str(text), style });
    assert(pieces_view(line@) =~= before.push((style, text@)));
}

fn push_piece_string(line: &mut Vec<Piece>, style: PieceStyle, text: String)
    ensures
        pieces_view(final(line)@) == pieces_view(old(line)@).push((style, text@)),
{
    let ghost before = pieces_view(line@);
    let ghost t = text@;
    line.push(Piece { text, style });
    assert(pieces_view(line@) =~= before.push((style, t)));
}

fn marker(selected: bool) -> (r: &'static str)
    ensures
        r@ == sel_marker(selected),
{
    if selected {
        "\u{25B8} "
    } else {
        "  "
    }
}

fn title_text(t: &Option<String>) -> (r: String)
    ensures
        r@ == title_or_untitled(*t),
{
    match t {
        Some(s) => s.clone(),
        None => String::from_str("Untitled"),
    }
}

fn accent(c: &ItemContent) -> (r: Option<(u8, u8, u8)>)
    ensures
        r == accent_of(*c),
{
    match c.header_color() {
        Some(hc) => hc.accent_rgb(),
        None => None,
    }
}

fn label_string(l: &str) -> (r: String)
    ensures
        r@ == label_text(l@),
{
    let mut s = String::from_str(" ");
    s.append(l);
    s.append(" ");
    s
}

/// The two lines of a compact card (search results and lists): the header,
/// label and title, then the authors and the minutes of reading.
pub fn build_compact_item(item: &EditionItem, selected: bool) -> (r: (Vec<Piece>, Vec<Piece>))
    ensures
        pieces_view(r.0@) == compact_first(*item, selected),
        pieces_view(r.1@) == compact_second(*item),
{
    let hc = accent(&item.content);
    let mut first: Vec<Piece> = Vec::new();
    push_piece(&mut first, PieceStyle::Plain, "  ");
    push_piece(&mut first, PieceStyle::Plain, marker(selected));
    let ghost a = pieces_view(first@);
    match item.content.header() {
        Some(h) => {
            push_piece(&mut first, PieceStyle::Fg(hc), "\u{25CF} ");
            push_piece(&mut first, PieceStyle::Fg(hc), h);
            push_piece(&mut first, PieceStyle::Dim, "  ");
        },
        None => {},
    }
    let ghost b = pieces_view(first@);
    match item.content.label_info() {
        Some((l, lc)) => {
            push_piece_string(&mut first, PieceStyle::Label(lc.light), label_string(l));
            push_piece(&mut first, PieceStyle::Plain, " ");
        },
        None => {},
    }
    let ghost c = pieces_view(first@);
    let style = if selected {
        PieceStyle::Bold
    } else {
        PieceStyle::Plain
    };
    push_piece_string(&mut first, style, title_text(&item.title));
    assert(pieces_view(first@) =~= compact_first(*item, selected));

    let mut second: Vec<Piece> = Vec::new();
    push_piece(&mut second, PieceStyle::Plain, "      ");
    let authors = item.content.authors();
    let mins = item.read_time_secs / 60;
    let ghost d = pieces_view(second@);
    if authors.len() > 0 {
        let mut names = String::new();
        append_joined(&mut names, authors, ", ");
        push_piece_string(&mut second, PieceStyle::ItalicDim, names);
    }
    let ghost e = pieces_view(second@);
    if mins > 0 {
        if authors.len() > 0 {
            push_piece(&mut second, PieceStyle::Dim, "  \u{00B7}  ");
        }
        let mut m = String::new();
        push_decimal(&mut m, mins as u64);
        m.append(" min");
        push_piece_string(&mut second, PieceStyle::Dim, m);
    }
    assert(texts(item.content.spec_authors()).len() == authors@.len());
    assert(pieces_view(second@) =~= compact_second(*item));
    (first, second)
}

/// The wrapping width of a hero card on a page `width` wide: 8 less, at most 90.
pub open spec fn hero_wrap(width: usize) -> usize {
    let w = if width > 8 {
        (width - 8) as usize
    } else {
        0
    };
    if w < 90 {
        w
    } else {
        90
    }
}

/// The header of an item, or the name of its kind.
pub open spec fn header_text_of(c: ItemContent) -> Seq<char> {
    match c.spec_header() {
        Some(h) => h,
        None => c.spec_type_label(),
    }
}

/// The text a hero card shows under the title: the teaser, or the preview text.
pub open spec fn teaser_source(item: EditionItem) -> Seq<char> {
    match item.content.spec_teaser() {
        Some(t) => t,
        None => item.preview_text@,
    }
}

/// Lines indented by four spaces, in one style.
pub open spec fn indented(lines: Seq<Seq<char>>, style: PieceStyle) -> Seq<
    Seq<(PieceStyle, Seq<char>)>,
> {
    lines.map_values(|l: Seq<char>| seq![(PieceStyle::Plain, "    "@), (style, l)])
}

/// The lines of a hero card on a page `width` wide: the header (with its
/// dot), the title wrapped, the label, the authors, and the first 250
/// characters of the teaser wrapped.
pub open spec fn hero_lines(item: EditionItem, width: usize, selected: bool) -> Seq<
    Seq<(PieceStyle, Seq<char>)>,
> {
    let hc = accent_of(item.content);
    let ww = hero_wrap(width);
    let teaser = plain_md(teaser_source(item));
    let authors = texts(item.content.spec_authors());
    seq![
        seq![
            (PieceStyle::Plain, "  "@),
            (PieceStyle::Plain, sel_marker(selected)),
            (PieceStyle::Fg(hc), dot_text()),
            (PieceStyle::Fg(hc), header_text_of(item.content)),
        ],
    ] + indented(wrapped_lines(title_or_untitled(item.title), ww), PieceStyle::Bold)
        + match item.content.spec_label_info() {
        Some(li) => seq![
            seq![(PieceStyle::Plain, "    "@), (PieceStyle::Label(li.1.light), label_text(li.0))],
        ],
        None => seq![],
    } + (if authors.len() > 0 {
        seq![seq![(PieceStyle::Plain, "    "@), (PieceStyle::Italic, join(authors, ", "@))]]
    } else {
        seq![]
    }) + (if teaser.len() > 0 {
        indented(wrapped_lines(first_chars(teaser, 250), ww), PieceStyle::Dim)
    } else {
        seq![]
    })
}

/// The plain text of a markdown text.
fn plain_of(t: &str) -> (r: String)
    ensures
        r@ == plain_md(t@),
{
    let segs = parse_md(t);
    segments_to_plain(segs.as_slice())
}

/// At most the first `n` characters of a text.
fn first_chars_of(t: &str, n: usize) -> (r: String)
    ensures
        r@ == first_chars(t@, n as int),
{
    let cs = chars_of(t);
    if cs.len() <= n {
        string_of(&cs)
    } else {
        let mut out: Vec<char> = Vec::new();
        let mut i: usize = 0;
        while i < n
            invariant
                i <= n < cs.len(),
                out@ == cs@.take(i as int),
            decreases n - i,
        {
            out.push(cs[i]);
            i += 1;
            assert(out@ =~= cs@.take(i as int));
        }
        string_of(&out)
    }
}

/// Appends one indented line per wrapped line of `text`.
fn push_indented(lines: &mut Vec<Vec<Piece>>, text: &str, width: usize, style: PieceStyle)
    ensures
        lines_of_pieces(final(lines)@) == lines_of_pieces(old(lines)@) + indented(
            wrapped_lines(text@, width),
            style,
        ),
{
    let wrapped = wrap_text(text, width);
    let ghost w = wrapped_lines(text@, width);
    let ghost start = lines_of_pieces(lines@);
    assert(wrapped@.len() == w.len());
    let mut i: usize = 0;
    while i < wrapped.len()
        invariant
            i <= wrapped@.len() == w.len(),
            forall|k: int| 0 <= k < w.len() ==> #[trigger] w[k] == wrapped@[k]@,
            lines_of_pieces(lines@) == start + indented(w.take(i as int), style),
        decreases wrapped.len() - i,
    {
        let mut line: Vec<Piece> = Vec::new();
        assert(pieces_view(line@) =~= Seq::<(PieceStyle, Seq<char>)>::empty());
        push_piece(&mut line, PieceStyle::Plain, "    ");
        push_piece(&mut line, style, wrapped[i].as_str());
        assert(pieces_view(line@) =~= seq![(PieceStyle::Plain, "    "@), (style, w[i as int])]);
        let ghost before = lines_of_pieces(lines@);
        lines.push(line);
        let ghost newl = seq![(PieceStyle::Plain, "    "@), (style, w[i as int])];
        assert(lines_of_pieces(lines@) =~= before.push(newl));
        assert(indented(w.take(i + 1), style) =~= indented(w.take(i as int), style).push(newl));
        i += 1;
        assert(lines_of_pieces(lines@) =~= start + indented(w.take(i as int), style));
    }
    assert(w.take(i as int) =~= w);
}

/// The lines of a hero card (the first items of a list) on a page `width`
/// wide.
pub fn build_hero_item(item: &EditionItem, width: usize, selected: bool) -> (r: Vec<Vec<Piece>>)
    ensures
        lines_of_pieces(r@) == hero_lines(*item, width, selected),
{
    let w0: usize = if width > 8 {
        width - 8
    } else {
        0
    };
    let ww: usize = if w0 < 90 {
        w0
    } else {
        90
    };
    let hc = accent(&item.content);
    let mut lines: Vec<Vec<Piece>> = Vec::new();
    let mut head: Vec<Piece> = Vec::new();
    assert(pieces_view(head@) =~= Seq::<(PieceStyle, Seq<char>)>::empty());
    assert(lines_of_pieces(lines@) =~= Seq::<Seq<(PieceStyle, Seq<char>)>>::empty());
    push_piece(&mut head, PieceStyle::Plain, "  ");
    push_piece(&mut head, PieceStyle::Plain, marker(selected));
    push_piece(&mut head, PieceStyle::Fg(hc), "\u{25CF} ");
    match item.content.header() {
        Some(h) => push_piece(&mut head, PieceStyle::Fg(hc), h),
        None => push_piece(&mut head, PieceStyle::Fg(hc), item.content.type_label()),
    }
    assert(pieces_view(head@) =~= seq![
        (PieceStyle::Plain, "  "@),
        (PieceStyle::Plain, sel_marker(selected)),
        (PieceStyle::Fg(hc), dot_text()),
        (PieceStyle::Fg(hc), header_text_of(item.content)),
    ]);
    lines.push(head);
    let ghost l1 = lines_of_pieces(lines@);
    assert(l1 =~= seq![
        seq![
            (PieceStyle::Plain, "  "@),
            (PieceStyle::Plain, sel_marker(selected)),
            (PieceStyle::Fg(hc), dot_text()),
            (PieceStyle::Fg(hc), header_text_of(item.content)),
        ],
    ]);
    let title = title_text(&item.title);
    push_indented(&mut lines, title.as_str(), ww, PieceStyle::Bold);
    let ghost l2 = lines_of_pieces(lines@);
    match item.content.label_info() {
        Some((l, lc)) => {
            let mut line: Vec<Piece> = Vec::new();
            assert(pieces_view(line@) =~= Seq::<(PieceStyle, Seq<char>)>::empty());
            push_piece(&mut line, PieceStyle::Plain, "    ");
            push_piece_string(&mut line, PieceStyle::Label(lc.light), label_string(l));
            let ghost pl = seq![(PieceStyle::Plain, "    "@), (PieceStyle::Label(lc.light), label_text(l@))];
            assert(pieces_view(line@) =~= pl);
            lines.push(line);
            assert(lines_of_pieces(lines@) =~= l2.push(pl));
        },
        None => {},
    }
    let ghost l3 = lines_of_pieces(lines@);
    assert(l3 =~= l2 + match item.content.spec_label_info() {
        Some(li) => seq![
            seq![(PieceStyle::Plain, "    "@), (PieceStyle::Label(li.1.light), label_text(li.0))],
        ],
        None => seq![],
    });
    let authors = item.content.authors();
    if authors.len() > 0 {
        let mut names = String::new();
        append_joined(&mut names, authors, ", ");
        let ghost nm = names@;
        let mut line: Vec<Piece> = Vec::new();
        assert(pieces_view(line@) =~= Seq::<(PieceStyle, Seq<char>)>::empty());
        push_piece(&mut line, PieceStyle::Plain, "    ");
        push_piece_string(&mut line, PieceStyle::Italic, names);
        assert(pieces_view(line@) =~= seq![(PieceStyle::Plain, "    "@), (PieceStyle::Italic, nm)]);
        lines.push(line);
        assert(lines_of_pieces(lines@) =~= l3.push(seq![(PieceStyle::Plain, "    "@), (PieceStyle::Italic, nm)]));
    }
    let ghost l4 = lines_of_pieces(lines@);
    assert(texts(item.content.spec_authors()).len() == authors@.len());
    assert(l4 =~= l3 + (if texts(item.content.spec_authors()).len() > 0 {
        seq![seq![(PieceStyle::Plain, "    "@), (PieceStyle::Italic, join(texts(item.content.spec_authors()), ", "@))]]
    } else {
        seq![]
    }));
    let source = match item.content.teaser() {
        Some(t) => t,
        None => item.preview_text.as_str(),
    };
    let teaser = plain_of(source);
    if teaser.unicode_len() > 0 {
        let short = first_chars_of(teaser.as_str(), 250);
        push_indented(&mut lines, short.as_str(), ww, PieceStyle::Dim);
    } else {
        assert(lines_of_pieces(lines@) =~= l4 + Seq::<Seq<(PieceStyle, Seq<char>)>>::empty());
    }
    assert(lines_of_pieces(lines@) =~= hero_lines(*item, width, selected));
    lines
}

/// A count as a 16-bit number (the low 16 bits).
pub open spec fn count16(n: int) -> u16 {
    (n % 65536) as u16
}

/// The smaller of two numbers.
pub open spec fn min16(a: u16, b: u16) -> u16 {
    if a < b {
        a
    } else {
        b
    }
}

/// `a - b`, or 0 when `b > a`.
pub open spec fn less(a: u16, b: u16) -> u16 {
    if a > b {
        (a - b) as u16
    } else {
        0
    }
}

/// Lines with one space in front of each.
pub open spec fn spaced(lines: Seq<Seq<char>>) -> Seq<Seq<char>> {
    lines.map_values(|l: Seq<char>| " "@ + l)
}

/// The text of a hero tile.
pub struct TileText {
    /// The title's lines (the tile shows the first two).
    pub title_lines: Vec<String>,
    /// The teaser's lines (primary tiles only, at most three).
    pub teaser_lines: Vec<String>,
    /// The height of the text under the image.
    pub text_h: u16,
}

/// The teaser a tile shows: a primary tile's teaser as plain text.
pub open spec fn tile_teaser(item: EditionItem, primary: bool) -> Option<Seq<char>> {
    if primary {
        match item.content.spec_teaser() {
            Some(t) => Some(plain_md(t)),
            None => None,
        }
    } else {
        None
    }
}

/// The title's lines of a tile whose inside is `inner_w` wide.
pub open spec fn tile_title(item: EditionItem, inner_w: u16) -> Seq<Seq<char>> {
    wrapped_lines(title_or_untitled(item.title), less(inner_w, 2) as usize)
}

/// The teaser's lines of a tile, all of them.
pub open spec fn tile_teaser_all(item: EditionItem, inner_w: u16, primary: bool) -> Seq<Seq<char>> {
    match tile_teaser(item, primary) {
        Some(t) => wrapped_lines(t, less(inner_w, 2) as usize),
        None => seq![],
    }
}

/// The height of a tile's text: at most two lines of title, and at most three
/// of teaser when there is one.
pub open spec fn tile_text_h(item: EditionItem, inner_w: u16, primary: bool) -> u16 {
    let title_h = min16(count16(tile_title(item, inner_w).len() as int), 2);
    let teaser_h = match tile_teaser(item, primary) {
        Some(_) => min16(count16(tile_teaser_all(item, inner_w, primary).len() as int), 3),
        None => 0,
    };
    (title_h + teaser_h) as u16
}

/// Lines of `v`, one space in front of each.
fn spaced_lines(v: &Vec<String>, n: usize) -> (r: Vec<String>)
    ensures
        r@.map_values(|l: String| l@) == spaced(first_lines(v@.map_values(|l: String| l@), n as int)),
{
    let ghost all = v@.map_values(|l: String| l@);
    let ghost want = first_lines(all, n as int);
    let m: usize = if v.len() < n {
        v.len()
    } else {
        n
    };
    assert(want.len() == m);
    assert(forall|k: int| 0 <= k < m ==> #[trigger] want[k] == v@[k]@);
    let mut out: Vec<String> = Vec::new();
    let mut i: usize = 0;
    while i < m
        invariant
            i <= m <= v.len(),
            want.len() == m,
            forall|k: int| 0 <= k < m ==> #[trigger] want[k] == v@[k]@,
            out@.map_values(|l: String| l@) == spaced(want.take(i as int)),
        decreases m - i,
    {
        let ghost before = out@.map_values(|l: String| l@);
        let mut s = String::from_str(" ");
        s.append(v[i].as_str());
        out.push(s);
        assert(out@.map_values(|l: String| l@) =~= before.push(" "@ + want[i as int]));
        assert(spaced(want.take(i + 1)) =~= spaced(want.take(i as int)).push(" "@ + want[i as int]));
        i += 1;
    }
    assert(want.take(m as int) =~= want);
    out
}

/// The text of a hero tile whose inside is `inner_w` wide: its title and, for
/// the primary tile, its teaser, each line with a space in front.
pub fn tile_text(item: &EditionItem, inner_w: u16, primary: bool) -> (r: TileText)
    ensures
        r.title_lines@.map_values(|l: String| l@) == spaced(tile_title(*item, inner_w)),
        r.teaser_lines@.map_values(|l: String| l@) == spaced(
            first_lines(tile_teaser_all(*item, inner_w, primary), 3),
        ),
        r.text_h == tile_text_h(*item, inner_w, primary),
{
    let w: usize = if inner_w > 2 {
        (inner_w - 2) as usize
    } else {
        0
    };
    let title = title_text(&item.title);
    let title_wrapped = wrap_text(title.as_str(), w);
    let tl = title_wrapped.len() % 65536;
    let title_h: u16 = if tl < 2 {
        tl as u16
    } else {
        2
    };
    let teaser = if primary {
        match item.content.teaser() {
            Some(t) => Some(plain_of(t)),
            None => None,
        }
    } else {
        None
    };
    let teaser_wrapped: Vec<String> = match &teaser {
        Some(t) => wrap_text(t.as_str(), w),
        None => Vec::new(),
    };
    let teaser_h: u16 = match &teaser {
        Some(_) => {
            let n = teaser_wrapped.len() % 65536;
            if n < 3 {
                n as u16
            } else {
                3
            }
        },
        None => 0,
    };
    assert(teaser_wrapped@.map_values(|l: String| l@) =~= tile_teaser_all(*item, inner_w, primary));
    let title_lines = spaced_lines(&title_wrapped, title_wrapped.len());
    assert(first_lines(title_wrapped@.map_values(|l: String| l@), title_wrapped.len() as int)
        =~= title_wrapped@.map_values(|l: String| l@));
    let teaser_lines = spaced_lines(&teaser_wrapped, 3);
    TileText { title_lines, teaser_lines, text_h: title_h + teaser_h }
}

/// The text of a highlight section and its colors.
pub struct HighlightText {
    /// The title's lines, centered in bold.
    pub title_lines: Vec<String>,
    /// At most three lines of the teaser's first 200 characters.
    pub teaser_lines: Vec<String>,
    /// The empty lines above the text, which centers it vertically.
    pub pad_top: u16,
    /// The text color: a longform's title color, or the header color (light variants).
    pub fg: Option<(u8, u8, u8)>,
    /// The background: a longform's card color (light variant).
    pub bg: Option<(u8, u8, u8)>,
}

/// The wrapping width of a highlight's text column `text_w` wide.
pub open spec fn highlight_wrap(text_w: u16) -> usize {
    less(text_w, 4) as usize
}

/// The title's lines of a highlight.
pub open spec fn highlight_title(item: EditionItem, text_w: u16) -> Seq<Seq<char>> {
    wrapped_lines(title_or_untitled(item.title), highlight_wrap(text_w))
}

/// The teaser's lines of a highlight: at most three lines of its first 200 characters.
pub open spec fn highlight_teaser(item: EditionItem, text_w: u16) -> Seq<Seq<char>> {
    match item.content.spec_teaser() {
        Some(t) => first_lines(
            wrapped_lines(first_chars(plain_md(t), 200), highlight_wrap(text_w)),
            3,
        ),
        None => seq![],
    }
}

/// The empty lines above a highlight's text in a column `text_h` high: half
/// of what the title, a blank line and the teaser leave.
pub open spec fn highlight_pad(item: EditionItem, text_w: u16, text_h: u16) -> u16 {
    let used = count16(
        (highlight_title(item, text_w).len() + 1 + highlight_teaser(item, text_w).len()) as int,
    );
    (less(text_h, used) / 2) as u16
}

/// The text color of a highlight.
pub open spec fn highlight_fg(c: ItemContent) -> Option<(u8, u8, u8)> {
    match c {
        ItemContent::Longform { title_color, .. } => title_color.light,
        _ => match c.spec_header_color() {
            Some(hc) => hc.light,
            None => None,
        },
    }
}

/// The background of a highlight.
pub open spec fn highlight_bg(c: ItemContent) -> Option<(u8, u8, u8)> {
    match c {
        ItemContent::Longform { card_color, .. } => card_color.light,
        _ => None,
    }
}

/// The text of a highlight section whose text column is `text_w` by
/// `text_h` cells, and its colors.
pub fn highlight_text(item: &EditionItem, text_w: u16, text_h: u16) -> (r: HighlightText)
    ensures
        r.title_lines@.map_values(|l: String| l@) == highlight_title(*item, text_w),
        r.teaser_lines@.map_values(|l: String| l@) == highlight_teaser(*item, text_w),
        r.pad_top == highlight_pad(*item, text_w, text_h),
        r.fg == highlight_fg(item.content),
        r.bg == highlight_bg(item.content),
{
    let w: usize = if text_w > 4 {
        (text_w - 4) as usize
    } else {
        0
    };
    let title = title_text(&item.title);
    let title_lines = wrap_text(title.as_str(), w);
    let all_teaser: Vec<String> = match item.content.teaser() {
        Some(t) => {
            let plain = plain_of(t);
            let short = first_chars_of(plain.as_str(), 200);
            wrap_text(short.as_str(), w)
        },
        None => Vec::new(),
    };
    let ghost all = all_teaser@.map_values(|l: String| l@);
    let m: usize = if all_teaser.len() < 3 {
        all_teaser.len()
    } else {
        3
    };
    let mut teaser_lines: Vec<String> = Vec::new();
    let mut i: usize = 0;
    while i < m
        invariant
            i <= m <= all_teaser.len(),
            all == all_teaser@.map_values(|l: String| l@),
            teaser_lines@.map_values(|l: String| l@) == all.take(i as int),
        decreases m - i,
    {
        let ghost before = teaser_lines@.map_values(|l: String| l@);
        teaser_lines.push(all_teaser[i].clone());
        assert(teaser_lines@.map_values(|l: String| l@) =~= before.push(all[i as int]));
        assert(all.take(i + 1) =~= all.take(i as int).push(all[i as int]));
        i += 1;
    }
    assert(teaser_lines@.map_values(|l: String| l@) =~= highlight_teaser(*item, text_w));
    let used: u16 = ((title_lines.len() as u128 + 1 + teaser_lines.len() as u128) % 65536) as u16;
    let pad_top: u16 = if text_h > used {
        (text_h - used) / 2
    } else {
        0
    };
    let fg = match &item.content {
        ItemContent::Longform { title_color, .. } => title_color.light,
        _ => match item.content.header_color() {
            Some(hc) => hc.light,
            None => None,
        },
    };
    let bg = match item.content.card_color() {
        Some(c) => c.light,
        None => None,
    };
    HighlightText { title_lines, teaser_lines, pad_top, fg, bg }
}

/// Where a hero tile goes in the grid.
#[derive(Debug, Clone, Copy, PartialEq, Eq, Structural)]
pub enum Slot {
    /// The middle column of the three-column grid.
    Center,
    LeftTop,
    RightTop,
    LeftBottom,
    RightBottom,
    /// The left column of the two-column grid.
    Main,
    /// Row `k` of the right column of the two-column grid.
    Side(usize),
    /// Row `k` of a single column.
    Row(usize),
}

/// A tile of the hero grid: which item (counted from the section's first),
/// where it goes, and whether it is the primary tile (which shows the teaser).
#[derive(Debug, Clone, Copy, PartialEq, Eq, Structural)]
pub struct TileSlot {
    pub item: usize,
    pub slot: Slot,
    pub primary: bool,
}

/// The tiles of a hero section of `n` items in an area `w` wide and `h`
/// high: three columns from 96 columns and five items, two columns (up to
/// four on the right) from 50 columns and two items, one column otherwise;
/// none when the area is under 4 lines high.
pub open spec fn hero_slots(w: u16, h: u16, n: usize) -> Seq<TileSlot> {
    if n == 0 || h < 4 {
        seq![]
    } else if w >= 96 && n >= 5 {
        seq![
            TileSlot { item: 0, slot: Slot::Center, primary: true },
            TileSlot { item: 1, slot: Slot::LeftTop, primary: false },
            TileSlot { item: 2, slot: Slot::RightTop, primary: false },
            TileSlot { item: 3, slot: Slot::LeftBottom, primary: false },
            TileSlot { item: 4, slot: Slot::RightBottom, primary: false },
        ]
    } else if w >= 50 && n >= 2 {
        let side = if n - 1 < 4 {
            n - 1
        } else {
            4
        };
        seq![TileSlot { item: 0, slot: Slot::Main, primary: true }] + Seq::new(
            side as nat,
            |k: int| TileSlot { item: (k + 1) as usize, slot: Slot::Side(k as usize), primary: false },
        )
    } else {
        Seq::new(
            n as nat,
            |k: int| TileSlot { item: k as usize, slot: Slot::Row(k as usize), primary: k == 0 },
        )
    }
}

/// Arranges the tiles of a hero section of `n` items in an area `w` by `h`.
pub fn hero_grid(w: u16, h: u16, n: usize) -> (r: Vec<TileSlot>)
    ensures
        r@ == hero_slots(w, h, n),
{
    let mut out: Vec<TileSlot> = Vec::new();
    if n == 0 || h < 4 {
        assert(out@ =~= hero_slots(w, h, n));
        return out;
    }
    if w >= 96 && n >= 5 {
        out.push(TileSlot { item: 0, slot: Slot::Center, primary: true });
        out.push(TileSlot { item: 1, slot: Slot::LeftTop, primary: false });
        out.push(TileSlot { item: 2, slot: Slot::RightTop, primary: false });
        out.push(TileSlot { item: 3, slot: Slot::LeftBottom, primary: false });
        out.push(TileSlot { item: 4, slot: Slot::RightBottom, primary: false });
        assert(out@ =~= hero_slots(w, h, n));
    } else if w >= 50 && n >= 2 {
        out.push(TileSlot { item: 0, slot: Slot::Main, primary: true });
        let side: usize = if n - 1 < 4 {
            n - 1
        } else {
            4
        };
        let mut k: usize = 0;
        while k < side
            invariant
                k <= side <= 4,
                out@ == seq![TileSlot { item: 0, slot: Slot::Main, primary: true }] + Seq::new(
                    k as nat,
                    |j: int| TileSlot { item: (j + 1) as usize, slot: Slot::Side(j as usize), primary: false },
                ),
            decreases side - k,
        {
            out.push(TileSlot { item: k + 1, slot: Slot::Side(k), primary: false });
            k += 1;
            assert(out@ =~= seq![TileSlot { item: 0, slot: Slot::Main, primary: true }] + Seq::new(
                k as nat,
                |j: int| TileSlot { item: (j + 1) as usize, slot: Slot::Side(j as usize), primary: false },
            ));
        }
        assert(out@ =~= hero_slots(w, h, n));
    } else {
        let mut k: usize = 0;
        while k < n
            invariant
                k <= n,
                out@ == Seq::new(
                    k as nat,
                    |j: int| TileSlot { item: j as usize, slot: Slot::Row(j as usize), primary: j == 0 },
                ),
            decreases n - k,
        {
            out.push(TileSlot { item: k, slot: Slot::Row(k), primary: k == 0 });
            k += 1;
            assert(out@ =~= Seq::new(
                k as nat,
                |j: int| TileSlot { item: j as usize, slot: Slot::Row(j as usize), primary: j == 0 },
            ));
        }
        assert(out@ =~= hero_slots(w, h, n));
    }
    out
}

/// The first line of an edition in the list: marker and title (bold when selected).
pub open spec fn edition_first(ed: Edition, selected: bool) -> Seq<(PieceStyle, Seq<char>)> {
    seq![
        (PieceStyle::Plain, "  "@),
        (PieceStyle::Plain, sel_marker(selected)),
        (
            if selected {
                PieceStyle::Bold
            } else {
                PieceStyle::Plain
            },
            ed.title@,
        ),
    ]
}

/// The second line of an edition in the list: its date and how many articles it has.
pub open spec fn edition_second(ed: Edition) -> Seq<(PieceStyle, Seq<char>)> {
    seq![
        (PieceStyle::Plain, "      "@),
        (PieceStyle::Dim, ed.date@),
        (PieceStyle::Dim, "  \u{00B7}  "@ + decimal(ed.items@.len()) + " articles"@),
    ]
}

/// The two lines of an edition in the list of editions.
pub fn build_edition_item(ed: &Edition, selected: bool) -> (r: (Vec<Piece>, Vec<Piece>))
    ensures
        pieces_view(r.0@) == edition_first(*ed, selected),
        pieces_view(r.1@) == edition_second(*ed),
{
    let mut first: Vec<Piece> = Vec::new();
    push_piece(&mut first, PieceStyle::Plain, "  ");
    push_piece(&mut first, PieceStyle::Plain, marker(selected));
    let style = if selected {
        PieceStyle::Bold
    } else {
        PieceStyle::Plain
    };
    push_piece_string(&mut first, style, ed.title.clone());
    assert(pieces_view(first@) =~= edition_first(*ed, selected));
    let mut second: Vec<Piece> = Vec::new();
    push_piece(&mut second, PieceStyle::Plain, "      ");
    push_piece_string(&mut second, PieceStyle::Dim, ed.date.clone());
    let mut count = String::from_str("  \u{00B7}  ");
    push_decimal(&mut count, ed.items.len() as u64);
    count.append(" articles");
    push_piece_string(&mut second, PieceStyle::Dim, count);
    assert(pieces_view(second@) =~= edition_second(*ed));
    (first, second)
}

/// The key hints shown at the bottom of a screen.
pub open spec fn hints_of(v: View) -> Seq<char> {
    match v {
        View::Home => "\u{2191}\u{2193} Navigate  \u{23CE} Read  / Search  e Editions  q Quit"@,
        View::Article => "\u{2191}\u{2193} Scroll  Space Page  Esc Back  q Quit"@,
        View::Search => "\u{2191}\u{2193} Navigate  \u{23CE} Read  / Search  Esc Back"@,
        View::EditionsList => "\u{2191}\u{2193} Navigate  \u{23CE} Open  Esc Back"@,
        _ => ""@,
    }
}

/// The key hints shown at the bottom of a screen (none on the screens
/// without keys of their own).
pub fn hints(v: &View) -> (r: &'static str)
    ensures
        r@ == hints_of(*v),
{
    match v {
        View::Home => "\u{2191}\u{2193} Navigate  \u{23CE} Read  / Search  e Editions  q Quit",
        View::Article => "\u{2191}\u{2193} Scroll  Space Page  Esc Back  q Quit",
        View::Search => "\u{2191}\u{2193} Navigate  \u{23CE} Read  / Search  Esc Back",
        View::EditionsList => "\u{2191}\u{2193} Navigate  \u{23CE} Open  Esc Back",
        _ => "",
    }
}

/// A rectangle of cells: column, row, width, height.
#[derive(Debug, Clone, Copy, PartialEq, Eq, Structural)]
pub struct Area {
    pub x: u16,
    pub y: u16,
    pub width: u16,
    pub height: u16,
}

/// The search input's box on a screen `w` by `h`: up to 50 columns wide (4
/// less than the screen), centered, 3 lines high, a third of the way down.
pub open spec fn popup_area(w: u16, h: u16) -> Area {
    let pw = min16(50, less(w, 4));
    Area { x: ((w - pw) / 2) as u16, y: (h / 3) as u16, width: pw, height: 3 }
}

/// Places the search input's box on a screen `w` by `h`.
pub fn search_popup(w: u16, h: u16) -> (r: Area)
    ensures
        r == popup_area(w, h),
{
    let inner: u16 = if w > 4 {
        w - 4
    } else {
        0
    };
    let pw: u16 = if inner < 50 {
        inner
    } else {
        50
    };
    Area { x: (w - pw) / 2, y: h / 3, width: pw, height: 3 }
}

/// The search screen's heading: the query between quotes.
pub fn quoted(query: &str) -> (r: String)
    ensures
        r@ == "\""@ + query@ + "\""@,
{
    let mut s = String::from_str("\"");
    s.append(query);
    s.append("\"");
    s
}

/// The offsets of `n` items of two lines each (counted in 16 bits).
pub open spec fn two_line_offsets(n: usize) -> Seq<u16> {
    Seq::new(n as nat, |i: int| ((2 * i) % 65536) as u16)
}

/// Records `n` items of two lines each in a list view (search results and
/// editions): their offsets and their count.
pub fn list_two_line_items(view: &mut ScrollView, n: usize)
    ensures
        final(view).item_offsets@ == two_line_offsets(n),
        final(view).item_count == n,
        final(view).item_heights@ == old(view).item_heights@,
        final(view).selected == old(view).selected,
        final(view).scroll == old(view).scroll,
{
    let mut offsets: Vec<u16> = Vec::new();
    let mut line: u16 = 0;
    let mut i: usize = 0;
    while i < n
        invariant
            i <= n,
            line as int == (2 * i) % 65536,
            offsets@ == two_line_offsets(i),
        decreases n - i,
    {
        offsets.push(line);
        line = if line < 65534 {
            line + 2
        } else {
            line - 65534
        };
        i += 1;
        assert(offsets@ =~= two_line_offsets(i));
    }
    view.item_offsets = offsets;
    view.item_count = n;
}

} // verus!
