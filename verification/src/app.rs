use vstd::prelude::*;
use vstd::view::View as _;
use vstd::string::{StrSliceExecFns, StringExecFns};
use crate::text::{wrap_text, wrapped_lines, chars_of, decimal, parse_iso_date, parsed_iso_date, push_padded, string_of, zero_pad};
use crate::markdown::{byte_lines, md_wrap, wrap_md, byte_segs, ByteSeg, StyledSegment};
use crate::api::{opt_text, first_present, ContentBlock, ItemContent, all_items, Edition, EditionItem, Homepage, HomepageSection};

verus! {

broadcast use vstd::string::group_string_axioms;

/// The screen being shown.
#[derive(Debug, Clone, Copy, PartialEq, Eq, Structural)]
pub enum View {
    Home,
    Article,
    Search,
    DatePicker,
    EditionView,
    EditionsList,
}

/// Data that is being fetched, has arrived, or failed to arrive.
pub enum LoadingState<T> {
    Loading,
    Loaded(T),
    Error(String),
}

/// A scrollable list of items of known vertical offsets and heights.
pub struct ScrollView {
    pub scroll: u16,
    pub selected: usize,
    pub item_count: usize,
    pub item_offsets: Vec<u16>,
    pub item_heights: Vec<u16>,
}

/// The selection after moving down one item in a list of `count` items.
pub open spec fn next_selected(selected: usize, count: usize) -> usize {
    if count > 0 {
        if selected + 1 < count - 1 {
            (selected + 1) as usize
        } else {
            (count - 1) as usize
        }
    } else {
        selected
    }
}

/// The selection after moving up one item.
pub open spec fn prev_selected(selected: usize) -> usize {
    if selected > 0 {
        (selected - 1) as usize
    } else {
        0
    }
}

/// `a - b`, or 0 when `b > a`.
pub open spec fn sat_sub(a: int, b: int) -> int {
    if a > b {
        a - b
    } else {
        0
    }
}

impl ScrollView {
    /// The height of item `i` (2 lines when it is not recorded).
    pub open spec fn height_of(self, i: int) -> int {
        if 0 <= i < self.item_heights@.len() {
            self.item_heights@[i] as int
        } else {
            2
        }
    }

    /// `ensure_visible` computes within `u16` for this view and viewport height.
    pub open spec fn visible_computable(self, viewport_h: u16) -> bool {
        self.selected < self.item_offsets@.len() ==> {
            let top = self.item_offsets@[self.selected as int] as int;
            &&& top + self.height_of(self.selected as int) <= u16::MAX
            &&& top >= self.scroll ==> self.scroll + viewport_h <= u16::MAX
        }
    }

    /// The scroll offset after bringing the selected item into view: scroll up
    /// to one line above an item that starts above the viewport; scroll down to
    /// show an item that ends below it (to its top when it is taller than the
    /// viewport).
    pub open spec fn visible_scroll(self, viewport_h: u16) -> u16 {
        if self.selected < self.item_offsets@.len() {
            let top = self.item_offsets@[self.selected as int] as int;
            let height = self.height_of(self.selected as int);
            let bottom = top + height;
            if top < self.scroll {
                sat_sub(top, 1) as u16
            } else if bottom > self.scroll + viewport_h {
                if height >= viewport_h {
                    sat_sub(top, 1) as u16
                } else {
                    sat_sub(bottom, viewport_h as int) as u16
                }
            } else {
                self.scroll
            }
        } else {
            self.scroll
        }
    }

    /// The view is what `new` makes: no items, scrolled to the top, the first selected.
    pub open spec fn is_empty_list(self) -> bool {
        &&& self.scroll == 0
        &&& self.selected == 0
        &&& self.item_count == 0
        &&& self.item_offsets@.len() == 0
        &&& self.item_heights@.len() == 0
    }

    /// An empty list, scrolled to the top, with the first item selected.
    pub fn new() -> (r: Self)
        ensures
            r.is_empty_list(),
    {
        ScrollView {
            scroll: 0,
            selected: 0,
            item_count: 0,
            item_offsets: Vec::new(),
            item_heights: Vec::new(),
        }
    }

    /// Selects the next item, staying on the last one.
    pub fn next(&mut self)
        requires
            old(self).item_count > 0 ==> old(self).selected < usize::MAX,
        ensures
            final(self).selected == next_selected(old(self).selected, old(self).item_count),
            final(self).scroll == old(self).scroll,
            final(self).item_count == old(self).item_count,
            final(self).item_offsets@ == old(self).item_offsets@,
            final(self).item_heights@ == old(self).item_heights@,
    {
        if self.item_count > 0 {
            let n = self.selected + 1;
            let last = self.item_count - 1;
            self.selected = if n < last {
                n
            } else {
                last
            };
        }
    }

    /// Selects the previous item, staying on the first one.
    pub fn prev(&mut self)
        ensures
            final(self).selected == prev_selected(old(self).selected),
            final(self).scroll == old(self).scroll,
            final(self).item_count == old(self).item_count,
            final(self).item_offsets@ == old(self).item_offsets@,
            final(self).item_heights@ == old(self).item_heights@,
    {
        self.selected = if self.selected > 0 {
            self.selected - 1
        } else {
            0
        };
    }

    /// Scrolls so that the selected item is in view.
    pub fn ensure_visible(&mut self, viewport_h: u16)
        requires
            old(self).visible_computable(viewport_h),
        ensures
            final(self).scroll == old(self).visible_scroll(viewport_h),
            final(self).selected == old(self).selected,
            final(self).item_count == old(self).item_count,
            final(self).item_offsets@ == old(self).item_offsets@,
            final(self).item_heights@ == old(self).item_heights@,
    {
        if self.selected < self.item_offsets.len() {
            let top = self.item_offsets[self.selected];
            let height = if self.selected < self.item_heights.len() {
                self.item_heights[self.selected]
            } else {
                2
            };
            let bottom = top + height;
            if top < self.scroll {
                self.scroll = if top > 1 {
                    top - 1
                } else {
                    0
                };
            } else if bottom > self.scroll + viewport_h {
                if height >= viewport_h {
                    self.scroll = if top > 1 {
                        top - 1
                    } else {
                        0
                    };
                } else {
                    self.scroll = bottom - viewport_h;
                }
            }
        }
    }
}

/// Moving down keeps a selection inside a non-empty list.
pub proof fn law_next_stays_in_list(selected: usize, count: usize)
    requires
        count > 0,
        selected < usize::MAX,
    ensures
        next_selected(selected, count) < count,
{
}

/// Moving down and then up returns to the same item, unless it was the last.
pub proof fn law_prev_undoes_next(selected: usize, count: usize)
    requires
        selected + 1 < count,
    ensures
        prev_selected(next_selected(selected, count)) == selected,
{
}

/// Moving up and then down returns to the same item, unless it was the first.
pub proof fn law_next_undoes_prev(selected: usize, count: usize)
    requires
        0 < selected < count,
    ensures
        next_selected(prev_selected(selected), count) == selected,
{
}

/// After `ensure_visible`, a selected item no taller than the viewport lies
/// entirely inside it.
pub proof fn law_ensure_visible_shows_selection(v: ScrollView, viewport_h: u16)
    requires
        v.visible_computable(viewport_h),
        v.selected < v.item_offsets@.len(),
        v.height_of(v.selected as int) < viewport_h,
    ensures
        ({
            let top = v.item_offsets@[v.selected as int] as int;
            let s = v.visible_scroll(viewport_h) as int;
            s <= top && top + v.height_of(v.selected as int) <= s + viewport_h
        }),
{
}

/// A second `ensure_visible` does not move the view again.
pub proof fn law_ensure_visible_idempotent(v: ScrollView, viewport_h: u16)
    requires
        v.visible_computable(viewport_h),
        (ScrollView { scroll: v.visible_scroll(viewport_h), ..v }).visible_computable(viewport_h),
    ensures
        (ScrollView { scroll: v.visible_scroll(viewport_h), ..v }).visible_scroll(viewport_h)
            == v.visible_scroll(viewport_h),
{
}

// ── Article lines ──

/// One line of a laid-out article.
#[derive(Debug, Clone)]
pub enum ArticleLine {
    Title(String),
    Header(String, Option<(u8, u8, u8)>),
    Author(String),
    Meta(String),
    Heading(String),
    RichText(Vec<StyledSegment>),
    InlineImage { url: String, height: u16 },
    ImageCaption(String),
    Blank,
}

/// The content of an article line: texts as characters, styled text as
/// segments with their text in UTF-8 bytes.
pub enum LineView {
    Title(Seq<char>),
    Header(Seq<char>, Option<(u8, u8, u8)>),
    Author(Seq<char>),
    Meta(Seq<char>),
    Heading(Seq<char>),
    RichText(Seq<ByteSeg>),
    InlineImage(Seq<char>, u16),
    ImageCaption(Seq<char>),
    Blank,
}

impl vstd::view::View for ArticleLine {
    type V = LineView;

    open spec fn view(&self) -> LineView {
        match self {
            ArticleLine::Title(t) => LineView::Title(t@),
            ArticleLine::Header(t, c) => LineView::Header(t@, *c),
            ArticleLine::Author(t) => LineView::Author(t@),
            ArticleLine::Meta(t) => LineView::Meta(t@),
            ArticleLine::Heading(t) => LineView::Heading(t@),
            ArticleLine::RichText(s) => LineView::RichText(byte_segs(s@)),
            ArticleLine::InlineImage { url, height } => LineView::InlineImage(url@, *height),
            ArticleLine::ImageCaption(t) => LineView::ImageCaption(t@),
            ArticleLine::Blank => LineView::Blank,
        }
    }
}

/// The content of a list of article lines.
pub open spec fn lines_view(v: Seq<ArticleLine>) -> Seq<LineView> {
    v.map_values(|l: ArticleLine| l@)
}

// ── Text helpers for articles ──

/// English month names, as chrono's `%B` writes them.
pub open spec fn month_name(m: u32) -> Seq<char> {
    if m == 1 {
        "January"@
    } else if m == 2 {
        "February"@
    } else if m == 3 {
        "March"@
    } else if m == 4 {
        "April"@
    } else if m == 5 {
        "May"@
    } else if m == 6 {
        "June"@
    } else if m == 7 {
        "July"@
    } else if m == 8 {
        "August"@
    } else if m == 9 {
        "September"@
    } else if m == 10 {
        "October"@
    } else if m == 11 {
        "November"@
    } else {
        "December"@
    }
}

/// A year as chrono's `%Y` writes it: four digits for 0..=9999, otherwise a
/// sign and at least four digits.
pub open spec fn year_text(y: i32) -> Seq<char> {
    if 0 <= y <= 9999 {
        zero_pad(decimal(y as nat), 4)
    } else if y < 0 {
        "-"@ + zero_pad(decimal((-y) as nat), 4)
    } else {
        "+"@ + zero_pad(decimal(y as nat), 4)
    }
}

/// A date as `%d %B %Y` writes it, e.g. "25 March 2026".
pub open spec fn long_date(y: i32, m: u32, d: u32) -> Seq<char> {
    zero_pad(decimal(d as nat), 2) + " "@ + month_name(m) + " "@ + year_text(y)
}

/// How an ISO date is shown: "2026-03-25" as "25 March 2026"; text that
/// chrono does not read as a date is shown as it is.
pub open spec fn date_text(s: Seq<char>) -> Seq<char> {
    match parsed_iso_date(s) {
        Some(d) => long_date(d.0, d.1, d.2),
        None => s,
    }
}

fn append_month_name(s: &mut String, m: u32)
    ensures
        final(s)@ == old(s)@ + month_name(m),
{
    let name = if m == 1 {
        "January"
    } else if m == 2 {
        "February"
    } else if m == 3 {
        "March"
    } else if m == 4 {
        "April"
    } else if m == 5 {
        "May"
    } else if m == 6 {
        "June"
    } else if m == 7 {
        "July"
    } else if m == 8 {
        "August"
    } else if m == 9 {
        "September"
    } else if m == 10 {
        "October"
    } else if m == 11 {
        "November"
    } else {
        "December"
    };
    s.append(name);
}

/// Writes a date as `%d %B %Y` does, e.g. "25 March 2026".
pub fn long_date_string(y: i32, m: u32, d: u32) -> (r: String)
    ensures
        r@ == long_date(y, m, d),
{
    let mut s = String::new();
    push_padded(&mut s, d as u64, 2);
    s.append(" ");
    append_month_name(&mut s, m);
    s.append(" ");
    if 0 <= y && y <= 9999 {
        push_padded(&mut s, y as u64, 4);
    } else if y < 0 {
        s.append("-");
        let a: i64 = -(y as i64);
        push_padded(&mut s, a as u64, 4);
    } else {
        s.append("+");
        push_padded(&mut s, y as u64, 4);
    }
    assert(s@ =~= long_date(y, m, d));
    s
}

/// Formats an ISO date "2026-03-25" as "25 March 2026"; other text is kept as it is.
pub fn format_date(date_str: &str) -> (r: String)
    ensures
        r@ == date_text(date_str@),
{
    match parse_iso_date(date_str) {
        Some((y, m, d)) => long_date_string(y, m, d),
        None => String::from_str(date_str),
    }
}

/// `s` with HTML tags (from `<` to `>`) removed; `in_tag` tells whether a tag is open.
pub open spec fn strip_tags(s: Seq<char>, in_tag: bool) -> Seq<char>
    decreases s.len(),
{
    if s.len() == 0 {
        seq![]
    } else if s[0] == '<' {
        strip_tags(s.drop_first(), true)
    } else if s[0] == '>' {
        strip_tags(s.drop_first(), false)
    } else if !in_tag {
        seq![s[0]] + strip_tags(s.drop_first(), in_tag)
    } else {
        strip_tags(s.drop_first(), in_tag)
    }
}

/// Removes HTML tags from a text.
pub fn strip_html(input: &str) -> (r: String)
    ensures
        r@ == strip_tags(input@, false),
{
    let chars = chars_of(input);
    let ghost s = chars@;
    let mut out: Vec<char> = Vec::new();
    let mut in_tag = false;
    let mut i: usize = 0;
    assert(s.skip(0) =~= s);
    while i < chars.len()
        invariant
            s == chars@,
            i <= chars.len(),
            strip_tags(s, false) == out@ + strip_tags(s.skip(i as int), in_tag),
        decreases chars.len() - i,
    {
        let ch = chars[i];
        let ghost before = out@;
        assert(s.skip(i as int).drop_first() =~= s.skip(i + 1));
        if ch == '<' {
            in_tag = true;
        } else if ch == '>' {
            in_tag = false;
        } else if !in_tag {
            out.push(ch);
            assert(out@ + strip_tags(s.skip(i + 1), in_tag) =~= before + (seq![ch] + strip_tags(
                s.skip(i + 1),
                in_tag,
            )));
        }
        i += 1;
    }
    assert(s.skip(i as int) =~= Seq::<char>::empty());
    assert(out@ + seq![] =~= out@);
    string_of(&out)
}

/// The texts of `list` joined with `sep` between them.
pub open spec fn join(list: Seq<Seq<char>>, sep: Seq<char>) -> Seq<char>
    decreases list.len(),
{
    if list.len() == 0 {
        seq![]
    } else if list.len() == 1 {
        list[0]
    } else {
        join(list.drop_last(), sep) + sep + list.last()
    }
}

/// The texts of a list of strings.
pub open spec fn texts(v: Seq<String>) -> Seq<Seq<char>> {
    v.map_values(|t: String| t@)
}

/// Appends `list` joined with `sep`.
pub fn append_joined(s: &mut String, list: &[String], sep: &str)
    ensures
        final(s)@ == old(s)@ + join(texts(list@), sep@),
{
    let ghost start = s@;
    let mut i: usize = 0;
    while i < list.len()
        invariant
            i <= list.len(),
            s@ == start + join(texts(list@.take(i as int)), sep@),
        decreases list.len() - i,
    {
        let ghost before = s@;
        if i > 0 {
            s.append(sep);
        }
        s.append(list[i].as_str());
        i += 1;
        assert(texts(list@.take(i as int)).drop_last() =~= texts(list@.take(i - 1)));
        assert(s@ =~= start + join(texts(list@.take(i as int)), sep@));
    }
    assert(list@.take(list.len() as int) =~= list@);
}

// ── Laying out an article ──

/// The wrapping width of article text on a terminal `width` columns wide:
/// at most 90 columns of content, less a margin of 4, and at least 20.
pub open spec fn wrap_width_for(width: u16) -> usize {
    let content = if width < 90 {
        width as int
    } else {
        90
    };
    let w = sat_sub(content, 4);
    (if w > 20 {
        w
    } else {
        20
    }) as usize
}

/// Both parts, when both exist.
pub open spec fn then(a: Option<Seq<LineView>>, b: Option<Seq<LineView>>) -> Option<Seq<LineView>> {
    match (a, b) {
        (Some(x), Some(y)) => Some(x + y),
        _ => None,
    }
}

/// The height given for image number `n`; 0 (unknown) is shown as 25 lines.
pub open spec fn image_height_at(hs: Seq<u16>, n: int) -> u16 {
    if 0 <= n < hs.len() && hs[n] != 0 {
        hs[n]
    } else {
        25
    }
}

/// How many images with an address a block shows (0 or 1).
pub open spec fn block_images(b: ContentBlock) -> int {
    match b {
        ContentBlock::Image { url: Some(_), .. } => 1,
        _ => 0,
    }
}

/// The stated sizes of the images (with an address) of a list of blocks, in order.
pub open spec fn block_image_sizes(bs: Seq<ContentBlock>) -> Seq<(Option<i64>, Option<i64>)>
    decreases bs.len(),
{
    if bs.len() == 0 {
        seq![]
    } else {
        let first = match bs[0] {
            ContentBlock::Image { url: Some(_), width, height, .. } => seq![(width, height)],
            _ => seq![],
        };
        first + block_image_sizes(bs.drop_first())
    }
}

/// The lines of each wrapped line of `t`, made by `f`.
pub open spec fn wrapped_as(t: Seq<char>, ww: usize, f: spec_fn(Seq<char>) -> LineView) -> Seq<
    LineView,
> {
    wrapped_lines(t, ww).map_values(f)
}

/// The lines that one block becomes; `n` is the number of the block's image.
pub open spec fn block_lines(b: ContentBlock, ww: usize, hs: Seq<u16>, n: int) -> Option<
    Seq<LineView>,
> {
    match b {
        ContentBlock::Heading(t) => Some(
            seq![LineView::Blank] + wrapped_as(
                strip_tags(t@, false),
                ww,
                |l: Seq<char>| LineView::Heading(l),
            ) + seq![LineView::Blank],
        ),
        ContentBlock::Paragraph(t) => match md_wrap(t@, ww) {
            Some(ls) => Some(
                ls.map_values(|l: Seq<ByteSeg>| LineView::RichText(l)) + seq![LineView::Blank],
            ),
            None => None,
        },
        ContentBlock::Image { url, caption, alt, .. } => {
            let img = match url {
                Some(u) => seq![LineView::InlineImage(u@, image_height_at(hs, n))],
                None => seq![],
            };
            let cap = match caption {
                Some(c) => if strip_tags(c@, false).len() > 0 {
                    seq![LineView::ImageCaption(strip_tags(c@, false))]
                } else {
                    seq![]
                },
                None => match alt {
                    Some(a) => if a@.len() > 0 {
                        seq![LineView::ImageCaption(a@)]
                    } else {
                        seq![]
                    },
                    None => seq![],
                },
            };
            Some(img + cap + seq![LineView::Blank])
        },
    }
}

/// The lines that a list of blocks becomes; `n` is the number of its first image.
pub open spec fn blocks_lines(bs: Seq<ContentBlock>, ww: usize, hs: Seq<u16>, n: int) -> Option<
    Seq<LineView>,
>
    decreases bs.len(),
{
    if bs.len() == 0 {
        Some(seq![])
    } else {
        then(
            block_lines(bs[0], ww, hs, n),
            blocks_lines(bs.drop_first(), ww, hs, n + block_images(bs[0])),
        )
    }
}

/// The separator shown before closing comments.
pub open spec fn rule_text() -> Seq<char> {
    "\u{2500}\u{2500}\u{2500}"@
}

/// The color of an item's header, for its badge.
pub open spec fn header_rgb(c: ItemContent) -> Option<(u8, u8, u8)> {
    match c.spec_header_color() {
        Some(col) => first_present(col.light, col.dark),
        None => None,
    }
}

/// The closing comment of a longform or a feature, after a rule, when there is one.
pub open spec fn comment_lines(bs: Seq<ContentBlock>, ww: usize, hs: Seq<u16>, n: int) -> Option<
    Seq<LineView>,
> {
    if bs.len() > 0 {
        then(
            Some(seq![LineView::Blank, LineView::Meta(rule_text()), LineView::Blank]),
            blocks_lines(bs, ww, hs, n),
        )
    } else {
        Some(seq![])
    }
}

/// A label line followed by a blank, when there is a label.
pub open spec fn label_lines(label: Option<String>) -> Seq<LineView> {
    match label {
        Some(l) => seq![LineView::Meta(l@), LineView::Blank],
        None => seq![],
    }
}

/// The sizes of the images an item's content shows, in order.
pub open spec fn content_image_sizes(c: ItemContent) -> Seq<(Option<i64>, Option<i64>)> {
    match c {
        ItemContent::Longform { introduction_comment, body, comment, .. } => block_image_sizes(
            introduction_comment@,
        ) + block_image_sizes(body@) + block_image_sizes(comment@),
        ItemContent::Feature { introduction_comment, lead, comment, .. } => block_image_sizes(
            introduction_comment@,
        ) + block_image_sizes(lead@) + block_image_sizes(comment@),
        ItemContent::DataVis { description, image_url, image_width, image_height, .. } => {
            block_image_sizes(description@) + match image_url {
                Some(_) => seq![(image_width, image_height)],
                None => seq![],
            }
        },
        ItemContent::CulturalRec { description, .. } => block_image_sizes(description@),
        ItemContent::EditorsNote { body, .. } => block_image_sizes(body@),
        ItemContent::CommunityNote { description_top, description_bottom, .. } => block_image_sizes(
            description_top@,
        ) + block_image_sizes(description_bottom@),
        ItemContent::Advert { .. } => seq![],
    }
}

/// The lines of an item's content after its heading part; `hs` are the
/// heights of its images, in order.
pub open spec fn content_lines(c: ItemContent, ww: usize, hs: Seq<u16>) -> Option<Seq<LineView>> {
    match c {
        ItemContent::Longform { teaser, introduction_comment, body, comment, .. } => {
            let n1 = block_image_sizes(introduction_comment@).len() as int;
            let n2 = n1 + block_image_sizes(body@).len();
            let t = match teaser {
                Some(tx) => match md_wrap(tx@, ww) {
                    Some(ls) => Some(
                        ls.map_values(|l: Seq<ByteSeg>| LineView::RichText(l)) + seq![
                            LineView::Blank,
                        ],
                    ),
                    None => None,
                },
                None => Some(seq![]),
            };
            then(
                then(then(blocks_lines(introduction_comment@, ww, hs, 0), t), blocks_lines(body@, ww, hs, n1)),
                comment_lines(comment@, ww, hs, n2),
            )
        },
        ItemContent::Feature { label, introduction_comment, lead, comment, .. } => {
            let n1 = block_image_sizes(introduction_comment@).len() as int;
            let n2 = n1 + block_image_sizes(lead@).len();
            then(
                then(
                    then(Some(label_lines(label)), blocks_lines(introduction_comment@, ww, hs, 0)),
                    blocks_lines(lead@, ww, hs, n1),
                ),
                comment_lines(comment@, ww, hs, n2),
            )
        },
        ItemContent::DataVis { description, image_url, .. } => {
            let n1 = block_image_sizes(description@).len() as int;
            then(
                blocks_lines(description@, ww, hs, 0),
                Some(
                    match image_url {
                        Some(u) => seq![
                            LineView::InlineImage(u@, image_height_at(hs, n1)),
                            LineView::Blank,
                        ],
                        None => seq![],
                    },
                ),
            )
        },
        ItemContent::CulturalRec { description, .. } => blocks_lines(description@, ww, hs, 0),
        ItemContent::EditorsNote { body, .. } => blocks_lines(body@, ww, hs, 0),
        ItemContent::CommunityNote {
            title,
            label,
            signature,
            description_top,
            description_bottom,
            ..
        } => {
            let hdr = header_rgb(c);
            let n1 = block_image_sizes(description_top@).len() as int;
            let head = wrapped_as(title@, ww, |l: Seq<char>| LineView::Header(l, hdr)) + seq![
                LineView::Blank,
            ] + label_lines(label);
            let sig = match signature {
                Some(sg) => seq![LineView::Blank, LineView::Author(sg@)],
                None => seq![],
            };
            then(
                then(
                    then(Some(head), blocks_lines(description_top@, ww, hs, 0)),
                    blocks_lines(description_bottom@, ww, hs, n1),
                ),
                Some(sig),
            )
        },
        ItemContent::Advert { .. } => Some(seq![LineView::Meta("[Advertisement]"@)]),
    }
}

/// The lines above an item's content: header badge, title (not for data
/// visualisations), date and authors.
pub open spec fn head_lines(item: EditionItem, ww: usize) -> Seq<LineView> {
    let c = item.content;
    let header = match c.spec_header() {
        Some(h) => seq![LineView::Header(h, header_rgb(c)), LineView::Blank],
        None => seq![],
    };
    let title = if !(c is DataVis) && item.title is Some {
        wrapped_as(item.title.unwrap()@, ww, |l: Seq<char>| LineView::Title(l)) + seq![
            LineView::Blank,
        ]
    } else {
        seq![]
    };
    let date = seq![LineView::Meta(date_text(item.date@)), LineView::Blank];
    let authors = if c.spec_authors().len() > 0 {
        seq![
            LineView::Author("By "@ + join(texts(c.spec_authors()), ", "@)),
            LineView::Blank,
        ]
    } else {
        seq![]
    };
    header + title + date + authors
}

/// The lines of an article on a terminal `width` columns wide, with `hs` the
/// heights of its images; `None` where a paragraph cannot be cut along its
/// wrapped lines.
pub open spec fn article_lines(item: EditionItem, width: u16, hs: Seq<u16>) -> Option<
    Seq<LineView>,
> {
    then(Some(head_lines(item, wrap_width_for(width))), content_lines(item.content, wrap_width_for(width), hs))
}

proof fn lemma_lines_view_push(v: Seq<ArticleLine>, x: ArticleLine)
    ensures
        lines_view(v.push(x)) == lines_view(v).push(x@),
{
    assert(lines_view(v.push(x)) =~= lines_view(v).push(x@));
}

/// The kinds of line that a wrapped text can be shown as.
#[derive(Clone, Copy, PartialEq, Eq)]
pub enum WrapKind {
    Title,
    Heading,
    Header,
}

/// The line of kind `k` holding `t` (`hdr` colors a header).
pub open spec fn kind_line(k: WrapKind, hdr: Option<(u8, u8, u8)>, t: Seq<char>) -> LineView {
    match k {
        WrapKind::Title => LineView::Title(t),
        WrapKind::Heading => LineView::Heading(t),
        WrapKind::Header => LineView::Header(t, hdr),
    }
}

/// Wraps `text` and appends each line as a line of kind `k`.
fn push_wrapped(
    lines: &mut Vec<ArticleLine>,
    text: &str,
    ww: usize,
    k: WrapKind,
    hdr: Option<(u8, u8, u8)>,
)
    ensures
        lines_view(final(lines)@) == lines_view(old(lines)@) + wrapped_lines(text@, ww).map_values(
            |t: Seq<char>| kind_line(k, hdr, t),
        ),
{
    let mut w = wrap_text(text, ww);
    let wl = w.len();
    let ghost all = w@.map_values(|l: String| l@);
    let ghost start = lines_view(lines@);
    let mut i: usize = 0;
    assert(all.len() <= usize::MAX);
    while w.len() > 0
        invariant
            all == wrapped_lines(text@, ww),
            all.len() <= usize::MAX,
            i + w@.len() == all.len(),
            forall|j: int| 0 <= j < w@.len() ==> w@[j]@ == all[i + j],
            lines_view(lines@) == start + all.take(i as int).map_values(
                |t: Seq<char>| kind_line(k, hdr, t),
            ),
        decreases w.len(),
    {
        let ghost w0 = w@;
        let l = w.remove(0);
        assert(l@ == all[i as int]);
        assert forall|j: int| 0 <= j < w@.len() implies w@[j]@ == all[i + 1 + j] by {
            assert(w@[j] == w0[j + 1]);
        }
        assert(all.take(i + 1) =~= all.take(i as int).push(all[i as int]));
        let line = match k {
            WrapKind::Title => ArticleLine::Title(l),
            WrapKind::Heading => ArticleLine::Heading(l),
            WrapKind::Header => ArticleLine::Header(l, hdr),
        };
        assert(line@ == kind_line(k, hdr, all[i as int]));
        proof {
            lemma_lines_view_push(lines@, line);
        }
        lines.push(line);
        i += 1;
        assert(lines_view(lines@) =~= start + all.take(i as int).map_values(
            |t: Seq<char>| kind_line(k, hdr, t),
        ));
    }
    assert(all.take(i as int) =~= all);
}

/// Appends the lines of wrapped styled text, then a blank line.
fn push_rich_lines(lines: &mut Vec<ArticleLine>, wrapped: Vec<Vec<StyledSegment>>)
    ensures
        lines_view(final(lines)@) == lines_view(old(lines)@) + byte_lines(wrapped@).map_values(
            |l: Seq<ByteSeg>| LineView::RichText(l),
        ) + seq![LineView::Blank],
{
    let mut w = wrapped;
    let wl = w.len();
    let ghost all = byte_lines(w@);
    let ghost start = lines_view(lines@);
    let mut i: usize = 0;
    assert(all.len() <= usize::MAX);
    while w.len() > 0
        invariant
            all.len() <= usize::MAX,
            i + w@.len() == all.len(),
            forall|j: int| 0 <= j < w@.len() ==> byte_segs(w@[j]@) == all[i + j],
            lines_view(lines@) == start + all.take(i as int).map_values(
                |l: Seq<ByteSeg>| LineView::RichText(l),
            ),
        decreases w.len(),
    {
        let ghost w0 = w@;
        let segs = w.remove(0);
        assert(byte_segs(segs@) == all[i as int]);
        assert forall|j: int| 0 <= j < w@.len() implies byte_segs(w@[j]@) == all[i + 1 + j] by {
            assert(w@[j] == w0[j + 1]);
        }
        assert(all.take(i + 1) =~= all.take(i as int).push(all[i as int]));
        proof {
            lemma_lines_view_push(lines@, ArticleLine::RichText(segs));
        }
        lines.push(ArticleLine::RichText(segs));
        i += 1;
        assert(lines_view(lines@) =~= start + all.take(i as int).map_values(
            |l: Seq<ByteSeg>| LineView::RichText(l),
        ));
    }
    assert(all.take(i as int) =~= all);
    lines.push(ArticleLine::Blank);
    assert(lines_view(lines@) =~= start + all.map_values(|l: Seq<ByteSeg>| LineView::RichText(l))
        + seq![LineView::Blank]);
}

/// Appends the lines of one block; `n` is the number of its image among the
/// article's images. `false` where a paragraph cannot be cut along its lines.
fn render_block(
    block: &ContentBlock,
    wrap_width: usize,
    heights: &Vec<u16>,
    n: usize,
    lines: &mut Vec<ArticleLine>,
) -> (r: bool)
    ensures
        r == block_lines(*block, wrap_width, heights@, n as int) is Some,
        r ==> lines_view(final(lines)@) == lines_view(old(lines)@) + block_lines(
            *block,
            wrap_width,
            heights@,
            n as int,
        ).unwrap(),
{
    let ghost start = lines_view(lines@);
    match block {
        ContentBlock::Heading(text) => {
            let cleaned = strip_html(text.as_str());
            proof {
                lemma_lines_view_push(lines@, ArticleLine::Blank);
            }
            lines.push(ArticleLine::Blank);
            push_wrapped(lines, cleaned.as_str(), wrap_width, WrapKind::Heading, None);
            proof {
                lemma_lines_view_push(lines@, ArticleLine::Blank);
            }
            lines.push(ArticleLine::Blank);
            assert(wrapped_lines(cleaned@, wrap_width).map_values(
                |t: Seq<char>| kind_line(WrapKind::Heading, None, t),
            ) =~= wrapped_as(strip_tags(text@, false), wrap_width, |l: Seq<char>| LineView::Heading(l)));
            assert(lines_view(lines@) =~= start + block_lines(*block, wrap_width, heights@, n as int).unwrap());
            true
        },
        ContentBlock::Paragraph(text) => {
            match wrap_md(text.as_str(), wrap_width) {
                Some(w) => {
                    assert(md_wrap(text@, wrap_width) == Some(byte_lines(w@)));
                    let ghost bl = byte_lines(w@);
                    push_rich_lines(lines, w);
                    assert(lines_view(lines@) =~= start + block_lines(*block, wrap_width, heights@, n as int).unwrap());
                    true
                },
                None => false,
            }
        },
        ContentBlock::Image { url, caption, alt, .. } => {
            match url {
                Some(u) => {
                    let h = if n < heights.len() && heights[n] != 0 {
                        heights[n]
                    } else {
                        25
                    };
                    lines.push(ArticleLine::InlineImage { url: u.clone(), height: h });
                },
                None => {},
            }
            match caption {
                Some(cap) => {
                    let cleaned = strip_html(cap.as_str());
                    if cleaned.as_str().unicode_len() > 0 {
                        lines.push(ArticleLine::ImageCaption(cleaned));
                    }
                },
                None => match alt {
                    Some(a) => {
                        if a.as_str().unicode_len() > 0 {
                            lines.push(ArticleLine::ImageCaption(a.clone()));
                        }
                    },
                    None => {},
                },
            }
            lines.push(ArticleLine::Blank);
            assert(lines_view(lines@) =~= start + block_lines(*block, wrap_width, heights@, n as int).unwrap());
            true
        },
    }
}

/// Appends the lines of a list of blocks; `first_image` is the number of its
/// first image among the article's images. Returns the number after its last
/// image, or `None` where a paragraph cannot be cut along its lines.
pub fn render_content_blocks(
    blocks: &[ContentBlock],
    wrap_width: usize,
    heights: &Vec<u16>,
    first_image: usize,
    lines: &mut Vec<ArticleLine>,
) -> (r: Option<usize>)
    requires
        first_image + block_image_sizes(blocks@).len() <= heights@.len(),
    ensures
        match r {
            Some(n) => {
                &&& n == first_image + block_image_sizes(blocks@).len()
                &&& blocks_lines(blocks@, wrap_width, heights@, first_image as int) is Some
                &&& lines_view(final(lines)@) == lines_view(old(lines)@) + blocks_lines(
                    blocks@,
                    wrap_width,
                    heights@,
                    first_image as int,
                ).unwrap()
            },
            None => blocks_lines(blocks@, wrap_width, heights@, first_image as int) is None,
        },
{
    let ghost bs = blocks@;
    let ghost start = lines_view(lines@);
    let mut n = first_image;
    let mut i: usize = 0;
    let hl = heights.len();
    assert(bs.skip(0) =~= bs);
    proof {
        let b = blocks_lines(bs, wrap_width, heights@, first_image as int);
        if b is Some {
            assert(seq![] + b.unwrap() =~= b.unwrap());
        }
    }
    while i < blocks.len()
        invariant
            bs == blocks@,
            i <= blocks.len(),
            n + block_image_sizes(bs.skip(i as int)).len() == first_image + block_image_sizes(
                bs,
            ).len(),
            first_image + block_image_sizes(bs).len() <= heights@.len(),
            hl == heights@.len(),
            blocks_lines(bs, wrap_width, heights@, first_image as int) == then(
                Some(lines_view(lines@).skip(start.len() as int)),
                blocks_lines(bs.skip(i as int), wrap_width, heights@, n as int),
            ),
            lines_view(lines@).len() >= start.len(),
            lines_view(lines@).take(start.len() as int) == start,
        decreases blocks.len() - i,
    {
        let ghost rest = bs.skip(i as int);
        assert(rest.drop_first() =~= bs.skip(i + 1));
        assert(rest[0] == blocks@[i as int]);
        let ghost before = lines_view(lines@);
        let ok = render_block(&blocks[i], wrap_width, heights, n, lines);
        if !ok {
            return None;
        }
        let ghost added = block_lines(blocks@[i as int], wrap_width, heights@, n as int).unwrap();
        let ghost n0 = n as int;
        assert(block_image_sizes(rest).len() == block_images(rest[0]) + block_image_sizes(
            rest.drop_first(),
        ).len());
        if let ContentBlock::Image { url: Some(_), .. } = &blocks[i] {
            n += 1;
        }
        assert(n as int == n0 + block_images(rest[0]));
        i += 1;
        proof {
            assert(lines_view(lines@) =~= before + added);
            assert(lines_view(lines@).skip(start.len() as int) =~= before.skip(start.len() as int) + added);
            assert(lines_view(lines@).take(start.len() as int) =~= before.take(start.len() as int));
            let tail = blocks_lines(bs.skip(i as int), wrap_width, heights@, n as int);
            if tail is Some {
                assert(before.skip(start.len() as int) + (added + tail.unwrap()) =~= (before.skip(
                    start.len() as int,
                ) + added) + tail.unwrap());
            }
        }
    }
    assert(bs.skip(i as int) =~= Seq::<ContentBlock>::empty());
    assert(lines_view(lines@) =~= start + lines_view(lines@).skip(start.len() as int));
    assert(lines_view(lines@).skip(start.len() as int) + seq![] =~= lines_view(lines@).skip(start.len() as int));
    Some(n)
}

/// The wrapping width of article text on a terminal `width` columns wide.
pub fn article_wrap_width(width: u16) -> (r: usize)
    ensures
        r == wrap_width_for(width),
{
    let content: usize = if width < 90 {
        width as usize
    } else {
        90
    };
    let w = if content > 4 {
        content - 4
    } else {
        0
    };
    if w > 20 {
        w
    } else {
        20
    }
}

/// The stated sizes of the images (with an address) of a list of blocks.
fn collect_block_image_sizes(blocks: &[ContentBlock], out: &mut Vec<(Option<i64>, Option<i64>)>)
    ensures
        final(out)@ == old(out)@ + block_image_sizes(blocks@),
{
    let ghost bs = blocks@;
    let ghost start = out@;
    let mut i: usize = 0;
    assert(bs.skip(0) =~= bs);
    while i < blocks.len()
        invariant
            bs == blocks@,
            i <= blocks.len(),
            start + block_image_sizes(bs) == out@ + block_image_sizes(bs.skip(i as int)),
        decreases blocks.len() - i,
    {
        let ghost rest = bs.skip(i as int);
        assert(rest.drop_first() =~= bs.skip(i + 1));
        let ghost before = out@;
        match &blocks[i] {
            ContentBlock::Image { url: Some(_), width, height, .. } => {
                out.push((*width, *height));
                assert(before + block_image_sizes(rest) =~= out@ + block_image_sizes(bs.skip(i + 1)));
            },
            _ => {
                assert(before + block_image_sizes(rest) =~= out@ + block_image_sizes(bs.skip(i + 1)));
            },
        }
        i += 1;
    }
    assert(bs.skip(i as int) =~= Seq::<ContentBlock>::empty());
    assert(out@ + block_image_sizes(bs.skip(i as int)) =~= out@);
}

/// The stated sizes of the images that an item's content shows, in order.
pub fn content_images(content: &ItemContent) -> (r: Vec<(Option<i64>, Option<i64>)>)
    ensures
        r@ == content_image_sizes(*content),
{
    let mut out: Vec<(Option<i64>, Option<i64>)> = Vec::new();
    match content {
        ItemContent::Longform { introduction_comment, body, comment, .. } => {
            collect_block_image_sizes(introduction_comment.as_slice(), &mut out);
            collect_block_image_sizes(body.as_slice(), &mut out);
            collect_block_image_sizes(comment.as_slice(), &mut out);
        },
        ItemContent::Feature { introduction_comment, lead, comment, .. } => {
            collect_block_image_sizes(introduction_comment.as_slice(), &mut out);
            collect_block_image_sizes(lead.as_slice(), &mut out);
            collect_block_image_sizes(comment.as_slice(), &mut out);
        },
        ItemContent::DataVis { description, image_url, image_width, image_height, .. } => {
            collect_block_image_sizes(description.as_slice(), &mut out);
            if image_url.is_some() {
                out.push((*image_width, *image_height));
            }
        },
        ItemContent::CulturalRec { description, .. } => {
            collect_block_image_sizes(description.as_slice(), &mut out);
        },
        ItemContent::EditorsNote { body, .. } => {
            collect_block_image_sizes(body.as_slice(), &mut out);
        },
        ItemContent::CommunityNote { description_top, description_bottom, .. } => {
            collect_block_image_sizes(description_top.as_slice(), &mut out);
            collect_block_image_sizes(description_bottom.as_slice(), &mut out);
        },
        ItemContent::Advert { .. } => {},
    }
    assert(out@ =~= content_image_sizes(*content));
    out
}

/// Appends a rule between an article and its closing comment, then the comment.
fn render_comment(
    comment: &Vec<ContentBlock>,
    wrap_width: usize,
    heights: &Vec<u16>,
    first_image: usize,
    lines: &mut Vec<ArticleLine>,
) -> (r: bool)
    requires
        first_image + block_image_sizes(comment@).len() <= heights@.len(),
    ensures
        r == comment_lines(comment@, wrap_width, heights@, first_image as int) is Some,
        r ==> lines_view(final(lines)@) == lines_view(old(lines)@) + comment_lines(
            comment@,
            wrap_width,
            heights@,
            first_image as int,
        ).unwrap(),
{
    let ghost start = lines_view(lines@);
    if comment.len() == 0 {
        assert(start + seq![] =~= start);
        return true;
    }
    proof {
        lemma_lines_view_push(lines@, ArticleLine::Blank);
    }
    lines.push(ArticleLine::Blank);
    let rule = ArticleLine::Meta(String::from_str("\u{2500}\u{2500}\u{2500}"));
    proof {
        lemma_lines_view_push(lines@, rule);
    }
    lines.push(rule);
    proof {
        lemma_lines_view_push(lines@, ArticleLine::Blank);
    }
    lines.push(ArticleLine::Blank);
    let ghost mid = lines_view(lines@);
    match render_content_blocks(comment.as_slice(), wrap_width, heights, first_image, lines) {
        Some(_) => {
            assert(lines_view(lines@) =~= start + comment_lines(
                comment@,
                wrap_width,
                heights@,
                first_image as int,
            ).unwrap());
            true
        },
        None => false,
    }
}

/// Appends a label line and a blank when there is a label.
fn push_label(label: &Option<String>, lines: &mut Vec<ArticleLine>)
    ensures
        lines_view(final(lines)@) == lines_view(old(lines)@) + label_lines(*label),
{
    let ghost start = lines_view(lines@);
    match label {
        Some(l) => {
            let m = ArticleLine::Meta(l.clone());
            proof {
                lemma_lines_view_push(lines@, m);
            }
            lines.push(m);
            proof {
                lemma_lines_view_push(lines@, ArticleLine::Blank);
            }
            lines.push(ArticleLine::Blank);
            assert(lines_view(lines@) =~= start + label_lines(*label));
        },
        None => {
            assert(lines_view(lines@) =~= start + label_lines(*label));
        },
    }
}

/// Appends the content lines of a Longform.
fn render_longform(
    content: &ItemContent,
    wrap_width: usize,
    heights: &Vec<u16>,
    lines: &mut Vec<ArticleLine>,
) -> (r: bool)
    requires
        content is Longform,
        heights@.len() == content_image_sizes(*content).len(),
    ensures
        r == content_lines(*content, wrap_width, heights@) is Some,
        r ==> lines_view(final(lines)@) == lines_view(old(lines)@) + content_lines(
            *content,
            wrap_width,
            heights@,
        ).unwrap(),
{
    let ghost start = lines_view(lines@);
    let ghost hs = heights@;
    match content {
        ItemContent::Longform { teaser, introduction_comment, body, comment, .. } => {
            let n1 = match render_content_blocks(introduction_comment.as_slice(), wrap_width, heights, 0, lines) {
                Some(n) => n,
                None => return false,
            };
            let ghost a = lines_view(lines@).skip(start.len() as int);
            assert(lines_view(lines@) =~= start + a);
            match teaser {
                Some(t) => match wrap_md(t.as_str(), wrap_width) {
                    Some(w) => {
                        push_rich_lines(lines, w);
                    },
                    None => return false,
                },
                None => {},
            }
            let ghost at = lines_view(lines@).skip(start.len() as int);
            assert(lines_view(lines@) =~= start + at);
            let n2 = match render_content_blocks(body.as_slice(), wrap_width, heights, n1, lines) {
                Some(n) => n,
                None => return false,
            };
            let ghost atb = lines_view(lines@).skip(start.len() as int);
            assert(lines_view(lines@) =~= start + atb);
            if !render_comment(comment, wrap_width, heights, n2, lines) {
                return false;
            }
            assert(lines_view(lines@) =~= start + content_lines(*content, wrap_width, hs).unwrap());
            true
        },
        _ => false,
    }
}

/// Appends the content lines of a Feature.
fn render_feature(
    content: &ItemContent,
    wrap_width: usize,
    heights: &Vec<u16>,
    lines: &mut Vec<ArticleLine>,
) -> (r: bool)
    requires
        content is Feature,
        heights@.len() == content_image_sizes(*content).len(),
    ensures
        r == content_lines(*content, wrap_width, heights@) is Some,
        r ==> lines_view(final(lines)@) == lines_view(old(lines)@) + content_lines(
            *content,
            wrap_width,
            heights@,
        ).unwrap(),
{
    let ghost start = lines_view(lines@);
    let ghost hs = heights@;
    match content {
        ItemContent::Feature { label, introduction_comment, lead, comment, .. } => {
            push_label(label, lines);
            let n1 = match render_content_blocks(introduction_comment.as_slice(), wrap_width, heights, 0, lines) {
                Some(n) => n,
                None => return false,
            };
            let ghost a = lines_view(lines@).skip(start.len() as int);
            assert(lines_view(lines@) =~= start + a);
            let n2 = match render_content_blocks(lead.as_slice(), wrap_width, heights, n1, lines) {
                Some(n) => n,
                None => return false,
            };
            let ghost ab = lines_view(lines@).skip(start.len() as int);
            assert(lines_view(lines@) =~= start + ab);
            if !render_comment(comment, wrap_width, heights, n2, lines) {
                return false;
            }
            assert(lines_view(lines@) =~= start + content_lines(*content, wrap_width, hs).unwrap());
            true
        },
        _ => false,
    }
}

/// Appends the content lines of a DataVis.
fn render_datavis(
    content: &ItemContent,
    wrap_width: usize,
    heights: &Vec<u16>,
    lines: &mut Vec<ArticleLine>,
) -> (r: bool)
    requires
        content is DataVis,
        heights@.len() == content_image_sizes(*content).len(),
    ensures
        r == content_lines(*content, wrap_width, heights@) is Some,
        r ==> lines_view(final(lines)@) == lines_view(old(lines)@) + content_lines(
            *content,
            wrap_width,
            heights@,
        ).unwrap(),
{
    let ghost start = lines_view(lines@);
    let ghost hs = heights@;
    match content {
        ItemContent::DataVis { description, image_url, .. } => {
            let n1 = match render_content_blocks(description.as_slice(), wrap_width, heights, 0, lines) {
                Some(n) => n,
                None => return false,
            };
            let ghost a = lines_view(lines@).skip(start.len() as int);
            assert(lines_view(lines@) =~= start + a);
            match image_url {
                Some(u) => {
                    let h = if n1 < heights.len() && heights[n1] != 0 {
                        heights[n1]
                    } else {
                        25
                    };
                    let img = ArticleLine::InlineImage { url: u.clone(), height: h };
                    proof {
                        lemma_lines_view_push(lines@, img);
                    }
                    lines.push(img);
                    proof {
                        lemma_lines_view_push(lines@, ArticleLine::Blank);
                    }
                    lines.push(ArticleLine::Blank);
                },
                None => {},
            }
            assert(lines_view(lines@) =~= start + content_lines(*content, wrap_width, hs).unwrap());
            true
        },
        _ => false,
    }
}

/// Appends the content lines of a CommunityNote.
fn render_community_note(
    content: &ItemContent,
    wrap_width: usize,
    heights: &Vec<u16>,
    lines: &mut Vec<ArticleLine>,
) -> (r: bool)
    requires
        content is CommunityNote,
        heights@.len() == content_image_sizes(*content).len(),
    ensures
        r == content_lines(*content, wrap_width, heights@) is Some,
        r ==> lines_view(final(lines)@) == lines_view(old(lines)@) + content_lines(
            *content,
            wrap_width,
            heights@,
        ).unwrap(),
{
    let ghost start = lines_view(lines@);
    let ghost hs = heights@;
    match content {
        ItemContent::CommunityNote {
            title,
            label,
            signature,
            description_top,
            description_bottom,
            ..
        } => {
            let hdr: Option<(u8, u8, u8)> = None;
            assert(header_rgb(*content) == hdr);
            push_wrapped(lines, title.as_str(), wrap_width, WrapKind::Header, hdr);
            proof {
                lemma_lines_view_push(lines@, ArticleLine::Blank);
            }
            lines.push(ArticleLine::Blank);
            push_label(label, lines);
            let ghost h = lines_view(lines@).skip(start.len() as int);
            assert(lines_view(lines@) =~= start + h);
            assert(h =~= wrapped_as(title@, wrap_width, |l: Seq<char>| LineView::Header(l, hdr))
                + seq![LineView::Blank] + label_lines(*label));
            let n1 = match render_content_blocks(description_top.as_slice(), wrap_width, heights, 0, lines) {
                Some(n) => n,
                None => return false,
            };
            let ghost ht = lines_view(lines@).skip(start.len() as int);
            assert(lines_view(lines@) =~= start + ht);
            match render_content_blocks(description_bottom.as_slice(), wrap_width, heights, n1, lines) {
                Some(_) => {},
                None => return false,
            }
            let ghost htb = lines_view(lines@).skip(start.len() as int);
            assert(lines_view(lines@) =~= start + htb);
            match signature {
                Some(sg) => {
                    proof {
                        lemma_lines_view_push(lines@, ArticleLine::Blank);
                    }
                    lines.push(ArticleLine::Blank);
                    let a = ArticleLine::Author(sg.clone());
                    proof {
                        lemma_lines_view_push(lines@, a);
                    }
                    lines.push(a);
                },
                None => {},
            }
            assert(lines_view(lines@) =~= start + content_lines(*content, wrap_width, hs).unwrap());
            true
        },
        _ => false,
    }
}

/// Appends the lines of an item's content (after its heading part).
/// `false` where a paragraph cannot be cut along its wrapped lines.
fn render_content(
    content: &ItemContent,
    wrap_width: usize,
    heights: &Vec<u16>,
    lines: &mut Vec<ArticleLine>,
) -> (r: bool)
    requires
        heights@.len() == content_image_sizes(*content).len(),
    ensures
        r == content_lines(*content, wrap_width, heights@) is Some,
        r ==> lines_view(final(lines)@) == lines_view(old(lines)@) + content_lines(
            *content,
            wrap_width,
            heights@,
        ).unwrap(),
{
    match content {
        ItemContent::Longform { .. } => render_longform(content, wrap_width, heights, lines),
        ItemContent::Feature { .. } => render_feature(content, wrap_width, heights, lines),
        ItemContent::DataVis { .. } => render_datavis(content, wrap_width, heights, lines),
        ItemContent::CulturalRec { description, .. } => {
            match render_content_blocks(description.as_slice(), wrap_width, heights, 0, lines) {
                Some(_) => true,
                None => false,
            }
        },
        ItemContent::EditorsNote { body, .. } => {
            match render_content_blocks(body.as_slice(), wrap_width, heights, 0, lines) {
                Some(_) => true,
                None => false,
            }
        },
        ItemContent::CommunityNote { .. } => render_community_note(content, wrap_width, heights, lines),
        ItemContent::Advert { .. } => {
            let ghost start = lines_view(lines@);
            let m = ArticleLine::Meta(String::from_str("[Advertisement]"));
            proof {
                lemma_lines_view_push(lines@, m);
            }
            lines.push(m);
            true
        },
    }
}

/// Appends the lines above an item's content: header badge, title, date, authors.
fn render_head(item: &EditionItem, wrap_width: usize, lines: &mut Vec<ArticleLine>)
    ensures
        lines_view(final(lines)@) == lines_view(old(lines)@) + head_lines(*item, wrap_width),
{
    let ghost start = lines_view(lines@);
    let hdr_rgb = match item.content.header_color() {
        Some(c) => c.accent_rgb(),
        None => None,
    };
    assert(hdr_rgb == header_rgb(item.content));
    match item.content.header() {
        Some(header) => {
            let h = ArticleLine::Header(String::from_str(header), hdr_rgb);
            proof {
                lemma_lines_view_push(lines@, h);
            }
            lines.push(h);
            proof {
                lemma_lines_view_push(lines@, ArticleLine::Blank);
            }
            lines.push(ArticleLine::Blank);
        },
        None => {},
    }
    let ghost s1 = lines_view(lines@);
    let is_datavis = match &item.content {
        ItemContent::DataVis { .. } => true,
        _ => false,
    };
    if !is_datavis {
        match &item.title {
            Some(title) => {
                push_wrapped(lines, title.as_str(), wrap_width, WrapKind::Title, None);
                proof {
                    lemma_lines_view_push(lines@, ArticleLine::Blank);
                }
                lines.push(ArticleLine::Blank);
                assert(wrapped_lines(title@, wrap_width).map_values(
                    |t: Seq<char>| kind_line(WrapKind::Title, None, t),
                ) =~= wrapped_as(title@, wrap_width, |l: Seq<char>| LineView::Title(l)));
            },
            None => {},
        }
    }
    let ghost s2 = lines_view(lines@);
    let m = ArticleLine::Meta(format_date(item.date.as_str()));
    proof {
        lemma_lines_view_push(lines@, m);
    }
    lines.push(m);
    proof {
        lemma_lines_view_push(lines@, ArticleLine::Blank);
    }
    lines.push(ArticleLine::Blank);
    let ghost s3 = lines_view(lines@);
    let authors = item.content.authors();
    if authors.len() > 0 {
        let mut by = String::from_str("By ");
        append_joined(&mut by, authors, ", ");
        let a = ArticleLine::Author(by);
        proof {
            lemma_lines_view_push(lines@, a);
        }
        lines.push(a);
        proof {
            lemma_lines_view_push(lines@, ArticleLine::Blank);
        }
        lines.push(ArticleLine::Blank);
    }
    assert(lines_view(lines@) =~= start + head_lines(*item, wrap_width));
}

// ── Application state ──

/// The state of the reader that its logic reads and changes; what belongs to
/// the terminal (render buffers, images) is kept by the program around it.
pub struct App {
    pub locale: String,
    pub view: View,
    pub should_quit: bool,
    pub homepage: LoadingState<Homepage>,
    pub home_slugs: Vec<Option<String>>,
    pub home_view: ScrollView,
    pub home_dirty: bool,
    pub article: LoadingState<EditionItem>,
    pub article_scroll: u16,
    pub article_lines: Vec<ArticleLine>,
    pub article_built_width: u16,
    pub article_dirty: bool,
    pub search_query: String,
    pub search_results: LoadingState<Vec<EditionItem>>,
    pub search_view: ScrollView,
    pub search_active: bool,
    pub editions: LoadingState<Vec<Edition>>,
    pub editions_view: ScrollView,
    pub edition: LoadingState<Option<Edition>>,
    pub edition_view: ScrollView,
    /// The date the date picker shows: year, month and day.
    pub picker_date: (i32, u32, u32),
}

/// The slugs of the items of all sections, in order.
pub open spec fn home_slugs_of(sections: Seq<HomepageSection>) -> Seq<Option<String>> {
    all_items(sections).map_values(|i: EditionItem| i.slug)
}

/// A copy of an optional string.
pub fn clone_opt(s: &Option<String>) -> (r: Option<String>)
    ensures
        r == *s,
{
    match s {
        Some(t) => Some(t.clone()),
        None => None,
    }
}

impl App {
    /// The state at start-up: the English home screen, the homepage, article
    /// and editions loading, an empty search, and every list empty.
    pub open spec fn is_new(self) -> bool {
        &&& self.locale@ == "en-GB"@
        &&& self.view == View::Home
        &&& !self.should_quit
        &&& self.homepage is Loading
        &&& self.home_slugs@.len() == 0
        &&& self.home_view.is_empty_list()
        &&& self.home_dirty
        &&& self.article is Loading
        &&& self.article_scroll == 0
        &&& self.article_lines@.len() == 0
        &&& self.article_built_width == 0
        &&& self.article_dirty
        &&& self.search_query@.len() == 0
        &&& self.search_results matches LoadingState::Loaded(v) && v@.len() == 0
        &&& self.search_view.is_empty_list()
        &&& !self.search_active
        &&& self.editions is Loading
        &&& self.editions_view.is_empty_list()
        &&& self.edition is Loading
        &&& self.edition_view.is_empty_list()
    }

    /// The state at start-up: the English home screen, with everything still
    /// loading; the date picker shows `today` (year, month, day), the local
    /// clock's date, which the program reads.
    pub fn new(today: (i32, u32, u32)) -> (r: Self)
        ensures
            r.is_new(),
            r.picker_date == today,
    {
        App {
            locale: String::from_str("en-GB"),
            view: View::Home,
            should_quit: false,
            homepage: LoadingState::Loading,
            home_slugs: Vec::new(),
            home_view: ScrollView::new(),
            home_dirty: true,
            article: LoadingState::Loading,
            article_scroll: 0,
            article_lines: Vec::new(),
            article_built_width: 0,
            article_dirty: true,
            search_query: String::new(),
            search_results: LoadingState::Loaded(Vec::new()),
            search_view: ScrollView::new(),
            search_active: false,
            editions: LoadingState::Loading,
            editions_view: ScrollView::new(),
            edition: LoadingState::Loading,
            edition_view: ScrollView::new(),
            picker_date: today,
        }
    }

    /// Lists the slugs of all homepage items, in order, and selects the first.
    /// Does nothing while the homepage is not loaded.
    pub fn rebuild_home_items(&mut self)
        ensures
            match old(self).homepage {
                LoadingState::Loaded(hp) => {
                    &&& final(self).home_slugs@ == home_slugs_of(hp.sections@)
                    &&& *final(self) == (App {
                        home_slugs: final(self).home_slugs,
                        home_view: ScrollView {
                            item_count: final(self).home_slugs@.len() as usize,
                            selected: 0,
                            scroll: 0,
                            ..old(self).home_view
                        },
                        ..*old(self)
                    })
                },
                _ => *final(self) == *old(self),
            },
    {
        let hp = match &self.homepage {
            LoadingState::Loaded(hp) => hp,
            _ => return,
        };
        let mut slugs: Vec<Option<String>> = Vec::new();
        let mut i: usize = 0;
        while i < hp.sections.len()
            invariant
                i <= hp.sections.len(),
                slugs@ == home_slugs_of(hp.sections@.take(i as int)),
            decreases hp.sections.len() - i,
        {
            let ghost before = slugs@;
            match &hp.sections[i] {
                HomepageSection::Hero { items } | HomepageSection::ItemList { items, .. } => {
                    let mut j: usize = 0;
                    while j < items.len()
                        invariant
                            j <= items.len(),
                            slugs@ == before + items@.take(j as int).map_values(
                                |it: EditionItem| it.slug,
                            ),
                        decreases items.len() - j,
                    {
                        slugs.push(clone_opt(&items[j].slug));
                        j += 1;
                        assert(slugs@ =~= before + items@.take(j as int).map_values(
                            |it: EditionItem| it.slug,
                        ));
                    }
                    assert(items@.take(items.len() as int) =~= items@);
                },
                HomepageSection::Highlight { item } | HomepageSection::Inline { item } => {
                    slugs.push(clone_opt(&item.slug));
                },
            }
            i += 1;
            assert(hp.sections@.take(i as int).drop_last() =~= hp.sections@.take(i - 1));
            assert(slugs@ =~= home_slugs_of(hp.sections@.take(i as int)));
        }
        assert(hp.sections@.take(hp.sections.len() as int) =~= hp.sections@);
        let n = slugs.len();
        self.home_slugs = slugs;
        self.home_view.item_count = n;
        self.home_view.selected = 0;
        self.home_view.scroll = 0;
    }

    /// The stated sizes of the images of the loaded article, in the order in
    /// which it shows them (none while no article is loaded).
    pub fn article_images(&self) -> (r: Vec<(Option<i64>, Option<i64>)>)
        ensures
            r@ == match self.article {
                LoadingState::Loaded(item) => content_image_sizes(item.content),
                _ => seq![],
            },
    {
        match &self.article {
            LoadingState::Loaded(item) => content_images(&item.content),
            _ => Vec::new(),
        }
    }

    /// Lays out the loaded article for a terminal `width` columns wide;
    /// `image_heights` are the display heights of its images, in order
    /// (0 when unknown). Returns whether the lines were built; they are not
    /// while no article is loaded, nor where a paragraph cannot be cut along
    /// its wrapped lines, and then nothing changes.
    pub fn build_article_lines(&mut self, width: u16, image_heights: &Vec<u16>) -> (r: bool)
        requires
            old(self).article matches LoadingState::Loaded(item) ==> image_heights@.len()
                == content_image_sizes(item.content).len(),
        ensures
            match old(self).article {
                LoadingState::Loaded(item) => {
                    &&& r == article_lines(item, width, image_heights@) is Some
                    &&& r ==> lines_view(final(self).article_lines@) == article_lines(
                        item,
                        width,
                        image_heights@,
                    ).unwrap()
                    &&& r ==> *final(self) == (App {
                        article_lines: final(self).article_lines,
                        article_built_width: width,
                        ..*old(self)
                    })
                    &&& !r ==> *final(self) == *old(self)
                },
                _ => !r && *final(self) == *old(self),
            },
    {
        let item = match &self.article {
            LoadingState::Loaded(item) => item,
            _ => return false,
        };
        let wrap_width = article_wrap_width(width);
        let mut lines: Vec<ArticleLine> = Vec::new();
        render_head(item, wrap_width, &mut lines);
        let ghost head = lines_view(lines@);
        if !render_content(&item.content, wrap_width, image_heights, &mut lines) {
            return false;
        }
        assert(lines_view(lines@) =~= article_lines(*item, width, image_heights@).unwrap());
        self.article_built_width = width;
        self.article_lines = lines;
        true
    }

    /// The slug of the selected homepage item, if it has one.
    pub fn selected_slug(&self) -> (r: Option<String>)
        ensures
            r == (if self.home_view.selected < self.home_slugs@.len() {
                self.home_slugs@[self.home_view.selected as int]
            } else {
                None
            }),
    {
        if self.home_view.selected < self.home_slugs.len() {
            clone_opt(&self.home_slugs[self.home_view.selected])
        } else {
            None
        }
    }
}

// ── Laws ──

/// A character that is neither angle bracket.
pub open spec fn not_bracket(c: char) -> bool {
    c != '<' && c != '>'
}

/// What tag stripping leaves holds no angle bracket.
pub proof fn law_strip_leaves_no_brackets(s: Seq<char>, in_tag: bool)
    ensures
        forall|i: int|
            0 <= i < strip_tags(s, in_tag).len() ==> not_bracket(#[trigger] strip_tags(s, in_tag)[i]),
    decreases s.len(),
{
    if s.len() > 0 {
        let t = s.drop_first();
        if s[0] == '<' {
            law_strip_leaves_no_brackets(t, true);
            assert(strip_tags(s, in_tag) == strip_tags(t, true));
        } else if s[0] == '>' {
            law_strip_leaves_no_brackets(t, false);
            assert(strip_tags(s, in_tag) == strip_tags(t, false));
        } else if !in_tag {
            law_strip_leaves_no_brackets(t, in_tag);
            let r = strip_tags(t, in_tag);
            assert(strip_tags(s, in_tag) == seq![s[0]] + r);
            assert forall|i: int| 0 <= i < (seq![s[0]] + r).len() implies not_bracket(
                #[trigger] (seq![s[0]] + r)[i],
            ) by {
                if i > 0 {
                    assert((seq![s[0]] + r)[i] == r[i - 1]);
                }
            }
        } else {
            law_strip_leaves_no_brackets(t, in_tag);
            assert(strip_tags(s, in_tag) == strip_tags(t, in_tag));
        }
    }
}

/// Text without angle brackets is kept as it is.
pub proof fn law_strip_keeps_plain_text(t: Seq<char>)
    requires
        forall|i: int| 0 <= i < t.len() ==> not_bracket(#[trigger] t[i]),
    ensures
        strip_tags(t, false) == t,
    decreases t.len(),
{
    if t.len() > 0 {
        assert(not_bracket(t[0]));
        assert forall|i: int| 0 <= i < t.drop_first().len() implies not_bracket(
            #[trigger] t.drop_first()[i],
        ) by {
            assert(t.drop_first()[i] == t[i + 1]);
        }
        law_strip_keeps_plain_text(t.drop_first());
        assert(seq![t[0]] + t.drop_first() =~= t);
    }
}

/// `f` picks the characters of `a` out of `b`, at increasing positions.
pub open spec fn picks(f: Seq<int>, a: Seq<char>, b: Seq<char>) -> bool {
    &&& f.len() == a.len()
    &&& forall|i: int| 0 <= i < f.len() ==> 0 <= #[trigger] f[i] < b.len() && b[f[i]] == a[i]
    &&& forall|i: int, j: int| 0 <= i < j < f.len() ==> #[trigger] f[i] < #[trigger] f[j]
}

/// `a` is a subsequence of `b`: its characters appear in `b` in the same order.
pub open spec fn is_subsequence(a: Seq<char>, b: Seq<char>) -> bool {
    exists|f: Seq<int>| #[trigger] picks(f, a, b)
}

proof fn lemma_strip_picks(s: Seq<char>, in_tag: bool) -> (f: Seq<int>)
    ensures
        picks(f, strip_tags(s, in_tag), s),
    decreases s.len(),
{
    if s.len() == 0 {
        seq![]
    } else {
        let t = s.drop_first();
        let next = if s[0] == '<' {
            true
        } else if s[0] == '>' {
            false
        } else {
            in_tag
        };
        let g = lemma_strip_picks(t, next);
        let r = strip_tags(t, next);
        let h = g.map_values(|x: int| x + 1);
        assert forall|i: int| 0 <= i < h.len() implies 0 <= #[trigger] h[i] < s.len() && s[h[i]]
            == r[i] by {
            assert(s[h[i]] == t[g[i]]);
        }
        if s[0] != '<' && s[0] != '>' && !in_tag {
            let f = seq![0int] + h;
            assert(strip_tags(s, in_tag) == seq![s[0]] + r);
            let a = seq![s[0]] + r;
            assert forall|i: int| 0 <= i < f.len() implies 0 <= #[trigger] f[i] < s.len() && s[f[i]]
                == a[i] by {
                if i > 0 {
                    assert(f[i] == h[i - 1]);
                    assert(a[i] == r[i - 1]);
                }
            }
            assert forall|i: int, j: int| 0 <= i < j < f.len() implies #[trigger] f[i]
                < #[trigger] f[j] by {
                if i > 0 {
                    assert(f[i] == g[i - 1] + 1 && f[j] == g[j - 1] + 1);
                } else {
                    assert(f[j] == h[j - 1]);
                }
            }
            f
        } else {
            assert(strip_tags(s, in_tag) == r);
            assert forall|i: int, j: int| 0 <= i < j < h.len() implies #[trigger] h[i]
                < #[trigger] h[j] by {
                assert(h[i] == g[i] + 1 && h[j] == g[j] + 1);
            }
            h
        }
    }
}

/// What tag stripping leaves is a subsequence of the text: characters are
/// only removed, never added or moved.
pub proof fn law_strip_is_subsequence(s: Seq<char>)
    ensures
        is_subsequence(strip_tags(s, false), s),
{
    let f = lemma_strip_picks(s, false);
    assert(picks(f, strip_tags(s, false), s));
}

/// Removing tags a second time changes nothing.
pub proof fn law_strip_idempotent(s: Seq<char>)
    ensures
        strip_tags(strip_tags(s, false), false) == strip_tags(s, false),
{
    law_strip_leaves_no_brackets(s, false);
    law_strip_keeps_plain_text(strip_tags(s, false));
}

/// The slugs listed for the homepage are one for each item, in order, so the
/// selection numbers the homepage's items.
pub proof fn law_home_slugs_follow_items(sections: Seq<HomepageSection>)
    ensures
        home_slugs_of(sections).len() == all_items(sections).len(),
        forall|i: int|
            0 <= i < all_items(sections).len() ==> #[trigger] home_slugs_of(sections)[i]
                == all_items(sections)[i].slug,
{
}

/// A data visualisation shows no title line above its content.
pub proof fn law_datavis_has_no_title(item: EditionItem, ww: usize)
    requires
        item.content is DataVis,
    ensures
        forall|i: int|
            0 <= i < head_lines(item, ww).len() ==> !(#[trigger] head_lines(item, ww)[i] is Title),
{
    let c = item.content;
    let header = match c.spec_header() {
        Some(h) => seq![LineView::Header(h, header_rgb(c)), LineView::Blank],
        None => seq![],
    };
    let date = seq![LineView::Meta(date_text(item.date@)), LineView::Blank];
    let authors = if c.spec_authors().len() > 0 {
        seq![
            LineView::Author("By "@ + join(texts(c.spec_authors()), ", "@)),
            LineView::Blank,
        ]
    } else {
        seq![]
    };
    assert(head_lines(item, ww) =~= header + seq![] + date + authors);
}

/// An item with a header starts with its header badge.
pub proof fn law_header_comes_first(item: EditionItem, ww: usize)
    requires
        item.content.spec_header() is Some,
    ensures
        head_lines(item, ww)[0] == LineView::Header(
            item.content.spec_header().unwrap(),
            header_rgb(item.content),
        ),
{
}

/// The date line shows the text itself when chrono does not read it as a date.
pub proof fn law_unreadable_date_is_kept(s: Seq<char>)
    requires
        parsed_iso_date(s) is None,
    ensures
        date_text(s) == s,
{
}

proof fn lemma_then_assoc(a: Option<Seq<LineView>>, b: Option<Seq<LineView>>, c: Option<Seq<LineView>>)
    ensures
        then(a, then(b, c)) == then(then(a, b), c),
{
    if a is Some && b is Some && c is Some {
        assert(a.unwrap() + (b.unwrap() + c.unwrap()) =~= (a.unwrap() + b.unwrap()) + c.unwrap());
    }
}

/// Blocks are laid out one after the other: the lines of two runs of blocks
/// are the lines of the first followed by those of the second, whose images
/// are numbered after the first run's.
pub proof fn law_blocks_in_order(a: Seq<ContentBlock>, b: Seq<ContentBlock>, ww: usize, hs: Seq<u16>, n: int)
    ensures
        blocks_lines(a + b, ww, hs, n) == then(
            blocks_lines(a, ww, hs, n),
            blocks_lines(b, ww, hs, n + block_image_sizes(a).len()),
        ),
    decreases a.len(),
{
    if a.len() == 0 {
        assert(a + b =~= b);
        assert(block_image_sizes(a).len() == 0);
        let r = blocks_lines(b, ww, hs, n);
        if r is Some {
            assert(Seq::<LineView>::empty() + r.unwrap() =~= r.unwrap());
        }
    } else {
        let a0 = a[0];
        let rest = a.drop_first();
        assert((a + b)[0] == a0);
        assert((a + b).drop_first() =~= rest + b);
        let m = n + block_images(a0);
        law_blocks_in_order(rest, b, ww, hs, m);
        let first = match a0 {
            ContentBlock::Image { url: Some(_), width, height, .. } => seq![(width, height)],
            _ => seq![],
        };
        assert(first.len() == block_images(a0));
        assert(block_image_sizes(a).len() == block_images(a0) + block_image_sizes(rest).len());
        lemma_then_assoc(
            block_lines(a0, ww, hs, n),
            blocks_lines(rest, ww, hs, m),
            blocks_lines(b, ww, hs, m + block_image_sizes(rest).len()),
        );
    }
}

/// The English month names, January first, as chrono's `%B` writes them.
pub open spec fn english_months() -> Seq<Seq<char>> {
    seq![
        "January"@,
        "February"@,
        "March"@,
        "April"@,
        "May"@,
        "June"@,
        "July"@,
        "August"@,
        "September"@,
        "October"@,
        "November"@,
        "December"@,
    ]
}

/// Month `m` (1 to 12) is named by the `m`-th English month name.
pub proof fn law_month_names(m: u32)
    requires
        1 <= m <= 12,
    ensures
        month_name(m) == english_months()[m - 1],
{
}

/// A date that chrono reads as year `y`, month `m`, day `d` is shown as the
/// day in two digits, the `m`-th English month name and the year.
pub proof fn law_date_shows_month_name(s: Seq<char>)
    requires
        parsed_iso_date(s) is Some,
        1 <= parsed_iso_date(s).unwrap().1 <= 12,
    ensures
        ({
            let (y, m, d) = parsed_iso_date(s).unwrap();
            date_text(s) == zero_pad(decimal(d as nat), 2) + " "@ + english_months()[m - 1] + " "@
                + year_text(y)
        }),
{
    law_month_names(parsed_iso_date(s).unwrap().1);
}

/// A longform with a teaser shows it: right after the head (header, title,
/// date, authors) and the introduction comment come the wrapped lines of the
/// teaser as styled text, then a blank line, and then the body's lines.
pub proof fn law_longform_shows_teaser(item: EditionItem, width: u16, hs: Seq<u16>)
    requires
        item.content matches ItemContent::Longform { teaser: Some(_), .. },
        article_lines(item, width, hs) is Some,
    ensures
        item.content matches ItemContent::Longform {
            teaser: Some(t),
            introduction_comment,
            body,
            ..
        } ==> ({
            let ww = wrap_width_for(width);
            let lines = article_lines(item, width, hs).unwrap();
            let p: int = (head_lines(item, ww).len() + blocks_lines(introduction_comment@, ww, hs, 0).unwrap().len()) as int;
            let n1 = block_image_sizes(introduction_comment@).len() as int;
            &&& md_wrap(t@, ww) is Some
            &&& blocks_lines(introduction_comment@, ww, hs, 0) is Some
            &&& blocks_lines(body@, ww, hs, n1) is Some
            &&& forall|i: int|
                0 <= i < md_wrap(t@, ww).unwrap().len() ==> lines[p + i] == LineView::RichText(
                    #[trigger] md_wrap(t@, ww).unwrap()[i],
                )
            &&& lines[p + md_wrap(t@, ww).unwrap().len()] == LineView::Blank
            &&& lines.subrange(
                p + md_wrap(t@, ww).unwrap().len() + 1,
                p + md_wrap(t@, ww).unwrap().len() + 1 + blocks_lines(body@, ww, hs, n1).unwrap().len(),
            ) == blocks_lines(body@, ww, hs, n1).unwrap()
        }),
{
    match item.content {
        ItemContent::Longform { teaser: Some(t), introduction_comment, body, comment, .. } => {
            let ww = wrap_width_for(width);
            let n1 = block_image_sizes(introduction_comment@).len() as int;
            let n2 = n1 + block_image_sizes(body@).len();
            let head = head_lines(item, ww);
            let intro = blocks_lines(introduction_comment@, ww, hs, 0).unwrap();
            let ls = md_wrap(t@, ww).unwrap();
            let tl = ls.map_values(|l: Seq<ByteSeg>| LineView::RichText(l)) + seq![LineView::Blank];
            let bl = blocks_lines(body@, ww, hs, n1).unwrap();
            let cl = comment_lines(comment@, ww, hs, n2).unwrap();
            let lines = article_lines(item, width, hs).unwrap();
            assert(lines == head + (((intro + tl) + bl) + cl));
            let p: int = (head.len() + intro.len()) as int;
            assert forall|i: int| 0 <= i < ls.len() implies lines[p + i] == LineView::RichText(
                #[trigger] ls[i],
            ) by {
                assert(lines[p + i] == tl[i]);
            }
            assert(lines[p + ls.len()] == tl[ls.len() as int]);
            assert(lines.subrange(p + ls.len() + 1, p + ls.len() + 1 + bl.len()) =~= bl);
        },
        _ => {},
    }
}

} // verus!
