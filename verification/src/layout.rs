use vstd::prelude::*;
use crate::api::{all_items, first_present, Homepage, HomepageSection};
use crate::app::{sat_sub, ScrollView};

verus! {

/// The color of a section's dot: the section's own color, or one of the
/// palette's colors by number.
#[derive(Debug, Clone, Copy, PartialEq, Eq)]
pub enum DotColor {
    Rgb(u8, u8, u8),
    Palette(usize),
}

/// How many colors the dot palette has.
pub const DOT_PALETTE_LEN: usize = 6;

/// Where a homepage section lies in the scrollable page.
#[derive(Debug, Clone, Copy, PartialEq, Eq)]
pub enum SectionLayout {
    /// A grid of tiles for `count` items.
    Hero { y: u16, height: u16, count: usize },
    /// Lines of text for section number `section` (a list, or an inline item).
    Text { y: u16, height: u16, section: usize, dot: Option<DotColor> },
    /// One highlighted item, with its image on the right when `reversed`.
    Highlight { y: u16, height: u16, item_index: usize, reversed: bool },
}

/// The measured homepage: where each item starts, where each section lies,
/// and the total height.
pub struct HomeLayout {
    pub item_offsets: Vec<u16>,
    pub sections: Vec<SectionLayout>,
    pub total_h: u16,
}

/// The state of measuring after some sections.
pub struct Measure {
    pub total: int,
    pub offsets: Seq<u16>,
    pub layouts: Seq<SectionLayout>,
    pub lists: int,
}

/// The height of the hero grid on a viewport `height` lines high (`None` where it overflows).
pub open spec fn hero_height(height: u16) -> Option<u16> {
    if height * 9 > u16::MAX {
        None
    } else {
        let h = (height * 9 / 20) as u16;
        Some(if h > 14 { h } else { 14 })
    }
}

/// The height of a highlight section on a viewport `height` lines high.
pub open spec fn highlight_height(height: u16) -> u16 {
    let h = (height / 3) as u16;
    if h > 10 {
        h
    } else {
        10
    }
}

/// The offset of hero item `i` of `n`, at `y`, in a grid `hero_h` high, on a
/// page `w` wide; `None` where it overflows (or divides by zero).
pub open spec fn hero_offset(i: int, n: int, y: u16, hero_h: u16, w: u16) -> Option<u16> {
    if w >= 96 && n >= 5 {
        let half = hero_h / 2;
        if i == 3 || i == 4 {
            if y + half > u16::MAX {
                None
            } else {
                Some((y + half) as u16)
            }
        } else {
            Some(y)
        }
    } else {
        let count = (if n > 1 { n } else { 1 }) as u16;
        if count == 0 {
            None
        } else {
            let p = (i as u16) * (hero_h / count);
            if p > u16::MAX || y + p > u16::MAX {
                None
            } else {
                Some((y + p) as u16)
            }
        }
    }
}

/// The offsets of the first `k` hero items of `n`, or `None` where one overflows.
pub open spec fn hero_offsets(k: int, n: int, y: u16, hero_h: u16, w: u16) -> Option<Seq<u16>>
    decreases k,
{
    if k <= 0 {
        Some(seq![])
    } else {
        match (hero_offsets(k - 1, n, y, hero_h, w), hero_offset(k - 1, n, y, hero_h, w)) {
            (Some(s), Some(o)) => Some(s.push(o)),
            _ => None,
        }
    }
}

/// The number of lines above the items of a list section.
pub open spec fn list_head_lines(heading: Option<String>, subheading: Option<String>) -> int {
    match heading {
        Some(_) => 3 + (if subheading is Some { 1int } else { 0int }),
        None => 1,
    }
}

/// The offsets of the first `k` items of a list section at `y` whose head
/// takes `head` lines (each item takes 2), or `None` where one overflows.
pub open spec fn list_offsets(k: int, y: u16, head: int) -> Option<Seq<u16>>
    decreases k,
{
    if k <= 0 {
        Some(seq![])
    } else {
        match list_offsets(k - 1, y, head) {
            Some(s) => {
                let l = (head + 2 * (k - 1)) as u16;
                if y + l > u16::MAX {
                    None
                } else {
                    Some(s.push((y + l) as u16))
                }
            },
            None => None,
        }
    }
}

/// Measures one more section (number `k`); `None` where a height overflows.
pub open spec fn measure_step(
    st: Measure,
    sec: HomepageSection,
    k: int,
    w: u16,
    hero_h: u16,
    hl_h: u16,
) -> Option<Measure> {
    let y = st.total as u16;
    match sec {
        HomepageSection::Hero { items } => {
            let n = items@.len() as int;
            match hero_offsets(n, n, y, hero_h, w) {
                Some(offs) => if hero_h + 1 > u16::MAX || st.total + hero_h + 1 > u16::MAX {
                    None
                } else {
                    Some(
                        Measure {
                            total: st.total + hero_h + 1,
                            offsets: st.offsets + offs,
                            layouts: st.layouts.push(
                                SectionLayout::Hero { y, height: hero_h, count: n as usize },
                            ),
                            lists: st.lists,
                        },
                    )
                },
                None => None,
            }
        },
        HomepageSection::ItemList { heading, subheading, header_color, items } => {
            let head = list_head_lines(heading, subheading);
            let n = items@.len() as int;
            let h = (head + 2 * n + 1) as u16;
            let dot = match first_present(header_color.light, header_color.dark) {
                Some(c) => DotColor::Rgb(c.0, c.1, c.2),
                None => DotColor::Palette((st.lists % 6) as usize),
            };
            match list_offsets(n, y, head) {
                Some(offs) => if st.total + h > u16::MAX {
                    None
                } else {
                    Some(
                        Measure {
                            total: st.total + h,
                            offsets: st.offsets + offs,
                            layouts: st.layouts.push(
                                SectionLayout::Text {
                                    y,
                                    height: h,
                                    section: k as usize,
                                    dot: Some(dot),
                                },
                            ),
                            lists: st.lists + 1,
                        },
                    )
                },
                None => None,
            }
        },
        HomepageSection::Highlight { .. } => if st.total + hl_h + 1 > u16::MAX {
            None
        } else {
            Some(
                Measure {
                    total: st.total + hl_h + 1,
                    offsets: st.offsets.push(y),
                    layouts: st.layouts.push(
                        SectionLayout::Highlight {
                            y,
                            height: hl_h,
                            item_index: st.offsets.len() as usize,
                            reversed: st.lists % 2 == 1,
                        },
                    ),
                    lists: st.lists,
                },
            )
        },
        HomepageSection::Inline { .. } => if st.total + 2 > u16::MAX {
            None
        } else {
            Some(
                Measure {
                    total: st.total + 2,
                    offsets: st.offsets.push(y),
                    layouts: st.layouts.push(
                        SectionLayout::Text { y, height: 2, section: k as usize, dot: None },
                    ),
                    lists: st.lists,
                },
            )
        },
    }
}

/// Measures the first sections; `None` where a height overflows.
pub open spec fn measure_sections(secs: Seq<HomepageSection>, w: u16, hero_h: u16, hl_h: u16) -> Option<
    Measure,
>
    decreases secs.len(),
{
    if secs.len() == 0 {
        Some(Measure { total: 1, offsets: seq![], layouts: seq![], lists: 0 })
    } else {
        match measure_sections(secs.drop_last(), w, hero_h, hl_h) {
            Some(st) => measure_step(st, secs.last(), secs.len() - 1, w, hero_h, hl_h),
            None => None,
        }
    }
}

/// The layout of the homepage on an area `width` wide and `height` high;
/// `None` where a height does not fit in 16 bits.
pub open spec fn home_measure(hp: Homepage, width: u16, height: u16) -> Option<Measure> {
    match hero_height(height) {
        Some(hero_h) => measure_sections(hp.sections@, width, hero_h, highlight_height(height)),
        None => None,
    }
}

impl HomeLayout {
    /// The layout is the measurement `m`.
    pub open spec fn is(self, m: Measure) -> bool {
        &&& self.item_offsets@ == m.offsets
        &&& self.sections@ == m.layouts
        &&& self.total_h as int == m.total
    }
}

proof fn lemma_hero_offsets_fail(k: int, k2: int, n: int, y: u16, hero_h: u16, w: u16)
    requires
        0 <= k <= k2,
        hero_offsets(k, n, y, hero_h, w) is None,
    ensures
        hero_offsets(k2, n, y, hero_h, w) is None,
    decreases k2 - k,
{
    if k2 > k {
        lemma_hero_offsets_fail(k, k2 - 1, n, y, hero_h, w);
    }
}

/// Measures a hero section's items.
fn push_hero_offsets(offsets: &mut Vec<u16>, n: usize, y: u16, hero_h: u16, w: u16) -> (r: bool)
    ensures
        match hero_offsets(n as int, n as int, y, hero_h, w) {
            Some(o) => r && final(offsets)@ == old(offsets)@ + o,
            None => !r,
        },
{
    let ghost start = offsets@;
    let mut i: usize = 0;
    while i < n
        invariant
            i <= n,
            hero_offsets(i as int, n as int, y, hero_h, w) matches Some(o) && offsets@ == start + o,
        decreases n - i,
    {
        let ghost before = offsets@;
        let off: u16;
        if w >= 96 && n >= 5 {
            let half = hero_h / 2;
            if i == 3 || i == 4 {
                if y as u32 + half as u32 > 65535 {
                    proof {
                        lemma_hero_offsets_fail(i as int + 1, n as int, n as int, y, hero_h, w);
                    }
                    return false;
                }
                off = y + half;
            } else {
                off = y;
            }
        } else {
            let count = (if n > 1 { n } else { 1 }) as u16;
            if count == 0 {
                proof {
                    lemma_hero_offsets_fail(i as int + 1, n as int, n as int, y, hero_h, w);
                }
                return false;
            }
            let q = hero_h / count;
            let iu = i as u16;
            let a: u64 = iu as u64;
            let b: u64 = q as u64;
            assert(a * b <= 65535 * 65535) by (nonlinear_arith)
                requires
                    a <= 65535,
                    b <= 65535,
            ;
            let prod: u64 = a * b;
            if prod > 65535 {
                proof {
                    lemma_hero_offsets_fail(i as int + 1, n as int, n as int, y, hero_h, w);
                }
                return false;
            }
            let p = iu * q;
            if y as u32 + p as u32 > 65535 {
                proof {
                    lemma_hero_offsets_fail(i as int + 1, n as int, n as int, y, hero_h, w);
                }
                return false;
            }
            off = y + p;
        }
        assert(hero_offset(i as int, n as int, y, hero_h, w) == Some(off));
        offsets.push(off);
        i += 1;
        assert(offsets@ =~= start + hero_offsets(i as int, n as int, y, hero_h, w).unwrap());
    }
    true
}

proof fn lemma_list_offsets_fail(k: int, k2: int, y: u16, head: int)
    requires
        0 <= k <= k2,
        list_offsets(k, y, head) is None,
    ensures
        list_offsets(k2, y, head) is None,
    decreases k2 - k,
{
    if k2 > k {
        lemma_list_offsets_fail(k, k2 - 1, y, head);
    }
}

/// Measures a list section's items.
fn push_list_offsets(offsets: &mut Vec<u16>, n: usize, y: u16, head: usize) -> (r: bool)
    requires
        head <= 4,
        2 * n + 5 <= usize::MAX,
    ensures
        match list_offsets(n as int, y, head as int) {
            Some(o) => r && final(offsets)@ == old(offsets)@ + o,
            None => !r,
        },
{
    let ghost start = offsets@;
    let mut j: usize = 0;
    while j < n
        invariant
            j <= n,
            head <= 4,
            2 * n + 5 <= usize::MAX,
            list_offsets(j as int, y, head as int) matches Some(o) && offsets@ == start + o,
        decreases n - j,
    {
        let l = (head + 2 * j) as u16;
        if y as u32 + l as u32 > 65535 {
            proof {
                lemma_list_offsets_fail(j as int + 1, n as int, y, head as int);
            }
            return false;
        }
        offsets.push(y + l);
        j += 1;
        assert(offsets@ =~= start + list_offsets(j as int, y, head as int).unwrap());
    }
    true
}

/// Every list section of the homepage holds few enough items for its lines
/// to be counted in memory.
pub open spec fn lists_countable(hp: Homepage) -> bool {
    forall|k: int|
        0 <= k < hp.sections@.len() ==> (#[trigger] hp.sections@[k] matches HomepageSection::ItemList {
            items,
            ..
        } ==> 2 * items@.len() + 5 <= usize::MAX)
}

/// Measures the homepage for an area `width` wide and `height` high: where
/// each item and section starts, and the total height. `None` where a height
/// would not fit in 16 bits.
pub fn measure_home(homepage: &Homepage, width: u16, height: u16) -> (r: Option<HomeLayout>)
    requires
        lists_countable(*homepage),
    ensures
        match home_measure(*homepage, width, height) {
            Some(m) => r matches Some(l) && l.is(m),
            None => r is None,
        },
{
    if height as u32 * 9 > 65535 {
        return None;
    }
    let h9 = height * 9 / 20;
    let hero_h: u16 = if h9 > 14 {
        h9
    } else {
        14
    };
    let h3 = height / 3;
    let hl_h: u16 = if h3 > 10 {
        h3
    } else {
        10
    };
    assert(hero_height(height) == Some(hero_h));
    let ghost secs = homepage.sections@;
    let mut total: u16 = 1;
    let mut offsets: Vec<u16> = Vec::new();
    let mut layouts: Vec<SectionLayout> = Vec::new();
    let mut lists: usize = 0;
    let mut k: usize = 0;
    assert(secs.take(0) =~= Seq::<HomepageSection>::empty());
    while k < homepage.sections.len()
        invariant
            secs == homepage.sections@,
            lists_countable(*homepage),
            k <= secs.len(),
            lists <= k,
            hero_height(height) == Some(hero_h),
            hl_h == highlight_height(height),
            measure_sections(secs.take(k as int), width, hero_h, hl_h) matches Some(m) && m.total
                == total as int && m.offsets == offsets@ && m.layouts == layouts@ && m.lists
                == lists as int,
        decreases secs.len() - k,
    {
        let ghost m = measure_sections(secs.take(k as int), width, hero_h, hl_h).unwrap();
        assert(secs.take(k + 1).drop_last() =~= secs.take(k as int));
        assert(secs.take(k + 1).last() == secs[k as int]);
        let y = total;
        match &homepage.sections[k] {
            HomepageSection::Hero { items } => {
                if !push_hero_offsets(&mut offsets, items.len(), y, hero_h, width) {
                    proof {
                        lemma_measure_fail(secs, k as int + 1, width, hero_h, hl_h);
                    }
                    return None;
                }
                if hero_h as u32 + 1 > 65535 || total as u32 + hero_h as u32 + 1 > 65535 {
                    proof {
                        lemma_measure_fail(secs, k as int + 1, width, hero_h, hl_h);
                    }
                    return None;
                }
                layouts.push(SectionLayout::Hero { y, height: hero_h, count: items.len() });
                total = total + hero_h + 1;
            },
            HomepageSection::ItemList { heading, subheading, header_color, items } => {
                assert(secs[k as int] matches HomepageSection::ItemList { .. });
                let head: usize = match heading {
                    Some(_) => if subheading.is_some() {
                        4
                    } else {
                        3
                    },
                    None => 1,
                };
                let n = items.len();
                let h = (head + 2 * n + 1) as u16;
                let dot = match header_color.accent_rgb() {
                    Some((r, g, b)) => DotColor::Rgb(r, g, b),
                    None => DotColor::Palette(lists % DOT_PALETTE_LEN),
                };
                if !push_list_offsets(&mut offsets, n, y, head) {
                    proof {
                        lemma_measure_fail(secs, k as int + 1, width, hero_h, hl_h);
                    }
                    return None;
                }
                if total as u32 + h as u32 > 65535 {
                    proof {
                        lemma_measure_fail(secs, k as int + 1, width, hero_h, hl_h);
                    }
                    return None;
                }
                layouts.push(SectionLayout::Text { y, height: h, section: k, dot: Some(dot) });
                total = total + h;
                lists = lists + 1;
            },
            HomepageSection::Highlight { .. } => {
                if total as u32 + hl_h as u32 + 1 > 65535 {
                    proof {
                        lemma_measure_fail(secs, k as int + 1, width, hero_h, hl_h);
                    }
                    return None;
                }
                let idx = offsets.len();
                offsets.push(y);
                layouts.push(
                    SectionLayout::Highlight {
                        y,
                        height: hl_h,
                        item_index: idx,
                        reversed: lists % 2 == 1,
                    },
                );
                total = total + hl_h + 1;
            },
            HomepageSection::Inline { .. } => {
                if total as u32 + 2 > 65535 {
                    proof {
                        lemma_measure_fail(secs, k as int + 1, width, hero_h, hl_h);
                    }
                    return None;
                }
                offsets.push(y);
                layouts.push(SectionLayout::Text { y, height: 2, section: k, dot: None });
                total = total + 2;
            },
        }
        k += 1;
        assert(measure_sections(secs.take(k as int), width, hero_h, hl_h) == measure_step(
            m,
            secs[k - 1],
            k - 1,
            width,
            hero_h,
            hl_h,
        ));
        assert(offsets@ =~= measure_sections(secs.take(k as int), width, hero_h, hl_h).unwrap().offsets);
        assert(layouts@ =~= measure_sections(secs.take(k as int), width, hero_h, hl_h).unwrap().layouts);
    }
    assert(secs.take(k as int) =~= secs);
    Some(HomeLayout { item_offsets: offsets, sections: layouts, total_h: total })
}

proof fn lemma_measure_fail(secs: Seq<HomepageSection>, k: int, w: u16, hero_h: u16, hl_h: u16)
    requires
        0 <= k <= secs.len(),
        measure_sections(secs.take(k), w, hero_h, hl_h) is None,
    ensures
        measure_sections(secs, w, hero_h, hl_h) is None,
    decreases secs.len() - k,
{
    if k < secs.len() {
        assert(secs.take(k + 1).drop_last() =~= secs.take(k));
        lemma_measure_fail(secs, k + 1, w, hero_h, hl_h);
    } else {
        assert(secs.take(k) =~= secs);
    }
}

// ── Scrolling the homepage ──

impl ScrollView {
    /// Whether `ensure_visible` computes within `u16` for this view.
    pub fn visible_is_computable(&self, viewport_h: u16) -> (r: bool)
        ensures
            r == self.visible_computable(viewport_h),
    {
        if self.selected < self.item_offsets.len() {
            let top = self.item_offsets[self.selected] as u32;
            let height: u32 = if self.selected < self.item_heights.len() {
                self.item_heights[self.selected] as u32
            } else {
                2
            };
            top + height <= 65535 && (top < self.scroll as u32 || self.scroll as u32
                + viewport_h as u32 <= 65535)
        } else {
            true
        }
    }
}

/// The scroll offset of a page `total_h` high in a viewport `viewport_h`
/// high: `scroll`, but not past the end, and 0 when the page fits.
pub open spec fn clamp_scroll(scroll: u16, total_h: u16, viewport_h: u16) -> u16 {
    if total_h > viewport_h {
        if scroll < total_h - viewport_h {
            scroll
        } else {
            (total_h - viewport_h) as u16
        }
    } else {
        0
    }
}

/// Gives the homepage's item offsets to its view, brings the selection into
/// view, and keeps the scroll within the page.
pub fn scroll_home(view: &mut ScrollView, item_offsets: Vec<u16>, total_h: u16, viewport_h: u16)
    requires
        (ScrollView { item_offsets: item_offsets, ..*old(view) }).visible_computable(viewport_h),
    ensures
        final(view).item_offsets@ == item_offsets@,
        final(view).scroll == clamp_scroll(
            (ScrollView { item_offsets: item_offsets, ..*old(view) }).visible_scroll(viewport_h),
            total_h,
            viewport_h,
        ),
        final(view).selected == old(view).selected,
        final(view).item_count == old(view).item_count,
        final(view).item_heights@ == old(view).item_heights@,
{
    view.item_offsets = item_offsets;
    view.ensure_visible(viewport_h);
    view.scroll = if total_h > viewport_h {
        let limit = total_h - viewport_h;
        if view.scroll < limit {
            view.scroll
        } else {
            limit
        }
    } else {
        0
    };
}

// ── The selected tile ──

/// A rectangle of cells in the page.
#[derive(Debug, Clone, Copy, PartialEq, Eq)]
pub struct TileRect {
    pub x: u16,
    pub y: u16,
    pub width: u16,
    pub height: u16,
}

/// The first position at or after `i` whose offset is at least `y`, or `offs.len()`.
pub open spec fn first_at_or_below(offs: Seq<u16>, y: u16, i: int) -> int
    decreases offs.len() - i,
{
    if i >= offs.len() {
        offs.len() as int
    } else if offs[i] >= y {
        i
    } else {
        first_at_or_below(offs, y, i + 1)
    }
}

/// The number of the first item at or below `y` (`usize::MAX` when there is none).
pub open spec fn hero_start(offs: Seq<u16>, y: u16) -> int {
    let i = first_at_or_below(offs, y, 0);
    if i < offs.len() {
        i
    } else {
        usize::MAX as int
    }
}

/// What section `sl` says of the selected item's tile: `Some(None)` when the
/// item is not one of its tiles, `Some(Some(r))` for its tile `r`, `None`
/// where the arithmetic overflows.
pub open spec fn tile_update(
    offs: Seq<u16>,
    sl: SectionLayout,
    selected: usize,
    w: u16,
) -> Option<Option<TileRect>> {
    match sl {
        SectionLayout::Hero { y, height, count } => {
            let hs = hero_start(offs, y);
            if selected < hs {
                Some(None)
            } else if hs + count > usize::MAX {
                None
            } else if selected >= hs + count {
                Some(None)
            } else {
                let local = selected - hs;
                if w >= 96 && count >= 5 {
                    let usable = sat_sub16(w, 4);
                    if usable * 2 > u16::MAX || usable * 3 > u16::MAX {
                        None
                    } else {
                        let col_l = usable * 2 / 7;
                        let col_c = usable * 3 / 7;
                        let col_r = usable - col_l - col_c;
                        let half = height / 2;
                        if local == 0 {
                            Some(Some(TileRect { x: (col_l + 2) as u16, y, width: col_c as u16, height }))
                        } else if local == 1 {
                            Some(Some(TileRect { x: 0, y, width: col_l as u16, height: half as u16 }))
                        } else if local == 2 {
                            Some(
                                Some(
                                    TileRect {
                                        x: (col_l + 2 + col_c + 2) as u16,
                                        y,
                                        width: col_r as u16,
                                        height: half as u16,
                                    },
                                ),
                            )
                        } else if local == 3 || local == 4 {
                            if y + half > u16::MAX {
                                None
                            } else {
                                Some(
                                    Some(
                                        TileRect {
                                            x: if local == 3 {
                                                0
                                            } else {
                                                (col_l + 2 + col_c + 2) as u16
                                            },
                                            y: (y + half) as u16,
                                            width: if local == 3 {
                                                col_l as u16
                                            } else {
                                                col_r as u16
                                            },
                                            height: (height - half) as u16,
                                        },
                                    ),
                                )
                            }
                        } else {
                            Some(Some(TileRect { x: 0, y, width: w, height }))
                        }
                    }
                } else {
                    let c = (if count > 1 { count } else { 1 }) as u16;
                    if c == 0 {
                        None
                    } else {
                        let tile_h = height / c;
                        let p = (local as u16) * tile_h;
                        if p > u16::MAX || y + p > u16::MAX {
                            None
                        } else {
                            Some(Some(TileRect { x: 0, y: (y + p) as u16, width: w, height: tile_h as u16 }))
                        }
                    }
                }
            }
        },
        SectionLayout::Highlight { y, height, item_index, .. } => if selected == item_index {
            Some(Some(TileRect { x: 0, y, width: w, height }))
        } else {
            Some(None)
        },
        SectionLayout::Text { .. } => Some(None),
    }
}

/// `a - b`, or 0 when `b > a`.
pub open spec fn sat_sub16(a: u16, b: u16) -> int {
    if a > b {
        a - b
    } else {
        0
    }
}

/// The tile of the selected item after the first `k` sections (the last
/// section that has it wins); `None` where the arithmetic overflows.
pub open spec fn tile_after(
    offs: Seq<u16>,
    sections: Seq<SectionLayout>,
    selected: usize,
    w: u16,
) -> Option<Option<TileRect>>
    decreases sections.len(),
{
    if sections.len() == 0 {
        Some(None)
    } else {
        match tile_after(offs, sections.drop_last(), selected, w) {
            None => None,
            Some(t) => match tile_update(offs, sections.last(), selected, w) {
                None => None,
                Some(None) => Some(t),
                Some(Some(r)) => Some(Some(r)),
            },
        }
    }
}

fn first_at_or_below_exec(offs: &Vec<u16>, y: u16) -> (r: usize)
    ensures
        r as int == hero_start(offs@, y),
{
    let mut i: usize = 0;
    while i < offs.len() && offs[i] < y
        invariant
            i <= offs.len(),
            first_at_or_below(offs@, y, 0) == first_at_or_below(offs@, y, i as int),
        decreases offs.len() - i,
    {
        i += 1;
    }
    if i < offs.len() {
        i
    } else {
        usize::MAX
    }
}

fn tile_update_exec(offs: &Vec<u16>, sl: &SectionLayout, selected: usize, w: u16) -> (r: Option<
    Option<TileRect>,
>)
    ensures
        r == tile_update(offs@, *sl, selected, w),
{
    match sl {
        SectionLayout::Hero { y, height, count } => {
            let y = *y;
            let height = *height;
            let count = *count;
            let hs = first_at_or_below_exec(offs, y);
            if selected < hs {
                return Some(None);
            }
            if hs as u128 + count as u128 > usize::MAX as u128 {
                return None;
            }
            if selected >= hs + count {
                return Some(None);
            }
            let local = selected - hs;
            if w >= 96 && count >= 5 {
                let usable: u16 = if w > 4 {
                    w - 4
                } else {
                    0
                };
                if usable as u32 * 2 > 65535 || usable as u32 * 3 > 65535 {
                    return None;
                }
                let col_l = usable * 2 / 7;
                let col_c = usable * 3 / 7;
                let col_r = usable - col_l - col_c;
                let half = height / 2;
                if local == 0 {
                    Some(Some(TileRect { x: col_l + 2, y, width: col_c, height }))
                } else if local == 1 {
                    Some(Some(TileRect { x: 0, y, width: col_l, height: half }))
                } else if local == 2 {
                    Some(Some(TileRect { x: col_l + 2 + col_c + 2, y, width: col_r, height: half }))
                } else if local == 3 || local == 4 {
                    if y as u32 + half as u32 > 65535 {
                        None
                    } else {
                        Some(
                            Some(
                                TileRect {
                                    x: if local == 3 {
                                        0
                                    } else {
                                        col_l + 2 + col_c + 2
                                    },
                                    y: y + half,
                                    width: if local == 3 {
                                        col_l
                                    } else {
                                        col_r
                                    },
                                    height: height - half,
                                },
                            ),
                        )
                    }
                } else {
                    Some(Some(TileRect { x: 0, y, width: w, height }))
                }
            } else {
                let c = (if count > 1 {
                    count
                } else {
                    1
                }) as u16;
                if c == 0 {
                    return None;
                }
                let tile_h = height / c;
                let a: u64 = (local as u16) as u64;
                let b: u64 = tile_h as u64;
                assert(a * b <= 65535 * 65535) by (nonlinear_arith)
                    requires
                        a <= 65535,
                        b <= 65535,
                ;
                if a * b > 65535 {
                    return None;
                }
                let p = (local as u16) * tile_h;
                if y as u32 + p as u32 > 65535 {
                    return None;
                }
                Some(Some(TileRect { x: 0, y: y + p, width: w, height: tile_h }))
            }
        },
        SectionLayout::Highlight { y, height, item_index, .. } => {
            if selected == *item_index {
                Some(Some(TileRect { x: 0, y: *y, width: w, height: *height }))
            } else {
                Some(None)
            }
        },
        SectionLayout::Text { .. } => Some(None),
    }
}

/// The tile of the selected item on a page `w` wide, if it is shown as a tile
/// (hero or highlight): `Some(None)` when it is not, `None` where the
/// arithmetic overflows.
pub fn selected_tile(
    item_offsets: &Vec<u16>,
    sections: &Vec<SectionLayout>,
    selected: usize,
    w: u16,
) -> (r: Option<Option<TileRect>>)
    ensures
        r == tile_after(item_offsets@, sections@, selected, w),
{
    let mut tile: Option<TileRect> = None;
    let mut i: usize = 0;
    assert(sections@.take(0) =~= Seq::<SectionLayout>::empty());
    while i < sections.len()
        invariant
            i <= sections.len(),
            tile_after(item_offsets@, sections@.take(i as int), selected, w) == Some(tile),
        decreases sections.len() - i,
    {
        assert(sections@.take(i + 1).drop_last() =~= sections@.take(i as int));
        match tile_update_exec(item_offsets, &sections[i], selected, w) {
            None => {
                proof {
                    lemma_tile_fail(item_offsets@, sections@, i as int + 1, selected, w);
                }
                return None;
            },
            Some(None) => {},
            Some(Some(r)) => {
                tile = Some(r);
            },
        }
        i += 1;
    }
    assert(sections@.take(i as int) =~= sections@);
    Some(tile)
}

proof fn lemma_tile_fail(offs: Seq<u16>, secs: Seq<SectionLayout>, k: int, selected: usize, w: u16)
    requires
        0 <= k <= secs.len(),
        tile_after(offs, secs.take(k), selected, w) is None,
    ensures
        tile_after(offs, secs, selected, w) is None,
    decreases secs.len() - k,
{
    if k < secs.len() {
        assert(secs.take(k + 1).drop_last() =~= secs.take(k));
        lemma_tile_fail(offs, secs, k + 1, selected, w);
    } else {
        assert(secs.take(k) =~= secs);
    }
}

proof fn lemma_hero_offsets_len(k: int, n: int, y: u16, hero_h: u16, w: u16)
    requires
        k >= 0,
        hero_offsets(k, n, y, hero_h, w) is Some,
    ensures
        hero_offsets(k, n, y, hero_h, w).unwrap().len() == k,
    decreases k,
{
    if k > 0 {
        lemma_hero_offsets_len(k - 1, n, y, hero_h, w);
    }
}

proof fn lemma_list_offsets_len(k: int, y: u16, head: int)
    requires
        k >= 0,
        list_offsets(k, y, head) is Some,
    ensures
        list_offsets(k, y, head).unwrap().len() == k,
    decreases k,
{
    if k > 0 {
        lemma_list_offsets_len(k - 1, y, head);
    }
}

/// Measuring gives one offset to each item of the homepage and one layout to
/// each section, so the selection numbers the same items as the offsets.
pub proof fn law_one_offset_per_item(secs: Seq<HomepageSection>, w: u16, hero_h: u16, hl_h: u16)
    requires
        measure_sections(secs, w, hero_h, hl_h) is Some,
    ensures
        measure_sections(secs, w, hero_h, hl_h).unwrap().offsets.len() == all_items(secs).len(),
        measure_sections(secs, w, hero_h, hl_h).unwrap().layouts.len() == secs.len(),
    decreases secs.len(),
{
    if secs.len() > 0 {
        let init = secs.drop_last();
        law_one_offset_per_item(init, w, hero_h, hl_h);
        let st = measure_sections(init, w, hero_h, hl_h).unwrap();
        let y = st.total as u16;
        match secs.last() {
            HomepageSection::Hero { items } => {
                lemma_hero_offsets_len(items@.len() as int, items@.len() as int, y, hero_h, w);
            },
            HomepageSection::ItemList { heading, subheading, items, .. } => {
                lemma_list_offsets_len(
                    items@.len() as int,
                    y,
                    list_head_lines(heading, subheading),
                );
            },
            _ => {},
        }
    }
}

/// The offsets are in order and all lie above `total`.
pub open spec fn sorted_below(offs: Seq<u16>, total: int) -> bool {
    &&& forall|i: int, j: int| 0 <= i <= j < offs.len() ==> #[trigger] offs[i] <= #[trigger] offs[j]
    &&& forall|i: int| 0 <= i < offs.len() ==> #[trigger] offs[i] < total
}

/// Every hero section has at most five items (as the API's hero has), and
/// every list is short enough for its lines to be counted in 16 bits.
pub open spec fn sections_in_bounds(secs: Seq<HomepageSection>) -> bool {
    forall|k: int|
        0 <= k < secs.len() ==> match #[trigger] secs[k] {
            HomepageSection::Hero { items } => items@.len() <= 5,
            HomepageSection::ItemList { items, .. } => 2 * items@.len() + 5 <= 65535,
            _ => true,
        }
}

proof fn lemma_hero_offsets_elems(k: int, n: int, y: u16, hero_h: u16, w: u16)
    requires
        k >= 0,
        hero_offsets(k, n, y, hero_h, w) is Some,
    ensures
        hero_offsets(k, n, y, hero_h, w).unwrap().len() == k,
        forall|i: int|
            0 <= i < k ==> hero_offset(i, n, y, hero_h, w) == Some(
                #[trigger] hero_offsets(k, n, y, hero_h, w).unwrap()[i],
            ),
    decreases k,
{
    if k > 0 {
        lemma_hero_offsets_elems(k - 1, n, y, hero_h, w);
    }
}

proof fn lemma_hero_offset_range(i: int, j: int, n: int, y: u16, hero_h: u16, w: u16)
    requires
        0 <= i <= j < n <= 5,
        hero_offset(i, n, y, hero_h, w) is Some,
        hero_offset(j, n, y, hero_h, w) is Some,
    ensures
        y <= hero_offset(i, n, y, hero_h, w).unwrap(),
        hero_offset(i, n, y, hero_h, w).unwrap() <= hero_offset(j, n, y, hero_h, w).unwrap(),
        hero_offset(j, n, y, hero_h, w).unwrap() <= y + hero_h,
{
    if !(w >= 96 && n >= 5) {
        let count = (if n > 1 {
            n
        } else {
            1
        }) as u16;
        let c = hero_h / count;
        assert(i * c <= j * c) by (nonlinear_arith)
            requires
                0 <= i <= j,
                c >= 0,
        ;
        assert(j * c <= hero_h) by (nonlinear_arith)
            requires
                0 <= j < count,
                c == hero_h / count,
                count >= 1,
        ;
        assert((i as u16) * c == i * c);
        assert((j as u16) * c == j * c);
    }
}

proof fn lemma_list_offsets_elems(k: int, y: u16, head: int)
    requires
        k >= 0,
        1 <= head <= 4,
        head + 2 * k <= 65535,
        list_offsets(k, y, head) is Some,
    ensures
        list_offsets(k, y, head).unwrap().len() == k,
        forall|i: int|
            0 <= i < k ==> #[trigger] list_offsets(k, y, head).unwrap()[i] == y + head + 2 * i,
    decreases k,
{
    if k > 0 {
        lemma_list_offsets_elems(k - 1, y, head);
    }
}

proof fn lemma_sorted_append(a: Seq<u16>, total: int, b: Seq<u16>, new_total: int)
    requires
        sorted_below(a, total),
        total <= new_total,
        forall|i: int, j: int| 0 <= i <= j < b.len() ==> #[trigger] b[i] <= #[trigger] b[j],
        forall|i: int| 0 <= i < b.len() ==> total <= #[trigger] b[i] < new_total,
    ensures
        sorted_below(a + b, new_total),
{
    let c = a + b;
    assert forall|i: int, j: int| 0 <= i <= j < c.len() implies #[trigger] c[i] <= #[trigger] c[j] by {
        if j < a.len() {
        } else if i < a.len() {
            assert(c[i] == a[i] && c[j] == b[j - a.len()]);
        } else {
            assert(c[i] == b[i - a.len()] && c[j] == b[j - a.len()]);
        }
    }
    assert forall|i: int| 0 <= i < c.len() implies #[trigger] c[i] < new_total by {
        if i < a.len() {
            assert(c[i] == a[i]);
        } else {
            assert(c[i] == b[i - a.len()]);
        }
    }
}

proof fn lemma_measure_sorted(secs: Seq<HomepageSection>, w: u16, hero_h: u16, hl_h: u16)
    requires
        measure_sections(secs, w, hero_h, hl_h) is Some,
        sections_in_bounds(secs),
    ensures
        sorted_below(
            measure_sections(secs, w, hero_h, hl_h).unwrap().offsets,
            measure_sections(secs, w, hero_h, hl_h).unwrap().total,
        ),
        1 <= measure_sections(secs, w, hero_h, hl_h).unwrap().total <= u16::MAX,
    decreases secs.len(),
{
    if secs.len() > 0 {
        let init = secs.drop_last();
        assert(sections_in_bounds(init)) by {
            assert forall|k: int| 0 <= k < init.len() implies match #[trigger] init[k] {
                HomepageSection::Hero { items } => items@.len() <= 5,
                HomepageSection::ItemList { items, .. } => 2 * items@.len() + 5 <= 65535,
                _ => true,
            } by {
                assert(init[k] == secs[k]);
            }
        }
        lemma_measure_sorted(init, w, hero_h, hl_h);
        let st = measure_sections(init, w, hero_h, hl_h).unwrap();
        let m = measure_sections(secs, w, hero_h, hl_h).unwrap();
        let y = st.total as u16;
        assert(y == st.total);
        let last = secs.last();
        assert(last == secs[secs.len() - 1]);
        assert(match secs[secs.len() - 1] {
            HomepageSection::Hero { items } => items@.len() <= 5,
            HomepageSection::ItemList { items, .. } => 2 * items@.len() + 5 <= 65535,
            _ => true,
        });
        match last {
            HomepageSection::Hero { items } => {
                let n = items@.len() as int;
                let offs = hero_offsets(n, n, y, hero_h, w).unwrap();
                lemma_hero_offsets_elems(n, n, y, hero_h, w);
                assert forall|i: int, j: int| 0 <= i <= j < offs.len() implies #[trigger] offs[i]
                    <= #[trigger] offs[j] by {
                    assert(hero_offset(i, n, y, hero_h, w) == Some(offs[i]));
                    assert(hero_offset(j, n, y, hero_h, w) == Some(offs[j]));
                    lemma_hero_offset_range(i, j, n, y, hero_h, w);
                }
                assert forall|i: int| 0 <= i < offs.len() implies st.total <= #[trigger] offs[i]
                    < m.total by {
                    assert(hero_offset(i, n, y, hero_h, w) == Some(offs[i]));
                    lemma_hero_offset_range(i, i, n, y, hero_h, w);
                }
                lemma_sorted_append(st.offsets, st.total, offs, m.total);
            },
            HomepageSection::ItemList { heading, subheading, items, .. } => {
                let head = list_head_lines(heading, subheading);
                let n = items@.len() as int;
                let offs = list_offsets(n, y, head).unwrap();
                lemma_list_offsets_elems(n, y, head);
                assert(((head + 2 * n + 1) as u16) == head + 2 * n + 1);
                assert forall|i: int| 0 <= i < offs.len() implies st.total <= #[trigger] offs[i]
                    < m.total by {
                    assert(offs[i] == y + head + 2 * i);
                }
                assert forall|i: int, j: int| 0 <= i <= j < offs.len() implies #[trigger] offs[i]
                    <= #[trigger] offs[j] by {
                    assert(offs[i] == y + head + 2 * i);
                    assert(offs[j] == y + head + 2 * j);
                }
                lemma_sorted_append(st.offsets, st.total, offs, m.total);
            },
            HomepageSection::Highlight { .. } => {
                assert(st.offsets.push(y) =~= st.offsets + seq![y]);
                lemma_sorted_append(st.offsets, st.total, seq![y], m.total);
            },
            HomepageSection::Inline { .. } => {
                assert(st.offsets.push(y) =~= st.offsets + seq![y]);
                lemma_sorted_append(st.offsets, st.total, seq![y], m.total);
            },
        }
    }
}

/// The items of the homepage are measured top to bottom: their offsets are
/// in order and lie within the page. This holds when the hero sections have
/// at most five items, as the API's do (a sixth hero item is placed at the
/// section's top again), and when lists are short enough to count their
/// lines in 16 bits.
pub proof fn law_offsets_in_order(hp: Homepage, width: u16, height: u16)
    requires
        home_measure(hp, width, height) is Some,
        sections_in_bounds(hp.sections@),
    ensures
        sorted_below(
            home_measure(hp, width, height).unwrap().offsets,
            home_measure(hp, width, height).unwrap().total,
        ),
{
    let hero_h = hero_height(height).unwrap();
    lemma_measure_sorted(hp.sections@, width, hero_h, highlight_height(height));
}

proof fn lemma_first_at_or_below_nonneg(offs: Seq<u16>, y: u16, i: int)
    requires
        i >= 0,
    ensures
        first_at_or_below(offs, y, i) >= 0,
    decreases offs.len() - i,
{
    if i < offs.len() && offs[i] < y {
        lemma_first_at_or_below_nonneg(offs, y, i + 1);
    }
}

/// The rectangle of item `i` (counted from the section's first) of a hero
/// section, as the selection sees it.
pub open spec fn hero_tile(offs: Seq<u16>, sl: SectionLayout, i: int, w: u16) -> Option<Option<TileRect>> {
    match sl {
        SectionLayout::Hero { y, .. } => tile_update(offs, sl, (hero_start(offs, y) + i) as usize, w),
        _ => None,
    }
}

/// In the wide hero grid (96 columns or more, five items or more), the
/// tiles form three columns with gaps of two: items 1 and 3 on the left at
/// column 0, item 0 in the middle, items 2 and 4 on the right up to the
/// page's edge; items 3 and 4 lie under items 1 and 2; items 0 to 2 start at
/// the section's top.
pub proof fn law_wide_hero_columns(offs: Seq<u16>, y: u16, height: u16, count: usize, w: u16)
    requires
        w >= 96,
        count >= 5,
        hero_start(offs, y) + count <= usize::MAX,
        forall|i: int|
            0 <= i < 5 ==> #[trigger] hero_tile(offs, SectionLayout::Hero { y, height, count }, i, w)
                is Some,
    ensures
        ({
            let sl = SectionLayout::Hero { y, height, count };
            let t0 = hero_tile(offs, sl, 0, w).unwrap().unwrap();
            let t1 = hero_tile(offs, sl, 1, w).unwrap().unwrap();
            let t2 = hero_tile(offs, sl, 2, w).unwrap().unwrap();
            let t3 = hero_tile(offs, sl, 3, w).unwrap().unwrap();
            let t4 = hero_tile(offs, sl, 4, w).unwrap().unwrap();
            &&& t1.x == 0 && t3.x == 0
            &&& t0.x == t1.x + t1.width + 2
            &&& t2.x == t0.x + t0.width + 2
            &&& t4.x == t2.x
            &&& t2.x + t2.width == w
            &&& t3.width == t1.width && t4.width == t2.width
            &&& t0.y == y && t1.y == y && t2.y == y
            &&& t3.y == t1.y + t1.height && t4.y == t2.y + t2.height
            &&& t0.height == height
        }),
{
    let sl = SectionLayout::Hero { y, height, count };
    lemma_first_at_or_below_nonneg(offs, y, 0);
    let usable = sat_sub16(w, 4);
    assert(usable == w - 4);
    assert(usable * 2 / 7 + usable * 3 / 7 <= usable) by (nonlinear_arith)
        requires
            usable >= 0,
    ;
    assert(hero_tile(offs, sl, 0, w) is Some);
    assert(hero_tile(offs, sl, 1, w) is Some);
    assert(hero_tile(offs, sl, 2, w) is Some);
    assert(hero_tile(offs, sl, 3, w) is Some);
    assert(hero_tile(offs, sl, 4, w) is Some);
}

} // verus!
