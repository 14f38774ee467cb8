use correspondent::api::{DynColor, EditionItem, Homepage, HomepageSection, ItemContent};
use correspondent::app::ScrollView;
use correspondent::images::{CoverPlan, ImageCache};
use correspondent::layout::{
    measure_home, scroll_home, selected_tile, DotColor, SectionLayout, TileRect,
};

fn item() -> EditionItem {
    EditionItem {
        title: Some("t".to_string()),
        slug: None,
        date: String::new(),
        preview_text: String::new(),
        word_count: 0,
        read_time_secs: 0,
        content: ItemContent::Advert { title: "t".to_string() },
    }
}

fn homepage() -> Homepage {
    Homepage {
        sections: vec![
            HomepageSection::Hero { items: vec![item(), item()] },
            HomepageSection::ItemList {
                heading: Some("H".to_string()),
                subheading: None,
                header_color: DynColor { light: None, dark: None },
                items: vec![item()],
            },
            HomepageSection::Highlight { item: item() },
            HomepageSection::Inline { item: item() },
        ],
    }
}

#[test]
fn homepage_measures() {
    let l = measure_home(&homepage(), 80, 40).unwrap();
    assert_eq!(l.item_offsets, vec![1, 10, 23, 26, 40]);
    assert_eq!(l.total_h, 42);
    assert_eq!(
        l.sections,
        vec![
            SectionLayout::Hero { y: 1, height: 18, count: 2 },
            SectionLayout::Text { y: 20, height: 6, section: 1, dot: Some(DotColor::Palette(0)) },
            SectionLayout::Highlight { y: 26, height: 13, item_index: 3, reversed: true },
            SectionLayout::Text { y: 40, height: 2, section: 3, dot: None },
        ]
    );
}

#[test]
fn homepage_too_tall_is_refused() {
    assert!(measure_home(&homepage(), 80, 10000).is_none());
}

#[test]
fn selected_tiles() {
    let l = measure_home(&homepage(), 80, 40).unwrap();
    assert!(matches!(selected_tile(&l.item_offsets, &l.sections, 0, 80), Some(Some(_))));
    assert_eq!(selected_tile(&l.item_offsets, &l.sections, 2, 80), Some(None));
    assert_eq!(
        selected_tile(&l.item_offsets, &l.sections, 3, 80),
        Some(Some(TileRect { x: 0, y: 26, width: 80, height: 13 }))
    );
}

#[test]
fn home_scroll_stays_in_page() {
    let mut v = ScrollView::new();
    v.item_count = 5;
    v.selected = 4;
    scroll_home(&mut v, vec![1, 10, 23, 26, 40], 42, 20);
    assert_eq!(v.scroll, 22);
    assert_eq!(v.item_offsets, vec![1, 10, 23, 26, 40]);
    let mut small = ScrollView::new();
    small.item_count = 1;
    scroll_home(&mut small, vec![0], 10, 20);
    assert_eq!(small.scroll, 0);
}

#[test]
fn image_cache_fetches_once() {
    let mut c = ImageCache::new((8, 16));
    assert!(c.fetch("u"));
    assert!(!c.fetch("u"));
    assert!(c.fetch("v"));
    assert_eq!(c.get_cover("u", 10, 5), CoverPlan::NotLoaded);
    c.insert("u");
    assert!(!c.fetch("u"));
    assert_eq!(c.get_cover("u", 10, 5), CoverPlan::Rebuild { px_w: 72, px_h: 64 });
    c.set_cover_size("u", 10, 5);
    assert_eq!(c.get_cover("u", 10, 5), CoverPlan::Reuse);
    assert_eq!(c.get_cover("u", 11, 5), CoverPlan::Rebuild { px_w: 80, px_h: 64 });
    assert_eq!(c.get_cover("u", 1, 0), CoverPlan::Rebuild { px_w: 8, px_h: 16 });
    c.insert("u");
    assert_eq!(c.get_cover("u", 10, 5), CoverPlan::Rebuild { px_w: 72, px_h: 64 });
}

#[test]
fn image_cache_without_font_size_draws_nothing() {
    let mut c = ImageCache::new((0, 16));
    c.insert("w");
    assert_eq!(c.get_cover("w", 10, 5), CoverPlan::TooSmall);
    c.set_cover_size("x", 1, 1);
    assert_eq!(c.get_cover("x", 1, 1), CoverPlan::NotLoaded);
}
