use correspondent::api::{DynColor, Edition, EditionItem, ItemContent};
use correspondent::app::{ScrollView, View};
use correspondent::cards::{
    build_compact_item, build_edition_item, build_hero_item, hero_grid, highlight_text, hints,
    list_two_line_items, quoted, search_popup, tile_text, Area, Piece, PieceStyle, Slot, TileSlot,
};

fn none() -> DynColor {
    DynColor { light: None, dark: None }
}

fn line(v: &[Piece]) -> Vec<(String, PieceStyle)> {
    v.iter().map(|p| (p.text.clone(), p.style)).collect()
}

fn p(t: &str, s: PieceStyle) -> (String, PieceStyle) {
    (t.to_string(), s)
}

fn longform() -> EditionItem {
    EditionItem {
        title: Some("A title".to_string()),
        slug: Some("a".to_string()),
        date: "2026-03-25".to_string(),
        preview_text: "Preview".to_string(),
        word_count: 100,
        read_time_secs: 59,
        content: ItemContent::Longform {
            title: "A title".to_string(),
            header: None,
            header_color: none(),
            teaser: Some("A *teaser* text here".to_string()),
            card_color: DynColor { light: Some((9, 8, 7)), dark: None },
            title_color: DynColor { light: Some((1, 1, 1)), dark: Some((2, 2, 2)) },
            image_url: None,
            authors: vec!["Ada Lovelace".to_string()],
            introduction_comment: vec![],
            body: vec![],
            comment: vec![],
        },
    }
}

fn feature() -> EditionItem {
    EditionItem {
        title: Some("A title".to_string()),
        slug: None,
        date: "2026-03-25".to_string(),
        preview_text: "Pre".to_string(),
        word_count: 100,
        read_time_secs: 300,
        content: ItemContent::Feature {
            title: "A title".to_string(),
            header: Some("Europe".to_string()),
            header_color: DynColor { light: Some((1, 2, 3)), dark: None },
            label: Some("NEW".to_string()),
            label_color: DynColor { light: Some((255, 0, 0)), dark: None },
            image_url: None,
            authors: vec!["Ada Lovelace".to_string(), "Alan Turing".to_string()],
            country_codes: vec![],
            introduction_comment: vec![],
            lead: vec![],
            comment: vec![],
        },
    }
}

#[test]
fn compact_card_of_a_feature() {
    let (first, second) = build_compact_item(&feature(), false);
    let hc = PieceStyle::Fg(Some((1, 2, 3)));
    assert_eq!(
        line(&first),
        vec![
            p("  ", PieceStyle::Plain),
            p("  ", PieceStyle::Plain),
            p("\u{25CF} ", hc),
            p("Europe", hc),
            p("  ", PieceStyle::Dim),
            p(" NEW ", PieceStyle::Label(Some((255, 0, 0)))),
            p(" ", PieceStyle::Plain),
            p("A title", PieceStyle::Plain),
        ]
    );
    assert_eq!(
        line(&second),
        vec![
            p("      ", PieceStyle::Plain),
            p("Ada Lovelace, Alan Turing", PieceStyle::ItalicDim),
            p("  \u{00B7}  ", PieceStyle::Dim),
            p("5 min", PieceStyle::Dim),
        ]
    );
}

#[test]
fn compact_card_selected_without_minutes() {
    let (first, second) = build_compact_item(&longform(), true);
    assert_eq!(
        line(&first),
        vec![
            p("  ", PieceStyle::Plain),
            p("\u{25B8} ", PieceStyle::Plain),
            p("A title", PieceStyle::Bold),
        ]
    );
    assert_eq!(
        line(&second),
        vec![p("      ", PieceStyle::Plain), p("Ada Lovelace", PieceStyle::ItalicDim)]
    );
}

#[test]
fn hero_card_lines() {
    let lines = build_hero_item(&longform(), 30, false);
    let got: Vec<Vec<(String, PieceStyle)>> = lines.iter().map(|l| line(l)).collect();
    assert_eq!(
        got,
        vec![
            vec![
                p("  ", PieceStyle::Plain),
                p("  ", PieceStyle::Plain),
                p("\u{25CF} ", PieceStyle::Fg(None)),
                p("LONGFORM", PieceStyle::Fg(None)),
            ],
            vec![p("    ", PieceStyle::Plain), p("A title", PieceStyle::Bold)],
            vec![p("    ", PieceStyle::Plain), p("Ada Lovelace", PieceStyle::Italic)],
            vec![p("    ", PieceStyle::Plain), p("A teaser text here", PieceStyle::Dim)],
        ]
    );
}

#[test]
fn hero_card_wraps_title_and_label() {
    let lines = build_hero_item(&feature(), 13, true);
    let got: Vec<Vec<(String, PieceStyle)>> = lines.iter().map(|l| line(l)).collect();
    assert_eq!(got[0][1], p("\u{25B8} ", PieceStyle::Plain));
    assert_eq!(got[0][3], p("Europe", PieceStyle::Fg(Some((1, 2, 3)))));
    assert_eq!(got[1], vec![p("    ", PieceStyle::Plain), p("A", PieceStyle::Bold)]);
    assert_eq!(got[2], vec![p("    ", PieceStyle::Plain), p("title", PieceStyle::Bold)]);
    assert_eq!(
        got[3],
        vec![p("    ", PieceStyle::Plain), p(" NEW ", PieceStyle::Label(Some((255, 0, 0))))]
    );
    assert_eq!(got[4][1], p("Ada Lovelace, Alan Turing", PieceStyle::Italic));
    assert_eq!(got[5], vec![p("    ", PieceStyle::Plain), p("Pre", PieceStyle::Dim)]);
    assert_eq!(got.len(), 6);
}

#[test]
fn tile_text_of_primary_and_secondary() {
    let t = tile_text(&longform(), 12, true);
    assert_eq!(t.title_lines, vec![" A title".to_string()]);
    assert_eq!(t.teaser_lines, vec![" A teaser".to_string(), " text here".to_string()]);
    assert_eq!(t.text_h, 3);
    let s = tile_text(&longform(), 12, false);
    assert!(s.teaser_lines.is_empty());
    assert_eq!(s.text_h, 1);
    let narrow = tile_text(&longform(), 4, false);
    assert_eq!(narrow.text_h, 2);
}

#[test]
fn highlight_text_centers_and_colors() {
    let h = highlight_text(&longform(), 24, 10);
    assert_eq!(h.title_lines, vec!["A title".to_string()]);
    assert_eq!(h.teaser_lines, vec!["A teaser text here".to_string()]);
    assert_eq!(h.pad_top, 3);
    assert_eq!(h.fg, Some((1, 1, 1)));
    assert_eq!(h.bg, Some((9, 8, 7)));
    let f = highlight_text(&feature(), 24, 2);
    assert!(f.teaser_lines.is_empty());
    assert_eq!(f.pad_top, 0);
    assert_eq!(f.fg, Some((1, 2, 3)));
    assert_eq!(f.bg, None);
}

#[test]
fn hero_grid_arrangements() {
    assert!(hero_grid(120, 3, 5).is_empty());
    assert!(hero_grid(120, 30, 0).is_empty());
    let three = hero_grid(100, 20, 6);
    assert_eq!(three.len(), 5);
    assert_eq!(three[0], TileSlot { item: 0, slot: Slot::Center, primary: true });
    assert_eq!(three[4], TileSlot { item: 4, slot: Slot::RightBottom, primary: false });
    let two = hero_grid(60, 20, 7);
    assert_eq!(two.len(), 5);
    assert_eq!(two[0], TileSlot { item: 0, slot: Slot::Main, primary: true });
    assert_eq!(two[4], TileSlot { item: 4, slot: Slot::Side(3), primary: false });
    let one = hero_grid(40, 20, 3);
    assert_eq!(
        one,
        vec![
            TileSlot { item: 0, slot: Slot::Row(0), primary: true },
            TileSlot { item: 1, slot: Slot::Row(1), primary: false },
            TileSlot { item: 2, slot: Slot::Row(2), primary: false },
        ]
    );
}

#[test]
fn edition_lines() {
    let ed = Edition { title: "Week 12".to_string(), date: "2026-03-25".to_string(), items: vec![longform(), feature()] };
    let (first, second) = build_edition_item(&ed, true);
    assert_eq!(
        line(&first),
        vec![p("  ", PieceStyle::Plain), p("\u{25B8} ", PieceStyle::Plain), p("Week 12", PieceStyle::Bold)]
    );
    assert_eq!(
        line(&second),
        vec![
            p("      ", PieceStyle::Plain),
            p("2026-03-25", PieceStyle::Dim),
            p("  \u{00B7}  2 articles", PieceStyle::Dim),
        ]
    );
}

#[test]
fn hints_per_screen() {
    assert_eq!(hints(&View::Article), "\u{2191}\u{2193} Scroll  Space Page  Esc Back  q Quit");
    assert!(hints(&View::Home).ends_with("q Quit"));
    assert_eq!(hints(&View::DatePicker), "");
}

#[test]
fn popup_placement() {
    assert_eq!(search_popup(100, 30), Area { x: 25, y: 10, width: 50, height: 3 });
    assert_eq!(search_popup(20, 9), Area { x: 2, y: 3, width: 16, height: 3 });
    assert_eq!(search_popup(3, 1), Area { x: 1, y: 0, width: 0, height: 3 });
    assert_eq!(quoted("eu"), "\"eu\"");
}

#[test]
fn two_line_items() {
    let mut v = ScrollView::new();
    v.selected = 1;
    list_two_line_items(&mut v, 3);
    assert_eq!(v.item_offsets, vec![0, 2, 4]);
    assert_eq!(v.item_count, 3);
    assert_eq!(v.selected, 1);
}
