use correspondent::api::{
    ContentBlock, DynColor, EditionItem, Homepage, HomepageSection, ItemContent,
};
use correspondent::app::{
    article_wrap_width, content_images, format_date, long_date_string, strip_html, App, ArticleLine,
    LoadingState, ScrollView, View,
};
use correspondent::markdown::SegStyle;

fn no_color() -> DynColor {
    DynColor { light: None, dark: None }
}

fn note(title: &str, slug: Option<&str>, body: Vec<ContentBlock>) -> EditionItem {
    EditionItem {
        title: Some(title.to_string()),
        slug: slug.map(|s| s.to_string()),
        date: "2026-03-25".to_string(),
        preview_text: String::new(),
        word_count: 10,
        read_time_secs: 125,
        content: ItemContent::EditorsNote { authors: vec!["E D".to_string()], body },
    }
}

fn view_with(offsets: Vec<u16>, heights: Vec<u16>, selected: usize, scroll: u16) -> ScrollView {
    let mut v = ScrollView::new();
    v.item_count = offsets.len();
    v.item_offsets = offsets;
    v.item_heights = heights;
    v.selected = selected;
    v.scroll = scroll;
    v
}

#[test]
fn format_date_long_form() {
    assert_eq!(format_date("2026-03-25"), "25 March 2026");
    assert_eq!(format_date("2024-12-01"), "01 December 2024");
}

#[test]
fn format_date_keeps_other_text() {
    assert_eq!(format_date("yesterday"), "yesterday");
    assert_eq!(format_date("2026-13-01"), "2026-13-01");
}

#[test]
fn strip_html_removes_tags() {
    assert_eq!(strip_html("<p>Hello <b>world</b></p>"), "Hello world");
    assert_eq!(strip_html("a > b"), "a  b");
    assert_eq!(strip_html("no tags"), "no tags");
    let once = strip_html("<i>x</i><<y>>");
    assert_eq!(strip_html(&once), once);
}

#[test]
fn scroll_view_moves_within_list() {
    let mut v = view_with(vec![0, 2, 4], vec![], 0, 0);
    v.next();
    v.next();
    v.next();
    assert_eq!(v.selected, 2);
    v.prev();
    assert_eq!(v.selected, 1);
    v.prev();
    v.prev();
    assert_eq!(v.selected, 0);
    let mut empty = ScrollView::new();
    empty.next();
    assert_eq!(empty.selected, 0);
}

#[test]
fn next_then_prev_returns() {
    let mut v = view_with(vec![0, 2, 4, 6], vec![], 1, 0);
    v.next();
    v.prev();
    assert_eq!(v.selected, 1);
}

#[test]
fn ensure_visible_scrolls_down_and_up() {
    let mut v = view_with(vec![0, 2, 4, 6, 8, 10], vec![], 5, 0);
    v.ensure_visible(6);
    assert_eq!(v.scroll, 6);
    v.selected = 0;
    v.ensure_visible(6);
    assert_eq!(v.scroll, 0);
    let mut tall = view_with(vec![0, 10], vec![10, 20], 1, 0);
    tall.ensure_visible(8);
    assert_eq!(tall.scroll, 9);
    let mut shown = view_with(vec![0, 2], vec![], 1, 0);
    shown.ensure_visible(10);
    assert_eq!(shown.scroll, 0);
    shown.ensure_visible(10);
    assert_eq!(shown.scroll, 0);
}

#[test]
fn new_app_starts_at_home() {
    let a = App::new((2026, 3, 25));
    assert_eq!(a.locale, "en-GB");
    assert_eq!(a.picker_date, (2026, 3, 25));
    for v in [&a.home_view, &a.search_view, &a.editions_view, &a.edition_view] {
        assert_eq!((v.scroll, v.selected, v.item_count), (0, 0, 0));
        assert!(v.item_offsets.is_empty() && v.item_heights.is_empty());
    }
    assert_eq!(a.view, View::Home);
    assert!(!a.should_quit);
    assert!(matches!(a.homepage, LoadingState::Loading));
    assert!(matches!(&a.search_results, LoadingState::Loaded(v) if v.is_empty()));
    assert!(a.home_dirty && a.article_dirty);
    assert!(!a.search_active);
}

#[test]
fn home_items_follow_sections() {
    let mut a = App::new((2026, 3, 25));
    a.rebuild_home_items();
    assert!(a.home_slugs.is_empty());
    a.homepage = LoadingState::Loaded(Homepage {
        sections: vec![
            HomepageSection::Hero { items: vec![note("a", Some("a"), vec![]), note("b", None, vec![])] },
            HomepageSection::ItemList {
                heading: None,
                subheading: None,
                header_color: no_color(),
                items: vec![note("c", Some("c"), vec![])],
            },
            HomepageSection::Highlight { item: note("d", Some("d"), vec![]) },
        ],
    });
    a.home_view.selected = 3;
    a.rebuild_home_items();
    assert_eq!(
        a.home_slugs,
        vec![Some("a".to_string()), None, Some("c".to_string()), Some("d".to_string())]
    );
    assert_eq!(a.home_view.item_count, 4);
    assert_eq!(a.home_view.selected, 0);
    assert_eq!(a.selected_slug(), Some("a".to_string()));
    a.home_view.selected = 1;
    assert_eq!(a.selected_slug(), None);
    a.home_view.selected = 9;
    assert_eq!(a.selected_slug(), None);
}

#[test]
fn wrap_width_bounds() {
    assert_eq!(article_wrap_width(200), 86);
    assert_eq!(article_wrap_width(50), 46);
    assert_eq!(article_wrap_width(10), 20);
}

#[test]
fn article_lines_of_a_note() {
    let mut a = App::new((2026, 3, 25));
    assert!(!a.build_article_lines(80, &vec![]));
    a.article = LoadingState::Loaded(note("Note", Some("n"), vec![ContentBlock::Paragraph("hello".to_string())]));
    assert!(a.build_article_lines(80, &vec![]));
    assert_eq!(a.article_built_width, 80);
    let l = &a.article_lines;
    assert_eq!(l.len(), 8);
    assert!(matches!(&l[0], ArticleLine::Title(t) if t == "Note"));
    assert!(matches!(&l[1], ArticleLine::Blank));
    assert!(matches!(&l[2], ArticleLine::Meta(t) if t == "25 March 2026"));
    assert!(matches!(&l[3], ArticleLine::Blank));
    assert!(matches!(&l[4], ArticleLine::Author(t) if t == "By E D"));
    assert!(matches!(&l[5], ArticleLine::Blank));
    match &l[6] {
        ArticleLine::RichText(segs) => {
            assert_eq!(segs.len(), 1);
            assert_eq!(segs[0].style(), SegStyle::Plain);
            assert_eq!(segs[0].text(), "hello");
        },
        _ => panic!("not text"),
    }
    assert!(matches!(&l[7], ArticleLine::Blank));
}

#[test]
fn article_header_comes_first_and_images_take_given_heights() {
    let mut a = App::new((2026, 3, 25));
    let content = ItemContent::CulturalRec {
        title: "Book".to_string(),
        header: Some("Culture".to_string()),
        header_color: DynColor { light: Some((1, 2, 3)), dark: None },
        image_url: None,
        authors: vec![],
        description: vec![
            ContentBlock::Heading("<b>Read</b> this".to_string()),
            ContentBlock::Image {
                url: Some("u".to_string()),
                width: Some(100),
                height: Some(50),
                caption: Some("<i>cap</i>".to_string()),
                alt: Some("alt".to_string()),
            },
            ContentBlock::Image { url: None, width: None, height: None, caption: None, alt: Some("only alt".to_string()) },
        ],
    };
    assert_eq!(content_images(&content), vec![(Some(100), Some(50))]);
    a.article = LoadingState::Loaded(EditionItem {
        title: None,
        slug: None,
        date: "soon".to_string(),
        preview_text: String::new(),
        word_count: 0,
        read_time_secs: 0,
        content,
    });
    assert_eq!(a.article_images(), vec![(Some(100), Some(50))]);
    assert!(a.build_article_lines(60, &vec![0]));
    let l = &a.article_lines;
    assert!(matches!(&l[0], ArticleLine::Header(t, Some((1, 2, 3))) if t == "Culture"));
    assert!(matches!(&l[1], ArticleLine::Blank));
    assert!(matches!(&l[2], ArticleLine::Meta(t) if t == "soon"));
    assert!(matches!(&l[3], ArticleLine::Blank));
    assert!(matches!(&l[4], ArticleLine::Blank));
    assert!(matches!(&l[5], ArticleLine::Heading(t) if t == "Read this"));
    assert!(matches!(&l[6], ArticleLine::Blank));
    assert!(matches!(&l[7], ArticleLine::InlineImage { url, height: 25 } if url == "u"));
    assert!(matches!(&l[8], ArticleLine::ImageCaption(t) if t == "cap"));
    assert!(matches!(&l[9], ArticleLine::Blank));
    assert!(matches!(&l[10], ArticleLine::ImageCaption(t) if t == "only alt"));
    assert!(matches!(&l[11], ArticleLine::Blank));
    assert_eq!(l.len(), 12);
}

#[test]
fn advert_article() {
    let mut a = App::new((2026, 3, 25));
    a.article = LoadingState::Loaded(EditionItem {
        title: Some("Buy".to_string()),
        slug: None,
        date: "2026-03-25".to_string(),
        preview_text: String::new(),
        word_count: 0,
        read_time_secs: 0,
        content: ItemContent::Advert { title: "Buy".to_string() },
    });
    assert!(a.build_article_lines(80, &vec![]));
    let l = &a.article_lines;
    assert!(matches!(&l[0], ArticleLine::Title(t) if t == "Buy"));
    assert!(matches!(l.last().unwrap(), ArticleLine::Meta(t) if t == "[Advertisement]"));
}

#[test]
fn long_dates_of_any_year() {
    assert_eq!(long_date_string(2026, 3, 5), "05 March 2026");
    assert_eq!(long_date_string(12, 1, 31), "31 January 0012");
    assert_eq!(long_date_string(-44, 3, 15), "15 March -0044");
    assert_eq!(long_date_string(12345, 11, 9), "09 November +12345");
}
