use correspondent::api::{
    DynColor, Edition, EditionItem, Homepage, HomepageSection, ItemContent,
};
use correspondent::app::{App, ArticleLine, LoadingState, View};
use correspondent::events::{homepage_images, Action, Key};

fn item(slug: Option<&str>, image: Option<&str>) -> EditionItem {
    EditionItem {
        title: Some("t".to_string()),
        slug: slug.map(|s| s.to_string()),
        date: "2026-03-25".to_string(),
        preview_text: String::new(),
        word_count: 0,
        read_time_secs: 0,
        content: ItemContent::CulturalRec {
            title: "t".to_string(),
            header: None,
            header_color: DynColor { light: None, dark: None },
            image_url: image.map(|s| s.to_string()),
            authors: vec![],
            description: vec![],
        },
    }
}

fn homepage() -> Homepage {
    Homepage {
        sections: vec![
            HomepageSection::Hero { items: vec![item(Some("a"), Some("ia")), item(Some("b"), None)] },
            HomepageSection::ItemList {
                heading: None,
                subheading: None,
                header_color: DynColor { light: None, dark: None },
                items: vec![item(Some("c"), Some("ic"))],
            },
            HomepageSection::Highlight { item: item(None, Some("id")) },
        ],
    }
}

fn loaded_app() -> App {
    let mut a = App::new((2026, 3, 25));
    let urls = a.on_homepage_loaded(Ok(homepage()));
    assert_eq!(urls, vec!["ia".to_string(), "id".to_string()]);
    a
}

#[test]
fn homepage_images_are_hero_and_highlight_only() {
    assert_eq!(homepage_images(&homepage()), vec!["ia".to_string(), "id".to_string()]);
}

#[test]
fn homepage_error_keeps_list() {
    let mut a = App::new((2026, 3, 25));
    let urls = a.on_homepage_loaded(Err("down".to_string()));
    assert!(urls.is_empty());
    assert!(matches!(&a.homepage, LoadingState::Error(e) if e == "down"));
    assert!(a.home_dirty);
}

#[test]
fn q_quits_everywhere() {
    let mut a = loaded_app();
    assert_eq!(a.handle_key(Key::Char('q'), 40), Action::Nothing);
    assert!(a.should_quit);
    let mut b = loaded_app();
    b.view = View::Article;
    b.handle_key(Key::Char('q'), 40);
    assert!(b.should_quit);
}

#[test]
fn slash_opens_empty_search_and_typing_edits_it() {
    let mut a = loaded_app();
    a.search_query = "old".to_string();
    a.handle_key(Key::Char('/'), 40);
    assert!(a.search_active);
    assert_eq!(a.search_query, "");
    a.handle_key(Key::Char('é'), 40);
    a.handle_key(Key::Char('u'), 40);
    assert_eq!(a.search_query, "éu");
    a.handle_key(Key::Char('q'), 40);
    assert!(!a.should_quit);
    assert_eq!(a.search_query, "éuq");
    a.handle_key(Key::Backspace, 40);
    assert_eq!(a.search_query, "éu");
    a.handle_key(Key::Backspace, 40);
    a.handle_key(Key::Backspace, 40);
    a.handle_key(Key::Backspace, 40);
    assert_eq!(a.search_query, "");
    assert!(a.search_active);
}

#[test]
fn enter_searches_nonempty_query() {
    let mut a = loaded_app();
    a.handle_key(Key::Char('/'), 40);
    assert_eq!(a.handle_key(Key::Enter, 40), Action::Nothing);
    assert!(!a.search_active);
    assert_eq!(a.view, View::Home);
    a.handle_key(Key::Char('/'), 40);
    a.handle_key(Key::Char('x'), 40);
    assert_eq!(a.handle_key(Key::Enter, 40), Action::Search("x".to_string()));
    assert_eq!(a.view, View::Search);
    assert!(matches!(a.search_results, LoadingState::Loading));
    a.handle_key(Key::Char('/'), 40);
    assert_eq!(a.handle_key(Key::Esc, 40), Action::Nothing);
    assert!(!a.search_active);
}

#[test]
fn home_navigation_and_open() {
    let mut a = loaded_app();
    assert_eq!(a.handle_key(Key::Enter, 40), Action::FetchArticle("a".to_string()));
    assert_eq!(a.view, View::Article);
    let mut b = loaded_app();
    b.handle_key(Key::Down, 40);
    b.handle_key(Key::Char('j'), 40);
    assert_eq!(b.home_view.selected, 2);
    b.handle_key(Key::Char('j'), 40);
    b.handle_key(Key::Char('j'), 40);
    assert_eq!(b.home_view.selected, 3);
    assert_eq!(b.handle_key(Key::Enter, 40), Action::Nothing);
    assert_eq!(b.view, View::Home);
    b.handle_key(Key::Up, 40);
    assert_eq!(b.handle_key(Key::Enter, 40), Action::FetchArticle("c".to_string()));
    let mut c = loaded_app();
    assert_eq!(c.handle_key(Key::Char('e'), 40), Action::FetchEditions);
    assert_eq!(c.view, View::EditionsList);
    assert!(matches!(c.editions, LoadingState::Loading));
}

#[test]
fn article_scrolls_within_lines() {
    let mut a = loaded_app();
    a.view = View::Article;
    a.article_lines = vec![ArticleLine::Blank; 20];
    a.handle_key(Key::Down, 40);
    assert_eq!(a.article_scroll, 3);
    a.handle_key(Key::PageDown, 40);
    assert_eq!(a.article_scroll, 15);
    a.handle_key(Key::Char('j'), 40);
    assert_eq!(a.article_scroll, 15);
    a.handle_key(Key::Up, 40);
    assert_eq!(a.article_scroll, 12);
    a.handle_key(Key::PageUp, 10);
    assert_eq!(a.article_scroll, 8);
    a.handle_key(Key::PageUp, 40);
    assert_eq!(a.article_scroll, 0);
    a.handle_key(Key::Esc, 40);
    assert_eq!(a.view, View::Home);
}

#[test]
fn search_results_open_selected() {
    let mut a = loaded_app();
    a.view = View::Search;
    a.on_search_results(Ok(vec![item(Some("s1"), None), item(None, None)]));
    a.search_view.item_count = 2;
    assert_eq!(a.handle_key(Key::Enter, 40), Action::FetchArticle("s1".to_string()));
    let mut b = loaded_app();
    b.view = View::Search;
    b.on_search_results(Ok(vec![item(Some("s1"), None), item(None, None)]));
    b.search_view.item_count = 2;
    b.handle_key(Key::Down, 40);
    assert_eq!(b.handle_key(Key::Enter, 40), Action::Nothing);
    b.handle_key(Key::Backspace, 40);
    assert_eq!(b.view, View::Home);
}

#[test]
fn editions_list_goes_home() {
    let mut a = loaded_app();
    a.view = View::EditionsList;
    a.on_editions_loaded(Ok(vec![Edition { title: "E".to_string(), date: "d".to_string(), items: vec![] }]));
    assert_eq!(a.editions_view.selected, 0);
    assert_eq!(a.handle_key(Key::Enter, 40), Action::Nothing);
    assert_eq!(a.view, View::Home);
}

#[test]
fn loaded_article_is_kept() {
    let mut a = App::new((2026, 3, 25));
    a.on_article_loaded(Err("gone".to_string()));
    assert!(matches!(&a.article, LoadingState::Error(e) if e == "gone"));
    a.on_article_loaded(Ok(item(Some("x"), None)));
    assert!(matches!(&a.article, LoadingState::Loaded(i) if i.slug.as_deref() == Some("x")));
}
