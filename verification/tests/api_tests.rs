use correspondent::queries::{FetchArticle, FetchHomepage, FetchLatestEdition, SearchArticles};
use correspondent::api::{
    article_result, author_names, convert_blocks, convert_section, convert_summary_item,
    editions_list, gql_outcome, homepage_result, latest_edition, parse_hex, AuthorName,
    ContentBlock, DynColor, FullContent, FullItem, HexColor, HomepageSection, ItemContent,
    RawBlock, RawEdition, RawImage, RawSection, SummaryContent, SummaryItem,
};

fn hex(light: Option<&str>, dark: Option<&str>) -> HexColor {
    HexColor { light: light.map(|s| s.to_string()), dark: dark.map(|s| s.to_string()) }
}

fn author(first: &str, last: &str) -> AuthorName {
    AuthorName { first_name: first.to_string(), last_name: last.to_string() }
}

fn summary(content: SummaryContent) -> SummaryItem {
    SummaryItem {
        title: Some("A title".to_string()),
        slug: Some("a-title".to_string()),
        date: "2026-03-25".to_string(),
        preview_text: "Preview".to_string(),
        word_count: 1200,
        read_time_secs: 300,
        content,
    }
}

fn advert(t: &str) -> SummaryItem {
    summary(SummaryContent::Advert { ad_title: t.to_string() })
}

#[test]
fn parse_hex_reads_colors() {
    assert_eq!(parse_hex(&Some("#ff8000".to_string())), Some((255, 128, 0)));
    assert_eq!(parse_hex(&Some("#A0b1C2".to_string())), Some((160, 177, 194)));
    assert_eq!(parse_hex(&None), None);
}

#[test]
fn parse_hex_rejects_other_texts() {
    assert_eq!(parse_hex(&Some("ff8000".to_string())), None);
    assert_eq!(parse_hex(&Some("#ff800".to_string())), None);
    assert_eq!(parse_hex(&Some("#ff80000".to_string())), None);
    assert_eq!(parse_hex(&Some("#gg8000".to_string())), None);
}

#[test]
fn parse_hex_needs_two_digits_per_field() {
    assert_eq!(parse_hex(&Some("#+f+f+f".to_string())), None);
    assert_eq!(parse_hex(&Some("#ff80+0".to_string())), None);
    assert_eq!(parse_hex(&Some("FF8000".to_string())), None);
    assert_eq!(parse_hex(&Some("#FFF".to_string())), None);
    assert_eq!(parse_hex(&Some("#GG0000".to_string())), None);
}

#[test]
fn dyn_color_variants() {
    let both = DynColor { light: Some((200, 100, 40)), dark: Some((1, 2, 3)) };
    assert_eq!(both.rgb(), Some((200, 100, 40)));
    assert_eq!(both.accent_rgb(), Some((200, 100, 40)));
    assert_eq!(both.dark_rgb(), Some((1, 2, 3)));
    let light = DynColor { light: Some((200, 100, 41)), dark: None };
    assert_eq!(light.dark_rgb(), Some((50, 25, 10)));
    let dark = DynColor { light: None, dark: Some((9, 9, 9)) };
    assert_eq!(dark.rgb(), Some((9, 9, 9)));
    let none = DynColor { light: None, dark: None };
    assert_eq!(none.rgb(), None);
    assert_eq!(none.dark_rgb(), None);
}

#[test]
fn full_name_trims() {
    assert_eq!(author("Ada", "Lovelace").full_name(), "Ada Lovelace");
    assert_eq!(author("", "Plato").full_name(), "Plato");
    assert_eq!(author("Cher", "").full_name(), "Cher");
    assert_eq!(
        author_names(&[author("A", "B"), author(" C", "D ")]),
        vec!["A B".to_string(), "C D".to_string()]
    );
}

#[test]
fn hex_color_converts_both_variants() {
    let c = hex(Some("#010203"), Some("#0a0b0c")).to_dyn();
    assert_eq!(c.light, Some((1, 2, 3)));
    assert_eq!(c.dark, Some((10, 11, 12)));
}

#[test]
fn summary_longform_converts() {
    let item = summary(SummaryContent::Longform {
        longform_title: "Long".to_string(),
        header: Some("Europe".to_string()),
        teaser: Some("A *teaser*".to_string()),
        header_color: Some(hex(Some("#112233"), None)),
        card_color: hex(Some("#445566"), Some("#000000")),
        title_color: None,
        top_image_url: "https://img/1.png".to_string(),
        authors: vec![author("Ada", "Lovelace"), author("Alan", "Turing")],
    });
    let e = convert_summary_item(item);
    assert_eq!(e.title.as_deref(), Some("A title"));
    assert_eq!(e.slug.as_deref(), Some("a-title"));
    assert_eq!(e.read_time_secs, 300);
    assert_eq!(e.content.type_label(), "LONGFORM");
    assert_eq!(e.content.header(), Some("Europe"));
    assert_eq!(e.content.teaser(), Some("A *teaser*"));
    assert_eq!(e.content.image_url(), Some("https://img/1.png"));
    assert_eq!(e.content.authors(), &["Ada Lovelace".to_string(), "Alan Turing".to_string()]);
    assert_eq!(e.content.header_color().unwrap().light, Some((0x11, 0x22, 0x33)));
    assert_eq!(e.content.card_color().unwrap().light, Some((0x44, 0x55, 0x66)));
    assert_eq!(e.content.placeholder_color(), Some((0x44, 0x55, 0x66)));
    match &e.content {
        ItemContent::Longform { title_color, body, .. } => {
            assert_eq!(*title_color, DynColor { light: None, dark: None });
            assert!(body.is_empty());
        },
        _ => panic!("not a longform"),
    }
}

#[test]
fn summary_feature_converts_label() {
    let item = summary(SummaryContent::Feature {
        feature_title: "Feat".to_string(),
        header: None,
        label: Some("NEW".to_string()),
        header_color: Some(hex(None, Some("#101010"))),
        label_color: Some(hex(Some("#ff0000"), None)),
        image_url: None,
        authors: vec![],
        country_codes: vec!["NL".to_string()],
    });
    let e = convert_summary_item(item);
    assert_eq!(e.content.type_label(), "FEATURE");
    let (label, color) = e.content.label_info().unwrap();
    assert_eq!(label, "NEW");
    assert_eq!(color.light, Some((255, 0, 0)));
    assert_eq!(e.content.placeholder_color(), Some((16, 16, 16)));
    assert!(e.content.card_color().is_none());
    assert!(e.content.image_url().is_none());
}

#[test]
fn blocks_convert_in_order() {
    let blocks = vec![
        RawBlock::Paragraph { text: "p".to_string() },
        RawBlock::Heading { text: "h".to_string() },
        RawBlock::Image {
            image: RawImage {
                url: "u".to_string(),
                width: Some(4),
                height: Some(3),
                caption: Some("c".to_string()),
                alt: None,
            },
        },
    ];
    let out = convert_blocks(&blocks);
    assert_eq!(out.len(), 3);
    assert!(matches!(&out[0], ContentBlock::Paragraph(t) if t == "p"));
    assert!(matches!(&out[1], ContentBlock::Heading(t) if t == "h"));
    assert!(matches!(&out[2], ContentBlock::Image { url: Some(u), width: Some(4), height: Some(3), caption: Some(c), alt: None } if u == "u" && c == "c"));
}

#[test]
fn article_not_found() {
    assert_eq!(article_result(None).unwrap_err(), "Article not found");
}

#[test]
fn article_found_converts_body() {
    let item = FullItem {
        title: Some("T".to_string()),
        slug: Some("t".to_string()),
        date: "2026-01-02".to_string(),
        preview_text: String::new(),
        word_count: 3,
        read_time_secs: 61,
        content: FullContent::EditorsNote {
            authors: vec![author("E", "D")],
            content: vec![RawBlock::Paragraph { text: "hello".to_string() }],
        },
    };
    let a = article_result(Some(item)).unwrap();
    assert_eq!(a.content.type_label(), "NOTE");
    match &a.content {
        ItemContent::EditorsNote { authors, body } => {
            assert_eq!(authors, &vec!["E D".to_string()]);
            assert_eq!(body.len(), 1);
        },
        _ => panic!("not a note"),
    }
}

#[test]
fn no_editions_found() {
    assert_eq!(latest_edition(vec![]).unwrap_err(), "No editions found");
}

#[test]
fn latest_edition_is_first() {
    let eds = vec![
        RawEdition { title: "First".to_string(), date: "2026-03-25".to_string(), items: vec![advert("x")] },
        RawEdition { title: "Second".to_string(), date: "2026-03-18".to_string(), items: vec![] },
    ];
    let e = latest_edition(eds.clone()).unwrap();
    assert_eq!(e.title, "First");
    assert_eq!(e.items.len(), 1);
    let all = editions_list(eds);
    assert_eq!(all.len(), 2);
    assert_eq!(all[1].title, "Second");
}

#[test]
fn homepage_not_found() {
    assert_eq!(homepage_result(None).unwrap_err(), "Homepage not found");
}

#[test]
fn homepage_drops_other_sections_and_empty_headings() {
    let page = vec![
        RawSection::Other,
        RawSection::Hero { items: vec![advert("a"), advert("b")] },
        RawSection::ItemList {
            heading: String::new(),
            subheading: Some("Sub".to_string()),
            header_color: hex(Some("#000001"), None),
            edition_items: vec![advert("c")],
        },
        RawSection::Inline { edition_item: advert("d") },
    ];
    let hp = homepage_result(Some(page)).unwrap();
    assert_eq!(hp.sections.len(), 3);
    assert!(matches!(&hp.sections[0], HomepageSection::Hero { items } if items.len() == 2));
    match &hp.sections[1] {
        HomepageSection::ItemList { heading, subheading, header_color, items } => {
            assert!(heading.is_none());
            assert_eq!(subheading.as_deref(), Some("Sub"));
            assert_eq!(header_color.light, Some((0, 0, 1)));
            assert_eq!(items.len(), 1);
        },
        _ => panic!("not a list"),
    }
    assert!(matches!(&hp.sections[2], HomepageSection::Inline { .. }));
    assert!(convert_section(RawSection::Other).is_none());
}

#[test]
fn query_outcomes() {
    let ok: Result<u32, String> = gql_outcome(None, Some(7));
    assert_eq!(ok, Ok(7));
    let empty_errors: Result<u32, String> = gql_outcome(Some(vec![]), Some(8));
    assert_eq!(empty_errors, Ok(8));
    let errs: Result<u32, String> =
        gql_outcome(Some(vec!["bad".to_string(), "worse".to_string()]), Some(9));
    assert_eq!(errs, Err("bad, worse".to_string()));
    let none: Result<u32, String> = gql_outcome(None, None);
    assert_eq!(none, Err("No data returned".to_string()));
}

#[test]
fn query_documents_name_their_operations() {
    assert_eq!(FetchHomepage::operation_name(), "FetchHomepage");
    assert!(FetchHomepage::document().contains("query FetchHomepage("));
    assert!(FetchLatestEdition::document().contains("query FetchLatestEdition("));
    assert!(FetchArticle::document().contains("fragment ContentBlockFields"));
    assert!(SearchArticles::document().contains("fragment EditionItemSummary"));
    assert_eq!(SearchArticles::operation_name(), "SearchArticles");
}
