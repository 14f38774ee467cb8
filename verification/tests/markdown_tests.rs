use correspondent::markdown::{
    consume_until_tag, distribute_lines, parse_md, segments_to_plain, tag_style, wrap_md,
    SegStyle, StyledSegment,
};

fn view(v: &[StyledSegment]) -> Vec<(SegStyle, String)> {
    v.iter().map(|s| (s.style(), s.text().to_string())).collect()
}

fn seg(style: SegStyle, t: &str) -> (SegStyle, String) {
    (style, t.to_string())
}

#[test]
fn bold_and_italic_markdown() {
    let r = parse_md("Hello **world** and *you*");
    assert_eq!(
        view(&r),
        vec![
            seg(SegStyle::Plain, "Hello "),
            seg(SegStyle::Bold, "world"),
            seg(SegStyle::Plain, " and "),
            seg(SegStyle::Italic, "you"),
        ]
    );
}

#[test]
fn html_tags_any_case() {
    let r = parse_md("<B>x</B> and <em>y</em> <strong>z</strong>");
    assert_eq!(
        view(&r),
        vec![
            seg(SegStyle::Bold, "x"),
            seg(SegStyle::Plain, " and "),
            seg(SegStyle::Italic, "y"),
            seg(SegStyle::Plain, " "),
            seg(SegStyle::Bold, "z"),
        ]
    );
}

#[test]
fn html_link_keeps_text() {
    let r = parse_md("see <a href=\"https://x.eu\">this</a>.");
    assert_eq!(
        view(&r),
        vec![seg(SegStyle::Plain, "see "), seg(SegStyle::Link, "this"), seg(SegStyle::Plain, ".")]
    );
}

#[test]
fn markdown_link_skips_nested_parentheses() {
    let r = parse_md("[link](http://a.b/(c)) tail");
    assert_eq!(view(&r), vec![seg(SegStyle::Link, "link"), seg(SegStyle::Plain, " tail")]);
}

#[test]
fn bracket_without_target_stays_text() {
    let r = parse_md("[not a link] x");
    assert_eq!(view(&r), vec![seg(SegStyle::Plain, "[not a link] x")]);
    let r = parse_md("[open");
    assert_eq!(view(&r), vec![seg(SegStyle::Plain, "[open")]);
}

#[test]
fn other_tags_are_stripped() {
    let r = parse_md("a<br>b<p>c</p>");
    assert_eq!(
        view(&r),
        vec![seg(SegStyle::Plain, "a"), seg(SegStyle::Plain, "b"), seg(SegStyle::Plain, "c")]
    );
}

#[test]
fn nested_style_tags_are_dropped() {
    let r = parse_md("<em>a<b>c</b>d</em>");
    assert_eq!(view(&r), vec![seg(SegStyle::Italic, "acd")]);
    let r = parse_md("<b>a<i>b</i>c</b>");
    assert_eq!(view(&r), vec![seg(SegStyle::Bold, "abc")]);
    assert_eq!(segments_to_plain(&r), "abc");
}

#[test]
fn single_star_inside_bold() {
    let r = parse_md("**bold*star**");
    assert_eq!(view(&r), vec![seg(SegStyle::Bold, "bold*star")]);
}

#[test]
fn unterminated_markup_runs_to_end() {
    assert_eq!(view(&parse_md("*open")), vec![seg(SegStyle::Italic, "open")]);
    assert_eq!(view(&parse_md("**open")), vec![seg(SegStyle::Bold, "open")]);
    assert_eq!(view(&parse_md("<b>open")), vec![seg(SegStyle::Bold, "open")]);
}

#[test]
fn lone_star_starts_italic() {
    let r = parse_md("a * b");
    assert_eq!(view(&r), vec![seg(SegStyle::Plain, "a "), seg(SegStyle::Italic, " b")]);
}

#[test]
fn empty_input_has_no_segments() {
    assert!(parse_md("").is_empty());
}

#[test]
fn plain_text_joins_segments() {
    let r = parse_md("Hello **world** and *you*");
    assert_eq!(segments_to_plain(&r), "Hello world and you");
}

#[test]
fn consume_stops_at_closing_tag() {
    let chars: Vec<char> = "abc</B>rest".chars().collect();
    let (content, pos) = consume_until_tag(&chars, 0, &["b", "strong"]);
    assert_eq!(content, "abc");
    assert_eq!(pos, 7);
}

#[test]
fn wrap_md_keeps_styles_across_lines() {
    let lines = wrap_md("Hello **world** foo", 11).unwrap();
    assert_eq!(lines.len(), 2);
    assert_eq!(view(&lines[0]), vec![seg(SegStyle::Plain, "Hello "), seg(SegStyle::Bold, "world")]);
    assert_eq!(view(&lines[1]), vec![seg(SegStyle::Plain, "foo")]);
}

#[test]
fn wrap_md_one_line_when_wide() {
    let lines = wrap_md("short *text*", 80).unwrap();
    assert_eq!(lines.len(), 1);
    assert_eq!(view(&lines[0]), vec![seg(SegStyle::Plain, "short "), seg(SegStyle::Italic, "text")]);
}

#[test]
fn distribute_drops_spaces_at_breaks() {
    let segs = vec![StyledSegment::Plain("ab cd".to_string())];
    let lines = distribute_lines(&segs, &vec![2, 2]).unwrap();
    assert_eq!(view(&lines[0]), vec![seg(SegStyle::Plain, "ab")]);
    assert_eq!(view(&lines[1]), vec![seg(SegStyle::Plain, "cd")]);
}

#[test]
fn distribute_refuses_cut_inside_character() {
    let segs = vec![StyledSegment::Plain("é".to_string())];
    assert!(distribute_lines(&segs, &vec![1]).is_none());
}

#[test]
fn tag_styles() {
    let t = |s: &str| tag_style(&s.chars().collect());
    assert_eq!(t("b"), Some(SegStyle::Bold));
    assert_eq!(t("strong"), Some(SegStyle::Bold));
    assert_eq!(t("em"), Some(SegStyle::Italic));
    assert_eq!(t("i"), Some(SegStyle::Italic));
    assert_eq!(t("a"), Some(SegStyle::Link));
    assert_eq!(t("a href=\"x\""), Some(SegStyle::Link));
    assert_eq!(t("abbr"), None);
    assert_eq!(t("p"), None);
    assert_eq!(t("B"), None);
}

#[test]
fn simple_markdown_link() {
    assert_eq!(view(&parse_md("[Read](https://x.eu/a)")), vec![seg(SegStyle::Link, "Read")]);
}

#[test]
fn one_line_per_wrapped_line() {
    let lines = wrap_md("one two three four five six seven", 9).unwrap();
    let texts: Vec<String> = lines.iter().map(|l| segments_to_plain(l)).collect();
    assert_eq!(texts, vec!["one two", "three", "four five", "six seven"]);
}

#[test]
fn newline_breaks_are_dropped() {
    let lines = wrap_md("a\nb", 80).unwrap();
    assert_eq!(lines.len(), 2);
    assert_eq!(view(&lines[0]), vec![seg(SegStyle::Plain, "a")]);
    assert_eq!(view(&lines[1]), vec![seg(SegStyle::Plain, "b")]);
    let lines = wrap_md("a \n\n**b**", 80).unwrap();
    assert_eq!(lines.len(), 3);
    assert_eq!(view(&lines[0]), vec![seg(SegStyle::Plain, "a")]);
    assert!(lines[1].is_empty());
    assert_eq!(view(&lines[2]), vec![seg(SegStyle::Bold, "b")]);
    let lines = wrap_md("a\n  b", 80).unwrap();
    assert_eq!(view(&lines[1]), vec![seg(SegStyle::Plain, "  b")]);
}

#[test]
fn distribute_skips_newline_at_break() {
    let segs = vec![StyledSegment::Plain("a\nb".to_string())];
    let lines = distribute_lines(&segs, &vec![1, 1]).unwrap();
    assert_eq!(view(&lines[0]), vec![seg(SegStyle::Plain, "a")]);
    assert_eq!(view(&lines[1]), vec![seg(SegStyle::Plain, "b")]);
}

#[test]
fn no_empty_plain_segments() {
    for s in ["", "a<br>", "****", "<b></b>x", "[a](b)", "*"] {
        for seg in parse_md(s) {
            if seg.style() == SegStyle::Plain {
                assert!(!seg.text().is_empty());
            }
        }
    }
    assert_eq!(view(&parse_md("****")), vec![seg(SegStyle::Bold, "")]);
}
