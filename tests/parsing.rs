use mathdown::{parse, parse_blocks, parse_text, Block, ListItem, Text, TextFormat};

fn t(src: &str, fmt: TextFormat) -> Text {
    Text { src: src.to_string(), fmt }
}

fn raw(src: &str) -> Vec<Text> {
    vec![t(src, TextFormat::Raw)]
}

#[test]
fn escaped_stars_stay_plain() {
    let runs = parse_text("\\*not bold\\*".to_string());
    assert_eq!(runs, vec![t("*not bold*", TextFormat::Plain)]);
}

#[test]
fn bold_and_italic_toggle() {
    let runs = parse_text("a *b* _c_ d".to_string());
    assert_eq!(
        runs,
        vec![
            t("a ", TextFormat::Plain),
            t("b", TextFormat::Bold),
            t(" ", TextFormat::Plain),
            t("c", TextFormat::Italic),
            t(" d", TextFormat::Plain),
        ]
    );
}

#[test]
fn delimiter_at_start_opens_style() {
    let runs = parse_text("*b* x".to_string());
    assert_eq!(runs, vec![t("b", TextFormat::Bold), t(" x", TextFormat::Plain)]);
}

#[test]
fn unterminated_bold_degrades_to_one_run() {
    let runs = parse_text("x *rest".to_string());
    assert_eq!(runs, vec![t("x ", TextFormat::Plain), t("rest", TextFormat::Bold)]);
}

#[test]
fn literal_spans_keep_delimiters() {
    let runs = parse_text("m $a*b_c\\d$ and `x*y`".to_string());
    assert_eq!(
        runs,
        vec![
            t("m ", TextFormat::Plain),
            t("a*b_c\\d", TextFormat::InlineMath),
            t(" and ", TextFormat::Plain),
            t("x*y", TextFormat::InlineCode),
        ]
    );
}

#[test]
fn links_and_footnotes_split() {
    let runs = parse_text("see [doc](http://x) and [^3]".to_string());
    assert_eq!(
        runs,
        vec![
            t("see ", TextFormat::Plain),
            t("doc", TextFormat::Link("http://x".to_string())),
            t(" and ", TextFormat::Plain),
            t("3", TextFormat::FootnoteRef),
        ]
    );
}

#[test]
fn many_links_in_one_run() {
    let runs = parse_text("[a](1)[b](2) tail".to_string());
    assert_eq!(
        runs,
        vec![
            t("a", TextFormat::Link("1".to_string())),
            t("b", TextFormat::Link("2".to_string())),
            t(" tail", TextFormat::Plain),
        ]
    );
}

#[test]
fn links_not_split_inside_bold() {
    let runs = parse_text("x *[a](b)*".to_string());
    assert_eq!(runs, vec![t("x ", TextFormat::Plain), t("[a](b)", TextFormat::Bold)]);
}

#[test]
fn one_paragraph_without_blank_lines() {
    let blocks = parse_blocks("first line\nsecond line\r\nthird");
    assert_eq!(blocks, vec![Block::Paragraph(raw("first line second line third "))]);
}

#[test]
fn blank_line_separates_paragraphs() {
    let blocks = parse_blocks("a\n  \nb\n");
    assert_eq!(blocks, vec![Block::Paragraph(raw("a ")), Block::Paragraph(raw("b "))]);
}

#[test]
fn header_levels_and_following_text() {
    let blocks = parse_blocks("## Title  \n# not a header here\n\n### Deep");
    assert_eq!(
        blocks,
        vec![
            Block::Header(2, "Title".to_string()),
            Block::Paragraph(raw("# not a header here ")),
            Block::Header(3, "Deep".to_string()),
        ]
    );
}

#[test]
fn fenced_code_and_unterminated_fence() {
    let blocks = parse_blocks("``` rust\nlet x = 1;\n  *y*\n```\n\n```\nopen");
    assert_eq!(
        blocks,
        vec![
            Block::Code("rust".to_string(), "let x = 1;\n  *y*\n".to_string()),
            Block::Code("".to_string(), "open\n".to_string()),
        ]
    );
}

#[test]
fn math_comment_html_quote() {
    let doc = "\\[\nx^2\n\\]\n\n<!-- a -->\nhidden\n-->\n\n<html>\n<b>\n</b>\n</html>\n\n>>  said \n";
    let blocks = parse_blocks(doc);
    assert_eq!(
        blocks,
        vec![
            Block::Math("x^2\n".to_string()),
            Block::Html("<b></b>".to_string()),
            Block::Quote("said".to_string()),
        ]
    );
}

#[test]
fn footnote_definitions() {
    let blocks = parse_blocks("[^12]:   the note\n\n[^x]: bad\n\n[^4] no colon");
    assert_eq!(blocks, vec![Block::Footnote("12".to_string(), raw("the note"))]);
}

#[test]
fn images_with_and_without_width() {
    let blocks = parse_blocks("![a](b.png)\n\n![alt text](p/q.jpg){50}\n\n![x](y){99999999999}\n\n![broken");
    assert_eq!(
        blocks,
        vec![
            Block::Image("a".to_string(), "b.png".to_string(), 100),
            Block::Image("alt text".to_string(), "p/q.jpg".to_string(), 50),
        ]
    );
}

#[test]
fn mixed_list_keeps_first_kind_and_closing_line() {
    let blocks = parse_blocks("1. one\n    - sub *b*\n2) no\nafter\n");
    assert_eq!(
        blocks,
        vec![
            Block::List(
                true,
                vec![
                    ListItem { level: 0, content: vec![t("one", TextFormat::Plain)] },
                    ListItem {
                        level: 1,
                        content: vec![t("sub ", TextFormat::Plain), t("b", TextFormat::Bold)],
                    },
                ]
            ),
            Block::Paragraph(raw("2) no after ")),
        ]
    );
}

#[test]
fn line_after_list_joins_a_paragraph() {
    let blocks = parse_blocks("- a\ntext");
    assert_eq!(
        blocks,
        vec![
            Block::List(false, vec![ListItem { level: 0, content: vec![t("a", TextFormat::Plain)] }]),
            Block::Paragraph(raw("text ")),
        ]
    );
}

#[test]
fn blank_line_after_list_starts_new_block() {
    let blocks = parse_blocks("- a\n\n# H");
    assert_eq!(
        blocks,
        vec![
            Block::List(false, vec![ListItem { level: 0, content: vec![t("a", TextFormat::Plain)] }]),
            Block::Header(1, "H".to_string()),
        ]
    );
}

#[test]
fn backslash_escapes_closing_delimiter_in_literal_span() {
    let runs = parse_text("$a\\$b$ `c\\`d`".to_string());
    assert_eq!(
        runs,
        vec![
            t("a\\$b", TextFormat::InlineMath),
            t(" ", TextFormat::Plain),
            t("c\\`d", TextFormat::InlineCode),
        ]
    );
}

#[test]
fn latex_commands_keep_backslashes() {
    let runs = parse_text("$\\frac{1}{2}$".to_string());
    assert_eq!(runs, vec![t("\\frac{1}{2}", TextFormat::InlineMath)]);
}

#[test]
fn unordered_list_with_ordered_item() {
    let blocks = parse_blocks("* a\n        b. c");
    assert_eq!(
        blocks,
        vec![Block::List(
            false,
            vec![
                ListItem { level: 0, content: vec![t("a", TextFormat::Plain)] },
                ListItem { level: 2, content: vec![t("c", TextFormat::Plain)] },
            ]
        )]
    );
}

#[test]
fn parse_formats_paragraphs_and_footnotes() {
    let blocks = parse("hello *w*\n\n[^1]: see [d](u)".to_string());
    assert_eq!(
        blocks,
        vec![
            Block::Paragraph(vec![
                t("hello ", TextFormat::Plain),
                t("w", TextFormat::Bold),
                t(" ", TextFormat::Plain),
            ]),
            Block::Footnote(
                "1".to_string(),
                vec![t("see ", TextFormat::Plain), t("d", TextFormat::Link("u".to_string()))]
            ),
        ]
    );
}

#[test]
fn empty_document_has_no_blocks() {
    assert_eq!(parse(String::new()), Vec::<Block>::new());
}

#[test]
fn footnote_ids_take_digits_of_any_script() {
    let runs = parse_text("x [^\u{663}] y".to_string());
    assert_eq!(
        runs,
        vec![t("x ", TextFormat::Plain), t("\u{663}", TextFormat::FootnoteRef), t(" y", TextFormat::Plain)]
    );
    let blocks = parse_blocks("[^\u{967}\u{968}]: note");
    assert_eq!(blocks, vec![Block::Footnote("\u{967}\u{968}".to_string(), raw("note"))]);
    let blocks = parse_blocks("![a](b){\u{665}}");
    assert_eq!(blocks, vec![Block::Image("a".to_string(), "b".to_string(), 100)]);
}
