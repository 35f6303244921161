use mathdown::{
    assemble, fill_post_template, latex_document, parse, render_document, Block, CompilerConfig,
    typeset_outcome, ListItem, MathError, Piece, Text, TextFormat,
};

fn cfg() -> CompilerConfig {
    CompilerConfig {
        images_dir: "/static/images".to_string(),
        post_template: "<html>{{title}}: {{content}}</html>".to_string(),
        math_template: "\\begin{document}{{content}}\\end{document}".to_string(),
    }
}

fn math_count(pieces: &[Piece]) -> usize {
    pieces.iter().filter(|p| matches!(p, Piece::Math(_, _))).count()
}

fn html_of(input: &str) -> String {
    let c = cfg();
    let pieces = render_document(&parse(input.to_string()), &c);
    let outcomes: Vec<Result<String, MathError>> =
        (0..math_count(&pieces)).map(|_| Ok("<svg/>".to_string())).collect();
    assemble(&pieces, &outcomes)
}

fn text_html(t: &Text) -> String {
    assemble(&t.render(), &Vec::new())
}

#[test]
fn bold_run_renders_bold_element() {
    let t = Text { src: "x".to_string(), fmt: TextFormat::Bold };
    let h = text_html(&t);
    assert_eq!(h, "<span class=\"bold\"> x </span>");
    let inner = h.trim_start_matches("<span class=\"bold\">").trim_end_matches("</span>");
    assert_eq!(inner.trim(), "x");
}

#[test]
fn bold_run_is_the_same_among_other_runs() {
    let h = html_of("a *x* _y_");
    assert!(h.contains("a <span class=\"bold\"> x </span> <span class=\"italic\"> y </span>"));
}

#[test]
fn run_renderings() {
    let c = Text { src: "f(x)".to_string(), fmt: TextFormat::InlineCode };
    assert_eq!(text_html(&c), " <span class=\"inline-code\">f(x)</span>");
    let l = Text { src: "doc".to_string(), fmt: TextFormat::Link("http://x".to_string()) };
    assert_eq!(text_html(&l), "<a href=\"http://x\">doc</a>");
    let f = Text { src: "3".to_string(), fmt: TextFormat::FootnoteRef };
    assert_eq!(text_html(&f), "<sup id=\"ref3\"><a href=\"#fn3\">[3]</a></sup>");
    let m = Text { src: "x^2".to_string(), fmt: TextFormat::InlineMath };
    assert_eq!(
        m.render(),
        vec![
            Piece::Html("<span class=\"inline-math\">".to_string()),
            Piece::Math("x^2".to_string(), false),
            Piece::Html("</span>".to_string()),
        ]
    );
}

fn item(level: usize, s: &str) -> ListItem {
    ListItem { level, content: vec![Text { src: s.to_string(), fmt: TextFormat::Plain }] }
}

#[test]
fn nested_list_tags_balance() {
    let b = Block::List(false, vec![item(0, "a"), item(1, "b"), item(1, "c"), item(0, "d")]);
    let h = assemble(&b.render(&cfg()), &Vec::new());
    assert_eq!(h, "<ul><li>a<ul><li>b</li><li>c</li></ul></li><li>d</li></ul>");
    assert_eq!(h.matches("<ul>").count(), h.matches("</ul>").count());
    assert_eq!(h.matches("<li>").count(), h.matches("</li>").count());
    let b_at = h.find(">b<").unwrap();
    let a_at = h.find(">a<").unwrap();
    let depth = |at: usize| h[..at].matches("<ul>").count() - h[..at].matches("</ul>").count();
    assert_eq!(depth(b_at), depth(a_at) + 1);
}

#[test]
fn list_levels_may_jump() {
    let b = Block::List(true, vec![item(0, "a"), item(2, "b")]);
    let h = assemble(&b.render(&cfg()), &Vec::new());
    assert_eq!(h, "<ol><li>a<ol><li><ol><li>b</li></ol></li></ol></li></ol>");
}

#[test]
fn first_item_below_top_level_nests_well() {
    let b = Block::List(false, vec![item(2, "x")]);
    let h = assemble(&b.render(&cfg()), &Vec::new());
    assert_eq!(h, "<ul><li><ul><li><ul><li>x</li></ul></li></ul></li></ul>");
}

/// Checks that the tags open and close in a properly nested order.
fn well_nested(h: &str) -> bool {
    let mut stack: Vec<&str> = Vec::new();
    let mut rest = h;
    while let Some(at) = rest.find('<') {
        rest = &rest[at..];
        let end = rest.find('>').unwrap();
        let tag = &rest[1..end];
        if let Some(name) = tag.strip_prefix('/') {
            if stack.pop() != Some(name) {
                return false;
            }
        } else if tag == "ul" || tag == "ol" || tag == "li" {
            stack.push(tag);
        }
        rest = &rest[end + 1..];
    }
    stack.is_empty()
}

#[test]
fn list_markup_nests_well_for_any_levels() {
    let cases: Vec<Vec<usize>> = vec![
        vec![0, 1, 1, 0],
        vec![0, 2],
        vec![3],
        vec![0, 3, 1, 4, 0],
        vec![2, 0, 2, 2, 1],
        vec![1, 1, 1],
    ];
    for levels in cases {
        let items: Vec<ListItem> = levels.iter().map(|&l| item(l, "t")).collect();
        for ordered in [false, true] {
            let b = Block::List(ordered, items.clone());
            let h = assemble(&b.render(&cfg()), &Vec::new());
            assert!(well_nested(&h), "{:?} {}", levels, h);
            assert_eq!(h.matches("<li>").count(), h.matches("</li>").count());
        }
    }
}

#[test]
fn typeset_outcome_cases() {
    assert_eq!(
        typeset_outcome(false, "bad".to_string(), false, "p".to_string(), "s".to_string()),
        Err(MathError::Typeset("bad".to_string()))
    );
    assert_eq!(
        typeset_outcome(true, "ok".to_string(), false, "p".to_string(), "s".to_string()),
        Err(MathError::MissingArtifact("p".to_string()))
    );
    assert_eq!(
        typeset_outcome(true, "ok".to_string(), true, "p".to_string(), "<svg/>".to_string()),
        Ok("<svg/>".to_string())
    );
}

#[test]
fn link_and_footnote_rendered_once() {
    let h = html_of("see [doc](http://x) and [^3]");
    assert_eq!(h.matches("<a href=\"http://x\">").count(), 1);
    assert_eq!(h.matches("<sup id=\"ref3\"><a href=\"#fn3\">").count(), 1);
    assert_eq!(h, "<p>see <a href=\"http://x\">doc</a> and <sup id=\"ref3\"><a href=\"#fn3\">[3]</a></sup> </p>\n");
}

#[test]
fn image_width_default_and_explicit() {
    let h = html_of("![a](b.png)");
    assert_eq!(h, "<img src=\"/static/images/b.png\" alt=\"a\" class=\"image\">");
    assert!(!h.contains("width"));
    let h = html_of("![a](b.png){50}");
    assert_eq!(
        h,
        "<img src=\"/static/images/b.png\" alt=\"a\" class=\"image\" style=\"width: 50%;\">"
    );
}

#[test]
fn image_paths_resolve_like_path_join() {
    let mut c = cfg();
    c.images_dir = "imgs/".to_string();
    let b = Block::Image("x".to_string(), "y.png".to_string(), 7);
    assert_eq!(
        assemble(&b.render(&c), &Vec::new()),
        "<img src=\"imgs/y.png\" alt=\"x\" class=\"image\" style=\"width: 7%;\">"
    );
    let b = Block::Image("x".to_string(), "/abs.png".to_string(), 100);
    assert_eq!(assemble(&b.render(&c), &Vec::new()), "<img src=\"/abs.png\" alt=\"x\" class=\"image\">");
}

#[test]
fn failed_math_renders_marker_and_rest_continues() {
    let c = cfg();
    let pieces = render_document(&parse("# T\n\n\\[\nbad\n\\]\n\nok $y$ end".to_string()), &c);
    assert_eq!(math_count(&pieces), 2);
    let outcomes = vec![Err(MathError::Typeset("! Undefined control sequence.".to_string())), Ok("<svg>y</svg>".to_string())];
    let h = assemble(&pieces, &outcomes);
    assert_eq!(
        h,
        "<h1>T</h1>\n<hr><br><span class=\"display-math\"><code class='latex-error'>LaTeX failed: ! Undefined control sequence.</code></span><p>ok <span class=\"inline-math\"><svg>y</svg></span> end </p>\n"
    );
}

#[test]
fn missing_artifact_message() {
    let e = MathError::MissingArtifact("\"/tmp/x/math.dvi\"".to_string());
    assert_eq!(e.message(), "DVI file not found at \"/tmp/x/math.dvi\"");
}

#[test]
fn rendering_twice_is_identical() {
    let doc = "# H\n\n- a\n    - b\n\ntext *b* [l](u) [^1]\n\n[^1]: note\n\n```c\nint x;\n```\n";
    assert_eq!(html_of(doc), html_of(doc));
}

#[test]
fn other_blocks_render() {
    let h = html_of("## Sub\n\n>> q\n\n```py\nx<1\n```\n\n<html>\n<i>r</i>\n</html>\n\n[^2]: n *b*");
    assert_eq!(
        h,
        "<h2>Sub</h2>\n<p class=quote>q</p>\n<pre><code class=\"code-py\">x<1\n</code></pre><i>r</i><p id=\"fn2\"><a href=\"#ref2\">[2]</a> n <span class=\"bold\"> b </span></p>"
    );
}

#[test]
fn latex_document_wraps_fragment() {
    let c = cfg();
    let inline = latex_document(&c.math_template, &"x^2".to_string(), false);
    assert_eq!(inline, "\\begin{document}$x^2$\\end{document}");
    let display = latex_document(&c.math_template, &"x".to_string(), true);
    assert_eq!(display, "\\begin{document}\\[x\\]\\end{document}");
}

#[test]
fn post_template_substitution() {
    let c = cfg();
    let page = fill_post_template(&c.post_template, &"<p>x</p>".to_string(), &"first".to_string());
    assert_eq!(page, "<html>first: <p>x</p></html>");
}
