//! Rendering of finished blocks to HTML. Math is left as holes that the
//! typeset outcomes fill in afterwards.
use vstd::prelude::*;
use crate::chars::{append, append_str, chars_of, string_of};
use crate::model::{Block, BlockView, Item, ListItem, Run, Style, Text, TextFormat, blocks_of, items_of, runs_of};

verus! {

/// A piece of rendered output: HTML text, or a math expression (with whether
/// it is display math) still to be typeset.
#[derive(Debug, Clone, PartialEq)]
pub enum Piece {
    Html(String),
    Math(String, bool),
}

pub enum PieceView {
    Html(Seq<char>),
    Math(Seq<char>, bool),
}

impl View for Piece {
    type V = PieceView;

    open spec fn view(&self) -> PieceView {
        match self {
            Piece::Html(s) => PieceView::Html(s@),
            Piece::Math(s, d) => PieceView::Math(s@, *d),
        }
    }
}

pub open spec fn pieces_of(v: Seq<Piece>) -> Seq<PieceView> {
    v.map_values(|p: Piece| p@)
}

/// What the renderer reads besides the blocks.
pub struct CompilerConfig {
    /// The directory that image URLs are resolved against.
    pub images_dir: String,
    /// The page template, with `{{content}}` and `{{title}}` placeholders.
    pub post_template: String,
    /// The LaTeX document template, with a `{{content}}` placeholder.
    pub math_template: String,
}

pub open spec fn html(s: Seq<char>) -> Seq<PieceView> {
    seq![PieceView::Html(s)]
}

/// The rendering of one run.
pub open spec fn run_pieces(r: Run) -> Seq<PieceView> {
    match r.style {
        Style::Bold => html("<span class=\"bold\"> "@ + r.src + " </span>"@),
        Style::Italic => html("<span class=\"italic\"> "@ + r.src + " </span>"@),
        Style::InlineMath => html("<span class=\"inline-math\">"@) + seq![
            PieceView::Math(r.src, false),
        ] + html("</span>"@),
        Style::InlineCode => html(" <span class=\"inline-code\">"@ + r.src + "</span>"@),
        Style::Link(url) => html("<a href=\""@ + url + "\">"@ + r.src + "</a>"@),
        Style::FootnoteRef => html(
            "<sup id=\"ref"@ + r.src + "\"><a href=\"#fn"@ + r.src + "\">["@ + r.src
                + "]</a></sup>"@,
        ),
        _ => html(r.src),
    }
}

/// The renderings of a sequence of runs, one after the other.
pub open spec fn runs_pieces(rs: Seq<Run>) -> Seq<PieceView>
    decreases rs.len(),
{
    if rs.len() == 0 {
        seq![]
    } else {
        runs_pieces(rs.drop_last()) + run_pieces(rs.last())
    }
}

/// `s` repeated `n` times.
pub open spec fn repeat(s: Seq<char>, n: nat) -> Seq<char>
    decreases n,
{
    if n == 0 {
        seq![]
    } else {
        repeat(s, (n - 1) as nat) + s
    }
}

pub open spec fn open_tag(tag: Seq<char>) -> Seq<char> {
    "<"@ + tag + ">"@
}

pub open spec fn close_tag(tag: Seq<char>) -> Seq<char> {
    "</"@ + tag + ">"@
}

/// The markup between the previous item (at level `cur`) and an item at
/// level `lvl`: nested lists opened, or items and lists closed. Every list
/// opened for a level that no item holds gets an item of its own around the
/// next list, so that a jump of several levels still nests well: each `<li>`
/// that the closing steps close has been opened.
pub open spec fn level_change(tag: Seq<char>, cur: nat, lvl: nat, first: bool) -> Seq<char> {
    if lvl > cur && first {
        repeat("<li>"@ + open_tag(tag), lvl)
    } else if lvl > cur {
        open_tag(tag) + repeat("<li>"@ + open_tag(tag), (lvl - cur - 1) as nat)
    } else if lvl < cur {
        "</li>"@ + repeat(close_tag(tag) + "</li>"@, (cur - lvl) as nat)
    } else if !first {
        "</li>"@
    } else {
        seq![]
    }
}

/// The rendering of the items so far, and the level of the last one.
pub open spec fn list_state(tag: Seq<char>, items: Seq<Item>) -> (Seq<PieceView>, nat)
    decreases items.len(),
{
    if items.len() == 0 {
        (html(open_tag(tag)), 0)
    } else {
        let (ps, cur) = list_state(tag, items.drop_last());
        let it = items.last();
        (
            ps + html(level_change(tag, cur, it.level, items.len() == 1) + "<li>"@) + runs_pieces(
                it.content,
            ),
            it.level,
        )
    }
}

/// A flat list of items rebuilt as nested list markup.
pub open spec fn list_pieces(tag: Seq<char>, items: Seq<Item>) -> Seq<PieceView> {
    let (ps, cur) = list_state(tag, items);
    ps + html("</li>"@ + repeat(close_tag(tag) + "</li>"@, cur) + close_tag(tag))
}

/// Decimal digits of `n`.
pub open spec fn decimal(n: nat) -> Seq<char>
    decreases n,
{
    if n < 10 {
        seq![((48 + n) as u8) as char]
    } else {
        decimal(n / 10) + seq![((48 + n % 10) as u8) as char]
    }
}

/// `url` resolved against `dir` as a path: an absolute URL stands alone,
/// otherwise a separator is put between them where `dir` lacks one.
pub open spec fn join_path(dir: Seq<char>, url: Seq<char>) -> Seq<char> {
    if url.len() > 0 && url[0] == '/' {
        url
    } else if dir.len() == 0 || dir.last() == '/' {
        dir + url
    } else {
        dir + seq!['/'] + url
    }
}

/// The rendering of one block.
pub open spec fn block_pieces(b: BlockView, dir: Seq<char>) -> Seq<PieceView> {
    match b {
        BlockView::Paragraph(rs) => html("<p>"@) + runs_pieces(rs) + html("</p>\n"@),
        BlockView::Header(l, s) => if l == 1 {
            html("<h1>"@ + s + "</h1>\n"@ + "<hr><br>"@)
        } else {
            html("<h2>"@ + s + "</h2>\n"@)
        },
        BlockView::Math(s) => html("<span class=\"display-math\">"@) + seq![PieceView::Math(s, true)]
            + html("</span>"@),
        BlockView::Code(l, s) => html(
            "<pre><code class=\"code-"@ + l + "\">"@ + s + "</code></pre>"@,
        ),
        BlockView::Image(a, u, w) => if w == 100 {
            html("<img src=\""@ + join_path(dir, u) + "\" alt=\""@ + a + "\" class=\"image\">"@)
        } else {
            html(
                "<img src=\""@ + join_path(dir, u) + "\" alt=\""@ + a
                    + "\" class=\"image\" style=\"width: "@ + decimal(w) + "%;\">"@,
            )
        },
        BlockView::Html(s) => html(s),
        BlockView::Quote(s) => html("<p class=quote>"@ + s + "</p>\n"@),
        BlockView::Footnote(id, rs) => html(
            "<p id=\"fn"@ + id + "\"><a href=\"#ref"@ + id + "\">["@ + id + "]</a> "@,
        ) + runs_pieces(rs) + html("</p>"@),
        BlockView::List(o, items) => list_pieces(if o { "ol"@ } else { "ul"@ }, items),
    }
}

/// The renderings of a sequence of blocks, one after the other.
pub open spec fn doc_pieces(bs: Seq<BlockView>, dir: Seq<char>) -> Seq<PieceView>
    decreases bs.len(),
{
    if bs.len() == 0 {
        seq![]
    } else {
        doc_pieces(bs.drop_last(), dir) + block_pieces(bs.last(), dir)
    }
}

fn push_piece(out: &mut Vec<Piece>, p: Piece)
    ensures
        pieces_of(final(out)@) == pieces_of(old(out)@).push(p@),
{
    proof {
        assert(pieces_of(out@.push(p)) =~= pieces_of(out@).push(p@));
    }
    out.push(p);
}

fn push_html(out: &mut Vec<Piece>, v: &Vec<char>)
    ensures
        pieces_of(final(out)@) == pieces_of(old(out)@) + html(v@),
{
    push_piece(out, Piece::Html(string_of(v)));
    assert(pieces_of(old(out)@).push(PieceView::Html(v@)) =~= pieces_of(old(out)@) + html(v@));
}

fn push_lit(out: &mut Vec<Piece>, s: &str)
    ensures
        pieces_of(final(out)@) == pieces_of(old(out)@) + html(s@),
{
    let v = chars_of(s);
    push_html(out, &v);
}

/// `a` + `s` + `b`, as characters.
fn wrap(a: &str, s: &String, b: &str) -> (r: Vec<char>)
    ensures
        r@ == a@ + s@ + b@,
{
    let mut v = chars_of(a);
    append_str(&mut v, s.as_str());
    append_str(&mut v, b);
    v
}

impl Text {
    fn render_into(&self, out: &mut Vec<Piece>)
        ensures
            pieces_of(final(out)@) == pieces_of(old(out)@) + run_pieces(self@),
    {
        let ghost o = pieces_of(out@);
        match &self.fmt {
            TextFormat::Bold => {
                let v = wrap("<span class=\"bold\"> ", &self.src, " </span>");
                push_html(out, &v);
            },
            TextFormat::Italic => {
                let v = wrap("<span class=\"italic\"> ", &self.src, " </span>");
                push_html(out, &v);
            },
            TextFormat::InlineMath => {
                push_lit(out, "<span class=\"inline-math\">");
                push_piece(out, Piece::Math(self.src.clone(), false));
                push_lit(out, "</span>");
                assert(pieces_of(out@) =~= o + run_pieces(self@));
            },
            TextFormat::InlineCode => {
                let v = wrap(" <span class=\"inline-code\">", &self.src, "</span>");
                push_html(out, &v);
            },
            TextFormat::Link(url) => {
                let mut v = wrap("<a href=\"", url, "\">");
                append_str(&mut v, self.src.as_str());
                append_str(&mut v, "</a>");
                push_html(out, &v);
            },
            TextFormat::FootnoteRef => {
                let mut v = wrap("<sup id=\"ref", &self.src, "\"><a href=\"#fn");
                append_str(&mut v, self.src.as_str());
                append_str(&mut v, "\">[");
                append_str(&mut v, self.src.as_str());
                append_str(&mut v, "]</a></sup>");
                push_html(out, &v);
            },
            _ => {
                let v = chars_of(self.src.as_str());
                push_html(out, &v);
            },
        }
    }

    /// The rendering of this run.
    pub fn render(&self) -> (r: Vec<Piece>)
        ensures
            pieces_of(r@) == run_pieces(self@),
    {
        let mut out: Vec<Piece> = Vec::new();
        assert(pieces_of(out@) =~= seq![]);
        self.render_into(&mut out);
        assert(pieces_of(out@) =~= run_pieces(self@));
        out
    }
}

fn render_runs(out: &mut Vec<Piece>, ts: &Vec<Text>)
    ensures
        pieces_of(final(out)@) == pieces_of(old(out)@) + runs_pieces(runs_of(ts@)),
{
    let ghost rs = runs_of(ts@);
    let mut i: usize = 0;
    assert(rs.take(0) =~= seq![]);
    assert(pieces_of(out@) =~= pieces_of(old(out)@) + runs_pieces(rs.take(0)));
    while i < ts.len()
        invariant
            i <= ts.len(),
            rs == runs_of(ts@),
            pieces_of(out@) == pieces_of(old(out)@) + runs_pieces(rs.take(i as int)),
        decreases ts.len() - i,
    {
        ts[i].render_into(out);
        proof {
            assert(rs.take(i + 1).drop_last() =~= rs.take(i as int));
        }
        i = i + 1;
        assert(pieces_of(out@) =~= pieces_of(old(out)@) + runs_pieces(rs.take(i as int)));
    }
    assert(rs.take(ts.len() as int) =~= rs);
}

fn push_repeat(v: &mut Vec<char>, s: &str, n: usize)
    ensures
        final(v)@ == old(v)@ + repeat(s@, n as nat),
{
    let mut k: usize = 0;
    assert(old(v)@ + repeat(s@, 0) =~= old(v)@);
    while k < n
        invariant
            k <= n,
            v@ == old(v)@ + repeat(s@, k as nat),
        decreases n - k,
    {
        append_str(v, s);
        k = k + 1;
        assert(v@ =~= old(v)@ + repeat(s@, k as nat));
    }
}

fn push_all(out: &mut Vec<Piece>, ps: Vec<Piece>)
    ensures
        pieces_of(final(out)@) == pieces_of(old(out)@) + pieces_of(ps@),
{
    let ghost all = ps@;
    let mut rest = ps;
    let ghost mut i: int = 0;
    assert(pieces_of(out@) =~= pieces_of(old(out)@) + pieces_of(all).take(0));
    assert(rest@ =~= all.skip(0));
    while rest.len() > 0
        invariant
            0 <= i,
            i + rest.len() == all.len(),
            rest@ == all.skip(i),
            pieces_of(out@) == pieces_of(old(out)@) + pieces_of(all).take(i),
        decreases rest.len(),
    {
        let ghost r0 = rest@;
        let ghost o0 = pieces_of(out@);
        let p = rest.remove(0);
        assert(p == all[i]);
        push_piece(out, p);
        proof {
            assert(rest@ =~= all.skip(i + 1));
            assert(pieces_of(out@) =~= pieces_of(old(out)@) + pieces_of(all).take(i + 1));
            i = i + 1;
        }
    }
    assert(pieces_of(all).take(all.len() as int) =~= pieces_of(all));
}

fn render_list(ordered: bool, items: &Vec<ListItem>) -> (r: Vec<Piece>)
    ensures
        pieces_of(r@) == list_pieces(if ordered { "ol"@ } else { "ul"@ }, items_of(items@)),
{
    let tag = if ordered { "ol" } else { "ul" };
    let (open, close, close_item, item_open) = if ordered {
        ("<ol>", "</ol>", "</ol></li>", "<li><ol>")
    } else {
        ("<ul>", "</ul>", "</ul></li>", "<li><ul>")
    };
    proof {
        reveal_strlit("ol");
        reveal_strlit("ul");
        reveal_strlit("<ol>");
        reveal_strlit("<ul>");
        reveal_strlit("</ol>");
        reveal_strlit("</ul>");
        reveal_strlit("</ol></li>");
        reveal_strlit("</ul></li>");
        reveal_strlit("<");
        reveal_strlit(">");
        reveal_strlit("</");
        reveal_strlit("</li>");
        reveal_strlit("<li>");
        reveal_strlit("<li><ol>");
        reveal_strlit("<li><ul>");
        assert(item_open@ =~= "<li>"@ + open_tag(tag@));
        assert(open@ =~= open_tag(tag@));
        assert(close@ =~= close_tag(tag@));
        assert(close_item@ =~= close_tag(tag@) + "</li>"@);
    }
    let ghost its = items_of(items@);
    let mut out: Vec<Piece> = Vec::new();
    push_lit(&mut out, open);
    let mut cur: usize = 0;
    let mut i: usize = 0;
    assert(its.take(0) =~= seq![]);
    assert(pieces_of(out@) =~= html(open_tag(tag@)));
    while i < items.len()
        invariant
            i <= items.len(),
            its == items_of(items@),
            open@ == open_tag(tag@),
            close@ == close_tag(tag@),
            close_item@ == close_tag(tag@) + "</li>"@,
            item_open@ == "<li>"@ + open_tag(tag@),
            i == 0 ==> cur == 0,
            list_state(tag@, its.take(i as int)) == (pieces_of(out@), cur as nat),
        decreases items.len() - i,
    {
        let item = &items[i];
        let mut v: Vec<char> = Vec::new();
        if item.level > cur && i == 0 {
            push_repeat(&mut v, item_open, item.level);
        } else if item.level > cur {
            append_str(&mut v, open);
            push_repeat(&mut v, item_open, item.level - cur - 1);
        } else if item.level < cur {
            append_str(&mut v, "</li>");
            push_repeat(&mut v, close_item, cur - item.level);
        } else if i > 0 {
            append_str(&mut v, "</li>");
        }
        append_str(&mut v, "<li>");
        push_html(&mut out, &v);
        render_runs(&mut out, &item.content);
        proof {
            assert(its.take(i + 1).drop_last() =~= its.take(i as int));
            assert(v@ =~= level_change(tag@, cur as nat, item.level as nat, i + 1 == 1) + "<li>"@);
        }
        cur = item.level;
        i = i + 1;
    }
    assert(its.take(items.len() as int) =~= its);
    let mut v: Vec<char> = Vec::new();
    append_str(&mut v, "</li>");
    push_repeat(&mut v, close_item, cur);
    append_str(&mut v, close);
    assert(v@ =~= "</li>"@ + repeat(close_tag(tag@) + "</li>"@, cur as nat) + close_tag(tag@));
    push_html(&mut out, &v);
    out
}

fn push_decimal(v: &mut Vec<char>, n: u32)
    ensures
        final(v)@ == old(v)@ + decimal(n as nat),
    decreases n,
{
    if n >= 10 {
        push_decimal(v, n / 10);
    }
    let d = (n % 10) as u8;
    v.push((48u8 + d) as char);
    proof {
        if n >= 10 {
            assert(v@ =~= old(v)@ + decimal(n as nat));
        } else {
            assert(v@ =~= old(v)@ + decimal(n as nat));
        }
    }
}

fn push_path(v: &mut Vec<char>, dir: &String, url: &String)
    ensures
        final(v)@ == old(v)@ + join_path(dir@, url@),
{
    let d = chars_of(dir.as_str());
    let u = chars_of(url.as_str());
    if u.len() > 0 && u[0] == '/' {
        append(v, &u);
    } else if d.len() == 0 || d[d.len() - 1] == '/' {
        append(v, &d);
        append(v, &u);
        assert(v@ =~= old(v)@ + join_path(dir@, url@));
    } else {
        append(v, &d);
        v.push('/');
        append(v, &u);
        assert(v@ =~= old(v)@ + join_path(dir@, url@));
    }
}

impl Block {
    fn render_into(&self, cfg: &CompilerConfig, out: &mut Vec<Piece>)
        ensures
            pieces_of(final(out)@) == pieces_of(old(out)@) + block_pieces(self@, cfg.images_dir@),
    {
        let ghost o = pieces_of(out@);
        match self {
            Block::Paragraph(ts) => {
                push_lit(out, "<p>");
                render_runs(out, ts);
                push_lit(out, "</p>\n");
                assert(pieces_of(out@) =~= o + block_pieces(self@, cfg.images_dir@));
            },
            Block::Header(level, src) => {
                if *level == 1 {
                    let mut v = wrap("<h1>", src, "</h1>\n");
                    append_str(&mut v, "<hr><br>");
                    push_html(out, &v);
                } else {
                    let v = wrap("<h2>", src, "</h2>\n");
                    push_html(out, &v);
                }
            },
            Block::Math(src) => {
                push_lit(out, "<span class=\"display-math\">");
                push_piece(out, Piece::Math(src.clone(), true));
                push_lit(out, "</span>");
                assert(pieces_of(out@) =~= o + block_pieces(self@, cfg.images_dir@));
            },
            Block::Code(lang, src) => {
                let mut v = wrap("<pre><code class=\"code-", lang, "\">");
                append_str(&mut v, src.as_str());
                append_str(&mut v, "</code></pre>");
                push_html(out, &v);
            },
            Block::Image(alt, url, width) => {
                let mut v = chars_of("<img src=\"");
                push_path(&mut v, &cfg.images_dir, url);
                append_str(&mut v, "\" alt=\"");
                append_str(&mut v, alt.as_str());
                if *width == 100 {
                    append_str(&mut v, "\" class=\"image\">");
                } else {
                    append_str(&mut v, "\" class=\"image\" style=\"width: ");
                    push_decimal(&mut v, *width);
                    append_str(&mut v, "%;\">");
                }
                push_html(out, &v);
            },
            Block::Html(src) => {
                let v = chars_of(src.as_str());
                push_html(out, &v);
            },
            Block::Quote(src) => {
                let v = wrap("<p class=quote>", src, "</p>\n");
                push_html(out, &v);
            },
            Block::Footnote(id, ts) => {
                let mut v = wrap("<p id=\"fn", id, "\"><a href=\"#ref");
                append_str(&mut v, id.as_str());
                append_str(&mut v, "\">[");
                append_str(&mut v, id.as_str());
                append_str(&mut v, "]</a> ");
                push_html(out, &v);
                render_runs(out, ts);
                push_lit(out, "</p>");
                assert(pieces_of(out@) =~= o + block_pieces(self@, cfg.images_dir@));
            },
            Block::List(ordered, items) => {
                let ps = render_list(*ordered, items);
                push_all(out, ps);
            },
        }
    }

    /// The rendering of this block.
    pub fn render(&self, cfg: &CompilerConfig) -> (r: Vec<Piece>)
        ensures
            pieces_of(r@) == block_pieces(self@, cfg.images_dir@),
    {
        let mut out: Vec<Piece> = Vec::new();
        self.render_into(cfg, &mut out);
        assert(pieces_of(out@) =~= block_pieces(self@, cfg.images_dir@));
        out
    }
}

/// Renders a document's blocks in order.
pub fn render_document(blocks: &Vec<Block>, cfg: &CompilerConfig) -> (r: Vec<Piece>)
    ensures
        pieces_of(r@) == doc_pieces(blocks_of(blocks@), cfg.images_dir@),
{
    let ghost bs = blocks_of(blocks@);
    let mut out: Vec<Piece> = Vec::new();
    let mut i: usize = 0;
    assert(bs.take(0) =~= seq![]);
    assert(pieces_of(out@) =~= seq![]);
    while i < blocks.len()
        invariant
            i <= blocks.len(),
            bs == blocks_of(blocks@),
            pieces_of(out@) == doc_pieces(bs.take(i as int), cfg.images_dir@),
        decreases blocks.len() - i,
    {
        blocks[i].render_into(cfg, &mut out);
        proof {
            assert(bs.take(i + 1).drop_last() =~= bs.take(i as int));
        }
        i = i + 1;
    }
    assert(bs.take(blocks.len() as int) =~= bs);
    out
}

} // verus!
