//! Block segmentation: a state machine over the lines of a document.
use vstd::prelude::*;
use crate::chars::{
    Class, skip, skip_spec, lemma_skip_bounds, starts_with, has_prefix, all_ws, is_blank, trim,
    trim_from, lines, split_lines, views_of, append, string_of, chars_of,
};
use crate::model::{
    Block, BlockView, Item, ListItem, Run, Style, Text, TextFormat, blocks_of, items_of, runs_of,
    lemma_blocks_push, lemma_items_push,
};
use crate::scan::{image_spec, fndef_spec, ol_spec, ul_spec, match_image, match_fndef, match_ol, match_ul};
use crate::inline::{format_spec, parse_text};

verus! {

/// A construct that spans several lines and is still open.
pub enum Pending {
    Normal,
    /// Language tag and body of a fenced code block.
    Code(Seq<char>, Seq<char>),
    Math(Seq<char>),
    Comment,
    Html(Seq<char>),
    /// Whether the list is ordered, and its items so far.
    Items(bool, Seq<Item>),
}

/// The segmenter's state: blocks so far, the paragraph being joined, whether
/// a new block may start, and the open construct.
pub struct Seg {
    pub blocks: Seq<BlockView>,
    pub buf: Seq<char>,
    pub fresh: bool,
    pub pending: Pending,
}

/// A list item of a line: ordered syntax first, then unordered.
pub open spec fn item_spec(line: Seq<char>) -> Option<Item> {
    match ol_spec(line) {
        Some((l, t)) => Some(Item { level: l, content: format_spec(t) }),
        None => match ul_spec(line) {
            Some((l, t)) => Some(Item { level: l, content: format_spec(t) }),
            None => None,
        },
    }
}

pub open spec fn raw_run(s: Seq<char>) -> Seq<Run> {
    seq![Run { src: s, style: Style::Raw }]
}

pub open spec fn add_block(st: Seg, b: BlockView) -> Seg {
    Seg { blocks: st.blocks.push(b), ..st }
}

/// Whether a line at the start of a block opens a construct other than a paragraph.
pub open spec fn opens_block(line: Seq<char>) -> bool {
    starts_with(line, "#"@) || starts_with(line, "```"@) || starts_with(line, "\\["@)
        || starts_with(line, "!["@) || starts_with(line, "<!--"@) || starts_with(line, "<html>"@)
        || starts_with(line, ">> "@) || starts_with(line, "[^"@) || ol_spec(line) is Some
        || ul_spec(line) is Some
}

/// A line where a new block may start, dispatched on its prefix.
pub open spec fn open_block(st: Seg, line: Seq<char>) -> Seg {
    if starts_with(line, "#"@) {
        let level = skip_spec(line, 0, Class::Hash);
        add_block(st, BlockView::Header(level as nat, trim(line.skip(level))))
    } else if starts_with(line, "```"@) {
        Seg { pending: Pending::Code(trim(line.skip(3)), seq![]), ..st }
    } else if starts_with(line, "\\["@) {
        Seg { pending: Pending::Math(seq![]), ..st }
    } else if starts_with(line, "!["@) {
        match image_spec(line) {
            Some((a, u, w)) => add_block(st, BlockView::Image(a, u, w)),
            None => st,
        }
    } else if starts_with(line, "<!--"@) {
        Seg { pending: Pending::Comment, ..st }
    } else if starts_with(line, "<html>"@) {
        Seg { pending: Pending::Html(seq![]), ..st }
    } else if starts_with(line, ">> "@) {
        add_block(st, BlockView::Quote(trim(line.skip(3))))
    } else if starts_with(line, "[^"@) {
        match fndef_spec(line) {
            Some((id, c)) => add_block(st, BlockView::Footnote(id, raw_run(c))),
            None => st,
        }
    } else if ol_spec(line) is Some {
        Seg { pending: Pending::Items(true, seq![item_spec(line)->0]), ..st }
    } else if ul_spec(line) is Some {
        Seg { pending: Pending::Items(false, seq![item_spec(line)->0]), ..st }
    } else {
        Seg { buf: st.buf + line + seq![' '], ..st }
    }
}

/// A line read with no construct open: a blank line ends the paragraph being
/// joined, a line inside a paragraph joins it, and any other line may open a block.
pub open spec fn normal_step(st: Seg, line: Seq<char>) -> Seg {
    if all_ws(line) {
        if st.buf.len() > 0 {
            Seg {
                blocks: st.blocks.push(BlockView::Paragraph(raw_run(st.buf))),
                buf: seq![],
                fresh: true,
                ..st
            }
        } else {
            Seg { fresh: true, ..st }
        }
    } else if !st.fresh {
        Seg { buf: st.buf + line + seq![' '], ..st }
    } else {
        Seg { fresh: false, ..open_block(st, line) }
    }
}

/// The segmenter's transition on one line. The line that ends a list is not
/// lost: the list is closed and the line read as in the normal state, where
/// it cannot open a new block.
pub open spec fn seg_step(st: Seg, line: Seq<char>) -> Seg {
    match st.pending {
        Pending::Normal => normal_step(st, line),
        Pending::Code(lang, body) => {
            if starts_with(line, "```"@) {
                Seg { pending: Pending::Normal, ..add_block(st, BlockView::Code(lang, body)) }
            } else {
                Seg { pending: Pending::Code(lang, body + line + seq!['\n']), ..st }
            }
        },
        Pending::Math(body) => {
            if starts_with(line, "\\]"@) {
                Seg { pending: Pending::Normal, ..add_block(st, BlockView::Math(body)) }
            } else {
                Seg { pending: Pending::Math(body + line + seq!['\n']), ..st }
            }
        },
        Pending::Comment => {
            if starts_with(line, "-->"@) {
                Seg { pending: Pending::Normal, ..st }
            } else {
                st
            }
        },
        Pending::Html(body) => {
            if starts_with(line, "</html>"@) {
                Seg { pending: Pending::Normal, ..add_block(st, BlockView::Html(body)) }
            } else {
                Seg { pending: Pending::Html(body + line), ..st }
            }
        },
        Pending::Items(ordered, items) => {
            match item_spec(line) {
                Some(it) => Seg { pending: Pending::Items(ordered, items.push(it)), ..st },
                None => normal_step(
                    Seg {
                        pending: Pending::Normal,
                        fresh: false,
                        ..add_block(st, BlockView::List(ordered, items))
                    },
                    line,
                ),
            }
        },
    }
}

pub open spec fn seg_init() -> Seg {
    Seg { blocks: seq![], buf: seq![], fresh: true, pending: Pending::Normal }
}

pub open spec fn seg_run(ls: Seq<Seq<char>>) -> Seg
    decreases ls.len(),
{
    if ls.len() == 0 {
        seg_init()
    } else {
        seg_step(seg_run(ls.drop_last()), ls.last())
    }
}

/// The end of input: an open construct is kept as it stands (a comment is
/// dropped), then the paragraph being joined.
pub open spec fn seg_finish(st: Seg) -> Seq<BlockView> {
    let bs = match st.pending {
        Pending::Normal => st.blocks,
        Pending::Comment => st.blocks,
        Pending::Code(l, b) => st.blocks.push(BlockView::Code(l, b)),
        Pending::Math(b) => st.blocks.push(BlockView::Math(b)),
        Pending::Html(b) => st.blocks.push(BlockView::Html(b)),
        Pending::Items(o, i) => st.blocks.push(BlockView::List(o, i)),
    };
    if st.buf.len() > 0 {
        bs.push(BlockView::Paragraph(raw_run(st.buf)))
    } else {
        bs
    }
}

/// The blocks of a document, before inline formatting.
pub open spec fn segment(doc: Seq<char>) -> Seq<BlockView> {
    seg_finish(seg_run(lines(doc)))
}

enum Open {
    Normal,
    Code(Vec<char>, Vec<char>),
    Math(Vec<char>),
    Comment,
    Html(Vec<char>),
    Items(bool, Vec<ListItem>),
}

impl View for Open {
    type V = Pending;

    closed spec fn view(&self) -> Pending {
        match self {
            Open::Normal => Pending::Normal,
            Open::Code(l, b) => Pending::Code(l@, b@),
            Open::Math(b) => Pending::Math(b@),
            Open::Comment => Pending::Comment,
            Open::Html(b) => Pending::Html(b@),
            Open::Items(o, i) => Pending::Items(*o, items_of(i@)),
        }
    }
}

struct Segmenter {
    blocks: Vec<Block>,
    buf: Vec<char>,
    fresh: bool,
    open: Open,
}

impl View for Segmenter {
    type V = Seg;

    closed spec fn view(&self) -> Seg {
        Seg { blocks: blocks_of(self.blocks@), buf: self.buf@, fresh: self.fresh, pending: self.open@ }
    }
}

fn list_item(line: &Vec<char>) -> (r: Option<ListItem>)
    ensures
        match r {
            Some(it) => item_spec(line@) == Some(it@),
            None => item_spec(line@) is None,
        },
{
    match match_ol(line) {
        Some((l, t)) => {
            let content = parse_text(string_of(&t));
            Some(ListItem { level: l, content })
        },
        None => match match_ul(line) {
            Some((l, t)) => {
                let content = parse_text(string_of(&t));
                Some(ListItem { level: l, content })
            },
            None => None,
        },
    }
}

fn raw_text(s: &Vec<char>) -> (r: Vec<Text>)
    ensures
        runs_of(r@) == raw_run(s@),
{
    let v = vec![Text { src: string_of(s), fmt: TextFormat::Raw }];
    assert(runs_of(v@) =~= raw_run(s@));
    v
}

impl Segmenter {
    fn add(&mut self, b: Block)
        ensures
            final(self)@ == add_block(old(self)@, b@),
    {
        proof {
            lemma_blocks_push(self.blocks@, b);
        }
        self.blocks.push(b);
    }

    fn join_line(&mut self, line: &Vec<char>)
        ensures
            final(self)@ == (Seg { buf: old(self)@.buf + line@ + seq![' '], ..old(self)@ }),
    {
        let ghost b = self.buf@;
        append(&mut self.buf, line);
        self.buf.push(' ');
        assert(self.buf@ =~= b + line@ + seq![' ']);
    }

    fn open_block(&mut self, line: &Vec<char>)
        requires
            old(self).open@ == Pending::Normal,
        ensures
            final(self)@ == open_block(old(self)@, line@),
    {
        if has_prefix(line, "#") {
            let level = skip(line, 0, Class::Hash);
            proof {
                lemma_skip_bounds(line@, 0, Class::Hash);
            }
            let t = trim_from(line, level);
            self.add(Block::Header(level, string_of(&t)));
        } else if has_prefix(line, "```") {
            proof {
                reveal_strlit("```");
            }
            let lang = trim_from(line, 3);
            self.open = Open::Code(lang, Vec::new());
        } else if has_prefix(line, "\\[") {
            self.open = Open::Math(Vec::new());
        } else if has_prefix(line, "![") {
            match match_image(line) {
                Some((a, u, w)) => {
                    self.add(Block::Image(string_of(&a), string_of(&u), w));
                },
                None => {},
            }
        } else if has_prefix(line, "<!--") {
            self.open = Open::Comment;
        } else if has_prefix(line, "<html>") {
            self.open = Open::Html(Vec::new());
        } else if has_prefix(line, ">> ") {
            proof {
                reveal_strlit(">> ");
            }
            let t = trim_from(line, 3);
            self.add(Block::Quote(string_of(&t)));
        } else if has_prefix(line, "[^") {
            match match_fndef(line) {
                Some((id, c)) => {
                    let content = raw_text(&c);
                    self.add(Block::Footnote(string_of(&id), content));
                },
                None => {},
            }
        } else {
            match match_ol(line) {
                Some(_) => {
                    let it = list_item(line);
                    let it = it.unwrap();
                    let items = vec![it];
                    assert(items_of(items@) =~= seq![it@]);
                    self.open = Open::Items(true, items);
                },
                None => match match_ul(line) {
                    Some(_) => {
                        let it = list_item(line);
                        let it = it.unwrap();
                        let items = vec![it];
                        assert(items_of(items@) =~= seq![it@]);
                        self.open = Open::Items(false, items);
                    },
                    None => {
                        self.join_line(line);
                    },
                },
            }
        }
    }

    fn normal_step(&mut self, line: &Vec<char>)
        requires
            old(self).open@ == Pending::Normal,
        ensures
            final(self)@ == normal_step(old(self)@, line@),
    {
        if is_blank(line) {
            if self.buf.len() > 0 {
                let content = raw_text(&self.buf);
                self.add(Block::Paragraph(content));
                self.buf = Vec::new();
            }
            self.fresh = true;
        } else if !self.fresh {
            self.join_line(line);
        } else {
            self.open_block(line);
            self.fresh = false;
        }
    }

    fn step(self, line: &Vec<char>) -> (r: Self)
        ensures
            r@ == seg_step(self@, line@),
    {
        let Segmenter { blocks, buf, fresh, open } = self;
        let mut s = Segmenter { blocks, buf, fresh, open: Open::Normal };
        match open {
            Open::Normal => {
                s.normal_step(line);
            },
            Open::Code(lang, mut body) => {
                if has_prefix(line, "```") {
                    s.add(Block::Code(string_of(&lang), string_of(&body)));
                } else {
                    let ghost b = body@;
                    append(&mut body, line);
                    body.push('\n');
                    assert(body@ =~= b + line@ + seq!['\n']);
                    s.open = Open::Code(lang, body);
                }
            },
            Open::Math(mut body) => {
                if has_prefix(line, "\\]") {
                    s.add(Block::Math(string_of(&body)));
                } else {
                    let ghost b = body@;
                    append(&mut body, line);
                    body.push('\n');
                    assert(body@ =~= b + line@ + seq!['\n']);
                    s.open = Open::Math(body);
                }
            },
            Open::Comment => {
                if !has_prefix(line, "-->") {
                    s.open = Open::Comment;
                }
            },
            Open::Html(mut body) => {
                if has_prefix(line, "</html>") {
                    s.add(Block::Html(string_of(&body)));
                } else {
                    append(&mut body, line);
                    s.open = Open::Html(body);
                }
            },
            Open::Items(ordered, mut items) => {
                match list_item(line) {
                    Some(it) => {
                        proof {
                            lemma_items_push(items@, it);
                        }
                        items.push(it);
                        s.open = Open::Items(ordered, items);
                    },
                    None => {
                        s.add(Block::List(ordered, items));
                        s.fresh = false;
                        s.normal_step(line);
                    },
                }
            },
        }
        s
    }

    fn finish(self) -> (r: Vec<Block>)
        ensures
            blocks_of(r@) == seg_finish(self@),
    {
        let Segmenter { blocks, buf, fresh, open } = self;
        let mut s = Segmenter { blocks, buf, fresh, open: Open::Normal };
        match open {
            Open::Normal => {},
            Open::Comment => {},
            Open::Code(l, b) => {
                s.add(Block::Code(string_of(&l), string_of(&b)));
            },
            Open::Math(b) => {
                s.add(Block::Math(string_of(&b)));
            },
            Open::Html(b) => {
                s.add(Block::Html(string_of(&b)));
            },
            Open::Items(o, i) => {
                s.add(Block::List(o, i));
            },
        }
        if s.buf.len() > 0 {
            let content = raw_text(&s.buf);
            s.add(Block::Paragraph(content));
        }
        s.blocks
    }
}

/// Block segmentation: the blocks of a document, paragraphs and footnotes
/// still holding raw text.
pub fn parse_blocks(input: &str) -> (r: Vec<Block>)
    ensures
        blocks_of(r@) == segment(input@),
{
    let text = chars_of(input);
    let ls = split_lines(&text);
    let mut seg = Segmenter { blocks: Vec::new(), buf: Vec::new(), fresh: true, open: Open::Normal };
    assert(blocks_of(seg.blocks@) =~= seq![]);
    let ghost lv = views_of(ls@);
    let mut i: usize = 0;
    assert(lv.take(0) =~= seq![]);
    while i < ls.len()
        invariant
            i <= ls.len(),
            lv == views_of(ls@),
            lv == lines(input@),
            seg@ == seg_run(lv.take(i as int)),
        decreases ls.len() - i,
    {
        proof {
            assert(lv.take(i + 1).drop_last() =~= lv.take(i as int));
        }
        seg = seg.step(&ls[i]);
        i = i + 1;
    }
    assert(lv.take(ls.len() as int) =~= lv);
    seg.finish()
}

} // verus!

verus! {

/// The document assembler's work on one block: paragraphs and footnotes get
/// their raw text formatted; other blocks are kept.
pub open spec fn inner_spec(b: BlockView) -> BlockView {
    match b {
        BlockView::Paragraph(rs) => if rs.len() > 0 {
            BlockView::Paragraph(format_spec(rs[0].src))
        } else {
            b
        },
        BlockView::Footnote(id, rs) => if rs.len() > 0 {
            BlockView::Footnote(id, format_spec(rs[0].src))
        } else {
            b
        },
        _ => b,
    }
}

/// The finished blocks of a document.
pub open spec fn parse_spec(doc: Seq<char>) -> Seq<BlockView> {
    segment(doc).map_values(|b: BlockView| inner_spec(b))
}

/// Formats the raw text that a paragraph or a footnote holds.
pub fn parse_inner(block: Block) -> (r: Block)
    ensures
        r@ == inner_spec(block@),
{
    match block {
        Block::Paragraph(ts) => {
            if ts.len() > 0 {
                Block::Paragraph(parse_text(ts[0].src.clone()))
            } else {
                Block::Paragraph(ts)
            }
        },
        Block::Footnote(id, ts) => {
            if ts.len() > 0 {
                Block::Footnote(id, parse_text(ts[0].src.clone()))
            } else {
                Block::Footnote(id, ts)
            }
        },
        _ => block,
    }
}

/// Parses a document: segmentation, then inline formatting of each block.
pub fn parse(input: String) -> (r: Vec<Block>)
    ensures
        blocks_of(r@) == parse_spec(input@),
{
    let blocks = parse_blocks(input.as_str());
    let ghost bv = blocks_of(blocks@);
    let mut out: Vec<Block> = Vec::new();
    let mut rest = blocks;
    let mut i: usize = 0;
    let n = rest.len();
    assert(blocks_of(out@) =~= bv.map_values(|b: BlockView| inner_spec(b)).take(0));
    while rest.len() > 0
        invariant
            n == bv.len(),
            i + rest.len() == n,
            forall|k: int| 0 <= k < rest.len() ==> #[trigger] rest@[k]@ == bv[i + k],
            blocks_of(out@) == bv.map_values(|b: BlockView| inner_spec(b)).take(i as int),
        decreases rest.len(),
    {
        let b = rest.remove(0);
        let nb = parse_inner(b);
        proof {
            lemma_blocks_push(out@, nb);
        }
        out.push(nb);
        i = i + 1;
        assert(blocks_of(out@) =~= bv.map_values(|b: BlockView| inner_spec(b)).take(i as int));
    }
    assert(bv.map_values(|b: BlockView| inner_spec(b)).take(n as int) =~= bv.map_values(
        |b: BlockView| inner_spec(b),
    ));
    out
}

} // verus!
