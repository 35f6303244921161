//! The document tree and its mathematical model.
use vstd::prelude::*;

verus! {

/// The style of a run of text.
#[derive(Debug, Clone, PartialEq)]
pub enum TextFormat {
    /// Text that still awaits inline formatting.
    Raw,
    Plain,
    Bold,
    Italic,
    InlineMath,
    InlineCode,
    FootnoteRef,
    /// A link to the given URL.
    Link(String),
}

/// A run of text that shares one style.
#[derive(Debug, Clone, PartialEq)]
pub struct Text {
    pub src: String,
    pub fmt: TextFormat,
}

/// One entry of a list, with its nesting depth.
#[derive(Debug, Clone, PartialEq)]
pub struct ListItem {
    pub level: usize,
    pub content: Vec<Text>,
}

/// A top-level unit of a document.
#[derive(Debug, Clone, PartialEq)]
pub enum Block {
    Paragraph(Vec<Text>),
    /// Level and text.
    Header(usize, String),
    /// Language tag and body.
    Code(String, String),
    Math(String),
    /// Alt text, relative URL and width in percent.
    Image(String, String, u32),
    Html(String),
    Quote(String),
    /// Id and content.
    Footnote(String, Vec<Text>),
    /// Whether the list is ordered, and its items.
    List(bool, Vec<ListItem>),
}

pub enum Style {
    Raw,
    Plain,
    Bold,
    Italic,
    InlineMath,
    InlineCode,
    FootnoteRef,
    Link(Seq<char>),
}

pub struct Run {
    pub src: Seq<char>,
    pub style: Style,
}

pub struct Item {
    pub level: nat,
    pub content: Seq<Run>,
}

pub enum BlockView {
    Paragraph(Seq<Run>),
    Header(nat, Seq<char>),
    Code(Seq<char>, Seq<char>),
    Math(Seq<char>),
    Image(Seq<char>, Seq<char>, nat),
    Html(Seq<char>),
    Quote(Seq<char>),
    Footnote(Seq<char>, Seq<Run>),
    List(bool, Seq<Item>),
}

impl View for TextFormat {
    type V = Style;

    open spec fn view(&self) -> Style {
        match self {
            TextFormat::Raw => Style::Raw,
            TextFormat::Plain => Style::Plain,
            TextFormat::Bold => Style::Bold,
            TextFormat::Italic => Style::Italic,
            TextFormat::InlineMath => Style::InlineMath,
            TextFormat::InlineCode => Style::InlineCode,
            TextFormat::FootnoteRef => Style::FootnoteRef,
            TextFormat::Link(u) => Style::Link(u@),
        }
    }
}

impl View for Text {
    type V = Run;

    open spec fn view(&self) -> Run {
        Run { src: self.src@, style: self.fmt@ }
    }
}

pub open spec fn runs_of(v: Seq<Text>) -> Seq<Run> {
    v.map_values(|t: Text| t@)
}

impl View for ListItem {
    type V = Item;

    open spec fn view(&self) -> Item {
        Item { level: self.level as nat, content: runs_of(self.content@) }
    }
}

pub open spec fn items_of(v: Seq<ListItem>) -> Seq<Item> {
    v.map_values(|i: ListItem| i@)
}

impl View for Block {
    type V = BlockView;

    open spec fn view(&self) -> BlockView {
        match self {
            Block::Paragraph(ts) => BlockView::Paragraph(runs_of(ts@)),
            Block::Header(l, s) => BlockView::Header(*l as nat, s@),
            Block::Code(l, s) => BlockView::Code(l@, s@),
            Block::Math(s) => BlockView::Math(s@),
            Block::Image(a, u, w) => BlockView::Image(a@, u@, *w as nat),
            Block::Html(s) => BlockView::Html(s@),
            Block::Quote(s) => BlockView::Quote(s@),
            Block::Footnote(id, ts) => BlockView::Footnote(id@, runs_of(ts@)),
            Block::List(o, items) => BlockView::List(*o, items_of(items@)),
        }
    }
}

pub open spec fn blocks_of(v: Seq<Block>) -> Seq<BlockView> {
    v.map_values(|b: Block| b@)
}

pub proof fn lemma_runs_push(v: Seq<Text>, t: Text)
    ensures
        runs_of(v.push(t)) == runs_of(v).push(t@),
{
    assert(runs_of(v.push(t)) =~= runs_of(v).push(t@));
}

pub proof fn lemma_items_push(v: Seq<ListItem>, t: ListItem)
    ensures
        items_of(v.push(t)) == items_of(v).push(t@),
{
    assert(items_of(v.push(t)) =~= items_of(v).push(t@));
}

pub proof fn lemma_blocks_push(v: Seq<Block>, t: Block)
    ensures
        blocks_of(v.push(t)) == blocks_of(v).push(t@),
{
    assert(blocks_of(v.push(t)) =~= blocks_of(v).push(t@));
}

} // verus!
