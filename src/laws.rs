//! Properties of the parser and the renderer, proved over their models.
use vstd::prelude::*;
use crate::chars::{all_ws, lines};
use crate::blocks::{Pending, Seg, opens_block, raw_run, seg_init, seg_run, segment};
use crate::math::{MathError, error_message, fill, math_count};
use crate::model::{BlockView, Run, Style};
use crate::render::{PieceView, run_pieces, runs_pieces};

verus! {

/// The lines joined as a paragraph buffer: each line followed by a space.
pub open spec fn joined(ls: Seq<Seq<char>>) -> Seq<char>
    decreases ls.len(),
{
    if ls.len() == 0 {
        seq![]
    } else {
        joined(ls.drop_last()) + ls.last() + seq![' ']
    }
}

proof fn lemma_paragraph_run(ls: Seq<Seq<char>>, k: int)
    requires
        1 <= k <= ls.len(),
        forall|i: int| 0 <= i < ls.len() ==> !all_ws(#[trigger] ls[i]),
        !opens_block(ls[0]),
    ensures
        seg_run(ls.take(k)) == (Seg {
            blocks: seq![],
            buf: joined(ls.take(k)),
            fresh: false,
            pending: Pending::Normal,
        }),
    decreases k,
{
    let t = ls.take(k);
    assert(t.drop_last() =~= ls.take(k - 1));
    assert(t.last() == ls[k - 1]);
    assert(!all_ws(ls[k - 1]));
    if k == 1 {
        assert(ls.take(0) =~= seq![]);
        assert(seq![] + ls[0] + seq![' '] =~= seg_init().buf + ls[0] + seq![' ']);
    } else {
        lemma_paragraph_run(ls, k - 1);
    }
}

/// A document of non-blank lines whose first line opens no other construct
/// segments into exactly one paragraph, holding all of its lines joined.
pub proof fn law_single_paragraph(doc: Seq<char>)
    requires
        lines(doc).len() > 0,
        forall|i: int| 0 <= i < lines(doc).len() ==> !all_ws(#[trigger] lines(doc)[i]),
        !opens_block(lines(doc)[0]),
    ensures
        segment(doc) == seq![BlockView::Paragraph(raw_run(joined(lines(doc))))],
{
    let ls = lines(doc);
    lemma_paragraph_run(ls, ls.len() as int);
    assert(ls.take(ls.len() as int) =~= ls);
    assert(joined(ls).len() > 0);
    assert(seq![].push(BlockView::Paragraph(raw_run(joined(ls)))) =~= seq![
        BlockView::Paragraph(raw_run(joined(ls))),
    ]);
}

/// The rendering of runs one after the other is the concatenation of their renderings.
pub proof fn lemma_runs_concat(a: Seq<Run>, b: Seq<Run>)
    ensures
        runs_pieces(a + b) == runs_pieces(a) + runs_pieces(b),
    decreases b.len(),
{
    if b.len() == 0 {
        assert(a + b =~= a);
        assert(runs_pieces(a) + runs_pieces(b) =~= runs_pieces(a));
    } else {
        lemma_runs_concat(a, b.drop_last());
        assert((a + b).drop_last() =~= a + b.drop_last());
        assert(runs_pieces(a + b) =~= runs_pieces(a) + runs_pieces(b));
    }
}

/// Filling joined pieces with joined outcomes gives the joined fillings.
pub proof fn lemma_fill_concat(
    p1: Seq<PieceView>,
    p2: Seq<PieceView>,
    o1: Seq<Result<String, MathError>>,
    o2: Seq<Result<String, MathError>>,
)
    requires
        o1.len() == math_count(p1),
        o2.len() == math_count(p2),
    ensures
        fill(p1 + p2, o1 + o2) == fill(p1, o1) + fill(p2, o2),
        math_count(p1 + p2) == math_count(p1) + math_count(p2),
    decreases p2.len(),
{
    if p2.len() == 0 {
        assert(p1 + p2 =~= p1);
        assert(o1 + o2 =~= o1);
        assert(fill(p1, o1) + fill(p2, o2) =~= fill(p1, o1));
    } else {
        assert((p1 + p2).drop_last() =~= p1 + p2.drop_last());
        match p2.last() {
            PieceView::Html(h) => {
                lemma_fill_concat(p1, p2.drop_last(), o1, o2);
                assert(fill(p1 + p2, o1 + o2) =~= fill(p1, o1) + fill(p2, o2));
            },
            PieceView::Math(_, _) => {
                lemma_fill_concat(p1, p2.drop_last(), o1, o2.drop_last());
                assert((o1 + o2).drop_last() =~= o1 + o2.drop_last());
                assert((o1 + o2).last() == o2.last());
                assert(fill(p1 + p2, o1 + o2) =~= fill(p1, o1) + fill(p2, o2));
            },
        }
    }
}

/// A bold run renders as the bold element around its text, in its place,
/// whatever runs surround it.
pub proof fn law_bold_in_context(
    a: Seq<Run>,
    r: Run,
    b: Seq<Run>,
    o1: Seq<Result<String, MathError>>,
    o2: Seq<Result<String, MathError>>,
)
    requires
        r.style == Style::Bold,
        o1.len() == math_count(runs_pieces(a)),
        o2.len() == math_count(runs_pieces(b)),
    ensures
        fill(runs_pieces(a + seq![r] + b), o1 + o2) == fill(runs_pieces(a), o1)
            + "<span class=\"bold\"> "@ + r.src + " </span>"@ + fill(runs_pieces(b), o2),
{
    let x = "<span class=\"bold\"> "@ + r.src + " </span>"@;
    lemma_runs_concat(a, seq![r]);
    lemma_runs_concat(a + seq![r], b);
    assert(seq![r].drop_last() =~= Seq::<Run>::empty());
    assert(seq![r].last() == r);
    assert(runs_pieces(Seq::<Run>::empty()) =~= Seq::<PieceView>::empty());
    assert(run_pieces(r) == seq![PieceView::Html(x)]);
    assert(runs_pieces(seq![r]) =~= seq![PieceView::Html(x)]);
    let e: Seq<Result<String, MathError>> = seq![];
    assert(fill(seq![PieceView::Html(x)], e) =~= x) by {
        assert(seq![PieceView::Html(x)].drop_last() =~= Seq::<PieceView>::empty());
        assert(seq![PieceView::Html(x)].last() == PieceView::Html(x));
        assert(fill(Seq::<PieceView>::empty(), e) =~= Seq::<char>::empty());
    }
    assert(math_count(Seq::<PieceView>::empty()) == 0);
    assert(seq![PieceView::Html(x)].drop_last() =~= Seq::<PieceView>::empty());
    assert(seq![PieceView::Html(x)].last() == PieceView::Html(x));
    assert(math_count(seq![PieceView::Html(x)]) == 0);
    lemma_fill_concat(runs_pieces(a), seq![PieceView::Html(x)], o1, e);
    assert(o1 + e =~= o1);
    lemma_fill_concat(runs_pieces(a) + seq![PieceView::Html(x)], runs_pieces(b), o1, o2);
    assert(fill(runs_pieces(a + seq![r] + b), o1 + o2) =~= fill(runs_pieces(a), o1) + x + fill(
        runs_pieces(b),
        o2,
    ));
}

/// A math expression whose typesetting failed renders as an error marker
/// holding the diagnostic, in its place; what comes before and after renders
/// as it would anyway.
pub proof fn law_math_failure(
    p1: Seq<PieceView>,
    src: Seq<char>,
    display: bool,
    p2: Seq<PieceView>,
    o1: Seq<Result<String, MathError>>,
    e: MathError,
    o2: Seq<Result<String, MathError>>,
)
    requires
        o1.len() == math_count(p1),
        o2.len() == math_count(p2),
    ensures
        fill(p1 + seq![PieceView::Math(src, display)] + p2, o1 + seq![Err(e)] + o2) == fill(p1, o1)
            + "<code class='latex-error'>"@ + error_message(e) + "</code>"@ + fill(p2, o2),
{
    let m = seq![PieceView::Math(src, display)];
    let oe: Seq<Result<String, MathError>> = seq![Err(e)];
    assert(m.drop_last() =~= Seq::<PieceView>::empty());
    assert(oe.drop_last() =~= Seq::<Result<String, MathError>>::empty());
    assert(m.last() == PieceView::Math(src, display));
    assert(oe.last() == Err::<String, MathError>(e));
    assert(math_count(Seq::<PieceView>::empty()) == 0);
    assert(fill(Seq::<PieceView>::empty(), Seq::<Result<String, MathError>>::empty()) =~= Seq::<char>::empty());
    assert(math_count(m) == 1);
    assert(fill(m, oe) =~= "<code class='latex-error'>"@ + error_message(e) + "</code>"@);
    lemma_fill_concat(p1, m, o1, oe);
    lemma_fill_concat(p1 + m, p2, o1 + oe, o2);
    assert(fill(p1 + m + p2, o1 + oe + o2) =~= fill(p1, o1) + "<code class='latex-error'>"@
        + error_message(e) + "</code>"@ + fill(p2, o2));
}

} // verus!
