//! The computing side of math typesetting: the LaTeX source handed to the
//! typesetter, and the filling of math holes with the typeset outcomes.
use vstd::prelude::*;
use crate::chars::{append_str, chars_of, string_of, replace, replace_all};
use crate::render::{Piece, PieceView, pieces_of};

verus! {

/// Why a math expression could not be typeset.
#[derive(Debug, Clone, PartialEq)]
pub enum MathError {
    /// The typesetter exited with failure; its captured output.
    Typeset(String),
    /// The typesetter succeeded but left no DVI file; where it was looked for.
    MissingArtifact(String),
}

pub open spec fn error_message(e: MathError) -> Seq<char> {
    match e {
        MathError::Typeset(out) => "LaTeX failed: "@ + out@,
        MathError::MissingArtifact(p) => "DVI file not found at "@ + p@,
    }
}

impl MathError {
    /// The diagnostic text of the failure.
    pub fn message(&self) -> (r: String)
        ensures
            r@ == error_message(*self),
    {
        let mut v = match self {
            MathError::Typeset(_) => chars_of("LaTeX failed: "),
            MathError::MissingArtifact(_) => chars_of("DVI file not found at "),
        };
        match self {
            MathError::Typeset(out) => append_str(&mut v, out.as_str()),
            MathError::MissingArtifact(p) => append_str(&mut v, p.as_str()),
        }
        string_of(&v)
    }
}

/// What one typesetting run gives, from what the tools reported: a failed
/// typesetter yields its output as the diagnostic; a missing DVI file yields
/// where it was looked for; otherwise the converter's output is the SVG.
/// Values that a run did not reach (the converter's output after a failure)
/// are ignored.
pub fn typeset_outcome(
    typeset_ok: bool,
    typeset_output: String,
    dvi_found: bool,
    dvi_path: String,
    svg: String,
) -> (r: Result<String, MathError>)
    ensures
        match r {
            Ok(out) => typeset_ok && dvi_found && out@ == svg@,
            Err(MathError::Typeset(d)) => !typeset_ok && d@ == typeset_output@,
            Err(MathError::MissingArtifact(p)) => typeset_ok && !dvi_found && p@ == dvi_path@,
        },
{
    if !typeset_ok {
        Err(MathError::Typeset(typeset_output))
    } else if !dvi_found {
        Err(MathError::MissingArtifact(dvi_path))
    } else {
        Ok(svg)
    }
}

/// What a math hole becomes: the SVG, or an error marker with the diagnostic.
pub open spec fn outcome_html(o: Result<String, MathError>) -> Seq<char> {
    match o {
        Ok(svg) => svg@,
        Err(e) => "<code class='latex-error'>"@ + error_message(e) + "</code>"@,
    }
}

/// The number of math holes among the pieces.
pub open spec fn math_count(ps: Seq<PieceView>) -> nat
    decreases ps.len(),
{
    if ps.len() == 0 {
        0
    } else {
        math_count(ps.drop_last()) + if ps.last() is Math { 1nat } else { 0nat }
    }
}

/// The pieces joined, the k-th math hole filled by the k-th outcome.
pub open spec fn fill(ps: Seq<PieceView>, outs: Seq<Result<String, MathError>>) -> Seq<char>
    decreases ps.len(),
{
    if ps.len() == 0 {
        seq![]
    } else {
        match ps.last() {
            PieceView::Html(h) => fill(ps.drop_last(), outs) + h,
            PieceView::Math(_, _) => fill(ps.drop_last(), outs.drop_last()) + outcome_html(
                outs.last(),
            ),
        }
    }
}

pub proof fn lemma_count_prefix(ps: Seq<PieceView>, i: int)
    requires
        0 <= i <= ps.len(),
    ensures
        math_count(ps.take(i)) <= math_count(ps),
    decreases ps.len(),
{
    if i < ps.len() {
        lemma_count_prefix(ps.drop_last(), i);
        assert(ps.drop_last().take(i) =~= ps.take(i));
    } else {
        assert(ps.take(i) =~= ps);
    }
}

/// Joins the rendered pieces into HTML, the math holes filled in order with
/// the outcomes of typesetting them.
pub fn assemble(pieces: &Vec<Piece>, outcomes: &Vec<Result<String, MathError>>) -> (r: String)
    requires
        outcomes@.len() == math_count(pieces_of(pieces@)),
    ensures
        r@ == fill(pieces_of(pieces@), outcomes@),
{
    let ghost ps = pieces_of(pieces@);
    let mut out: Vec<char> = Vec::new();
    let mut i: usize = 0;
    let mut j: usize = 0;
    assert(ps.take(0) =~= seq![]);
    assert(outcomes@.take(0) =~= seq![]);
    while i < pieces.len()
        invariant
            i <= pieces.len(),
            ps == pieces_of(pieces@),
            outcomes@.len() == math_count(ps),
            j == math_count(ps.take(i as int)),
            out@ == fill(ps.take(i as int), outcomes@.take(j as int)),
        decreases pieces.len() - i,
    {
        proof {
            assert(ps.take(i + 1).drop_last() =~= ps.take(i as int));
            lemma_count_prefix(ps, i + 1);
        }
        match &pieces[i] {
            Piece::Html(h) => {
                append_str(&mut out, h.as_str());
            },
            Piece::Math(_, _) => {
                assert(math_count(ps.take(i + 1)) == j + 1);
                assert(j + 1 <= outcomes.len());
                match &outcomes[j] {
                    Ok(svg) => {
                        append_str(&mut out, svg.as_str());
                    },
                    Err(e) => {
                        append_str(&mut out, "<code class='latex-error'>");
                        let m = e.message();
                        append_str(&mut out, m.as_str());
                        append_str(&mut out, "</code>");
                    },
                }
                proof {
                    assert(outcomes@.take(j + 1).drop_last() =~= outcomes@.take(j as int));
                }
                j = j + 1;
            },
        }
        i = i + 1;
    }
    assert(ps.take(pieces.len() as int) =~= ps);
    assert(outcomes@.take(j as int) =~= outcomes@);
    string_of(&out)
}

/// The math fragment wrapped as inline (`$...$`) or display (`\[...\]`) math.
pub open spec fn wrap_math(math: Seq<char>, display: bool) -> Seq<char> {
    if display {
        "\\["@ + math + "\\]"@
    } else {
        "$"@ + math + "$"@
    }
}

/// The LaTeX document to typeset for one math expression: the template with
/// the wrapped fragment put in for every `{{content}}`.
pub fn latex_document(template: &String, math: &String, display: bool) -> (r: String)
    ensures
        r@ == replace_all(template@, "{{content}}"@, wrap_math(math@, display)),
{
    let mut w = if display {
        chars_of("\\[")
    } else {
        chars_of("$")
    };
    append_str(&mut w, math.as_str());
    if display {
        append_str(&mut w, "\\]");
    } else {
        append_str(&mut w, "$");
    }
    let t = chars_of(template.as_str());
    let pat = chars_of("{{content}}");
    proof {
        reveal_strlit("{{content}}");
    }
    let r = replace(&t, &pat, &w);
    string_of(&r)
}

/// The page for a document: the template with the rendered content put in
/// for `{{content}}`, then the title for `{{title}}`.
pub fn fill_post_template(template: &String, content: &String, title: &String) -> (r: String)
    ensures
        r@ == replace_all(
            replace_all(template@, "{{content}}"@, content@),
            "{{title}}"@,
            title@,
        ),
{
    let t = chars_of(template.as_str());
    let c = chars_of(content.as_str());
    let ti = chars_of(title.as_str());
    let p1 = chars_of("{{content}}");
    let p2 = chars_of("{{title}}");
    proof {
        reveal_strlit("{{content}}");
        reveal_strlit("{{title}}");
    }
    let step = replace(&t, &p1, &c);
    let r = replace(&step, &p2, &ti);
    string_of(&r)
}

} // verus!
