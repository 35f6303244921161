//! The inline formatter: one left-to-right scan that turns raw text into
//! styled runs, with delimiter toggles, escapes and literal spans.
use vstd::prelude::*;
use crate::chars::{slice, string_of};
use crate::model::{Run, Style, Text, TextFormat, runs_of, lemma_runs_push};
use crate::scan::{first_link, first_fnref, find_link, find_fnref, lemma_first_link, lemma_first_fnref};

verus! {

/// The style that the scan has toggled on.
#[derive(PartialEq, Eq, Structural, Clone, Copy, Debug)]
pub enum Toggle {
    Plain,
    Bold,
    Italic,
    Math,
    Code,
}

pub open spec fn toggle_style(t: Toggle) -> Style {
    match t {
        Toggle::Plain => Style::Plain,
        Toggle::Bold => Style::Bold,
        Toggle::Italic => Style::Italic,
        Toggle::Math => Style::InlineMath,
        Toggle::Code => Style::InlineCode,
    }
}

/// Math and code spans are literal: only their closing delimiter is special.
pub open spec fn is_literal(t: Toggle) -> bool {
    t == Toggle::Math || t == Toggle::Code
}

/// The style that a delimiter character toggles.
pub open spec fn delimiter(c: char) -> Option<Toggle> {
    if c == '*' {
        Some(Toggle::Bold)
    } else if c == '_' {
        Some(Toggle::Italic)
    } else if c == '$' {
        Some(Toggle::Math)
    } else if c == '`' {
        Some(Toggle::Code)
    } else {
        None
    }
}

/// A delimiter closes its own style and opens any other.
pub open spec fn next_toggle(cur: Toggle, target: Toggle) -> Toggle {
    if cur == target {
        Toggle::Plain
    } else {
        target
    }
}

pub fn delimiter_of(c: char) -> (r: Option<Toggle>)
    ensures
        r == delimiter(c),
{
    if c == '*' {
        Some(Toggle::Bold)
    } else if c == '_' {
        Some(Toggle::Italic)
    } else if c == '$' {
        Some(Toggle::Math)
    } else if c == '`' {
        Some(Toggle::Code)
    } else {
        None
    }
}

/// The transition on a delimiter: the style after it.
pub fn transition(cur: Toggle, target: Toggle) -> (r: Toggle)
    ensures
        r == next_toggle(cur, target),
{
    if cur == target {
        Toggle::Plain
    } else {
        target
    }
}

/// The runs of a plain buffer, with links and footnote references split out:
/// the leftmost link first, else the leftmost footnote reference, then the rest.
pub open spec fn split_plain(s: Seq<char>) -> Seq<Run>
    decreases s.len() via split_plain_decreases
{
    if s.len() == 0 {
        seq![]
    } else {
        match first_link(s, 0) {
            Some((p, te, ue)) => before(s, p) + seq![
                Run { src: s.subrange(p + 1, te), style: Style::Link(s.subrange(te + 2, ue)) },
            ] + split_plain(s.skip(ue + 1)),
            None => match first_fnref(s, 0) {
                Some((p, de)) => before(s, p) + seq![
                    Run { src: s.subrange(p + 2, de), style: Style::FootnoteRef },
                ] + split_plain(s.skip(de + 1)),
                None => seq![Run { src: s, style: Style::Plain }],
            },
        }
    }
}

#[via_fn]
proof fn split_plain_decreases(s: Seq<char>) {
    if s.len() > 0 {
        if first_link(s, 0) is Some {
            lemma_first_link(s, 0);
        } else if first_fnref(s, 0) is Some {
            lemma_first_fnref(s, 0);
        }
    }
}

pub open spec fn before(s: Seq<char>, p: int) -> Seq<Run> {
    if p > 0 {
        seq![Run { src: s.take(p), style: Style::Plain }]
    } else {
        seq![]
    }
}

/// The runs that flushing `buf` under style `t` emits.
pub open spec fn emit(buf: Seq<char>, t: Toggle) -> Seq<Run> {
    if buf.len() == 0 {
        seq![]
    } else if t == Toggle::Plain {
        split_plain(buf)
    } else {
        seq![Run { src: buf, style: toggle_style(t) }]
    }
}

/// The scan's state: runs so far, the buffer, the current style, and whether
/// the previous character was an escaping backslash.
pub struct Scan {
    pub runs: Seq<Run>,
    pub buf: Seq<char>,
    pub cur: Toggle,
    pub escaped: bool,
}

/// The scan's transition on one character. Outside a literal span a
/// backslash is dropped and makes the next character plain text. Inside a
/// math or code span every character is kept as it is, backslashes included
/// (LaTeX needs them); a backslash there still makes the next character
/// literal, so a backslash just before the closing delimiter escapes it.
pub open spec fn scan_step(st: Scan, c: char) -> Scan {
    if st.escaped {
        Scan { buf: st.buf.push(c), escaped: false, ..st }
    } else if is_literal(st.cur) {
        if c == '\\' {
            Scan { buf: st.buf.push(c), escaped: true, ..st }
        } else if delimiter(c) == Some(st.cur) {
            Scan { runs: st.runs + emit(st.buf, st.cur), buf: seq![], cur: Toggle::Plain, ..st }
        } else {
            Scan { buf: st.buf.push(c), ..st }
        }
    } else if c == '\\' {
        Scan { escaped: true, ..st }
    } else if delimiter(c) is Some {
        Scan {
            runs: st.runs + emit(st.buf, st.cur),
            buf: seq![],
            cur: next_toggle(st.cur, delimiter(c)->0),
            ..st
        }
    } else {
        Scan { buf: st.buf.push(c), ..st }
    }
}

pub open spec fn scan_all(s: Seq<char>) -> Scan
    decreases s.len(),
{
    if s.len() == 0 {
        Scan { runs: seq![], buf: seq![], cur: Toggle::Plain, escaped: false }
    } else {
        scan_step(scan_all(s.drop_last()), s.last())
    }
}

/// The runs of a raw text: the scan, with whatever is open flushed at the end.
pub open spec fn format_spec(s: Seq<char>) -> Seq<Run> {
    let st = scan_all(s);
    st.runs + emit(st.buf, st.cur)
}

fn make_text(s: &Vec<char>, fmt: TextFormat) -> (r: Text)
    ensures
        r@ == (Run { src: s@, style: fmt@ }),
{
    Text { src: string_of(s), fmt }
}

fn style_format(t: Toggle) -> (r: TextFormat)
    ensures
        r@ == toggle_style(t),
{
    match t {
        Toggle::Plain => TextFormat::Plain,
        Toggle::Bold => TextFormat::Bold,
        Toggle::Italic => TextFormat::Italic,
        Toggle::Math => TextFormat::InlineMath,
        Toggle::Code => TextFormat::InlineCode,
    }
}

fn push_text(out: &mut Vec<Text>, t: Text)
    ensures
        runs_of(final(out)@) == runs_of(old(out)@).push(t@),
{
    proof {
        lemma_runs_push(out@, t);
    }
    out.push(t);
}

/// Splits a plain buffer around links and footnote references, one match at a
/// time, and appends the runs to `out`.
pub fn push_plain(out: &mut Vec<Text>, s: &Vec<char>)
    ensures
        runs_of(final(out)@) == runs_of(old(out)@) + split_plain(s@),
{
    let mut rest: Vec<char> = slice(s, 0, s.len());
    assert(rest@ =~= s@);
    assert(runs_of(out@) + split_plain(s@) =~= runs_of(old(out)@) + split_plain(s@));
    while rest.len() > 0
        invariant
            runs_of(out@) + split_plain(rest@) == runs_of(old(out)@) + split_plain(s@),
        decreases rest.len(),
    {
        let ghost o = runs_of(out@);
        let ghost r = rest@;
        match find_link(&rest) {
            Some((p, te, ue)) => {
                proof {
                    lemma_first_link(r, 0);
                }
                if p > 0 {
                    let pre = slice(&rest, 0, p);
                    push_text(out, make_text(&pre, TextFormat::Plain));
                }
                let txt = slice(&rest, p + 1, te);
                let url = slice(&rest, te + 2, ue);
                push_text(out, make_text(&txt, TextFormat::Link(string_of(&url))));
                rest = slice(&rest, ue + 1, rest.len());
                proof {
                    assert(rest@ =~= r.skip(ue + 1));
                    assert(r.take(p as int) =~= r.subrange(0, p as int));
                    assert(runs_of(out@) + split_plain(rest@) =~= o + split_plain(r));
                }
            },
            None => {
                match find_fnref(&rest) {
                    Some((p, de)) => {
                        proof {
                            lemma_first_fnref(r, 0);
                        }
                        if p > 0 {
                            let pre = slice(&rest, 0, p);
                            push_text(out, make_text(&pre, TextFormat::Plain));
                        }
                        let id = slice(&rest, p + 2, de);
                        push_text(out, make_text(&id, TextFormat::FootnoteRef));
                        rest = slice(&rest, de + 1, rest.len());
                        proof {
                            assert(rest@ =~= r.skip(de + 1));
                            assert(r.take(p as int) =~= r.subrange(0, p as int));
                            assert(runs_of(out@) + split_plain(rest@) =~= o + split_plain(r));
                        }
                    },
                    None => {
                        push_text(out, make_text(&rest, TextFormat::Plain));
                        rest = Vec::new();
                        proof {
                            assert(runs_of(out@) + split_plain(rest@) =~= o + split_plain(r));
                        }
                    },
                }
            },
        }
    }
    assert(runs_of(out@) + split_plain(rest@) =~= runs_of(out@));
}

/// Flushes `buf` under style `t` onto `out`.
fn flush(out: &mut Vec<Text>, buf: &Vec<char>, t: Toggle)
    ensures
        runs_of(final(out)@) == runs_of(old(out)@) + emit(buf@, t),
{
    if buf.len() == 0 {
        assert(runs_of(out@) + seq![] =~= runs_of(out@));
    } else if t == Toggle::Plain {
        push_plain(out, buf);
    } else {
        let ghost o = runs_of(out@);
        push_text(out, make_text(buf, style_format(t)));
        assert(runs_of(out@) =~= o + emit(buf@, t));
    }
}

/// The inline formatter: the styled runs of a raw text.
pub fn parse_text(src: String) -> (r: Vec<Text>)
    ensures
        runs_of(r@) == format_spec(src@),
{
    let s = crate::chars::chars_of(src.as_str());
    let mut runs: Vec<Text> = Vec::new();
    let mut buf: Vec<char> = Vec::new();
    let mut cur = Toggle::Plain;
    let mut escaped = false;
    let mut i: usize = 0;
    assert(s@.take(0) =~= seq![]);
    assert(runs_of(runs@) =~= seq![]);
    while i < s.len()
        invariant
            i <= s.len(),
            s@ == src@,
            scan_all(s@.take(i as int)) == (Scan {
                runs: runs_of(runs@),
                buf: buf@,
                cur,
                escaped,
            }),
        decreases s.len() - i,
    {
        let c = s[i];
        proof {
            assert(s@.take(i + 1).drop_last() =~= s@.take(i as int));
        }
        let d = delimiter_of(c);
        if escaped {
            buf.push(c);
            escaped = false;
        } else if cur == Toggle::Math || cur == Toggle::Code {
            if c == '\\' {
                buf.push(c);
                escaped = true;
            } else if d == Some(cur) {
                flush(&mut runs, &buf, cur);
                buf = Vec::new();
                cur = Toggle::Plain;
            } else {
                buf.push(c);
            }
        } else if c == '\\' {
            escaped = true;
        } else {
            match d {
                Some(t) => {
                    flush(&mut runs, &buf, cur);
                    buf = Vec::new();
                    cur = transition(cur, t);
                },
                None => {
                    buf.push(c);
                },
            }
        }
        i = i + 1;
    }
    assert(s@.take(s.len() as int) =~= s@);
    flush(&mut runs, &buf, cur);
    runs
}

} // verus!
