//! The small grammars of the dialect: links, footnote references and
//! definitions, images and list items, each matched on a line of characters.
use vstd::prelude::*;
use crate::chars::{Class, skip_spec, skip, lemma_skip_bounds, is_digit, slice};

verus! {

/// A link `[text](url)` at position `p`: where its text and its URL end.
pub open spec fn link_at(s: Seq<char>, p: int) -> Option<(int, int)> {
    if 0 <= p && p + 1 < s.len() && s[p] == '[' {
        let te = skip_spec(s, p + 1, Class::Not(']'));
        if te > p + 1 && te + 1 < s.len() && s[te + 1] == '(' {
            let ue = skip_spec(s, te + 2, Class::Not(')'));
            if ue > te + 2 && ue < s.len() {
                Some((te, ue))
            } else {
                None
            }
        } else {
            None
        }
    } else {
        None
    }
}

/// The leftmost link at or after `p`: its start and where its text and URL end.
pub open spec fn first_link(s: Seq<char>, p: int) -> Option<(int, int, int)>
    decreases s.len() - p,
{
    if p < 0 || p >= s.len() {
        None
    } else if link_at(s, p) is Some {
        let m = link_at(s, p)->0;
        Some((p, m.0, m.1))
    } else {
        first_link(s, p + 1)
    }
}

/// A footnote reference `[^digits]` at position `p`, digits of any script:
/// where its digits end.
pub open spec fn fnref_at(s: Seq<char>, p: int) -> Option<int> {
    if 0 <= p && p + 2 < s.len() && s[p] == '[' && s[p + 1] == '^' {
        let de = skip_spec(s, p + 2, Class::UnicodeDigit);
        if de > p + 2 && de < s.len() && s[de] == ']' {
            Some(de)
        } else {
            None
        }
    } else {
        None
    }
}

/// The leftmost footnote reference at or after `p`: its start and where its digits end.
pub open spec fn first_fnref(s: Seq<char>, p: int) -> Option<(int, int)>
    decreases s.len() - p,
{
    if p < 0 || p >= s.len() {
        None
    } else if fnref_at(s, p) is Some {
        Some((p, fnref_at(s, p)->0))
    } else {
        first_fnref(s, p + 1)
    }
}

fn link_here(s: &Vec<char>, p: usize) -> (r: Option<(usize, usize)>)
    ensures
        match r {
            Some((a, b)) => link_at(s@, p as int) == Some((a as int, b as int)),
            None => link_at(s@, p as int) is None,
        },
{
    if p >= s.len() || s.len() - p < 2 || s[p] != '[' {
        return None;
    }
    let te = skip(s, p + 1, Class::Not(']'));
    proof {
        lemma_skip_bounds(s@, p + 1, Class::Not(']'));
    }
    if te > p + 1 && te < s.len() - 1 && s[te + 1] == '(' {
        let ue = skip(s, te + 2, Class::Not(')'));
        if ue > te + 2 && ue < s.len() {
            return Some((te, ue));
        }
    }
    None
}

/// Finds the leftmost link in `s`.
pub fn find_link(s: &Vec<char>) -> (r: Option<(usize, usize, usize)>)
    ensures
        match r {
            Some((a, b, c)) => first_link(s@, 0) == Some((a as int, b as int, c as int)),
            None => first_link(s@, 0) is None,
        },
{
    let mut p: usize = 0;
    while p < s.len()
        invariant
            p <= s.len(),
            first_link(s@, 0) == first_link(s@, p as int),
        decreases s.len() - p,
    {
        match link_here(s, p) {
            Some((te, ue)) => {
                return Some((p, te, ue));
            },
            None => {},
        }
        p = p + 1;
    }
    None
}

fn fnref_here(s: &Vec<char>, p: usize) -> (r: Option<usize>)
    ensures
        match r {
            Some(d) => fnref_at(s@, p as int) == Some(d as int),
            None => fnref_at(s@, p as int) is None,
        },
{
    if p >= s.len() || s.len() - p < 3 || s[p] != '[' || s[p + 1] != '^' {
        return None;
    }
    let de = skip(s, p + 2, Class::UnicodeDigit);
    if de > p + 2 && de < s.len() && s[de] == ']' {
        Some(de)
    } else {
        None
    }
}

/// Finds the leftmost footnote reference in `s`.
pub fn find_fnref(s: &Vec<char>) -> (r: Option<(usize, usize)>)
    ensures
        match r {
            Some((a, b)) => first_fnref(s@, 0) == Some((a as int, b as int)),
            None => first_fnref(s@, 0) is None,
        },
{
    let mut p: usize = 0;
    while p < s.len()
        invariant
            p <= s.len(),
            first_fnref(s@, 0) == first_fnref(s@, p as int),
        decreases s.len() - p,
    {
        match fnref_here(s, p) {
            Some(de) => {
                return Some((p, de));
            },
            None => {},
        }
        p = p + 1;
    }
    None
}

/// The value of a sequence of decimal digits.
pub open spec fn digits_val(d: Seq<char>) -> nat
    decreases d.len(),
{
    if d.len() == 0 {
        0
    } else {
        digits_val(d.drop_last()) * 10 + (d.last() as u32 - '0' as u32) as nat
    }
}

/// The value of `s[from..to]`, all digits, or `None` where it does not fit in a `u32`.
fn parse_u32(s: &Vec<char>, from: usize, to: usize) -> (r: Option<u32>)
    requires
        from <= to <= s.len(),
        forall|j: int| from <= j < to ==> is_digit(#[trigger] s@[j]),
    ensures
        match r {
            Some(v) => v as nat == digits_val(s@.subrange(from as int, to as int)),
            None => digits_val(s@.subrange(from as int, to as int)) > u32::MAX,
        },
{
    let mut v: u64 = 0;
    let mut i: usize = from;
    while i < to
        invariant
            from <= i <= to <= s.len(),
            forall|j: int| from <= j < to ==> is_digit(#[trigger] s@[j]),
            v as nat == digits_val(s@.subrange(from as int, i as int)),
            v <= u32::MAX,
        decreases to - i,
    {
        let d = (s[i] as u32 - '0' as u32) as u64;
        proof {
            assert(s@.subrange(from as int, i + 1).drop_last() =~= s@.subrange(from as int, i as int));
        }
        let nv = v * 10 + d;
        if nv > u32::MAX as u64 {
            proof {
                lemma_digits_grow(s@, from as int, i + 1, to as int);
            }
            return None;
        }
        v = nv;
        i = i + 1;
    }
    Some(v as u32)
}

proof fn lemma_digits_grow(s: Seq<char>, from: int, i: int, to: int)
    requires
        0 <= from <= i <= to <= s.len(),
        forall|j: int| from <= j < to ==> is_digit(#[trigger] s[j]),
    ensures
        digits_val(s.subrange(from, i)) <= digits_val(s.subrange(from, to)),
    decreases to - i,
{
    if i < to {
        lemma_digits_grow(s, from, i + 1, to);
        assert(s.subrange(from, i + 1).drop_last() =~= s.subrange(from, i));
    }
}

/// An image `![alt](url){width}` at position `p`, width clause optional:
/// where its alt text and URL end, and the span of the width digits.
pub open spec fn image_at(s: Seq<char>, p: int) -> Option<(int, int, Option<(int, int)>)> {
    if 0 <= p && p + 1 < s.len() && s[p] == '!' && s[p + 1] == '[' {
        let te = skip_spec(s, p + 2, Class::Not(']'));
        if te + 1 < s.len() && s[te + 1] == '(' {
            let ue = skip_spec(s, te + 2, Class::Not(')'));
            if ue > te + 2 && ue < s.len() {
                let w = ue + 1;
                let de = skip_spec(s, w + 1, Class::Digit);
                if w + 1 < s.len() && s[w] == '{' && de > w + 1 && de < s.len() && s[de] == '}' {
                    Some((te, ue, Some((w + 1, de))))
                } else {
                    Some((te, ue, None))
                }
            } else {
                None
            }
        } else {
            None
        }
    } else {
        None
    }
}

pub open spec fn first_image(s: Seq<char>, p: int) -> Option<(int, int, int, Option<(int, int)>)>
    decreases s.len() - p,
{
    if p < 0 || p >= s.len() {
        None
    } else if image_at(s, p) is Some {
        let m = image_at(s, p)->0;
        Some((p, m.0, m.1, m.2))
    } else {
        first_image(s, p + 1)
    }
}

/// The image that a line holds: alt text, URL and width (100 without a width
/// clause). A width that does not fit in a `u32` makes the syntax malformed.
pub open spec fn image_spec(s: Seq<char>) -> Option<(Seq<char>, Seq<char>, nat)> {
    match first_image(s, 0) {
        None => None,
        Some((p, te, ue, w)) => {
            let alt = s.subrange(p + 2, te);
            let url = s.subrange(te + 2, ue);
            match w {
                None => Some((alt, url, 100)),
                Some((a, b)) => {
                    let v = digits_val(s.subrange(a, b));
                    if v <= u32::MAX {
                        Some((alt, url, v))
                    } else {
                        None
                    }
                },
            }
        },
    }
}

fn image_here(s: &Vec<char>, p: usize) -> (r: Option<(usize, usize, Option<(usize, usize)>)>)
    ensures
        match r {
            Some((a, b, None)) => image_at(s@, p as int) == Some((a as int, b as int, None::<(int, int)>)),
            Some((a, b, Some((c, d)))) => image_at(s@, p as int) == Some(
                (a as int, b as int, Some((c as int, d as int))),
            ),
            None => image_at(s@, p as int) is None,
        },
{
    if p >= s.len() || s.len() - p < 2 || s[p] != '!' || s[p + 1] != '[' {
        return None;
    }
    let te = skip(s, p + 2, Class::Not(']'));
    proof {
        lemma_skip_bounds(s@, p + 2, Class::Not(']'));
    }
    if te < s.len() - 1 && s[te + 1] == '(' {
        let ue = skip(s, te + 2, Class::Not(')'));
        proof {
            lemma_skip_bounds(s@, te + 2, Class::Not(')'));
        }
        if ue > te + 2 && ue < s.len() {
            let w = ue + 1;
            if w < s.len() - 1 && s[w] == '{' {
                let de = skip(s, w + 1, Class::Digit);
                if de > w + 1 && de < s.len() && s[de] == '}' {
                    return Some((te, ue, Some((w + 1, de))));
                }
            }
            return Some((te, ue, None));
        }
    }
    None
}

/// Matches the image syntax in a line.
pub fn match_image(s: &Vec<char>) -> (r: Option<(Vec<char>, Vec<char>, u32)>)
    ensures
        match r {
            Some((a, u, w)) => image_spec(s@) == Some((a@, u@, w as nat)),
            None => image_spec(s@) is None,
        },
{
    let mut p: usize = 0;
    while p < s.len()
        invariant
            p <= s.len(),
            first_image(s@, 0) == first_image(s@, p as int),
        decreases s.len() - p,
    {
        match image_here(s, p) {
            Some((te, ue, w)) => {
                proof {
                    lemma_skip_bounds(s@, p + 2, Class::Not(']'));
                    lemma_skip_bounds(s@, te + 2, Class::Not(')'));
                }
                let alt = slice(s, p + 2, te);
                let url = slice(s, te + 2, ue);
                match w {
                    None => {
                        return Some((alt, url, 100));
                    },
                    Some((a, b)) => {
                        proof {
                            lemma_skip_bounds(s@, a as int, Class::Digit);
                        }
                        match parse_u32(s, a, b) {
                            Some(v) => {
                                return Some((alt, url, v));
                            },
                            None => {
                                return None;
                            },
                        }
                    },
                }
            },
            None => {},
        }
        p = p + 1;
    }
    None
}

/// A footnote definition `[^digits]: text`, digits of any script, anchored at
/// the line start: id and text.
pub open spec fn fndef_spec(s: Seq<char>) -> Option<(Seq<char>, Seq<char>)> {
    if s.len() > 2 && s[0] == '[' && s[1] == '^' {
        let de = skip_spec(s, 2, Class::UnicodeDigit);
        if de > 2 && de + 1 < s.len() && s[de] == ']' && s[de + 1] == ':' {
            Some((s.subrange(2, de), s.skip(skip_spec(s, de + 2, Class::Ws))))
        } else {
            None
        }
    } else {
        None
    }
}

pub fn match_fndef(s: &Vec<char>) -> (r: Option<(Vec<char>, Vec<char>)>)
    ensures
        match r {
            Some((a, b)) => fndef_spec(s@) == Some((a@, b@)),
            None => fndef_spec(s@) is None,
        },
{
    if s.len() <= 2 || s[0] != '[' || s[1] != '^' {
        return None;
    }
    let de = skip(s, 2, Class::UnicodeDigit);
    proof {
        lemma_skip_bounds(s@, 2, Class::UnicodeDigit);
    }
    if de > 2 && de < s.len() - 1 && s[de] == ']' && s[de + 1] == ':' {
        let c = skip(s, de + 2, Class::Ws);
        proof {
            lemma_skip_bounds(s@, de + 2, Class::Ws);
        }
        let id = slice(s, 2, de);
        let body = slice(s, c, s.len());
        assert(body@ =~= s@.skip(c as int));
        Some((id, body))
    } else {
        None
    }
}

/// An ordered list item `  label. text`: nesting level and text.
pub open spec fn ol_spec(s: Seq<char>) -> Option<(nat, Seq<char>)> {
    let sp = skip_spec(s, 0, Class::Space);
    let le = skip_spec(s, sp, Class::Label);
    let we = skip_spec(s, le + 1, Class::Ws);
    if le > sp && le < s.len() && s[le] == '.' && we > le + 1 {
        Some(((sp / 4) as nat, s.skip(we)))
    } else {
        None
    }
}

/// An unordered list item `  - text` or `  * text`: nesting level and text.
pub open spec fn ul_spec(s: Seq<char>) -> Option<(nat, Seq<char>)> {
    let sp = skip_spec(s, 0, Class::Space);
    let we = skip_spec(s, sp + 1, Class::Ws);
    if sp < s.len() && (s[sp] == '-' || s[sp] == '*') && we > sp + 1 {
        Some(((sp / 4) as nat, s.skip(we)))
    } else {
        None
    }
}

pub fn match_ol(s: &Vec<char>) -> (r: Option<(usize, Vec<char>)>)
    ensures
        match r {
            Some((l, t)) => ol_spec(s@) == Some((l as nat, t@)),
            None => ol_spec(s@) is None,
        },
{
    let sp = skip(s, 0, Class::Space);
    proof {
        lemma_skip_bounds(s@, 0, Class::Space);
    }
    let le = skip(s, sp, Class::Label);
    proof {
        lemma_skip_bounds(s@, sp as int, Class::Label);
    }
    if le > sp && le < s.len() && s[le] == '.' {
        let we = skip(s, le + 1, Class::Ws);
        proof {
            lemma_skip_bounds(s@, le + 1, Class::Ws);
        }
        if we > le + 1 {
            let t = slice(s, we, s.len());
            assert(t@ =~= s@.skip(we as int));
            return Some((sp / 4, t));
        }
    }
    None
}

pub fn match_ul(s: &Vec<char>) -> (r: Option<(usize, Vec<char>)>)
    ensures
        match r {
            Some((l, t)) => ul_spec(s@) == Some((l as nat, t@)),
            None => ul_spec(s@) is None,
        },
{
    let sp = skip(s, 0, Class::Space);
    proof {
        lemma_skip_bounds(s@, 0, Class::Space);
    }
    if sp < s.len() && (s[sp] == '-' || s[sp] == '*') {
        let we = skip(s, sp + 1, Class::Ws);
        proof {
            lemma_skip_bounds(s@, sp + 1, Class::Ws);
        }
        if we > sp + 1 {
            let t = slice(s, we, s.len());
            assert(t@ =~= s@.skip(we as int));
            return Some((sp / 4, t));
        }
    }
    None
}

} // verus!

verus! {

pub proof fn lemma_first_link(s: Seq<char>, q: int)
    requires
        first_link(s, q) is Some,
    ensures
        ({
            let (p, te, ue) = first_link(s, q)->0;
            &&& q <= p && p + 1 < te && te + 2 < ue && ue < s.len()
            &&& link_at(s, p) == Some((te, ue))
        }),
    decreases s.len() - q,
{
    if link_at(s, q) is None {
        lemma_first_link(s, q + 1);
    }
}

pub proof fn lemma_first_fnref(s: Seq<char>, q: int)
    requires
        first_fnref(s, q) is Some,
    ensures
        ({
            let (p, de) = first_fnref(s, q)->0;
            &&& q <= p && p + 2 < de && de < s.len()
            &&& fnref_at(s, p) == Some(de)
        }),
    decreases s.len() - q,
{
    if fnref_at(s, q) is None {
        lemma_first_fnref(s, q + 1);
    }
}

} // verus!
