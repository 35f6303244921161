//! Character classes, scanning and line splitting on `Seq<char>`.
use vstd::prelude::*;
use vstd::std_specs::iter::IteratorSpec;

verus! {

/// Unicode `White_Space`, as `char::is_whitespace` and the `\s` class use it.
pub open spec fn is_ws(c: char) -> bool {
    let u = c as u32;
    u == 0x20 || (0x09 <= u && u <= 0x0d) || u == 0x85 || u == 0xa0 || u == 0x1680
        || (0x2000 <= u && u <= 0x200a) || u == 0x2028 || u == 0x2029 || u == 0x202f
        || u == 0x205f || u == 0x3000
}

/// An ASCII decimal digit: what an image width is written in, since it is
/// read as a number.
pub open spec fn is_digit(c: char) -> bool {
    '0' as u32 <= c as u32 && c as u32 <= '9' as u32
}

/// A Unicode decimal digit (general category Nd, Unicode 15.0): the code
/// point lies in one of the runs of ten digits zero to nine.
pub open spec fn is_unicode_digit(c: char) -> bool {
    let u = c as u32;
    (0x30 <= u && u <= 0x39) || (0x660 <= u && u <= 0x669) || (0x6f0 <= u && u <= 0x6f9)
    || (0x7c0 <= u && u <= 0x7c9) || (0x966 <= u && u <= 0x96f)
    || (0x9e6 <= u && u <= 0x9ef) || (0xa66 <= u && u <= 0xa6f)
    || (0xae6 <= u && u <= 0xaef) || (0xb66 <= u && u <= 0xb6f)
    || (0xbe6 <= u && u <= 0xbef) || (0xc66 <= u && u <= 0xc6f)
    || (0xce6 <= u && u <= 0xcef) || (0xd66 <= u && u <= 0xd6f)
    || (0xde6 <= u && u <= 0xdef) || (0xe50 <= u && u <= 0xe59)
    || (0xed0 <= u && u <= 0xed9) || (0xf20 <= u && u <= 0xf29)
    || (0x1040 <= u && u <= 0x1049) || (0x1090 <= u && u <= 0x1099)
    || (0x17e0 <= u && u <= 0x17e9) || (0x1810 <= u && u <= 0x1819)
    || (0x1946 <= u && u <= 0x194f) || (0x19d0 <= u && u <= 0x19d9)
    || (0x1a80 <= u && u <= 0x1a89) || (0x1a90 <= u && u <= 0x1a99)
    || (0x1b50 <= u && u <= 0x1b59) || (0x1bb0 <= u && u <= 0x1bb9)
    || (0x1c40 <= u && u <= 0x1c49) || (0x1c50 <= u && u <= 0x1c59)
    || (0xa620 <= u && u <= 0xa629) || (0xa8d0 <= u && u <= 0xa8d9)
    || (0xa900 <= u && u <= 0xa909) || (0xa9d0 <= u && u <= 0xa9d9)
    || (0xa9f0 <= u && u <= 0xa9f9) || (0xaa50 <= u && u <= 0xaa59)
    || (0xabf0 <= u && u <= 0xabf9) || (0xff10 <= u && u <= 0xff19)
    || (0x104a0 <= u && u <= 0x104a9) || (0x10d30 <= u && u <= 0x10d39)
    || (0x11066 <= u && u <= 0x1106f) || (0x110f0 <= u && u <= 0x110f9)
    || (0x11136 <= u && u <= 0x1113f) || (0x111d0 <= u && u <= 0x111d9)
    || (0x112f0 <= u && u <= 0x112f9) || (0x11450 <= u && u <= 0x11459)
    || (0x114d0 <= u && u <= 0x114d9) || (0x11650 <= u && u <= 0x11659)
    || (0x116c0 <= u && u <= 0x116c9) || (0x11730 <= u && u <= 0x11739)
    || (0x118e0 <= u && u <= 0x118e9) || (0x11950 <= u && u <= 0x11959)
    || (0x11c50 <= u && u <= 0x11c59) || (0x11d50 <= u && u <= 0x11d59)
    || (0x11da0 <= u && u <= 0x11da9) || (0x11f50 <= u && u <= 0x11f59)
    || (0x16a60 <= u && u <= 0x16a69) || (0x16ac0 <= u && u <= 0x16ac9)
    || (0x16b50 <= u && u <= 0x16b59) || (0x1d7ce <= u && u <= 0x1d7d7)
    || (0x1d7d8 <= u && u <= 0x1d7e1) || (0x1d7e2 <= u && u <= 0x1d7eb)
    || (0x1d7ec <= u && u <= 0x1d7f5) || (0x1d7f6 <= u && u <= 0x1d7ff)
    || (0x1e140 <= u && u <= 0x1e149) || (0x1e2f0 <= u && u <= 0x1e2f9)
    || (0x1e4f0 <= u && u <= 0x1e4f9) || (0x1e950 <= u && u <= 0x1e959)
    || (0x1fbf0 <= u && u <= 0x1fbf9)
}

/// The character sets that the scanners run over.
pub enum Class {
    /// Every character except the given one.
    Not(char),
    Digit,
    /// Decimal digits of any script.
    UnicodeDigit,
    Space,
    Ws,
    /// Neither whitespace nor a dot: an ordered list label.
    Label,
    Hash,
}

pub open spec fn in_class(c: char, k: Class) -> bool {
    match k {
        Class::Not(x) => c != x,
        Class::Digit => is_digit(c),
        Class::UnicodeDigit => is_unicode_digit(c),
        Class::Space => c == ' ',
        Class::Ws => is_ws(c),
        Class::Label => !is_ws(c) && c != '.',
        Class::Hash => c == '#',
    }
}

/// The first position at or after `i` whose character is outside `k` (or the length).
pub open spec fn skip_spec(s: Seq<char>, i: int, k: Class) -> int
    decreases s.len() - i,
{
    if i < 0 || i >= s.len() {
        if i < 0 { 0 } else { s.len() as int }
    } else if !in_class(s[i], k) {
        i
    } else {
        skip_spec(s, i + 1, k)
    }
}

pub proof fn lemma_skip_bounds(s: Seq<char>, i: int, k: Class)
    requires
        0 <= i,
    ensures
        i <= s.len() ==> i <= skip_spec(s, i, k) <= s.len(),
        i > s.len() ==> skip_spec(s, i, k) == s.len(),
        skip_spec(s, i, k) < s.len() ==> !in_class(s[skip_spec(s, i, k)], k),
        forall|j: int| i <= j < skip_spec(s, i, k) ==> in_class(#[trigger] s[j], k),
    decreases s.len() - i,
{
    if i < s.len() && in_class(s[i], k) {
        lemma_skip_bounds(s, i + 1, k);
    }
}

pub fn is_whitespace(c: char) -> (r: bool)
    ensures
        r == is_ws(c),
{
    let u = c as u32;
    u == 0x20 || (0x09 <= u && u <= 0x0d) || u == 0x85 || u == 0xa0 || u == 0x1680 || (0x2000
        <= u && u <= 0x200a) || u == 0x2028 || u == 0x2029 || u == 0x202f || u == 0x205f || u
        == 0x3000
}

fn unicode_digit(c: char) -> (r: bool)
    ensures
        r == is_unicode_digit(c),
{
    let u = c as u32;
    (0x30 <= u && u <= 0x39) || (0x660 <= u && u <= 0x669) || (0x6f0 <= u && u <= 0x6f9)
    || (0x7c0 <= u && u <= 0x7c9) || (0x966 <= u && u <= 0x96f)
    || (0x9e6 <= u && u <= 0x9ef) || (0xa66 <= u && u <= 0xa6f)
    || (0xae6 <= u && u <= 0xaef) || (0xb66 <= u && u <= 0xb6f)
    || (0xbe6 <= u && u <= 0xbef) || (0xc66 <= u && u <= 0xc6f)
    || (0xce6 <= u && u <= 0xcef) || (0xd66 <= u && u <= 0xd6f)
    || (0xde6 <= u && u <= 0xdef) || (0xe50 <= u && u <= 0xe59)
    || (0xed0 <= u && u <= 0xed9) || (0xf20 <= u && u <= 0xf29)
    || (0x1040 <= u && u <= 0x1049) || (0x1090 <= u && u <= 0x1099)
    || (0x17e0 <= u && u <= 0x17e9) || (0x1810 <= u && u <= 0x1819)
    || (0x1946 <= u && u <= 0x194f) || (0x19d0 <= u && u <= 0x19d9)
    || (0x1a80 <= u && u <= 0x1a89) || (0x1a90 <= u && u <= 0x1a99)
    || (0x1b50 <= u && u <= 0x1b59) || (0x1bb0 <= u && u <= 0x1bb9)
    || (0x1c40 <= u && u <= 0x1c49) || (0x1c50 <= u && u <= 0x1c59)
    || (0xa620 <= u && u <= 0xa629) || (0xa8d0 <= u && u <= 0xa8d9)
    || (0xa900 <= u && u <= 0xa909) || (0xa9d0 <= u && u <= 0xa9d9)
    || (0xa9f0 <= u && u <= 0xa9f9) || (0xaa50 <= u && u <= 0xaa59)
    || (0xabf0 <= u && u <= 0xabf9) || (0xff10 <= u && u <= 0xff19)
    || (0x104a0 <= u && u <= 0x104a9) || (0x10d30 <= u && u <= 0x10d39)
    || (0x11066 <= u && u <= 0x1106f) || (0x110f0 <= u && u <= 0x110f9)
    || (0x11136 <= u && u <= 0x1113f) || (0x111d0 <= u && u <= 0x111d9)
    || (0x112f0 <= u && u <= 0x112f9) || (0x11450 <= u && u <= 0x11459)
    || (0x114d0 <= u && u <= 0x114d9) || (0x11650 <= u && u <= 0x11659)
    || (0x116c0 <= u && u <= 0x116c9) || (0x11730 <= u && u <= 0x11739)
    || (0x118e0 <= u && u <= 0x118e9) || (0x11950 <= u && u <= 0x11959)
    || (0x11c50 <= u && u <= 0x11c59) || (0x11d50 <= u && u <= 0x11d59)
    || (0x11da0 <= u && u <= 0x11da9) || (0x11f50 <= u && u <= 0x11f59)
    || (0x16a60 <= u && u <= 0x16a69) || (0x16ac0 <= u && u <= 0x16ac9)
    || (0x16b50 <= u && u <= 0x16b59) || (0x1d7ce <= u && u <= 0x1d7d7)
    || (0x1d7d8 <= u && u <= 0x1d7e1) || (0x1d7e2 <= u && u <= 0x1d7eb)
    || (0x1d7ec <= u && u <= 0x1d7f5) || (0x1d7f6 <= u && u <= 0x1d7ff)
    || (0x1e140 <= u && u <= 0x1e149) || (0x1e2f0 <= u && u <= 0x1e2f9)
    || (0x1e4f0 <= u && u <= 0x1e4f9) || (0x1e950 <= u && u <= 0x1e959)
    || (0x1fbf0 <= u && u <= 0x1fbf9)
}

fn class_has(c: char, k: &Class) -> (r: bool)
    ensures
        r == in_class(c, *k),
{
    match k {
        Class::Not(x) => c != *x,
        Class::Digit => '0' as u32 <= c as u32 && c as u32 <= '9' as u32,
        Class::UnicodeDigit => unicode_digit(c),
        Class::Space => c == ' ',
        Class::Ws => is_whitespace(c),
        Class::Label => !is_whitespace(c) && c != '.',
        Class::Hash => c == '#',
    }
}

/// Skips the characters of `k` from position `i`.
pub fn skip(s: &Vec<char>, i: usize, k: Class) -> (r: usize)
    ensures
        r == skip_spec(s@, i as int, k),
{
    if i >= s.len() {
        return s.len();
    }
    let mut j: usize = i;
    while j < s.len() && class_has(s[j], &k)
        invariant
            i <= j <= s.len(),
            skip_spec(s@, i as int, k) == skip_spec(s@, j as int, k),
        decreases s.len() - j,
    {
        j = j + 1;
    }
    j
}

pub open spec fn starts_with(s: Seq<char>, p: Seq<char>) -> bool {
    p.len() <= s.len() && s.take(p.len() as int) == p
}

pub fn has_prefix(s: &Vec<char>, p: &str) -> (r: bool)
    ensures
        r == starts_with(s@, p@),
{
    let n = p.unicode_len();
    if n > s.len() {
        return false;
    }
    let mut i: usize = 0;
    while i < n
        invariant
            n == p@.len(),
            n <= s@.len(),
            i <= n,
            forall|j: int| 0 <= j < i ==> s@[j] == p@[j],
        decreases n - i,
    {
        if s[i] != p.get_char(i) {
            assert(s@.take(n as int)[i as int] != p@[i as int]);
            return false;
        }
        i = i + 1;
    }
    assert(s@.take(n as int) =~= p@);
    true
}

pub open spec fn all_ws(s: Seq<char>) -> bool {
    forall|i: int| 0 <= i < s.len() ==> is_ws(#[trigger] s[i])
}

pub fn is_blank(s: &Vec<char>) -> (r: bool)
    ensures
        r == all_ws(s@),
{
    let e = skip(s, 0, Class::Ws);
    proof {
        lemma_skip_bounds(s@, 0, Class::Ws);
    }
    e == s.len()
}

/// `s` without its leading and trailing whitespace.
pub open spec fn trim(s: Seq<char>) -> Seq<char> {
    let a = skip_spec(s, 0, Class::Ws);
    let t = s.skip(a);
    t.take(t.len() - trail_ws(t))
}

/// The number of whitespace characters at the end of `s`.
pub open spec fn trail_ws(s: Seq<char>) -> int
    decreases s.len(),
{
    if s.len() > 0 && is_ws(s.last()) {
        1 + trail_ws(s.drop_last())
    } else {
        0
    }
}

proof fn lemma_trail_bound(s: Seq<char>)
    ensures
        0 <= trail_ws(s) <= s.len(),
    decreases s.len(),
{
    if s.len() > 0 && is_ws(s.last()) {
        lemma_trail_bound(s.drop_last());
    }
}

pub fn trim_from(s: &Vec<char>, from: usize) -> (r: Vec<char>)
    requires
        from <= s.len(),
    ensures
        r@ == trim(s@.skip(from as int)),
{
    let t = slice(s, from, s.len());
    assert(t@ =~= s@.skip(from as int));
    let a = skip(&t, 0, Class::Ws);
    proof {
        lemma_skip_bounds(t@, 0, Class::Ws);
    }
    let ghost u = t@.skip(a as int);
    let mut e: usize = t.len();
    assert(u.take(e - a) =~= u);
    while e > a && is_whitespace(t[e - 1])
        invariant
            a <= e <= t.len(),
            u == t@.skip(a as int),
            trail_ws(u) == (t.len() - e) + trail_ws(u.take(e - a)),
        decreases e,
    {
        proof {
            assert(u.take(e - a).drop_last() =~= u.take(e - 1 - a));
        }
        e = e - 1;
    }
    proof {
        lemma_trail_bound(u.take(e - a));
        assert(u.take(e - a) =~= t@.subrange(a as int, e as int));
    }
    slice(&t, a, e)
}

/// Copies `s[from..to]`.
pub fn slice(s: &Vec<char>, from: usize, to: usize) -> (r: Vec<char>)
    requires
        from <= to <= s.len(),
    ensures
        r@ == s@.subrange(from as int, to as int),
{
    let mut r: Vec<char> = Vec::new();
    let mut j: usize = from;
    while j < to
        invariant
            from <= j <= to <= s.len(),
            r@ =~= s@.subrange(from as int, j as int),
        decreases to - j,
    {
        r.push(s[j]);
        j = j + 1;
    }
    r
}

/// Appends the characters of `p` to `out`.
pub fn append(out: &mut Vec<char>, p: &Vec<char>)
    ensures
        final(out)@ == old(out)@ + p@,
{
    let mut j: usize = 0;
    while j < p.len()
        invariant
            j <= p.len(),
            out@ =~= old(out)@ + p@.take(j as int),
        decreases p.len() - j,
    {
        out.push(p[j]);
        j = j + 1;
    }
    assert(p@.take(p.len() as int) =~= p@);
}

/// Appends the characters of `p` to `out`.
pub fn append_str(out: &mut Vec<char>, p: &str)
    ensures
        final(out)@ == old(out)@ + p@,
{
    let v = chars_of(p);
    append(out, &v);
}

/// A line without the `\r` of a `\r\n` ending.
pub open spec fn strip_cr(l: Seq<char>) -> Seq<char> {
    if l.len() > 0 && l.last() == '\r' {
        l.drop_last()
    } else {
        l
    }
}

/// The lines finished so far and the line being read, after reading `s`.
pub open spec fn split_state(s: Seq<char>) -> (Seq<Seq<char>>, Seq<char>)
    decreases s.len(),
{
    if s.len() == 0 {
        (seq![], seq![])
    } else {
        let (done, cur) = split_state(s.drop_last());
        if s.last() == '\n' {
            (done.push(strip_cr(cur)), seq![])
        } else {
            (done, cur.push(s.last()))
        }
    }
}

/// The lines of `s`, split at `\n` or `\r\n`; the last line ending is optional.
pub open spec fn lines(s: Seq<char>) -> Seq<Seq<char>> {
    let (done, cur) = split_state(s);
    if cur.len() > 0 {
        done.push(cur)
    } else {
        done
    }
}

pub open spec fn views_of(v: Seq<Vec<char>>) -> Seq<Seq<char>> {
    v.map_values(|l: Vec<char>| l@)
}

pub fn split_lines(s: &Vec<char>) -> (r: Vec<Vec<char>>)
    ensures
        views_of(r@) == lines(s@),
{
    let mut done: Vec<Vec<char>> = Vec::new();
    let mut cur: Vec<char> = Vec::new();
    let mut i: usize = 0;
    while i < s.len()
        invariant
            i <= s.len(),
            split_state(s@.take(i as int)) == (views_of(done@), cur@),
        decreases s.len() - i,
    {
        let c = s[i];
        proof {
            assert(s@.take(i + 1).drop_last() =~= s@.take(i as int));
        }
        if c == '\n' {
            if cur.len() > 0 && cur[cur.len() - 1] == '\r' {
                cur.pop();
            }
            let ghost old_done = done@;
            done.push(cur);
            cur = Vec::new();
            assert(views_of(done@) =~= views_of(old_done).push(done@.last()@));
        } else {
            cur.push(c);
        }
        i = i + 1;
    }
    assert(s@.take(s.len() as int) =~= s@);
    if cur.len() > 0 {
        let ghost old_done = done@;
        done.push(cur);
        assert(views_of(done@) =~= views_of(old_done).push(done@.last()@));
    }
    done
}

/// `s` with every occurrence of `pat` replaced by `rep`, scanning left to right.
pub open spec fn replace_all(s: Seq<char>, pat: Seq<char>, rep: Seq<char>) -> Seq<char>
    recommends
        pat.len() > 0,
    decreases s.len(),
{
    if s.len() == 0 || pat.len() == 0 {
        s
    } else if starts_with(s, pat) {
        rep + replace_all(s.skip(pat.len() as int), pat, rep)
    } else {
        seq![s[0]] + replace_all(s.skip(1), pat, rep)
    }
}

fn prefix_at(s: &Vec<char>, i: usize, p: &Vec<char>) -> (r: bool)
    requires
        i <= s.len(),
    ensures
        r == starts_with(s@.skip(i as int), p@),
{
    if p.len() > s.len() - i {
        return false;
    }
    let mut j: usize = 0;
    while j < p.len()
        invariant
            p.len() <= s.len() - i,
            j <= p.len(),
            forall|k: int| 0 <= k < j ==> s@[i + k] == p@[k],
        decreases p.len() - j,
    {
        if s[i + j] != p[j] {
            assert(s@.skip(i as int).take(p.len() as int)[j as int] != p@[j as int]);
            return false;
        }
        j = j + 1;
    }
    assert(s@.skip(i as int).take(p.len() as int) =~= p@);
    true
}

/// `str::replace` on character sequences, for a non-empty pattern.
pub fn replace(s: &Vec<char>, pat: &Vec<char>, rep: &Vec<char>) -> (r: Vec<char>)
    requires
        pat.len() > 0,
    ensures
        r@ == replace_all(s@, pat@, rep@),
{
    let mut out: Vec<char> = Vec::new();
    let mut i: usize = 0;
    assert(s@.skip(0) =~= s@);
    assert(out@ + s@ =~= s@);
    while i < s.len()
        invariant
            i <= s.len(),
            pat@.len() > 0,
            out@ + replace_all(s@.skip(i as int), pat@, rep@) == replace_all(s@, pat@, rep@),
        decreases s.len() - i,
    {
        let ghost t = s@.skip(i as int);
        let ghost o = out@;
        if prefix_at(s, i, pat) {
            append(&mut out, rep);
            assert(t.skip(pat@.len() as int) =~= s@.skip(i + pat@.len()));
            assert(o + replace_all(t, pat@, rep@) =~= out@ + replace_all(
                s@.skip(i + pat@.len()),
                pat@,
                rep@,
            ));
            i = i + pat.len();
        } else {
            out.push(s[i]);
            assert(t.skip(1) =~= s@.skip(i + 1));
            assert(o + replace_all(t, pat@, rep@) =~= out@ + replace_all(s@.skip(i + 1), pat@, rep@));
            i = i + 1;
        }
    }
    assert(s@.skip(s.len() as int) =~= seq![]);
    assert(out@ + seq![] =~= out@);
    out
}

/// The characters of `s` in order, read through `str::chars`.
pub fn chars_of(s: &str) -> (r: Vec<char>)
    ensures
        r@ == s@,
{
    broadcast use vstd::string::axiom_spec_iter, vstd::string::next_postcondition;

    let mut it = s.chars();
    let mut v: Vec<char> = Vec::new();
    loop
        invariant
            v@ + IteratorSpec::remaining(&it) == s@,
            it.obeys_prophetic_iter_laws(),
            IteratorSpec::decrease(&it) is Some,
        decreases IteratorSpec::decrease(&it)->0,
    {
        let ghost before = IteratorSpec::remaining(&it);
        match it.next() {
            Some(c) => {
                v.push(c);
                assert(v@ + IteratorSpec::remaining(&it) =~= s@) by {
                    assert(before =~= seq![c] + before.drop_first());
                }
            },
            None => {
                assert(v@ + seq![] =~= v@);
                return v;
            },
        }
    }
}

/// Relies on `String`'s `FromIterator<char>`: the string of the given characters.
#[verifier::external_body]
pub(crate) fn string_of(v: &Vec<char>) -> (r: String)
    ensures
        r@ == v@,
{
    v.iter().collect()
}

} // verus!
