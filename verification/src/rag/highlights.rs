//! Highlights of a retrieved document: for each matched token, the text
//! around its first occurrence, at most three of them, none overlapping.
//!
//! The window is computed from the *byte* offset of the occurrence, which
//! is then used as a char position (so on multi-byte text the window lies
//! further right than the match); this is how the retriever has always
//! shown its snippets, and the statement below says it exactly.
use vstd::prelude::*;

use crate::text::{byte_len, char_utf8_len, chars_to_string, copy_range, find_from, lemma_byte_len_take_step, matches_at, str_to_chars};
use crate::tools::spec::string_views;

verus! {

/// Char index of the first occurrence of `t` in `c` at or after `i`.
pub open spec fn first_match_from(c: Seq<char>, t: Seq<char>, i: int) -> Option<int>
    decreases c.len() + 1 - i,
{
    if i < 0 || i > c.len() {
        None
    } else if matches_at(c, t, i) {
        Some(i)
    } else {
        first_match_from(c, t, i + 1)
    }
}

/// `t` overlaps one of the windows already taken.
pub open spec fn overlaps(used: Seq<(int, int)>, s: int, e: int) -> bool {
    exists|k: int| 0 <= k < used.len() && !(e <= (#[trigger] used[k]).0 || s >= used[k].1)
}

/// A snippet cut to `max_len` chars, with `…` after a cut.
pub open spec fn clip(s: Seq<char>, max_len: int) -> Seq<char> {
    if s.len() > max_len {
        s.take(max_len) + seq!['…']
    } else {
        s
    }
}

/// The window of an occurrence at char index `i` of a token of `tl` chars:
/// from 20 before its byte offset to 20 past that offset plus the token,
/// within the text, as char positions.
pub open spec fn window(c: Seq<char>, i: int, tl: int) -> (int, int) {
    let b = byte_len(c.take(i)) as int;
    let start = if b >= 20 { b - 20 } else { 0 };
    let end = if b + tl + 20 < c.len() { b + tl + 20 } else { c.len() as int };
    (if start < c.len() { start } else { c.len() as int }, end)
}

/// One token's step: its snippet is added unless it does not occur or its
/// window overlaps one taken before.
pub open spec fn highlight_step(
    c: Seq<char>,
    t: Seq<char>,
    max_len: int,
    out: Seq<Seq<char>>,
    used: Seq<(int, int)>,
) -> (Seq<Seq<char>>, Seq<(int, int)>) {
    match first_match_from(c, t, 0) {
        None => (out, used),
        Some(i) => {
            let (s, e) = window(c, i, t.len() as int);
            if overlaps(used, s, e) {
                (out, used)
            } else {
                (out.push(clip(c.subrange(s, e), max_len)), used.push((s, e)))
            }
        },
    }
}

/// The snippets for the tokens `ts[k..]`, having `out` and the windows
/// `used`: the scan stops once three snippets are taken.
pub open spec fn highlights_from(
    c: Seq<char>,
    ts: Seq<Seq<char>>,
    max_len: int,
    k: int,
    out: Seq<Seq<char>>,
    used: Seq<(int, int)>,
) -> Seq<Seq<char>>
    decreases ts.len() - k,
{
    if k < 0 || k >= ts.len() {
        out
    } else {
        let (o, u) = highlight_step(c, ts[k], max_len, out, used);
        if o.len() >= 3 {
            o
        } else {
            highlights_from(c, ts, max_len, k + 1, o, u)
        }
    }
}

/// The highlights of `c` for the tokens `ts`.
pub open spec fn highlights(c: Seq<char>, ts: Seq<Seq<char>>, max_len: int) -> Seq<Seq<char>> {
    highlights_from(c, ts, max_len, 0, Seq::empty(), Seq::empty())
}

proof fn lemma_first_match(c: Seq<char>, t: Seq<char>, from: int, r: Option<int>)
    requires
        0 <= from,
        match r {
            Some(i) => from <= i && matches_at(c, t, i) && forall|j: int|
                from <= j < i ==> !#[trigger] matches_at(c, t, j),
            None => forall|j: int| from <= j ==> !#[trigger] matches_at(c, t, j),
        },
    ensures
        first_match_from(c, t, from) == r,
    decreases c.len() + 1 - from,
{
    if from > c.len() {
        if let Some(i) = r {
            assert(matches_at(c, t, i));
        }
    } else if matches_at(c, t, from) {
        if let Some(i) = r {
            if i > from {
                assert(!matches_at(c, t, from));
            }
        }
    } else {
        if let Some(i) = r {
            assert(i != from);
        }
        lemma_first_match(c, t, from + 1, r);
    }
}

/// Byte offset of char `i` of `s`.
fn byte_offset(s: &Vec<char>, i: usize) -> (r: u128)
    requires
        i <= s@.len(),
    ensures
        r == byte_len(s@.take(i as int)),
        r <= 4 * i,
{
    let mut r: u128 = 0;
    let mut j: usize = 0;
    assert(s@.take(0) =~= Seq::<char>::empty());
    while j < i
        invariant
            j <= i <= s@.len(),
            r == byte_len(s@.take(j as int)),
            r <= 4 * j,
        decreases i - j,
    {
        proof {
            lemma_byte_len_take_step(s@, j as int);
        }
        let w = char_utf8_len(s[j]);
        r = r + w as u128;
        j = j + 1;
    }
    r
}

fn overlaps_exec(used: &Vec<(usize, usize)>, s: usize, e: usize) -> (r: bool)
    ensures
        r == overlaps(used_view(used@), s as int, e as int),
{
    for k in 0..used.len()
        invariant
            forall|m: int|
                0 <= m < k ==> (e <= (#[trigger] used@[m]).0 || s >= used@[m].1),
    {
        let (a, b) = used[k];
        if !(e <= a || s >= b) {
            assert(used_view(used@)[k as int] == (a as int, b as int));
            return true;
        }
    }
    assert forall|m: int| 0 <= m < used_view(used@).len() implies (e <= (
    #[trigger] used_view(used@)[m]).0 || s >= used_view(used@)[m].1) by {
        assert(used_view(used@)[m] == (used@[m].0 as int, used@[m].1 as int));
    }
    false
}

/// The windows as pairs of integers.
pub open spec fn used_view(v: Seq<(usize, usize)>) -> Seq<(int, int)> {
    Seq::new(v.len(), |i: int| (v[i].0 as int, v[i].1 as int))
}

/// `clip` on a char vector.
fn clip_exec(s: Vec<char>, max_len: usize) -> (r: Vec<char>)
    ensures
        r@ == clip(s@, max_len as int),
{
    if s.len() > max_len {
        let mut r = copy_range(&s, 0, max_len);
        r.push('…');
        assert(s@.subrange(0, max_len as int) =~= s@.take(max_len as int));
        r
    } else {
        s
    }
}

/// For each of `tokens`, the text around its first occurrence in
/// `content` (see the module comment), cut to `max_len` chars; a snippet
/// whose window overlaps an earlier one is skipped, and the scan stops at
/// three snippets.
pub fn extract_highlights(content: &str, tokens: &Vec<String>, max_len: usize) -> (r: Vec<String>)
    ensures
        string_views(r@) == highlights(content@, string_views(tokens@), max_len as int),
{
    let c = str_to_chars(content);
    let ghost cv = c@;
    let ghost ts = string_views(tokens@);
    let n = c.len();
    let mut out: Vec<String> = Vec::new();
    let mut used: Vec<(usize, usize)> = Vec::new();
    let mut k: usize = 0;
    assert(string_views(out@) =~= Seq::<Seq<char>>::empty());
    assert(used_view(used@) =~= Seq::<(int, int)>::empty());
    while k < tokens.len()
        invariant
            cv == c@,
            cv == content@,
            n == cv.len(),
            ts == string_views(tokens@),
            k <= tokens@.len(),
            string_views(out@).len() < 3,
            forall|m: int| 0 <= m < used@.len() ==> (#[trigger] used@[m]).1 <= n,
            highlights(cv, ts, max_len as int) == highlights_from(
                cv,
                ts,
                max_len as int,
                k as int,
                string_views(out@),
                used_view(used@),
            ),
        decreases tokens@.len() - k,
    {
        let t = str_to_chars(tokens[k].as_str());
        let ghost o0 = string_views(out@);
        let ghost u0 = used_view(used@);
        assert(ts[k as int] == t@);
        let found = find_from(&c, &t, 0);
        proof {
            let fr: Option<int> = match found {
                Some(i) => Some(i as int),
                None => None,
            };
            lemma_first_match(cv, t@, 0, fr);
        }
        match found {
            Some(i) => {
                let b = byte_offset(&c, i);
                let tl = t.len() as u128;
                let start: u128 = if b >= 20 { b - 20 } else { 0 };
                let end: u128 = if b + tl + 20 < n as u128 { b + tl + 20 } else { n as u128 };
                let s: usize = if start < n as u128 { start as usize } else { n };
                let e: usize = end as usize;
                assert(window(cv, i as int, t@.len() as int) == (s as int, e as int));
                if !overlaps_exec(&used, s, e) {
                    let piece = clip_exec(copy_range(&c, s, e), max_len);
                    let st = chars_to_string(&piece);
                    out.push(st);
                    used.push((s, e));
                    assert(string_views(out@) =~= o0.push(st@));
                    assert(used_view(used@) =~= u0.push((s as int, e as int)));
                } else {
                    assert(string_views(out@) =~= o0);
                }
            },
            None => {},
        }
        if out.len() >= 3 {
            return out;
        }
        k = k + 1;
    }
    out
}


proof fn lemma_highlights_from_bound(
    c: Seq<char>,
    ts: Seq<Seq<char>>,
    max_len: int,
    k: int,
    out: Seq<Seq<char>>,
    used: Seq<(int, int)>,
)
    requires
        out.len() < 3,
    ensures
        highlights_from(c, ts, max_len, k, out, used).len() <= 3,
    decreases ts.len() - k,
{
    if 0 <= k < ts.len() {
        let (o, u) = highlight_step(c, ts[k], max_len, out, used);
        assert(o.len() <= out.len() + 1);
        if o.len() < 3 {
            lemma_highlights_from_bound(c, ts, max_len, k + 1, o, u);
        }
    }
}

/// A document never gets more than three highlights.
pub proof fn law_at_most_three_highlights(c: Seq<char>, ts: Seq<Seq<char>>, max_len: int)
    ensures
        highlights(c, ts, max_len).len() <= 3,
{
    lemma_highlights_from_bound(c, ts, max_len, 0, Seq::empty(), Seq::empty());
}

} // verus!
