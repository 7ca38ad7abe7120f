//! Finding a chapter file from a loose reference such as `chapters/7.md`
//! or `7`: the `chapters/NNN.md` name it falls back to.
use vstd::prelude::*;

use crate::text::{chars_to_string, copy_range, decimal_pad3, match_at, push_decimal_pad3, push_str, spec_is_ascii_digit, str_to_chars, matches_at};

verus! {

/// `str::trim_start_matches(p)` for a non-empty `p`.
pub open spec fn strip_all_prefix(s: Seq<char>, p: Seq<char>) -> Seq<char>
    decreases s.len(),
{
    if p.len() > 0 && p.len() <= s.len() && s.take(p.len() as int) == p {
        strip_all_prefix(s.skip(p.len() as int), p)
    } else {
        s
    }
}

/// `str::trim_end_matches(p)` for a non-empty `p`.
pub open spec fn strip_all_suffix(s: Seq<char>, p: Seq<char>) -> Seq<char>
    decreases s.len(),
{
    if p.len() > 0 && p.len() <= s.len() && s.skip(s.len() - p.len()) == p {
        strip_all_suffix(s.take(s.len() - p.len()), p)
    } else {
        s
    }
}

/// The value of a string of decimal digits.
pub open spec fn digits_value(s: Seq<char>) -> nat
    decreases s.len(),
{
    if s.len() == 0 {
        0
    } else {
        digits_value(s.drop_last()) * 10 + ((s.last() as u32) - ('0' as u32)) as nat
    }
}

/// What follows an optional leading `+`.
pub open spec fn unsigned_digits(s: Seq<char>) -> Seq<char> {
    if s.len() > 0 && s[0] == '+' {
        s.drop_first()
    } else {
        s
    }
}

/// `str::parse::<u32>`: an optional `+`, then one or more decimal digits
/// of a value that fits.
pub open spec fn parse_u32(s: Seq<char>) -> Option<u32> {
    let d = unsigned_digits(s);
    if d.len() == 0 || exists|i: int| 0 <= i < d.len() && !spec_is_ascii_digit(#[trigger] d[i]) {
        None
    } else if digits_value(d) > u32::MAX {
        None
    } else {
        Some(digits_value(d) as u32)
    }
}

proof fn lemma_digits_value_grows(s: Seq<char>, k: int)
    requires
        0 <= k <= s.len(),
        forall|i: int| 0 <= i < s.len() ==> spec_is_ascii_digit(#[trigger] s[i]),
    ensures
        digits_value(s.take(k)) <= digits_value(s),
    decreases s.len() - k,
{
    if k < s.len() {
        assert(s.take(k + 1).drop_last() =~= s.take(k));
        lemma_digits_value_grows(s, k + 1);
    } else {
        assert(s.take(k) =~= s);
    }
}

/// Parses a `u32` as `str::parse` does.
pub fn parse_u32_chars(s: &Vec<char>) -> (r: Option<u32>)
    ensures
        r == parse_u32(s@),
{
    let start: usize = if s.len() > 0 && s[0] == '+' {
        1
    } else {
        0
    };
    let ghost d = unsigned_digits(s@);
    assert(d =~= s@.skip(start as int));
    if start >= s.len() {
        return None;
    }
    let mut v: u64 = 0;
    let mut i: usize = start;
    while i < s.len()
        invariant
            start <= i <= s@.len(),
            d == s@.skip(start as int),
            d == unsigned_digits(s@),
            forall|j: int| start <= j < i ==> spec_is_ascii_digit(#[trigger] s@[j]),
            v == digits_value(d.take(i - start)),
            v <= u32::MAX,
        decreases s@.len() - i,
    {
        let c = s[i];
        if !('0' <= c && c <= '9') {
            proof {
                let k: int = i - start;
                assert(d[k] == s@[i as int]);
                assert(0 <= k < d.len() && !spec_is_ascii_digit(d[k]));
            }
            return None;
        }
        assert(d.take(i + 1 - start).drop_last() =~= d.take(i - start));
        assert(d.take(i + 1 - start).last() == c);
        let digit = (c as u32 - '0' as u32) as u64;
        v = v * 10 + digit;
        if v > 0xFFFF_FFFF {
            proof {
                assert forall|j: int| 0 <= j < i + 1 - start implies spec_is_ascii_digit(#[trigger] d.take(i + 1 - start)[j]) by {
                    assert(d.take(i + 1 - start)[j] == s@[j + start]);
                }
                if forall|j: int| 0 <= j < d.len() ==> spec_is_ascii_digit(#[trigger] d[j]) {
                    lemma_digits_value_grows(d, i + 1 - start);
                }
            }
            return None;
        }
        i = i + 1;
    }
    assert(d.take(i - start) =~= d);
    Some(v as u32)
}

/// The fallback chapter file of a reference: the reference without leading
/// `chapters/` and trailing `.md`, read as a chapter number (0 when it is
/// none), as `chapters/NNN.md`.
pub open spec fn spec_fallback_chapter_file(rel: Seq<char>) -> Seq<char> {
    let num = strip_all_suffix(strip_all_prefix(rel, "chapters/"@), ".md"@);
    "chapters/"@ + decimal_pad3(
        match parse_u32(num) {
            Some(n) => n as nat,
            None => 0,
        },
    ) + ".md"@
}

proof fn lemma_nonempty_lits()
    ensures
        "chapters/"@.len() == 9,
        ".md"@.len() == 3,
{
    reveal_strlit("chapters/");
    reveal_strlit(".md");
}

fn strip_prefix_all(s: &Vec<char>, p: &Vec<char>) -> (r: Vec<char>)
    requires
        p@.len() > 0,
    ensures
        r@ == strip_all_prefix(s@, p@),
{
    let mut a: usize = 0;
    assert(s@.skip(0) =~= s@);
    while a < s.len() && match_at(s, p, a)
        invariant
            a <= s@.len(),
            p@.len() > 0,
            strip_all_prefix(s@, p@) == strip_all_prefix(s@.skip(a as int), p@),
        decreases s@.len() - a,
    {
        let ghost t = s@.skip(a as int);
        assert(t.take(p@.len() as int) =~= s@.subrange(a as int, a + p@.len()));
        assert(t.skip(p@.len() as int) =~= s@.skip(a + p@.len()));
        a = a + p.len();
    }
    let ghost t = s@.skip(a as int);
    proof {
        if p@.len() <= t.len() {
            assert(t.take(p@.len() as int) =~= s@.subrange(a as int, a + p@.len()));
        }
    }
    let r = copy_range(s, a, s.len());
    assert(r@ =~= t);
    r
}

fn strip_suffix_all(s: &Vec<char>, p: &Vec<char>) -> (r: Vec<char>)
    requires
        p@.len() > 0,
    ensures
        r@ == strip_all_suffix(s@, p@),
{
    let mut b: usize = s.len();
    assert(s@.take(b as int) =~= s@);
    while b >= p.len() && match_at(s, p, b - p.len())
        invariant
            b <= s@.len(),
            p@.len() > 0,
            strip_all_suffix(s@, p@) == strip_all_suffix(s@.take(b as int), p@),
        decreases b,
    {
        let ghost t = s@.take(b as int);
        assert(t.skip(t.len() - p@.len()) =~= s@.subrange(b - p@.len(), b as int));
        assert(t.take(t.len() - p@.len()) =~= s@.take(b - p@.len()));
        b = b - p.len();
    }
    let ghost t = s@.take(b as int);
    proof {
        if b >= p@.len() {
            assert(t.skip(t.len() - p@.len()) =~= s@.subrange(b - p@.len(), b as int));
        }
    }
    let r = copy_range(s, 0, b);
    assert(r@ =~= t);
    r
}

/// The fallback chapter file of a loose chapter reference.
pub fn fallback_chapter_file(rel: &str) -> (r: String)
    ensures
        r@ == spec_fallback_chapter_file(rel@),
{
    proof {
        lemma_nonempty_lits();
    }
    let a = strip_prefix_all(&str_to_chars(rel), &str_to_chars("chapters/"));
    let b = strip_suffix_all(&a, &str_to_chars(".md"));
    let n: u32 = match parse_u32_chars(&b) {
        Some(n) => n,
        None => 0,
    };
    let mut v = str_to_chars("chapters/");
    push_decimal_pad3(&mut v, n as u64);
    push_str(&mut v, ".md");
    assert(v@ =~= spec_fallback_chapter_file(rel@));
    chars_to_string(&v)
}

} // verus!
