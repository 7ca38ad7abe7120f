//! Character-level text primitives shared by every analysis in the crate.
//!
//! Chapter text is Chinese prose, so everything here works on `char`
//! sequences (the view of `str` / `String`), never on bytes. The spec
//! functions give the meaning of the std string operations the analyses rely
//! on (`contains`, `match_indices`, `lines`, `trim`, ...), and the exec
//! functions implement them on `Vec<char>`.
use vstd::prelude::*;

verus! {

// ---------------------------------------------------------------------------
// Character classes
// ---------------------------------------------------------------------------

/// `char::is_whitespace`: the Unicode `White_Space` property.
pub open spec fn spec_is_whitespace(c: char) -> bool {
    let v = c as u32;
    (0x09 <= v && v <= 0x0D) || v == 0x20 || v == 0x85 || v == 0xA0 || v == 0x1680
        || (0x2000 <= v && v <= 0x200A) || v == 0x2028 || v == 0x2029 || v == 0x202F
        || v == 0x205F || v == 0x3000
}

pub fn is_whitespace(c: char) -> (r: bool)
    ensures
        r == spec_is_whitespace(c),
{
    let v = c as u32;
    (0x09 <= v && v <= 0x0D) || v == 0x20 || v == 0x85 || v == 0xA0 || v == 0x1680 || (0x2000
        <= v && v <= 0x200A) || v == 0x2028 || v == 0x2029 || v == 0x202F || v == 0x205F || v
        == 0x3000
}

/// CJK Unified Ideographs plus extension A.
pub open spec fn spec_is_cjk(c: char) -> bool {
    (0x4E00 <= c as u32 && c as u32 <= 0x9FFF) || (0x3400 <= c as u32 && c as u32 <= 0x4DBF)
}

pub fn is_cjk(c: char) -> (r: bool)
    ensures
        r == spec_is_cjk(c),
{
    let v = c as u32;
    (0x4E00 <= v && v <= 0x9FFF) || (0x3400 <= v && v <= 0x4DBF)
}

pub open spec fn spec_is_ascii_digit(c: char) -> bool {
    '0' <= c && c <= '9'
}

pub fn is_ascii_digit(c: char) -> (r: bool)
    ensures
        r == spec_is_ascii_digit(c),
{
    '0' <= c && c <= '9'
}

pub open spec fn spec_is_ascii_upper(c: char) -> bool {
    'A' <= c && c <= 'Z'
}

pub open spec fn spec_is_ascii_alphanumeric(c: char) -> bool {
    ('a' <= c && c <= 'z') || ('A' <= c && c <= 'Z') || ('0' <= c && c <= '9')
}

pub fn is_ascii_alphanumeric(c: char) -> (r: bool)
    ensures
        r == spec_is_ascii_alphanumeric(c),
{
    ('a' <= c && c <= 'z') || ('A' <= c && c <= 'Z') || ('0' <= c && c <= '9')
}

/// `char::to_ascii_lowercase`.
pub open spec fn spec_ascii_lower(c: char) -> char {
    if spec_is_ascii_upper(c) {
        ((c as u32) + 32) as char
    } else {
        c
    }
}

pub fn ascii_lower(c: char) -> (r: char)
    ensures
        r == spec_ascii_lower(c),
{
    if 'A' <= c && c <= 'Z' {
        let b: u8 = (c as u32 + 32) as u8;
        assert(b as u32 == (c as u32) + 32);
        b as char
    } else {
        c
    }
}

/// Whether `char::is_alphanumeric` holds of `c`: the Unicode `Alphabetic`
/// property or a numeric general category.
pub uninterp spec fn unicode_alphanumeric(c: char) -> bool;

/// `char::is_alphanumeric`. Its result is named; for ASCII it is stated:
/// the ASCII chars that are alphabetic or numeric are the letters and
/// digits.
#[verifier::external_body]
pub(crate) fn is_alphanumeric(c: char) -> (r: bool)
    ensures
        r == unicode_alphanumeric(c),
        (c as u32) < 128 ==> (r == spec_is_ascii_alphanumeric(c)),
{
    c.is_alphanumeric()
}

/// `str::to_ascii_lowercase`, character by character.
pub open spec fn spec_ascii_lower_seq(s: Seq<char>) -> Seq<char> {
    Seq::new(s.len(), |i: int| spec_ascii_lower(s[i]))
}

pub fn ascii_lower_chars(s: &Vec<char>) -> (r: Vec<char>)
    ensures
        r@ == spec_ascii_lower_seq(s@),
{
    let mut r: Vec<char> = Vec::new();
    for i in 0..s.len()
        invariant
            r@.len() == i,
            forall|k: int| 0 <= k < i ==> #[trigger] r@[k] == spec_ascii_lower(s@[k]),
    {
        let c = ascii_lower(s[i]);
        r.push(c);
    }
    assert(r@ =~= spec_ascii_lower_seq(s@));
    r
}

/// The key a settings value is matched by: trimmed, ASCII lower case.
pub open spec fn setting_key(s: Seq<char>) -> Seq<char> {
    spec_ascii_lower_seq(trim(s))
}

/// `s.trim().to_ascii_lowercase()`.
pub fn setting_key_of(s: &str) -> (r: Vec<char>)
    ensures
        r@ == setting_key(s@),
{
    let v = str_to_chars(s);
    let t = trim_chars(&v);
    ascii_lower_chars(&t)
}

/// A text without surrounding whitespace or upper-case ASCII letters is its
/// own settings key.
pub proof fn lemma_setting_key_plain(s: Seq<char>)
    requires
        s.len() > 0 ==> !spec_is_whitespace(s[0]) && !spec_is_whitespace(s.last()),
        forall|i: int| 0 <= i < s.len() ==> !spec_is_ascii_upper(#[trigger] s[i]),
    ensures
        setting_key(s) == s,
{
    assert(trim_start(s) == s);
    assert(trim_end(s) == s);
    assert(spec_ascii_lower_seq(s) =~= s);
}

/// Whether `v` holds exactly the text `s`.
pub fn is_text(v: &Vec<char>, s: &str) -> (r: bool)
    ensures
        r == (v@ == s@),
{
    let w = str_to_chars(s);
    chars_eq(v, &w)
}

/// Number of bytes `c` takes in UTF-8.
pub open spec fn utf8_len(c: char) -> nat {
    if (c as u32) < 0x80 {
        1
    } else if (c as u32) < 0x800 {
        2
    } else if (c as u32) < 0x10000 {
        3
    } else {
        4
    }
}

pub fn char_utf8_len(c: char) -> (r: usize)
    ensures
        r == utf8_len(c),
{
    let v = c as u32;
    if v < 0x80 {
        1
    } else if v < 0x800 {
        2
    } else if v < 0x10000 {
        3
    } else {
        4
    }
}

/// Number of bytes of the UTF-8 encoding of `s` (what `str::len` returns).
pub open spec fn byte_len(s: Seq<char>) -> nat
    decreases s.len(),
{
    if s.len() == 0 {
        0
    } else {
        byte_len(s.drop_last()) + utf8_len(s.last())
    }
}

pub proof fn lemma_byte_len_take_step(s: Seq<char>, i: int)
    requires
        0 <= i < s.len(),
    ensures
        byte_len(s.take(i + 1)) == byte_len(s.take(i)) + utf8_len(s[i]),
{
    assert(s.take(i + 1).drop_last() =~= s.take(i));
}

pub proof fn lemma_byte_len_monotone(s: Seq<char>, i: int, j: int)
    requires
        0 <= i <= j <= s.len(),
    ensures
        byte_len(s.take(i)) <= byte_len(s.take(j)),
    decreases j - i,
{
    if i < j {
        lemma_byte_len_take_step(s, j - 1);
        lemma_byte_len_monotone(s, i, j - 1);
    }
}

pub proof fn lemma_byte_len_at_least_len(s: Seq<char>)
    ensures
        byte_len(s) >= s.len(),
    decreases s.len(),
{
    if s.len() > 0 {
        lemma_byte_len_at_least_len(s.drop_last());
    }
}

// ---------------------------------------------------------------------------
// Substring search
// ---------------------------------------------------------------------------

/// `n` occurs in `h` starting at char index `i`.
pub open spec fn matches_at(h: Seq<char>, n: Seq<char>, i: int) -> bool {
    0 <= i && i + n.len() <= h.len() && h.subrange(i, i + n.len()) == n
}

/// `str::contains` with a string needle.
pub open spec fn contains(h: Seq<char>, n: Seq<char>) -> bool {
    exists|i: int| matches_at(h, n, i)
}

/// `h` begins with `n` (`str::starts_with`).
pub open spec fn starts_with(h: Seq<char>, n: Seq<char>) -> bool {
    matches_at(h, n, 0)
}

/// Non-overlapping, left-to-right occurrences of a non-empty `n` in `h`
/// from char index `i` on.
pub open spec fn count_from(h: Seq<char>, n: Seq<char>, i: int) -> nat
    decreases h.len() - i,
{
    if n.len() == 0 || i < 0 || i + n.len() > h.len() {
        0
    } else if matches_at(h, n, i) {
        1 + count_from(h, n, i + n.len())
    } else {
        count_from(h, n, i + 1)
    }
}

/// Number of items `str::match_indices(n)` yields on `h`: one per char
/// boundary for an empty needle, otherwise the non-overlapping matches.
pub open spec fn match_count(h: Seq<char>, n: Seq<char>) -> nat {
    if n.len() == 0 {
        h.len() + 1
    } else {
        count_from(h, n, 0)
    }
}

/// Occurrence count where an empty needle counts as never occurring.
pub open spec fn occurrences(h: Seq<char>, n: Seq<char>) -> nat {
    if n.len() == 0 {
        0
    } else {
        count_from(h, n, 0)
    }
}

/// Whether `n` occurs in `h` at char index `i`.
pub fn match_at(h: &Vec<char>, n: &Vec<char>, i: usize) -> (r: bool)
    ensures
        r == matches_at(h@, n@, i as int),
{
    let hl = h.len();
    if i > hl || n.len() > hl - i {
        return false;
    }
    let mut j: usize = 0;
    while j < n.len()
        invariant
            hl == h@.len(),
            i + n@.len() <= h@.len(),
            j <= n@.len(),
            forall|k: int| 0 <= k < j ==> h@[i + k] == #[trigger] n@[k],
        decreases n@.len() - j,
    {
        if h[i + j] != n[j] {
            assert(h@.subrange(i as int, i + n@.len())[j as int] != n@[j as int]);
            return false;
        }
        j = j + 1;
    }
    assert(h@.subrange(i as int, i + n@.len()) =~= n@);
    true
}

/// First char index at or after `from` where `n` occurs in `h`.
pub fn find_from(h: &Vec<char>, n: &Vec<char>, from: usize) -> (r: Option<usize>)
    ensures
        match r {
            Some(i) => from <= i && matches_at(h@, n@, i as int) && forall|j: int|
                from <= j < i ==> !#[trigger] matches_at(h@, n@, j),
            None => forall|j: int| from <= j ==> !#[trigger] matches_at(h@, n@, j),
        },
{
    if from > h.len() {
        assert forall|j: int| from <= j implies !#[trigger] matches_at(h@, n@, j) by {}
        return None;
    }
    let mut i = from;
    loop
        invariant
            from <= i <= h@.len(),
            forall|j: int| from <= j < i ==> !#[trigger] matches_at(h@, n@, j),
        decreases h@.len() - i,
    {
        if match_at(h, n, i) {
            return Some(i);
        }
        if i >= h.len() {
            assert forall|j: int| from <= j implies !#[trigger] matches_at(h@, n@, j) by {
                if j > i {
                    assert(j > h@.len());
                }
            }
            return None;
        }
        i = i + 1;
    }
}

/// `str::contains`.
pub fn contains_chars(h: &Vec<char>, n: &Vec<char>) -> (r: bool)
    ensures
        r == contains(h@, n@),
{
    match find_from(h, n, 0) {
        Some(i) => {
            assert(matches_at(h@, n@, i as int));
            true
        },
        None => {
            assert(forall|j: int| !matches_at(h@, n@, j)) by {
                assert forall|j: int| !matches_at(h@, n@, j) by {
                    if j >= 0 {
                        assert(!matches_at(h@, n@, j));
                    }
                }
            }
            false
        },
    }
}

/// `str::starts_with`.
pub fn starts_with_chars(h: &Vec<char>, n: &Vec<char>) -> (r: bool)
    ensures
        r == starts_with(h@, n@),
{
    match_at(h, n, 0)
}

/// Non-overlapping occurrences of a non-empty `n`, from index 0.
fn count_nonoverlapping(h: &Vec<char>, n: &Vec<char>) -> (r: usize)
    requires
        n@.len() > 0,
    ensures
        r == count_from(h@, n@, 0),
        r <= h@.len(),
{
    let mut i: usize = 0;
    let mut c: usize = 0;
    while n.len() <= h.len() - i
        invariant
            n@.len() > 0,
            i <= h@.len(),
            c <= i,
            count_from(h@, n@, 0) == c + count_from(h@, n@, i as int),
        decreases h@.len() - i,
    {
        if match_at(h, n, i) {
            c = c + 1;
            i = i + n.len();
        } else {
            i = i + 1;
        }
    }
    assert(i + n@.len() > h@.len());
    c
}

/// `match_indices(n).count()`.
pub fn match_indices_count(h: &Vec<char>, n: &Vec<char>) -> (r: usize)
    requires
        h@.len() < usize::MAX,
    ensures
        r == match_count(h@, n@),
{
    if n.len() == 0 {
        h.len() + 1
    } else {
        count_nonoverlapping(h, n)
    }
}

/// Occurrences of `n` in `h`, zero for an empty needle.
pub fn count_occurrences(h: &Vec<char>, n: &Vec<char>) -> (r: usize)
    ensures
        r == occurrences(h@, n@),
        r <= h@.len(),
{
    if n.len() == 0 {
        0
    } else {
        count_nonoverlapping(h, n)
    }
}

pub proof fn lemma_count_from_bound(h: Seq<char>, n: Seq<char>, i: int)
    requires
        0 <= i,
    ensures
        count_from(h, n, i) <= h.len(),
    decreases h.len() - i,
{
    if n.len() == 0 || i < 0 || i + n.len() > h.len() {
    } else if matches_at(h, n, i) {
        lemma_count_from_bound(h, n, i + n.len());
        lemma_count_from_zero_past(h, n, i + n.len());
    } else {
        lemma_count_from_bound(h, n, i + 1);
    }
}

proof fn lemma_count_from_zero_past(h: Seq<char>, n: Seq<char>, i: int)
    requires
        0 <= i,
    ensures
        count_from(h, n, i) + i <= h.len() || count_from(h, n, i) == 0,
    decreases h.len() - i,
{
    if n.len() == 0 || i < 0 || i + n.len() > h.len() {
    } else if matches_at(h, n, i) {
        lemma_count_from_zero_past(h, n, i + n.len());
    } else {
        lemma_count_from_zero_past(h, n, i + 1);
    }
}

// ---------------------------------------------------------------------------
// Lines
// ---------------------------------------------------------------------------

/// Drops one trailing `'\r'`.
pub open spec fn strip_cr(s: Seq<char>) -> Seq<char> {
    if s.len() > 0 && s.last() == '\r' {
        s.drop_last()
    } else {
        s
    }
}

/// `str::lines` on the rest `s` of a text, where `cur` is the part of the
/// current line read so far: every `'\n'` ends a line (a `"\r\n"` ending
/// loses its `'\r'`), and a final line without `'\n'` counts only when it is
/// not empty.
pub open spec fn lines_from(s: Seq<char>, cur: Seq<char>) -> Seq<Seq<char>>
    decreases s.len(),
{
    if s.len() == 0 {
        if cur.len() == 0 {
            Seq::empty()
        } else {
            seq![cur]
        }
    } else if s[0] == '\n' {
        seq![strip_cr(cur)] + lines_from(s.drop_first(), Seq::empty())
    } else {
        lines_from(s.drop_first(), cur.push(s[0]))
    }
}

/// The lines `str::lines` yields on `s`.
pub open spec fn lines(s: Seq<char>) -> Seq<Seq<char>> {
    lines_from(s, Seq::empty())
}

/// The views of a vector of char vectors.
pub open spec fn views(v: Seq<Vec<char>>) -> Seq<Seq<char>> {
    Seq::new(v.len(), |i: int| v[i]@)
}

/// The lines of `text`, as `str::lines` splits them.
pub fn split_lines(text: &Vec<char>) -> (r: Vec<Vec<char>>)
    ensures
        views(r@) == lines(text@),
{
    let mut out: Vec<Vec<char>> = Vec::new();
    let mut cur: Vec<char> = Vec::new();
    let mut i: usize = 0;
    assert(text@.skip(0) =~= text@);
    assert(views(out@) + lines_from(text@, cur@) =~= lines_from(text@, cur@));
    assert(cur@ =~= Seq::<char>::empty());
    while i < text.len()
        invariant
            i <= text@.len(),
            lines(text@) == views(out@) + lines_from(text@.skip(i as int), cur@),
        decreases text@.len() - i,
    {
        let ghost rest = text@.skip(i as int);
        assert(rest.drop_first() =~= text@.skip(i + 1));
        assert(rest[0] == text@[i as int]);
        if text[i] == '\n' {
            let mut line = cur;
            if line.len() > 0 && line[line.len() - 1] == '\r' {
                line.pop();
            }
            assert(line@ == strip_cr(cur@));
            let ghost before = views(out@);
            out.push(line);
            assert(views(out@) =~= before + seq![strip_cr(cur@)]);
            cur = Vec::new();
            assert(cur@ =~= Seq::<char>::empty());
        } else {
            cur.push(text[i]);
        }
        i = i + 1;
    }
    assert(text@.skip(i as int) =~= Seq::<char>::empty());
    if cur.len() > 0 {
        let ghost before = views(out@);
        out.push(cur);
        assert(views(out@) =~= before + seq![cur@]);
    } else {
        assert(views(out@) =~= views(out@) + Seq::<Seq<char>>::empty());
    }
    out
}


/// `str::split` with a set of separator chars, on the rest `s` of a text
/// where `cur` is the piece read so far: every separator ends a piece, and
/// the last piece always counts, empty or not.
pub open spec fn pieces_from(s: Seq<char>, seps: Seq<char>, cur: Seq<char>) -> Seq<Seq<char>>
    decreases s.len(),
{
    if s.len() == 0 {
        seq![cur]
    } else if seps.contains(s[0]) {
        seq![cur] + pieces_from(s.drop_first(), seps, Seq::empty())
    } else {
        pieces_from(s.drop_first(), seps, cur.push(s[0]))
    }
}

/// The pieces `str::split` yields on `s` with the separators `seps`.
pub open spec fn pieces(s: Seq<char>, seps: Seq<char>) -> Seq<Seq<char>> {
    pieces_from(s, seps, Seq::empty())
}

fn is_sep(seps: &Vec<char>, c: char) -> (r: bool)
    ensures
        r == seps@.contains(c),
{
    for k in 0..seps.len()
        invariant
            forall|t: int| 0 <= t < k ==> seps@[t] != c,
    {
        if seps[k] == c {
            return true;
        }
    }
    false
}

/// The pieces of `text` between the separator chars `seps`.
pub fn split_pieces(text: &Vec<char>, seps: &Vec<char>) -> (r: Vec<Vec<char>>)
    ensures
        views(r@) == pieces(text@, seps@),
{
    let mut out: Vec<Vec<char>> = Vec::new();
    let mut cur: Vec<char> = Vec::new();
    let mut i: usize = 0;
    assert(text@.skip(0) =~= text@);
    assert(views(out@) + pieces_from(text@, seps@, cur@) =~= pieces_from(text@, seps@, cur@));
    assert(cur@ =~= Seq::<char>::empty());
    while i < text.len()
        invariant
            i <= text@.len(),
            pieces(text@, seps@) == views(out@) + pieces_from(text@.skip(i as int), seps@, cur@),
        decreases text@.len() - i,
    {
        let ghost rest = text@.skip(i as int);
        assert(rest.drop_first() =~= text@.skip(i + 1));
        assert(rest[0] == text@[i as int]);
        if is_sep(seps, text[i]) {
            let ghost before = views(out@);
            let ghost cv = cur@;
            out.push(cur);
            assert(views(out@) =~= before + seq![cv]);
            cur = Vec::new();
            assert(cur@ =~= Seq::<char>::empty());
        } else {
            cur.push(text[i]);
        }
        i = i + 1;
    }
    assert(text@.skip(i as int) =~= Seq::<char>::empty());
    let ghost before = views(out@);
    let ghost cv = cur@;
    out.push(cur);
    assert(views(out@) =~= before + seq![cv]);
    out
}

/// The trimmed pieces that are not empty, in order.
pub open spec fn trimmed_nonempty(ps: Seq<Seq<char>>) -> Seq<Seq<char>>
    decreases ps.len(),
{
    if ps.len() == 0 {
        Seq::empty()
    } else {
        trimmed_nonempty(ps.drop_last()) + if trim(ps.last()).len() > 0 {
            seq![trim(ps.last())]
        } else {
            Seq::empty()
        }
    }
}

/// Trims each piece and drops the empty ones.
pub fn trim_nonempty(ps: &Vec<Vec<char>>) -> (r: Vec<Vec<char>>)
    ensures
        views(r@) == trimmed_nonempty(views(ps@)),
{
    let ghost pv = views(ps@);
    let mut out: Vec<Vec<char>> = Vec::new();
    assert(views(out@) =~= trimmed_nonempty(pv.take(0)));
    for i in 0..ps.len()
        invariant
            pv == views(ps@),
            views(out@) == trimmed_nonempty(pv.take(i as int)),
    {
        assert(pv.take(i + 1).drop_last() =~= pv.take(i as int));
        assert(pv.take(i + 1).last() == ps@[i as int]@);
        let t = trim_chars(&ps[i]);
        let ghost before = views(out@);
        if t.len() > 0 {
            let ghost tv = t@;
            out.push(t);
            assert(views(out@) =~= before + seq![tv]);
        } else {
            assert(views(out@) =~= before + Seq::<Seq<char>>::empty());
        }
    }
    assert(pv.take(pv.len() as int) =~= pv);
    out
}

/// `str::replace` with a non-empty pattern `n` and replacement `w`, from
/// char index `i` on: matches are replaced left to right without overlap.
pub open spec fn replace_from(h: Seq<char>, n: Seq<char>, w: Seq<char>, i: int) -> Seq<char>
    decreases h.len() - i,
{
    if n.len() == 0 || i < 0 || i >= h.len() {
        Seq::empty()
    } else if matches_at(h, n, i) {
        w + replace_from(h, n, w, i + n.len())
    } else {
        seq![h[i]] + replace_from(h, n, w, i + 1)
    }
}

/// `h.replace(n, w)` for a non-empty `n`.
pub open spec fn replace_all(h: Seq<char>, n: Seq<char>, w: Seq<char>) -> Seq<char> {
    replace_from(h, n, w, 0)
}

/// `h.replace(n, w)` for a non-empty `n`.
pub fn replace_chars(h: &Vec<char>, n: &Vec<char>, w: &Vec<char>) -> (r: Vec<char>)
    requires
        n@.len() > 0,
    ensures
        r@ == replace_all(h@, n@, w@),
{
    let mut out: Vec<char> = Vec::new();
    let mut i: usize = 0;
    while i < h.len()
        invariant
            i <= h@.len(),
            n@.len() > 0,
            replace_all(h@, n@, w@) == out@ + replace_from(h@, n@, w@, i as int),
        decreases h@.len() - i,
    {
        if match_at(h, n, i) {
            let ghost before = out@;
            push_chars(&mut out, w);
            assert(before + (w@ + replace_from(h@, n@, w@, i + n@.len())) =~= out@ + replace_from(
                h@,
                n@,
                w@,
                i + n@.len(),
            ));
            if i + n.len() > h.len() {
                assert(false);
            }
            i = i + n.len();
        } else {
            let ghost before = out@;
            out.push(h[i]);
            assert(before + (seq![h@[i as int]] + replace_from(h@, n@, w@, i + 1)) =~= out@
                + replace_from(h@, n@, w@, i + 1));
            i = i + 1;
        }
    }
    assert(out@ + replace_from(h@, n@, w@, i as int) =~= out@);
    out
}

/// Index of the last `'.'` in `s` before index `k`, if any.
pub open spec fn last_dot_before(s: Seq<char>, k: int) -> Option<int>
    decreases k,
{
    if k <= 0 || k > s.len() {
        None
    } else if s[k - 1] == '.' {
        Some(k - 1)
    } else {
        last_dot_before(s, k - 1)
    }
}

/// `Path::extension` of a file name: the text after the last `'.'`, when
/// that dot is not the name's first char (and the name is not `..`).
pub open spec fn file_extension(name: Seq<char>) -> Option<Seq<char>> {
    if name == seq!['.', '.'] {
        None
    } else {
        match last_dot_before(name, name.len() as int) {
            Some(i) => if i == 0 {
                None
            } else {
                Some(name.skip(i + 1))
            },
            None => None,
        }
    }
}

/// Whether a file name's extension is `ext`.
pub fn has_extension(name: &str, ext: &str) -> (r: bool)
    ensures
        r == (file_extension(name@) == Some(ext@)),
{
    let v = str_to_chars(name);
    let e = str_to_chars(ext);
    if v.len() == 2 && v[0] == '.' && v[1] == '.' {
        assert(v@ =~= seq!['.', '.']);
        return false;
    }
    assert(!(v@ =~= seq!['.', '.']));
    let mut k: usize = v.len();
    while k > 0 && v[k - 1] != '.'
        invariant
            k <= v@.len(),
            last_dot_before(v@, v@.len() as int) == last_dot_before(v@, k as int),
        decreases k,
    {
        k = k - 1;
    }
    if k <= 1 {
        return false;
    }
    let tail = copy_range(&v, k, v.len());
    assert(tail@ =~= v@.skip(k as int));
    chars_eq(&tail, &e)
}

/// Char indices of the non-overlapping, left-to-right matches of a
/// non-empty `n` in `h` from index `i` on (what `match_indices` visits).
pub open spec fn positions_from(h: Seq<char>, n: Seq<char>, i: int) -> Seq<int>
    decreases h.len() - i,
{
    if n.len() == 0 || i < 0 || i + n.len() > h.len() {
        Seq::empty()
    } else if matches_at(h, n, i) {
        seq![i] + positions_from(h, n, i + n.len())
    } else {
        positions_from(h, n, i + 1)
    }
}

/// The match positions of a non-empty `n` in `h`.
pub fn match_positions(h: &Vec<char>, n: &Vec<char>) -> (r: Vec<usize>)
    requires
        n@.len() > 0,
    ensures
        r@.len() == positions_from(h@, n@, 0).len(),
        forall|k: int| 0 <= k < r@.len() ==> r@[k] as int == #[trigger] positions_from(h@, n@, 0)[k],
{
    let mut r: Vec<usize> = Vec::new();
    let mut i: usize = 0;
    let ghost mut got: Seq<int> = Seq::empty();
    while n.len() <= h.len() - i
        invariant
            n@.len() > 0,
            i <= h@.len(),
            positions_from(h@, n@, 0) == got + positions_from(h@, n@, i as int),
            r@.len() == got.len(),
            forall|k: int| 0 <= k < r@.len() ==> r@[k] as int == #[trigger] got[k],
        decreases h@.len() - i,
    {
        if match_at(h, n, i) {
            proof {
                assert(got + positions_from(h@, n@, i as int) =~= got.push(i as int)
                    + positions_from(h@, n@, i + n@.len()));
                got = got.push(i as int);
            }
            r.push(i);
            i = i + n.len();
        } else {
            i = i + 1;
        }
    }
    assert(positions_from(h@, n@, i as int) =~= Seq::<int>::empty());
    assert(got + Seq::<int>::empty() =~= got);
    r
}

/// Index of the first line of `ls` from `i` on that contains `p`.
pub open spec fn first_containing_from(ls: Seq<Seq<char>>, p: Seq<char>, i: int) -> Option<int>
    decreases ls.len() - i,
{
    if i < 0 || i >= ls.len() {
        None
    } else if contains(ls[i], p) {
        Some(i)
    } else {
        first_containing_from(ls, p, i + 1)
    }
}

/// 1-based number of the first line of `text` containing `p`, if any.
pub open spec fn line_number_of(text: Seq<char>, p: Seq<char>) -> Option<int> {
    match first_containing_from(lines(text), p, 0) {
        Some(i) => Some(i + 1),
        None => None,
    }
}

/// The 1-based number of the first line of `text` containing `p`.
/// (The number is taken modulo 2^32, as `as u32` does.)
pub fn line_index(text: &Vec<char>, p: &Vec<char>) -> (r: Option<u32>)
    ensures
        match line_number_of(text@, p@) {
            Some(n) => r == Some(n as u32),
            None => r is None,
        },
{
    let ls = split_lines(text);
    let ghost vs = views(ls@);
    proof {
        lemma_lines_count(text@, Seq::empty());
    }
    let mut i: usize = 0;
    while i < ls.len()
        invariant
            vs == views(ls@),
            vs == lines(text@),
            i <= ls@.len(),
            first_containing_from(vs, p@, 0) == first_containing_from(vs, p@, i as int),
        decreases ls@.len() - i,
    {
        if contains_chars(&ls[i], p) {
            return Some((i + 1) as u32);
        }
        i = i + 1;
    }
    None
}

/// `lines` yields at most one line more than the text has chars.
pub proof fn lemma_lines_count(s: Seq<char>, cur: Seq<char>)
    ensures
        lines_from(s, cur).len() <= s.len() + 1,
    decreases s.len(),
{
    if s.len() > 0 {
        if s[0] == '\n' {
            lemma_lines_count(s.drop_first(), Seq::empty());
        } else {
            lemma_lines_count(s.drop_first(), cur.push(s[0]));
        }
    }
}

// ---------------------------------------------------------------------------
// Trimming
// ---------------------------------------------------------------------------

/// `str::trim_start`.
pub open spec fn trim_start(s: Seq<char>) -> Seq<char>
    decreases s.len(),
{
    if s.len() > 0 && spec_is_whitespace(s[0]) {
        trim_start(s.drop_first())
    } else {
        s
    }
}

/// `str::trim_end`.
pub open spec fn trim_end(s: Seq<char>) -> Seq<char>
    decreases s.len(),
{
    if s.len() > 0 && spec_is_whitespace(s.last()) {
        trim_end(s.drop_last())
    } else {
        s
    }
}

/// `str::trim`.
pub open spec fn trim(s: Seq<char>) -> Seq<char> {
    trim_end(trim_start(s))
}

/// What `trim_start` leaves does not start with whitespace.
proof fn lemma_trim_start_first(s: Seq<char>)
    ensures
        trim_start(s).len() == 0 || !spec_is_whitespace(trim_start(s)[0]),
    decreases s.len(),
{
    if s.len() > 0 && spec_is_whitespace(s[0]) {
        lemma_trim_start_first(s.drop_first());
    }
}

/// What `trim_end` leaves is a prefix that does not end with whitespace.
proof fn lemma_trim_end_prefix(x: Seq<char>)
    ensures
        trim_end(x).len() <= x.len(),
        trim_end(x) == x.take(trim_end(x).len() as int),
        trim_end(x).len() == 0 || !spec_is_whitespace(trim_end(x).last()),
    decreases x.len(),
{
    if x.len() > 0 && spec_is_whitespace(x.last()) {
        lemma_trim_end_prefix(x.drop_last());
        let n = trim_end(x.drop_last()).len() as int;
        assert(x.drop_last().take(n) =~= x.take(n));
    } else {
        assert(x.take(x.len() as int) =~= x);
    }
}

/// Trimming twice trims as much as trimming once.
pub proof fn lemma_trim_idempotent(s: Seq<char>)
    ensures
        trim(trim(s)) == trim(s),
{
    let a = trim_start(s);
    let t = trim_end(a);
    lemma_trim_start_first(s);
    lemma_trim_end_prefix(a);
    if t.len() > 0 {
        assert(t[0] == a[0]);
        assert(trim_start(t) == t);
        assert(trim_end(t) == t);
    }
}

pub proof fn lemma_trim_start_skip(s: Seq<char>, i: int)
    requires
        0 <= i <= s.len(),
        forall|k: int| 0 <= k < i ==> spec_is_whitespace(#[trigger] s[k]),
    ensures
        trim_start(s) == trim_start(s.skip(i)),
    decreases i,
{
    if i > 0 {
        assert(s.drop_first().skip(i - 1) =~= s.skip(i));
        assert forall|k: int| 0 <= k < i - 1 implies spec_is_whitespace(
            #[trigger] s.drop_first()[k],
        ) by {
            assert(s.drop_first()[k] == s[k + 1]);
        }
        lemma_trim_start_skip(s.drop_first(), i - 1);
    } else {
        assert(s.skip(0) =~= s);
    }
}

pub proof fn lemma_trim_end_take(s: Seq<char>, j: int)
    requires
        0 <= j <= s.len(),
        forall|k: int| j <= k < s.len() ==> spec_is_whitespace(#[trigger] s[k]),
    ensures
        trim_end(s) == trim_end(s.take(j)),
    decreases s.len() - j,
{
    if j < s.len() {
        assert(s.drop_last().take(j) =~= s.take(j));
        lemma_trim_end_take(s.drop_last(), j);
    } else {
        assert(s.take(j) =~= s);
    }
}

/// A copy of `s[from..to]`.
pub fn copy_range(s: &Vec<char>, from: usize, to: usize) -> (r: Vec<char>)
    requires
        from <= to <= s@.len(),
    ensures
        r@ == s@.subrange(from as int, to as int),
{
    let mut r: Vec<char> = Vec::new();
    let mut i = from;
    while i < to
        invariant
            from <= i <= to <= s@.len(),
            r@ == s@.subrange(from as int, i as int),
        decreases to - i,
    {
        r.push(s[i]);
        i = i + 1;
        assert(r@ =~= s@.subrange(from as int, i as int));
    }
    r
}

/// `str::trim`.
pub fn trim_chars(s: &Vec<char>) -> (r: Vec<char>)
    ensures
        r@ == trim(s@),
{
    let mut a: usize = 0;
    while a < s.len() && is_whitespace(s[a])
        invariant
            a <= s@.len(),
            forall|k: int| 0 <= k < a ==> spec_is_whitespace(#[trigger] s@[k]),
        decreases s@.len() - a,
    {
        a = a + 1;
    }
    proof {
        lemma_trim_start_skip(s@, a as int);
        assert(trim_start(s@.skip(a as int)) == s@.skip(a as int));
    }
    let mut b: usize = s.len();
    while b > a && is_whitespace(s[b - 1])
        invariant
            a <= b <= s@.len(),
            forall|k: int| b <= k < s@.len() ==> spec_is_whitespace(#[trigger] s@[k]),
        decreases b,
    {
        b = b - 1;
    }
    let ghost t = s@.skip(a as int);
    proof {
        assert forall|k: int| b - a <= k < t.len() implies spec_is_whitespace(#[trigger] t[k]) by {
            assert(t[k] == s@[k + a]);
        }
        lemma_trim_end_take(t, b - a);
        assert(t.take(b - a) =~= s@.subrange(a as int, b as int));
        let u = t.take(b - a);
        if u.len() > 0 {
            assert(u.last() == s@[b - 1]);
        }
    }
    copy_range(s, a, b)
}

// ---------------------------------------------------------------------------
// Lexicographic order (the order of `String` keys in a `BTreeMap`)
// ---------------------------------------------------------------------------

/// `a` sorts strictly before `b` by code point (the byte order of UTF-8).
pub open spec fn seq_lt(a: Seq<char>, b: Seq<char>) -> bool
    decreases a.len(),
{
    if b.len() == 0 {
        false
    } else if a.len() == 0 {
        true
    } else if a[0] != b[0] {
        a[0] < b[0]
    } else {
        seq_lt(a.drop_first(), b.drop_first())
    }
}

pub proof fn lemma_seq_lt_irreflexive(a: Seq<char>)
    ensures
        !seq_lt(a, a),
    decreases a.len(),
{
    if a.len() > 0 {
        lemma_seq_lt_irreflexive(a.drop_first());
    }
}

pub proof fn lemma_seq_lt_transitive(a: Seq<char>, b: Seq<char>, c: Seq<char>)
    requires
        seq_lt(a, b),
        seq_lt(b, c),
    ensures
        seq_lt(a, c),
    decreases a.len(),
{
    if a.len() > 0 && b.len() > 0 && c.len() > 0 {
        if a[0] == b[0] && b[0] == c[0] {
            lemma_seq_lt_transitive(a.drop_first(), b.drop_first(), c.drop_first());
        }
    }
}

pub proof fn lemma_seq_lt_total(a: Seq<char>, b: Seq<char>)
    ensures
        seq_lt(a, b) || seq_lt(b, a) || a == b,
    decreases a.len(),
{
    if a.len() > 0 && b.len() > 0 && a[0] == b[0] {
        lemma_seq_lt_total(a.drop_first(), b.drop_first());
        if a.drop_first() == b.drop_first() {
            assert(a =~= seq![a[0]] + a.drop_first());
            assert(b =~= seq![b[0]] + b.drop_first());
        }
    } else if a.len() == 0 && b.len() == 0 {
        assert(a =~= b);
    }
}

pub proof fn lemma_seq_lt_asymmetric(a: Seq<char>, b: Seq<char>)
    requires
        seq_lt(a, b),
    ensures
        !seq_lt(b, a),
{
    if seq_lt(b, a) {
        lemma_seq_lt_transitive(a, b, a);
        lemma_seq_lt_irreflexive(a);
    }
}

/// `a < b` in code point order.
pub fn chars_lt(a: &Vec<char>, b: &Vec<char>) -> (r: bool)
    ensures
        r == seq_lt(a@, b@),
{
    let mut i: usize = 0;
    assert(a@.skip(0) =~= a@ && b@.skip(0) =~= b@);
    while i < a.len() && i < b.len() && a[i] == b[i]
        invariant
            i <= a@.len(),
            i <= b@.len(),
            seq_lt(a@, b@) == seq_lt(a@.skip(i as int), b@.skip(i as int)),
        decreases a@.len() - i,
    {
        proof {
            let sa = a@.skip(i as int);
            let sb = b@.skip(i as int);
            assert(sa.drop_first() =~= a@.skip(i + 1));
            assert(sb.drop_first() =~= b@.skip(i + 1));
        }
        i = i + 1;
    }
    let ghost sa = a@.skip(i as int);
    let ghost sb = b@.skip(i as int);
    if i == b.len() {
        assert(sb.len() == 0);
        false
    } else if i == a.len() {
        assert(sa.len() == 0);
        true
    } else {
        assert(sa[0] == a@[i as int] && sb[0] == b@[i as int]);
        a[i] < b[i]
    }
}

/// `a == b`.
pub fn chars_eq(a: &Vec<char>, b: &Vec<char>) -> (r: bool)
    ensures
        r == (a@ == b@),
{
    if a.len() != b.len() {
        return false;
    }
    let mut i: usize = 0;
    while i < a.len()
        invariant
            a@.len() == b@.len(),
            i <= a@.len(),
            forall|k: int| 0 <= k < i ==> a@[k] == #[trigger] b@[k],
        decreases a@.len() - i,
    {
        if a[i] != b[i] {
            return false;
        }
        i = i + 1;
    }
    assert(a@ =~= b@);
    true
}

// ---------------------------------------------------------------------------
// Building text
// ---------------------------------------------------------------------------

/// The characters of a string slice, in order.
pub fn str_to_chars(s: &str) -> (v: Vec<char>)
    ensures
        v@ == s@,
{
    let mut v: Vec<char> = Vec::new();
    for c in it: s.chars()
        invariant
            v@ == it.seq().take(it.index() as int),
    {
        v.push(c);
    }
    v
}

/// Appends the characters of `s` to `out`.
pub fn push_str(out: &mut Vec<char>, s: &str)
    ensures
        final(out)@ == old(out)@ + s@,
{
    let v = str_to_chars(s);
    push_chars(out, &v);
}

/// Appends `v` to `out`.
pub fn push_chars(out: &mut Vec<char>, v: &Vec<char>)
    ensures
        final(out)@ == old(out)@ + v@,
{
    let ghost start = out@;
    for i in 0..v.len()
        invariant
            out@ == start + v@.take(i as int),
    {
        out.push(v[i]);
        assert(out@ =~= start + v@.take(i + 1));
    }
    assert(v@.take(v@.len() as int) =~= v@);
}

/// `String::push`.
#[verifier::external_body]
fn string_push(s: &mut String, c: char)
    ensures
        final(s)@ == old(s)@.push(c),
{
    s.push(c);
}

/// The string made of the characters `v`.
pub fn chars_to_string(v: &Vec<char>) -> (s: String)
    ensures
        s@ == v@,
{
    let mut s = String::new();
    for i in 0..v.len()
        invariant
            s@ == v@.take(i as int),
    {
        string_push(&mut s, v[i]);
        assert(s@ =~= v@.take(i + 1));
    }
    assert(v@.take(v@.len() as int) =~= v@);
    s
}

/// The string with the characters of `s`.
pub fn string_of(s: &str) -> (r: String)
    ensures
        r@ == s@,
{
    let v = str_to_chars(s);
    chars_to_string(&v)
}

/// The decimal digit for `d < 10`.
pub open spec fn digit_char(d: nat) -> char {
    ((d + 48) as u32) as char
}

/// The decimal representation of `n` (what `to_string` / `{}` prints).
pub open spec fn decimal(n: nat) -> Seq<char>
    decreases n,
{
    if n < 10 {
        seq![digit_char(n)]
    } else {
        decimal(n / 10).push(digit_char(n % 10))
    }
}

fn digit(d: u64) -> (c: char)
    requires
        d < 10,
    ensures
        c == digit_char(d as nat),
{
    let b: u8 = (d + 48) as u8;
    b as char
}

/// Appends the decimal representation of `n` to `out`.
pub fn push_decimal(out: &mut Vec<char>, n: u64)
    ensures
        final(out)@ == old(out)@ + decimal(n as nat),
    decreases n,
{
    if n >= 10 {
        push_decimal(out, n / 10);
    }
    let c = digit(n % 10);
    out.push(c);
    proof {
        if n >= 10 {
            assert(decimal(n as nat) == decimal((n / 10) as nat).push(digit_char((n % 10) as nat)));
        }
    }
    assert(out@ =~= old(out)@ + decimal(n as nat));
}

/// `n` zero-padded to at least three digits (`{:03}`).
pub open spec fn decimal_pad3(n: nat) -> Seq<char> {
    if n < 10 {
        seq!['0', '0'] + decimal(n)
    } else if n < 100 {
        seq!['0'] + decimal(n)
    } else {
        decimal(n)
    }
}

/// Appends `n` zero-padded to three digits.
pub fn push_decimal_pad3(out: &mut Vec<char>, n: u64)
    ensures
        final(out)@ == old(out)@ + decimal_pad3(n as nat),
{
    let ghost start = out@;
    if n < 10 {
        out.push('0');
        out.push('0');
    } else if n < 100 {
        out.push('0');
    }
    push_decimal(out, n);
    assert(out@ =~= start + decimal_pad3(n as nat));
}

} // verus!
