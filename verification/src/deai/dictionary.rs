//! Cliché dictionary: phrases with an "AI flavour", each with a category and
//! a severity, and the scan that finds them line by line in a chapter.
use vstd::prelude::*;

use crate::tally::{lemma_sorted_same_members, strictly_sorted};
use crate::text::{
    chars_lt, contains, contains_chars, count_occurrences, lemma_count_from_bound,
    lemma_seq_lt_total, lemma_seq_lt_transitive, lines, lines_from, match_count,
    match_indices_count, occurrences, seq_lt, split_lines, str_to_chars, string_of, strip_cr,
    views,
};

verus! {

/// Category of a cliché.
#[derive(Clone, Copy, Debug, PartialEq, Eq, Structural)]
pub enum ClicheCategory {
    /// Abstract description (眼神深邃、心中涌起).
    AbstractDescription,
    /// Stock transitions (然而、却、可是).
    Transition,
    /// Formulaic dialogue (我不知道 / 我该怎么办).
    FormulaicDialogue,
    /// Overdone parallelism.
    ExcessiveParallelism,
    /// Fortune-cookie philosophy.
    PhilosophicCliche,
    /// Narration that explains instead of showing.
    OverExplanation,
    /// The narrator leaving the character's point of view.
    POVLeak,
    /// Adverbs standing in for description (很 / 非常 / 极其).
    AdverbOveruse,
}

/// Position of a category in the declaration order (its `Ord` order).
pub open spec fn category_index(c: ClicheCategory) -> int {
    match c {
        ClicheCategory::AbstractDescription => 0,
        ClicheCategory::Transition => 1,
        ClicheCategory::FormulaicDialogue => 2,
        ClicheCategory::ExcessiveParallelism => 3,
        ClicheCategory::PhilosophicCliche => 4,
        ClicheCategory::OverExplanation => 5,
        ClicheCategory::POVLeak => 6,
        ClicheCategory::AdverbOveruse => 7,
    }
}

/// The category at position `i` of the declaration order.
pub open spec fn category_at(i: int) -> ClicheCategory {
    if i == 0 {
        ClicheCategory::AbstractDescription
    } else if i == 1 {
        ClicheCategory::Transition
    } else if i == 2 {
        ClicheCategory::FormulaicDialogue
    } else if i == 3 {
        ClicheCategory::ExcessiveParallelism
    } else if i == 4 {
        ClicheCategory::PhilosophicCliche
    } else if i == 5 {
        ClicheCategory::OverExplanation
    } else if i == 6 {
        ClicheCategory::POVLeak
    } else {
        ClicheCategory::AdverbOveruse
    }
}

pub open spec fn spec_category_label(c: ClicheCategory) -> Seq<char> {
    match c {
        ClicheCategory::AbstractDescription => "抽象描写"@,
        ClicheCategory::Transition => "转折套话"@,
        ClicheCategory::FormulaicDialogue => "公式化对话"@,
        ClicheCategory::ExcessiveParallelism => "排比过度"@,
        ClicheCategory::PhilosophicCliche => "鸡汤哲理"@,
        ClicheCategory::OverExplanation => "过度旁白"@,
        ClicheCategory::POVLeak => "视角穿越"@,
        ClicheCategory::AdverbOveruse => "副词滥用"@,
    }
}

impl ClicheCategory {
    /// Chinese display label.
    pub fn label(self) -> (r: &'static str)
        ensures
            r@ == spec_category_label(self),
    {
        match self {
            ClicheCategory::AbstractDescription => "抽象描写",
            ClicheCategory::Transition => "转折套话",
            ClicheCategory::FormulaicDialogue => "公式化对话",
            ClicheCategory::ExcessiveParallelism => "排比过度",
            ClicheCategory::PhilosophicCliche => "鸡汤哲理",
            ClicheCategory::OverExplanation => "过度旁白",
            ClicheCategory::POVLeak => "视角穿越",
            ClicheCategory::AdverbOveruse => "副词滥用",
        }
    }

    /// The category at position `i < 8` of the declaration order.
    pub fn at(i: usize) -> (r: ClicheCategory)
        requires
            i < 8,
        ensures
            r == category_at(i as int),
            category_index(r) == i,
    {
        if i == 0 {
            ClicheCategory::AbstractDescription
        } else if i == 1 {
            ClicheCategory::Transition
        } else if i == 2 {
            ClicheCategory::FormulaicDialogue
        } else if i == 3 {
            ClicheCategory::ExcessiveParallelism
        } else if i == 4 {
            ClicheCategory::PhilosophicCliche
        } else if i == 5 {
            ClicheCategory::OverExplanation
        } else if i == 6 {
            ClicheCategory::POVLeak
        } else {
            ClicheCategory::AdverbOveruse
        }
    }
}

/// One cliché.
#[derive(Debug)]
pub struct ClicheEntry {
    /// Trigger phrase.
    pub phrase: String,
    pub category: ClicheCategory,
    /// Severity 1-3: light, medium, heavy.
    pub severity: u8,
    /// Why this reads as AI prose (Chinese, for the model).
    pub reason: String,
    /// How to rewrite it (Chinese, for the model).
    pub suggestion: String,
}

impl Clone for ClicheEntry {
    fn clone(&self) -> (r: Self)
        ensures
            r == *self,
    {
        ClicheEntry {
            phrase: self.phrase.clone(),
            category: self.category,
            severity: self.severity,
            reason: self.reason.clone(),
            suggestion: self.suggestion.clone(),
        }
    }
}

/// A cliché found in a text.
#[derive(Debug)]
pub struct ClicheHit {
    pub entry: ClicheEntry,
    /// Total number of occurrences.
    pub count: u32,
    /// 1-based line of the first occurrence.
    pub first_line: Option<u32>,
}

impl Clone for ClicheHit {
    fn clone(&self) -> (r: Self)
        ensures
            r == *self,
    {
        ClicheHit { entry: self.entry.clone(), count: self.count, first_line: self.first_line }
    }
}

/// A list of clichés to scan for.
#[derive(Debug)]
pub struct ClicheDictionary {
    entries: Vec<ClicheEntry>,
}

impl View for ClicheDictionary {
    type V = Seq<ClicheEntry>;

    closed spec fn view(&self) -> Seq<ClicheEntry> {
        self.entries@
    }
}

impl Clone for ClicheDictionary {
    fn clone(&self) -> (r: Self)
        ensures
            r@ == self@,
    {
        ClicheDictionary { entries: clone_entries(&self.entries) }
    }
}

impl Default for ClicheDictionary {
    fn default() -> (r: Self)
        ensures
            r@ == Seq::<ClicheEntry>::empty(),
    {
        ClicheDictionary { entries: Vec::new() }
    }
}

/// A copy of a list of entries.
pub fn clone_entries(v: &Vec<ClicheEntry>) -> (r: Vec<ClicheEntry>)
    ensures
        r@ == v@,
{
    let mut r: Vec<ClicheEntry> = Vec::new();
    for i in 0..v.len()
        invariant
            r@ == v@.take(i as int),
    {
        r.push(v[i].clone());
        assert(r@ =~= v@.take(i + 1));
    }
    assert(v@.take(v@.len() as int) =~= v@);
    r
}

// ---------------------------------------------------------------------------
// What a scan finds
// ---------------------------------------------------------------------------

/// Occurrences counted on one line: `occurrences` when an empty phrase
/// counts zero times, `match_count` when it counts once per char boundary.
pub open spec fn line_count(line: Seq<char>, p: Seq<char>, empty_matches_boundaries: bool) -> nat {
    if empty_matches_boundaries {
        match_count(line, p)
    } else {
        occurrences(line, p)
    }
}

/// Occurrences of `p` summed over the lines `ls`.
pub open spec fn total_count(ls: Seq<Seq<char>>, p: Seq<char>, mode: bool) -> nat
    decreases ls.len(),
{
    if ls.len() == 0 {
        0
    } else {
        total_count(ls.drop_last(), p, mode) + line_count(ls.last(), p, mode)
    }
}

/// `li` is the first of the lines `ls` that contains `p`.
pub open spec fn first_line_of(ls: Seq<Seq<char>>, p: Seq<char>, li: int) -> bool {
    0 <= li < ls.len() && contains(ls[li], p) && forall|j: int|
        0 <= j < li ==> !contains(#[trigger] ls[j], p)
}

/// `ei` is the first entry whose phrase is `p`.
pub open spec fn first_entry_of(es: Seq<ClicheEntry>, p: Seq<char>, ei: int) -> bool {
    0 <= ei < es.len() && es[ei].phrase@ == p && forall|j: int|
        0 <= j < ei ==> (#[trigger] es[j]).phrase@ != p
}

/// Some line of `ls` contains `p`.
pub open spec fn appears(ls: Seq<Seq<char>>, p: Seq<char>) -> bool {
    exists|li: int| 0 <= li < ls.len() && #[trigger] contains(ls[li], p)
}

/// `h` is what a line-by-line scan of `ls` reports for its phrase: the first
/// entry with that phrase, the first line holding it (1-based), and the
/// number of its occurrences over all lines.
pub open spec fn is_scan_hit(
    ls: Seq<Seq<char>>,
    es: Seq<ClicheEntry>,
    h: ClicheHit,
    mode: bool,
) -> bool {
    let p = h.entry.phrase@;
    &&& exists|ei: int| #[trigger] first_entry_of(es, p, ei) && h.entry == es[ei]
    &&& exists|li: int| #[trigger] first_line_of(ls, p, li) && h.first_line == Some((li + 1) as u32)
    &&& h.count as int == total_count(ls, p, mode)
}

/// The hits are sorted by phrase, strictly (so no phrase twice).
pub open spec fn sorted_by_phrase(hs: Seq<ClicheHit>) -> bool {
    forall|i: int, j: int|
        0 <= i < j < hs.len() ==> seq_lt(#[trigger] hs[i].entry.phrase@, #[trigger] hs[j].entry.phrase@)
}

/// No phrase of `es` occurs in `text` more than `u32::MAX` times, so that
/// every count a scan reports fits its `u32`.
pub open spec fn counts_fit(text: Seq<char>, es: Seq<ClicheEntry>, mode: bool) -> bool {
    forall|ei: int|
        0 <= ei < es.len() ==> total_count(lines(text), (#[trigger] es[ei]).phrase@, mode) <= u32::MAX
}

/// The result of scanning the lines `ls` with the entries `es`: one hit per
/// phrase that some line contains, sorted by phrase.
pub open spec fn is_scan_of(
    ls: Seq<Seq<char>>,
    es: Seq<ClicheEntry>,
    hs: Seq<ClicheHit>,
    mode: bool,
) -> bool {
    &&& sorted_by_phrase(hs)
    &&& forall|k: int| 0 <= k < hs.len() ==> is_scan_hit(ls, es, #[trigger] hs[k], mode)
    &&& forall|ei: int|
        0 <= ei < es.len() && appears(ls, (#[trigger] es[ei]).phrase@) ==> exists|k: int|
            0 <= k < hs.len() && (#[trigger] hs[k]).entry.phrase@ == es[ei].phrase@
}

/// The phrases of the hits, in order.
pub open spec fn hit_phrases(hs: Seq<ClicheHit>) -> Seq<Seq<char>> {
    Seq::new(hs.len(), |i: int| hs[i].entry.phrase@)
}

/// The phrase of every hit of a scan is one that the scan covers.
proof fn lemma_scan_hit_covered(
    ls: Seq<Seq<char>>,
    es: Seq<ClicheEntry>,
    h1: Seq<ClicheHit>,
    h2: Seq<ClicheHit>,
    mode: bool,
)
    requires
        is_scan_of(ls, es, h1, mode),
        is_scan_of(ls, es, h2, mode),
    ensures
        forall|i: int| 0 <= i < h1.len() ==> hit_phrases(h2).contains(#[trigger] hit_phrases(h1)[i]),
{
    assert forall|i: int| 0 <= i < h1.len() implies hit_phrases(h2).contains(
        #[trigger] hit_phrases(h1)[i],
    ) by {
        let p = h1[i].entry.phrase@;
        assert(is_scan_hit(ls, es, h1[i], mode));
        let ei = choose|ei: int| #[trigger] first_entry_of(es, p, ei) && h1[i].entry == es[ei];
        let li = choose|li: int| #[trigger] first_line_of(ls, p, li) && h1[i].first_line == Some(
            (li + 1) as u32,
        );
        assert(contains(ls[li], p));
        assert(appears(ls, es[ei].phrase@));
        let k = choose|k: int| 0 <= k < h2.len() && (#[trigger] h2[k]).entry.phrase@ == es[ei].phrase@;
        assert(hit_phrases(h2)[k] == hit_phrases(h1)[i]);
    }
}

/// Two hits of a scan with the same phrase are the same hit.
proof fn lemma_same_phrase_same_hit(
    ls: Seq<Seq<char>>,
    es: Seq<ClicheEntry>,
    a: ClicheHit,
    b: ClicheHit,
    mode: bool,
)
    requires
        is_scan_hit(ls, es, a, mode),
        is_scan_hit(ls, es, b, mode),
        a.entry.phrase@ == b.entry.phrase@,
    ensures
        a == b,
{
    let p = a.entry.phrase@;
    let e1 = choose|ei: int| #[trigger] first_entry_of(es, p, ei) && a.entry == es[ei];
    let e2 = choose|ei: int| #[trigger] first_entry_of(es, p, ei) && b.entry == es[ei];
    if e1 < e2 {
        assert(es[e1].phrase@ != p);
    } else if e2 < e1 {
        assert(es[e2].phrase@ != p);
    }
    let l1 = choose|li: int| #[trigger] first_line_of(ls, p, li) && a.first_line == Some((li + 1) as u32);
    let l2 = choose|li: int| #[trigger] first_line_of(ls, p, li) && b.first_line == Some((li + 1) as u32);
    if l1 < l2 {
        assert(!contains(ls[l1], p));
    } else if l2 < l1 {
        assert(!contains(ls[l2], p));
    }
}

/// The phrases of hits sorted by phrase are strictly sorted.
proof fn lemma_hit_phrases_sorted(hs: Seq<ClicheHit>)
    requires
        sorted_by_phrase(hs),
    ensures
        strictly_sorted(hit_phrases(hs)),
{
    let p = hit_phrases(hs);
    assert forall|i: int, j: int| 0 <= i < j < p.len() implies seq_lt(#[trigger] p[i], #[trigger] p[j]) by {
        assert(seq_lt(hs[i].entry.phrase@, hs[j].entry.phrase@));
    }
}

/// A scan has one result: any two lists of hits that are scans of the same
/// lines with the same entries are equal.
pub proof fn law_scan_unique(
    ls: Seq<Seq<char>>,
    es: Seq<ClicheEntry>,
    h1: Seq<ClicheHit>,
    h2: Seq<ClicheHit>,
    mode: bool,
)
    requires
        is_scan_of(ls, es, h1, mode),
        is_scan_of(ls, es, h2, mode),
    ensures
        h1 == h2,
{
    let p1 = hit_phrases(h1);
    let p2 = hit_phrases(h2);
    lemma_hit_phrases_sorted(h1);
    lemma_hit_phrases_sorted(h2);
    lemma_scan_hit_covered(ls, es, h1, h2, mode);
    lemma_scan_hit_covered(ls, es, h2, h1, mode);
    lemma_sorted_same_members(p1, p2);
    assert forall|i: int| 0 <= i < h1.len() implies h1[i] == h2[i] by {
        assert(p1[i] == p2[i]);
        lemma_same_phrase_same_hit(ls, es, h1[i], h2[i], mode);
    }
    assert(h1 =~= h2);
}

// ---------------------------------------------------------------------------
// The scan
// ---------------------------------------------------------------------------

/// Sum of the lengths of `ls`.
pub open spec fn total_len(ls: Seq<Seq<char>>) -> nat
    decreases ls.len(),
{
    if ls.len() == 0 {
        0
    } else {
        total_len(ls.drop_last()) + ls.last().len()
    }
}

proof fn lemma_total_len_append(a: Seq<Seq<char>>, b: Seq<Seq<char>>)
    ensures
        total_len(a + b) == total_len(a) + total_len(b),
    decreases b.len(),
{
    if b.len() > 0 {
        assert((a + b).drop_last() =~= a + b.drop_last());
        lemma_total_len_append(a, b.drop_last());
    } else {
        assert(a + b =~= a);
    }
}

proof fn lemma_total_len_single(x: Seq<char>)
    ensures
        total_len(seq![x]) == x.len(),
{
    assert(seq![x].drop_last() =~= Seq::<Seq<char>>::empty());
    assert(seq![x].last() == x);
    assert(total_len(Seq::<Seq<char>>::empty()) == 0);
}

proof fn lemma_lines_from_len(s: Seq<char>, cur: Seq<char>)
    ensures
        total_len(lines_from(s, cur)) + lines_from(s, cur).len() <= s.len() + cur.len() + 1,
        total_len(lines_from(s, cur)) <= s.len() + cur.len(),
        lines_from(s, cur).len() <= s.len() + 1,
    decreases s.len(),
{
    if s.len() == 0 {
        if cur.len() != 0 {
            lemma_total_len_single(cur);
        }
    } else if s[0] == '\n' {
        lemma_lines_from_len(s.drop_first(), Seq::empty());
        let rest = lines_from(s.drop_first(), Seq::empty());
        lemma_total_len_append(seq![strip_cr(cur)], rest);
        lemma_total_len_single(strip_cr(cur));
    } else {
        lemma_lines_from_len(s.drop_first(), cur.push(s[0]));
    }
}

proof fn lemma_line_count_bound(line: Seq<char>, p: Seq<char>, mode: bool)
    ensures
        line_count(line, p, mode) <= line.len() + 1,
{
    lemma_count_from_bound(line, p, 0);
}

proof fn lemma_total_count_bound(ls: Seq<Seq<char>>, p: Seq<char>, mode: bool)
    ensures
        total_count(ls, p, mode) <= total_len(ls) + ls.len(),
    decreases ls.len(),
{
    if ls.len() > 0 {
        lemma_total_count_bound(ls.drop_last(), p, mode);
        lemma_line_count_bound(ls.last(), p, mode);
    }
}

/// Every line count in a text of `n` chars is at most `n + 1`, and so is the
/// number of lines.
proof fn lemma_scan_bounds(text: Seq<char>, p: Seq<char>, mode: bool)
    ensures
        total_count(lines(text), p, mode) <= text.len() + 1,
        lines(text).len() <= text.len() + 1,
{
    lemma_lines_from_len(text, Seq::empty());
    lemma_total_count_bound(lines(text), p, mode);
}

/// Whether an earlier entry than `ei` carries the same phrase.
fn phrase_seen_before(es: &Vec<ClicheEntry>, ei: usize) -> (r: bool)
    requires
        ei < es@.len(),
    ensures
        r == !first_entry_of(es@, es@[ei as int].phrase@, ei as int),
{
    let mut j: usize = 0;
    while j < ei
        invariant
            ei < es@.len(),
            j <= ei,
            forall|k: int| 0 <= k < j ==> (#[trigger] es@[k]).phrase@ != es@[ei as int].phrase@,
        decreases ei - j,
    {
        if es[j].phrase == es[ei].phrase {
            return true;
        }
        j = j + 1;
    }
    false
}

/// Occurrences of `p` on one line in the given counting mode.
fn line_count_exec(line: &Vec<char>, p: &Vec<char>, mode: bool) -> (r: usize)
    requires
        line@.len() < usize::MAX,
    ensures
        r == line_count(line@, p@, mode),
{
    if mode {
        match_indices_count(line, p)
    } else {
        count_occurrences(line, p)
    }
}

/// Index of the first line containing `p`, if any.
fn first_line_containing(ls: &Vec<Vec<char>>, p: &Vec<char>) -> (r: Option<usize>)
    ensures
        match r {
            Some(li) => first_line_of(views(ls@), p@, li as int),
            None => !appears(views(ls@), p@),
        },
{
    let ghost vs = views(ls@);
    for li in 0..ls.len()
        invariant
            vs == views(ls@),
            forall|j: int| 0 <= j < li ==> !contains(#[trigger] vs[j], p@),
    {
        if contains_chars(&ls[li], p) {
            return Some(li);
        }
    }
    assert(!appears(vs, p@)) by {
        assert forall|j: int| 0 <= j < vs.len() implies !#[trigger] contains(vs[j], p@) by {}
    }
    None
}

/// Occurrences of `p` summed over all lines.
fn total_count_exec(ls: &Vec<Vec<char>>, p: &Vec<char>, mode: bool, bound: Ghost<nat>) -> (r: u64)
    requires
        total_count(views(ls@), p@, mode) <= bound@,
        bound@ <= u64::MAX,
        forall|i: int| 0 <= i < ls@.len() ==> (#[trigger] ls@[i])@.len() < usize::MAX,
    ensures
        r == total_count(views(ls@), p@, mode),
{
    let ghost vs = views(ls@);
    let mut r: u64 = 0;
    for li in 0..ls.len()
        invariant
            vs == views(ls@),
            total_count(vs, p@, mode) <= bound@,
            bound@ <= u64::MAX,
            forall|i: int| 0 <= i < ls@.len() ==> (#[trigger] ls@[i])@.len() < usize::MAX,
            r == total_count(vs.take(li as int), p@, mode),
    {
        proof {
            assert(vs.take(li + 1).drop_last() =~= vs.take(li as int));
            assert(vs.take(li + 1).last() == ls@[li as int]@);
            lemma_total_count_prefix(vs, p@, mode, li + 1);
        }
        let c = line_count_exec(&ls[li], p, mode);
        r = r + c as u64;
    }
    assert(vs.take(ls@.len() as int) =~= vs);
    r
}

proof fn lemma_total_count_prefix(ls: Seq<Seq<char>>, p: Seq<char>, mode: bool, i: int)
    requires
        0 <= i <= ls.len(),
    ensures
        total_count(ls.take(i), p, mode) <= total_count(ls, p, mode),
    decreases ls.len() - i,
{
    if i < ls.len() {
        lemma_total_count_prefix(ls, p, mode, i + 1);
        assert(ls.take(i + 1).drop_last() =~= ls.take(i));
    } else {
        assert(ls.take(i) =~= ls);
    }
}

/// Position where phrase `p` goes in the phrase-sorted `hs`.
fn insert_position(hs: &Vec<ClicheHit>, p: &Vec<char>) -> (r: usize)
    requires
        sorted_by_phrase(hs@),
    ensures
        r <= hs@.len(),
        forall|k: int| 0 <= k < r ==> seq_lt(#[trigger] hs@[k].entry.phrase@, p@),
        forall|k: int| r <= k < hs@.len() ==> !seq_lt(#[trigger] hs@[k].entry.phrase@, p@),
{
    let mut i: usize = 0;
    while i < hs.len()
        invariant
            sorted_by_phrase(hs@),
            i <= hs@.len(),
            forall|k: int| 0 <= k < i ==> seq_lt(#[trigger] hs@[k].entry.phrase@, p@),
        decreases hs@.len() - i,
    {
        let q = str_to_chars(hs[i].entry.phrase.as_str());
        if !chars_lt(&q, p) {
            assert forall|k: int| i <= k < hs@.len() implies !seq_lt(
                #[trigger] hs@[k].entry.phrase@,
                p@,
            ) by {
                if k > i && seq_lt(hs@[k].entry.phrase@, p@) {
                    lemma_seq_lt_transitive(hs@[i as int].entry.phrase@, hs@[k].entry.phrase@, p@);
                }
            }
            return i;
        }
        i = i + 1;
    }
    i
}

/// Some hit of `hs` reports phrase `p`.
pub open spec fn covers(hs: Seq<ClicheHit>, p: Seq<char>) -> bool {
    exists|k: int| 0 <= k < hs.len() && (#[trigger] hs[k]).entry.phrase@ == p
}

/// The phrase of `h` is carried by one of the first `n` entries.
spec fn from_first_entries(es: Seq<ClicheEntry>, h: ClicheHit, n: int) -> bool {
    exists|e: int| 0 <= e < n && (#[trigger] es[e]).phrase@ == h.entry.phrase@
}

/// What the scan loop has built after looking at the first `n` entries.
spec fn scan_progress(
    vs: Seq<Seq<char>>,
    es: Seq<ClicheEntry>,
    hs: Seq<ClicheHit>,
    mode: bool,
    n: int,
) -> bool {
    &&& sorted_by_phrase(hs)
    &&& forall|k: int| 0 <= k < hs.len() ==> is_scan_hit(vs, es, #[trigger] hs[k], mode)
    &&& forall|k: int| 0 <= k < hs.len() ==> from_first_entries(es, #[trigger] hs[k], n)
    &&& forall|e: int|
        0 <= e < n && appears(vs, (#[trigger] es[e]).phrase@) ==> covers(hs, es[e].phrase@)
}

/// Inserts `hit` into the phrase-sorted `hs`, keeping it sorted; its phrase
/// must be new.
fn insert_sorted(hs: &mut Vec<ClicheHit>, hit: ClicheHit) -> (pos: usize)
    requires
        sorted_by_phrase(old(hs)@),
        forall|k: int| 0 <= k < old(hs)@.len() ==> (#[trigger] old(hs)@[k]).entry.phrase@
            != hit.entry.phrase@,
    ensures
        pos <= old(hs)@.len(),
        final(hs)@ == old(hs)@.insert(pos as int, hit),
        sorted_by_phrase(final(hs)@),
{
    let p = str_to_chars(hit.entry.phrase.as_str());
    let pos = insert_position(hs, &p);
    let ghost old_hs = hs@;
    proof {
        assert forall|k: int| pos <= k < old_hs.len() implies seq_lt(
            p@,
            #[trigger] old_hs[k].entry.phrase@,
        ) by {
            lemma_seq_lt_total(p@, old_hs[k].entry.phrase@);
        }
    }
    hs.insert(pos, hit);
    proof {
        assert forall|i: int, j: int| 0 <= i < j < hs@.len() implies seq_lt(
            #[trigger] hs@[i].entry.phrase@,
            #[trigger] hs@[j].entry.phrase@,
        ) by {
            if j < pos {
                assert(hs@[i] == old_hs[i] && hs@[j] == old_hs[j]);
            } else if j == pos {
                assert(hs@[i] == old_hs[i]);
            } else if i < pos {
                assert(hs@[i] == old_hs[i] && hs@[j] == old_hs[j - 1]);
                lemma_seq_lt_transitive(old_hs[i].entry.phrase@, p@, old_hs[j - 1].entry.phrase@);
            } else if i == pos {
                assert(hs@[j] == old_hs[j - 1]);
            } else {
                assert(hs@[i] == old_hs[i - 1] && hs@[j] == old_hs[j - 1]);
            }
        }
    }
    pos
}

/// Inserting a correct hit for entry `n`, whose phrase is new, advances the
/// scan by one entry.
proof fn lemma_progress_insert(
    vs: Seq<Seq<char>>,
    es: Seq<ClicheEntry>,
    old_hs: Seq<ClicheHit>,
    hs: Seq<ClicheHit>,
    hit: ClicheHit,
    pos: int,
    mode: bool,
    n: int,
)
    requires
        scan_progress(vs, es, old_hs, mode, n),
        0 <= n < es.len(),
        0 <= pos <= old_hs.len(),
        hs == old_hs.insert(pos, hit),
        sorted_by_phrase(hs),
        is_scan_hit(vs, es, hit, mode),
        hit.entry.phrase@ == es[n].phrase@,
    ensures
        scan_progress(vs, es, hs, mode, n + 1),
{
    assert forall|k: int| 0 <= k < hs.len() implies is_scan_hit(vs, es, #[trigger] hs[k], mode) by {
        if k < pos {
            assert(hs[k] == old_hs[k]);
        } else if k > pos {
            assert(hs[k] == old_hs[k - 1]);
        }
    }
    assert forall|k: int| 0 <= k < hs.len() implies from_first_entries(es, #[trigger] hs[k], n + 1) by {
        if k < pos {
            assert(hs[k] == old_hs[k]);
            assert(from_first_entries(es, old_hs[k], n));
            let e = choose|e: int| 0 <= e < n && (#[trigger] es[e]).phrase@ == old_hs[k].entry.phrase@;
            assert(0 <= e < n + 1 && es[e].phrase@ == hs[k].entry.phrase@);
        } else if k > pos {
            assert(hs[k] == old_hs[k - 1]);
            assert(from_first_entries(es, old_hs[k - 1], n));
            let e = choose|e: int|
                0 <= e < n && (#[trigger] es[e]).phrase@ == old_hs[k - 1].entry.phrase@;
            assert(0 <= e < n + 1 && es[e].phrase@ == hs[k].entry.phrase@);
        } else {
            assert(hs[k] == hit);
            assert(0 <= n < n + 1 && es[n].phrase@ == hs[k].entry.phrase@);
        }
    }
    assert forall|e: int| 0 <= e < n + 1 && appears(vs, (#[trigger] es[e]).phrase@) implies covers(
        hs,
        es[e].phrase@,
    ) by {
        if e == n {
            assert(hs[pos] == hit);
        } else {
            assert(covers(old_hs, es[e].phrase@));
            let k = choose|k: int|
                0 <= k < old_hs.len() && (#[trigger] old_hs[k]).entry.phrase@ == es[e].phrase@;
            if k < pos {
                assert(hs[k] == old_hs[k]);
            } else {
                assert(hs[k + 1] == old_hs[k]);
            }
        }
    }
}

/// Skipping entry `n`, whose phrase no line holds or an earlier entry
/// carries, advances the scan by one entry.
proof fn lemma_progress_skip(
    vs: Seq<Seq<char>>,
    es: Seq<ClicheEntry>,
    hs: Seq<ClicheHit>,
    mode: bool,
    n: int,
)
    requires
        scan_progress(vs, es, hs, mode, n),
        0 <= n < es.len(),
        !appears(vs, es[n].phrase@) || exists|e: int| 0 <= e < n && (#[trigger] es[e]).phrase@ == es[n].phrase@,
    ensures
        scan_progress(vs, es, hs, mode, n + 1),
{
    assert forall|k: int| 0 <= k < hs.len() implies from_first_entries(es, #[trigger] hs[k], n + 1) by {
        assert(from_first_entries(es, hs[k], n));
        let e = choose|e: int| 0 <= e < n && (#[trigger] es[e]).phrase@ == hs[k].entry.phrase@;
        assert(0 <= e < n + 1 && es[e].phrase@ == hs[k].entry.phrase@);
    }
    assert forall|e: int| 0 <= e < n + 1 && appears(vs, (#[trigger] es[e]).phrase@) implies covers(
        hs,
        es[e].phrase@,
    ) by {
        if e == n {
            let e0 = choose|e0: int| 0 <= e0 < n && (#[trigger] es[e0]).phrase@ == es[n].phrase@;
            assert(appears(vs, es[e0].phrase@));
        }
    }
}

/// Builds the hit for entry `ei`, the first entry with its phrase, whose
/// phrase line `li` holds first.
fn make_hit(
    es: &Vec<ClicheEntry>,
    ls: &Vec<Vec<char>>,
    p: &Vec<char>,
    ei: usize,
    li: usize,
    mode: bool,
    text: Ghost<Seq<char>>,
) -> (hit: ClicheHit)
    requires
        ei < es@.len(),
        p@ == es@[ei as int].phrase@,
        first_entry_of(es@, p@, ei as int),
        first_line_of(views(ls@), p@, li as int),
        views(ls@) == lines(text@),
        text@.len() < usize::MAX,
        counts_fit(text@, es@, mode),
        forall|i: int| 0 <= i < ls@.len() ==> (#[trigger] ls@[i])@.len() < usize::MAX,
    ensures
        is_scan_hit(views(ls@), es@, hit, mode),
        hit.entry.phrase@ == es@[ei as int].phrase@,
{
    proof {
        lemma_scan_bounds(text@, p@, mode);
    }
    assert(total_count(lines(text@), es@[ei as int].phrase@, mode) <= u32::MAX);
    let total = total_count_exec(ls, p, mode, Ghost(u32::MAX as nat));
    let count: u32 = total as u32;
    // Line numbers past `u32::MAX` wrap, as a `u32` cast does.
    let line: u32 = #[verifier::truncate] ((li + 1) as u32);
    let hit = ClicheHit { entry: es[ei].clone(), count, first_line: Some(line) };
    assert(first_entry_of(es@, hit.entry.phrase@, ei as int) && hit.entry == es@[ei as int]);
    assert(first_line_of(views(ls@), hit.entry.phrase@, li as int));
    hit
}

/// Whether no phrase of `es` occurs in `text` more than `u32::MAX` times,
/// that is, whether the counts of a scan of `text` fit.
pub(crate) fn scan_counts_fit(es: &Vec<ClicheEntry>, text: &str, mode: bool) -> (r: bool)
    requires
        text@.len() < usize::MAX,
    ensures
        r == counts_fit(text@, es@, mode),
{
    let chars = str_to_chars(text);
    let ls = split_lines(&chars);
    let ghost vs = views(ls@);
    assert(vs == lines(text@));
    proof {
        lemma_lines_from_len(text@, Seq::empty());
    }
    assert forall|i: int| 0 <= i < ls@.len() implies (#[trigger] ls@[i])@.len() < usize::MAX by {
        assert(vs[i] == ls@[i]@);
        lemma_total_len_member(vs, i);
    }
    for ei in 0..es.len()
        invariant
            vs == views(ls@),
            vs == lines(text@),
            text@.len() < usize::MAX,
            forall|i: int| 0 <= i < ls@.len() ==> (#[trigger] ls@[i])@.len() < usize::MAX,
            forall|e: int| 0 <= e < ei ==> total_count(vs, (#[trigger] es@[e]).phrase@, mode) <= u32::MAX,
    {
        let p = str_to_chars(es[ei].phrase.as_str());
        proof {
            lemma_scan_bounds(text@, p@, mode);
        }
        let t = total_count_exec(&ls, &p, mode, Ghost((text@.len() + 1) as nat));
        if t > 4294967295u64 {
            assert(!counts_fit(text@, es@, mode));
            return false;
        }
    }
    true
}

/// Scans `text` line by line for the phrases of `es`: one hit per phrase
/// found, sorted by phrase. With `mode` an empty phrase counts once per char
/// boundary of every line, else never.
pub fn scan_entries(es: &Vec<ClicheEntry>, text: &str, mode: bool) -> (r: Vec<ClicheHit>)
    requires
        text@.len() < usize::MAX,
        counts_fit(text@, es@, mode),
    ensures
        is_scan_of(lines(text@), es@, r@, mode),
{
    let chars = str_to_chars(text);
    let ls = split_lines(&chars);
    let ghost vs = views(ls@);
    assert(vs == lines(text@));
    proof {
        lemma_lines_from_len(text@, Seq::empty());
    }
    assert forall|i: int| 0 <= i < ls@.len() implies (#[trigger] ls@[i])@.len() < usize::MAX by {
        assert(vs[i] == ls@[i]@);
        lemma_total_len_member(vs, i);
    }
    let mut out: Vec<ClicheHit> = Vec::new();
    for ei in 0..es.len()
        invariant
            vs == views(ls@),
            vs == lines(text@),
            text@.len() < usize::MAX,
            counts_fit(text@, es@, mode),
            forall|i: int| 0 <= i < ls@.len() ==> (#[trigger] ls@[i])@.len() < usize::MAX,
            scan_progress(vs, es@, out@, mode, ei as int),
    {
        if !phrase_seen_before(es, ei) {
            let p = str_to_chars(es[ei].phrase.as_str());
            match first_line_containing(&ls, &p) {
                Some(li) => {
                    let hit = make_hit(es, &ls, &p, ei, li, mode, Ghost(text@));
                    proof {
                        assert forall|k: int| 0 <= k < out@.len() implies (
                        #[trigger] out@[k]).entry.phrase@ != hit.entry.phrase@ by {
                            assert(from_first_entries(es@, out@[k], ei as int));
                            let e = choose|e: int|
                                0 <= e < ei && (#[trigger] es@[e]).phrase@ == out@[k].entry.phrase@;
                        }
                    }
                    let ghost old_out = out@;
                    let ghost h = hit;
                    let pos = insert_sorted(&mut out, hit);
                    proof {
                        lemma_progress_insert(vs, es@, old_out, out@, h, pos as int, mode, ei as int);
                    }
                },
                None => {
                    proof {
                        lemma_progress_skip(vs, es@, out@, mode, ei as int);
                    }
                },
            }
        } else {
            proof {
                lemma_progress_skip(vs, es@, out@, mode, ei as int);
            }
        }
    }
    out
}

proof fn lemma_total_len_member(ls: Seq<Seq<char>>, i: int)
    requires
        0 <= i < ls.len(),
    ensures
        ls[i].len() <= total_len(ls),
    decreases ls.len(),
{
    if i < ls.len() - 1 {
        lemma_total_len_member(ls.drop_last(), i);
    }
}

impl ClicheDictionary {
    /// The built-in dictionary.
    pub fn builtin() -> (r: Self)
        ensures
            r@.map_values(|e: ClicheEntry| entry_row(e)) == builtin_table(),
            r@.len() == 18,
    {
        let es = builtin_entries();
        let ghost ev = es@;
        let mut d = ClicheDictionary::default();
        d.push_many(es);
        assert(d@ =~= ev);
        assert(ev.len() == builtin_table().len());
        d
    }

    /// Adds one entry at the end.
    pub fn push(&mut self, entry: ClicheEntry)
        ensures
            final(self)@ == old(self)@.push(entry),
    {
        self.entries.push(entry);
    }

    /// Adds entries at the end, in order.
    pub fn push_many(&mut self, entries: Vec<ClicheEntry>)
        ensures
            final(self)@ == old(self)@ + entries@,
    {
        let mut entries = entries;
        self.entries.append(&mut entries);
    }

    /// The entries, in insertion order.
    pub fn entries(&self) -> (r: &[ClicheEntry])
        ensures
            r@ == self@,
    {
        self.entries.as_slice()
    }

    /// Whether the counts of a scan of `text` fit a `u32`: no phrase of the
    /// dictionary occurs in it more than `u32::MAX` times.
    pub fn scan_fits(&self, text: &str) -> (r: bool)
        requires
            text@.len() < usize::MAX,
        ensures
            r == counts_fit(text@, self@, false),
    {
        scan_counts_fit(&self.entries, text, false)
    }

    /// Finds the dictionary's phrases in `text`: one hit per phrase that some
    /// line contains, sorted by phrase, with its first entry, first line and
    /// number of occurrences over all lines (once, however many entries carry
    /// the phrase; an empty phrase counts zero).
    pub fn scan(&self, text: &str) -> (r: Vec<ClicheHit>)
        requires
            text@.len() < usize::MAX,
            counts_fit(text@, self@, false),
        ensures
            is_scan_of(lines(text@), self@, r@, false),
    {
        scan_entries(&self.entries, text, false)
    }
}

/// Builds one entry.
pub fn entry(
    phrase: &str,
    category: ClicheCategory,
    severity: u8,
    reason: &str,
    suggestion: &str,
) -> (r: ClicheEntry)
    ensures
        r.phrase@ == phrase@,
        r.category == category,
        r.severity == severity,
        r.reason@ == reason@,
        r.suggestion@ == suggestion@,
{
    ClicheEntry {
        phrase: string_of(phrase),
        category,
        severity,
        reason: string_of(reason),
        suggestion: string_of(suggestion),
    }
}

/// The built-in table: phrase, category, severity, reason, suggestion.
pub open spec fn builtin_table() -> Seq<(Seq<char>, ClicheCategory, u8, Seq<char>, Seq<char>)> {
    seq![
        ("眼神变得深邃"@, ClicheCategory::AbstractDescription, 3u8, "AI 味最重的描写之一"@, "换成具体动作或物件，例如「他盯着烛火，把手按在剑柄上」。"@),
        ("心中涌起一股"@, ClicheCategory::AbstractDescription, 3u8, "典型 AI 抒情模板"@, "用身体反应替代：「胸口发紧 / 手心出汗 / 喉咙干涩」。"@),
        ("心中升起一阵"@, ClicheCategory::AbstractDescription, 3u8, "同上的 AI 抒情模板"@, "改成具体的身体感受或环境反应。"@),
        ("仿佛"@, ClicheCategory::AbstractDescription, 2u8, "网络小说里常常被过度使用"@, "如果后接的是直观类比可保留，否则换成「像 / 就好像」。"@),
        ("宛如"@, ClicheCategory::AbstractDescription, 2u8, "老派抒情词，网文里很 AI"@, "换成更具体的比喻或直接写感受。"@),
        ("似乎"@, ClicheCategory::AbstractDescription, 1u8, "软化判断"@, "如果不是有意营造模糊感，可以直接断言。"@),
        ("然而"@, ClicheCategory::Transition, 1u8, "非常常见的转折词，过度使用显得 AI"@, "考虑删除、换成「可是 / 不过 / 而 / 但」，或拆成两句。"@),
        ("却"@, ClicheCategory::Transition, 1u8, "用得太多会显得 LLM"@, "能删则删；不能删的可以改用「偏偏 / 偏 / 谁知」。"@),
        ("我不知道"@, ClicheCategory::FormulaicDialogue, 2u8, "角色最常被 LLM 给的台词之一"@, "用具体疑问替代：「他真的会来吗 / 我们还能回得去吗」。"@),
        ("我该怎么办"@, ClicheCategory::FormulaicDialogue, 3u8, "经典 AI 角色台词"@, "用具体的行动意向替代：「先去禀报师父 / 把这件事压下去」。"@),
        ("这一切都是命中注定"@, ClicheCategory::PhilosophicCliche, 3u8, "AI 鸡汤"@, "删除，或者换成角色个人化的感慨。"@),
        ("命运的车轮"@, ClicheCategory::PhilosophicCliche, 3u8, "陈词滥调"@, "删除整段。"@),
        ("种种迹象表明"@, ClicheCategory::OverExplanation, 2u8, "AI 旁白惯用"@, "直接写「她注意到了 X / Y / Z 三件事」。"@),
        ("不难看出"@, ClicheCategory::OverExplanation, 2u8, "AI 旁白惯用"@, "删除，保留事实即可。"@),
        ("这让他明白了一个道理"@, ClicheCategory::PhilosophicCliche, 3u8, "AI 总结句"@, "删除；让行动 / 结果说话。"@),
        ("非常"@, ClicheCategory::AdverbOveruse, 1u8, "副词替代具体描写"@, "换成具体的动作或程度描写。"@),
        ("极其"@, ClicheCategory::AdverbOveruse, 1u8, "副词替代具体描写"@, "换成具体的动作或程度描写。"@),
        ("无比"@, ClicheCategory::AdverbOveruse, 1u8, "副词替代具体描写"@, "换成具体的动作或程度描写。"@),
    ]
}

/// The fields of an entry as a row of that table.
pub open spec fn entry_row(e: ClicheEntry) -> (Seq<char>, ClicheCategory, u8, Seq<char>, Seq<char>) {
    (e.phrase@, e.category, e.severity, e.reason@, e.suggestion@)
}

/// The built-in entries, grouped by theme.
pub fn builtin_entries() -> (r: Vec<ClicheEntry>)
    ensures
        r@.map_values(|e: ClicheEntry| entry_row(e)) == builtin_table(),
{
    let mut v: Vec<ClicheEntry> = Vec::new();
    // Abstract description
    v.push(entry("眼神变得深邃", ClicheCategory::AbstractDescription, 3, "AI 味最重的描写之一",
        "换成具体动作或物件，例如「他盯着烛火，把手按在剑柄上」。"));
    v.push(entry("心中涌起一股", ClicheCategory::AbstractDescription, 3, "典型 AI 抒情模板",
        "用身体反应替代：「胸口发紧 / 手心出汗 / 喉咙干涩」。"));
    v.push(entry("心中升起一阵", ClicheCategory::AbstractDescription, 3, "同上的 AI 抒情模板",
        "改成具体的身体感受或环境反应。"));
    v.push(entry("仿佛", ClicheCategory::AbstractDescription, 2, "网络小说里常常被过度使用",
        "如果后接的是直观类比可保留，否则换成「像 / 就好像」。"));
    v.push(entry("宛如", ClicheCategory::AbstractDescription, 2, "老派抒情词，网文里很 AI",
        "换成更具体的比喻或直接写感受。"));
    v.push(entry("似乎", ClicheCategory::AbstractDescription, 1, "软化判断",
        "如果不是有意营造模糊感，可以直接断言。"));
    // Stock transitions
    v.push(entry("然而", ClicheCategory::Transition, 1, "非常常见的转折词，过度使用显得 AI",
        "考虑删除、换成「可是 / 不过 / 而 / 但」，或拆成两句。"));
    v.push(entry("却", ClicheCategory::Transition, 1, "用得太多会显得 LLM",
        "能删则删；不能删的可以改用「偏偏 / 偏 / 谁知」。"));
    // Formulaic dialogue
    v.push(entry("我不知道", ClicheCategory::FormulaicDialogue, 2, "角色最常被 LLM 给的台词之一",
        "用具体疑问替代：「他真的会来吗 / 我们还能回得去吗」。"));
    v.push(entry("我该怎么办", ClicheCategory::FormulaicDialogue, 3, "经典 AI 角色台词",
        "用具体的行动意向替代：「先去禀报师父 / 把这件事压下去」。"));
    v.push(entry("这一切都是命中注定", ClicheCategory::PhilosophicCliche, 3, "AI 鸡汤",
        "删除，或者换成角色个人化的感慨。"));
    v.push(entry("命运的车轮", ClicheCategory::PhilosophicCliche, 3, "陈词滥调", "删除整段。"));
    // Parallelism / philosophy
    v.push(entry("种种迹象表明", ClicheCategory::OverExplanation, 2, "AI 旁白惯用",
        "直接写「她注意到了 X / Y / Z 三件事」。"));
    v.push(entry("不难看出", ClicheCategory::OverExplanation, 2, "AI 旁白惯用", "删除，保留事实即可。"));
    v.push(entry("这让他明白了一个道理", ClicheCategory::PhilosophicCliche, 3, "AI 总结句",
        "删除；让行动 / 结果说话。"));
    // Adverb overuse
    v.push(entry("非常", ClicheCategory::AdverbOveruse, 1, "副词替代具体描写",
        "换成具体的动作或程度描写。"));
    v.push(entry("极其", ClicheCategory::AdverbOveruse, 1, "副词替代具体描写",
        "换成具体的动作或程度描写。"));
    v.push(entry("无比", ClicheCategory::AdverbOveruse, 1, "副词替代具体描写",
        "换成具体的动作或程度描写。"));
    assert(v@.map_values(|e: ClicheEntry| entry_row(e)) =~= builtin_table());
    v
}

} // verus!
