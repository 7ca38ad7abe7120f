//! The integer side of the "humanity" score: the weighted penalty of the
//! hits, the per-category totals, and the clamp of the scaled penalty into
//! 0-100. (The length factor that scales the penalty for chapters longer
//! than 3000 chars is a float computation done by the caller.)
use vstd::prelude::*;

use super::dictionary::{
    category_at, category_index, counts_fit, is_scan_of, ClicheCategory, ClicheDictionary, ClicheHit,
};
use crate::text::lines;

verus! {

/// Penalty per occurrence: 1 for severity 1, 2 for severity 2, 4 for
/// severity 3, and 1 for any other severity.
pub open spec fn severity_weight(s: u8) -> int {
    if s == 2 {
        2
    } else if s == 3 {
        4
    } else {
        1
    }
}

/// The weighted penalty of `hs`: every occurrence costs its severity weight.
pub open spec fn penalty_of(hs: Seq<ClicheHit>) -> int
    decreases hs.len(),
{
    if hs.len() == 0 {
        0
    } else {
        penalty_of(hs.drop_last()) + severity_weight(hs.last().entry.severity) * hs.last().count
    }
}

/// Total occurrences over `hs`.
pub open spec fn count_sum(hs: Seq<ClicheHit>) -> nat
    decreases hs.len(),
{
    if hs.len() == 0 {
        0
    } else {
        count_sum(hs.drop_last()) + hs.last().count as nat
    }
}

/// Occurrences over the hits of category `c`.
pub open spec fn category_total(hs: Seq<ClicheHit>, c: ClicheCategory) -> nat
    decreases hs.len(),
{
    if hs.len() == 0 {
        0
    } else {
        category_total(hs.drop_last(), c) + if hs.last().entry.category == c {
            hs.last().count as nat
        } else {
            0nat
        }
    }
}

/// Some hit has category `c`.
pub open spec fn has_category(hs: Seq<ClicheHit>, c: ClicheCategory) -> bool {
    exists|k: int| 0 <= k < hs.len() && (#[trigger] hs[k]).entry.category == c
}

/// The per-category totals for the categories at positions `i..8` that occur
/// in `hs`, in category order (the entries of a map keyed by category).
pub open spec fn category_totals_from(hs: Seq<ClicheHit>, i: int) -> Seq<(ClicheCategory, u32)>
    decreases 8 - i,
{
    if i < 0 || i >= 8 {
        Seq::empty()
    } else if has_category(hs, category_at(i)) {
        seq![(category_at(i), category_total(hs, category_at(i)) as u32)]
            + category_totals_from(hs, i + 1)
    } else {
        category_totals_from(hs, i + 1)
    }
}

/// `100 - penalty`, clamped into 0-100.
pub open spec fn humanity_of(penalty: int) -> int {
    if 100 - penalty < 0 {
        0
    } else if 100 - penalty > 100 {
        100
    } else {
        100 - penalty
    }
}

/// Score of a chapter: 0-100, higher reads more human.
#[derive(Debug)]
pub struct ChapterAiScore {
    /// 0-100; higher is more human.
    pub humanity: u8,
    /// Number of distinct phrases hit.
    pub distinct_hits: usize,
    /// Total occurrences.
    pub total_occurrences: u32,
    /// Occurrences per category, in category order.
    pub by_category: Vec<(ClicheCategory, u32)>,
    /// The hits.
    pub hits: Vec<ClicheHit>,
}

proof fn lemma_penalty_prefix(hs: Seq<ClicheHit>, i: int)
    requires
        0 <= i <= hs.len(),
    ensures
        0 <= penalty_of(hs.take(i)) <= penalty_of(hs),
    decreases hs.len() - i,
{
    if i < hs.len() {
        lemma_penalty_prefix(hs, i + 1);
        assert(hs.take(i + 1).drop_last() =~= hs.take(i));
    } else {
        assert(hs.take(i) =~= hs);
    }
    lemma_penalty_nonneg(hs.take(i));
}

proof fn lemma_penalty_nonneg(hs: Seq<ClicheHit>)
    ensures
        penalty_of(hs) >= 0,
    decreases hs.len(),
{
    if hs.len() > 0 {
        lemma_penalty_nonneg(hs.drop_last());
    }
}

/// The weighted penalty of the hits.
pub fn raw_penalty(hits: &Vec<ClicheHit>) -> (r: i32)
    requires
        penalty_of(hits@) <= i32::MAX,
    ensures
        r == penalty_of(hits@),
{
    let mut r: i32 = 0;
    for i in 0..hits.len()
        invariant
            penalty_of(hits@) <= i32::MAX,
            r == penalty_of(hits@.take(i as int)),
    {
        let ghost last = hits@[i as int];
        proof {
            lemma_penalty_prefix(hits@, i + 1);
            lemma_penalty_nonneg(hits@.take(i as int));
            assert(hits@.take(i + 1).drop_last() =~= hits@.take(i as int));
            assert(hits@.take(i + 1).last() == last);
            let w = severity_weight(last.entry.severity);
            assert(w * last.count <= i32::MAX);
            assert(last.count <= i32::MAX) by (nonlinear_arith)
                requires
                    w * last.count <= i32::MAX,
                    w >= 1,
                    last.count >= 0,
            ;
        }
        let weight: i32 = match hits[i].entry.severity {
            1 => 1,
            2 => 2,
            3 => 4,
            _ => 1,
        };
        let c = hits[i].count as i32;
        r = r + weight * c;
    }
    assert(hits@.take(hits@.len() as int) =~= hits@);
    r
}

proof fn lemma_count_sum_prefix(hs: Seq<ClicheHit>, i: int)
    requires
        0 <= i <= hs.len(),
    ensures
        count_sum(hs.take(i)) <= count_sum(hs),
    decreases hs.len() - i,
{
    if i < hs.len() {
        lemma_count_sum_prefix(hs, i + 1);
        assert(hs.take(i + 1).drop_last() =~= hs.take(i));
    } else {
        assert(hs.take(i) =~= hs);
    }
}

/// Total occurrences of the hits.
pub fn total_occurrences(hits: &Vec<ClicheHit>) -> (r: u32)
    requires
        count_sum(hits@) <= u32::MAX,
    ensures
        r == count_sum(hits@),
{
    let mut r: u32 = 0;
    for i in 0..hits.len()
        invariant
            count_sum(hits@) <= u32::MAX,
            r == count_sum(hits@.take(i as int)),
    {
        proof {
            lemma_count_sum_prefix(hits@, i + 1);
            assert(hits@.take(i + 1).drop_last() =~= hits@.take(i as int));
        }
        r = r + hits[i].count;
    }
    assert(hits@.take(hits@.len() as int) =~= hits@);
    r
}

/// The weighted penalty of the hits, or `None` when it is past `i32::MAX`.
pub fn checked_penalty(hits: &Vec<ClicheHit>) -> (r: Option<i32>)
    ensures
        match r {
            Some(p) => p == penalty_of(hits@),
            None => penalty_of(hits@) > i32::MAX,
        },
{
    let mut acc: i64 = 0;
    for i in 0..hits.len()
        invariant
            acc == penalty_of(hits@.take(i as int)),
            0 <= acc <= i32::MAX,
    {
        let ghost last = hits@[i as int];
        proof {
            assert(hits@.take(i + 1).drop_last() =~= hits@.take(i as int));
            assert(hits@.take(i + 1).last() == last);
        }
        let weight: i64 = match hits[i].entry.severity {
            1 => 1,
            2 => 2,
            3 => 4,
            _ => 1,
        };
        assert(weight == severity_weight(last.entry.severity));
        let c: i64 = hits[i].count as i64;
        assert(weight * c <= 4 * 4294967295) by (nonlinear_arith)
            requires
                1 <= weight <= 4,
                0 <= c <= 4294967295,
        ;
        acc = acc + weight * c;
        if acc > 2147483647i64 {
            proof {
                lemma_penalty_prefix(hits@, i + 1);
            }
            return None;
        }
    }
    assert(hits@.take(hits@.len() as int) =~= hits@);
    Some(acc as i32)
}

/// Total occurrences of the hits, or `None` when it is past `u32::MAX`.
pub fn checked_total(hits: &Vec<ClicheHit>) -> (r: Option<u32>)
    ensures
        match r {
            Some(t) => t == count_sum(hits@),
            None => count_sum(hits@) > u32::MAX,
        },
{
    let mut acc: u64 = 0;
    for i in 0..hits.len()
        invariant
            acc == count_sum(hits@.take(i as int)),
            acc <= u32::MAX,
    {
        proof {
            assert(hits@.take(i + 1).drop_last() =~= hits@.take(i as int));
        }
        acc = acc + hits[i].count as u64;
        if acc > 4294967295u64 {
            proof {
                lemma_count_sum_prefix(hits@, i + 1);
            }
            return None;
        }
    }
    assert(hits@.take(hits@.len() as int) =~= hits@);
    Some(acc as u32)
}

proof fn lemma_category_total_bound(hs: Seq<ClicheHit>, c: ClicheCategory)
    ensures
        category_total(hs, c) <= count_sum(hs),
    decreases hs.len(),
{
    if hs.len() > 0 {
        lemma_category_total_bound(hs.drop_last(), c);
    }
}

/// Total occurrences of category `c`, and whether any hit has it.
fn category_total_exec(hits: &Vec<ClicheHit>, c: ClicheCategory) -> (r: (bool, u32))
    requires
        count_sum(hits@) <= u32::MAX,
    ensures
        r.0 == has_category(hits@, c),
        r.1 == category_total(hits@, c),
{
    let mut found = false;
    let mut total: u32 = 0;
    for i in 0..hits.len()
        invariant
            count_sum(hits@) <= u32::MAX,
            total == category_total(hits@.take(i as int), c),
            found == exists|k: int| 0 <= k < i && (#[trigger] hits@[k]).entry.category == c,
    {
        proof {
            lemma_category_total_bound(hits@.take(i + 1), c);
            lemma_count_sum_prefix(hits@, i + 1);
            assert(hits@.take(i + 1).drop_last() =~= hits@.take(i as int));
        }
        if hits[i].entry.category == c {
            total = total + hits[i].count;
            found = true;
        }
    }
    assert(hits@.take(hits@.len() as int) =~= hits@);
    (found, total)
}

/// Occurrences per category, for the categories that occur, in category order.
pub fn category_totals(hits: &Vec<ClicheHit>) -> (r: Vec<(ClicheCategory, u32)>)
    requires
        count_sum(hits@) <= u32::MAX,
    ensures
        r@ == category_totals_from(hits@, 0),
{
    let mut r: Vec<(ClicheCategory, u32)> = Vec::new();
    let mut i: usize = 0;
    while i < 8
        invariant
            i <= 8,
            count_sum(hits@) <= u32::MAX,
            category_totals_from(hits@, 0) == r@ + category_totals_from(hits@, i as int),
        decreases 8 - i,
    {
        let c = ClicheCategory::at(i);
        let (found, total) = category_total_exec(hits, c);
        if found {
            let ghost before = r@;
            r.push((c, total));
            assert(r@ =~= before + seq![(c, total)]);
            assert(category_totals_from(hits@, i as int) == seq![(c, total)]
                + category_totals_from(hits@, i + 1));
            assert(before + (seq![(c, total)] + category_totals_from(hits@, i + 1)) =~= r@
                + category_totals_from(hits@, i + 1));
        }
        i = i + 1;
    }
    assert(r@ + category_totals_from(hits@, 8) =~= r@);
    r
}

/// `100 - penalty` clamped into 0-100.
pub fn humanity_for_penalty(penalty: i32) -> (r: u8)
    ensures
        r == humanity_of(penalty as int),
{
    let h: i64 = 100 - penalty as i64;
    if h < 0 {
        0
    } else if h > 100 {
        100
    } else {
        h as u8
    }
}

impl ChapterAiScore {
    /// Assembles a score from the scan hits and the (length-scaled)
    /// penalty.
    pub fn from_hits(hits: Vec<ClicheHit>, penalty: i32) -> (r: ChapterAiScore)
        requires
            count_sum(hits@) <= u32::MAX,
        ensures
            r.humanity == humanity_of(penalty as int),
            r.distinct_hits == hits@.len(),
            r.total_occurrences == count_sum(hits@),
            r.by_category@ == category_totals_from(hits@, 0),
            forall|j: int, k: int|
                0 <= j < k < r.by_category@.len() ==> category_index(#[trigger] r.by_category@[j].0)
                    < category_index(#[trigger] r.by_category@[k].0),
            totals_sum(r.by_category@) == r.total_occurrences,
            r.hits@ == hits@,
    {
        proof {
            law_category_totals(hits@);
        }
        let humanity = humanity_for_penalty(penalty);
        let total = total_occurrences(&hits);
        let by_category = category_totals(&hits);
        ChapterAiScore {
            humanity,
            distinct_hits: hits.len(),
            total_occurrences: total,
            by_category,
            hits,
        }
    }
}

/// The score of `text` with the penalty taken as it is: the score of a
/// chapter of at most 3000 chars, where the length factor is 1. The scan
/// is that of `ClicheDictionary::scan`.
pub fn score_unscaled(text: &str, dict: &ClicheDictionary) -> (r: ChapterAiScore)
    requires
        text@.len() < usize::MAX,
        counts_fit(text@, dict@, false),
        forall|hs: Seq<ClicheHit>|
            #[trigger] is_scan_of(lines(text@), dict@, hs, false) ==> penalty_of(hs) <= i32::MAX
                && count_sum(hs) <= u32::MAX,
    ensures
        exists|hs: Seq<ClicheHit>|
            #[trigger] is_scan_of(lines(text@), dict@, hs, false) && r.hits@ == hs
                && r.humanity == humanity_of(penalty_of(hs)) && r.distinct_hits == hs.len()
                && r.total_occurrences == count_sum(hs) && r.by_category@
                == category_totals_from(hs, 0),
        forall|j: int, k: int|
            0 <= j < k < r.by_category@.len() ==> category_index(#[trigger] r.by_category@[j].0)
                < category_index(#[trigger] r.by_category@[k].0),
        totals_sum(r.by_category@) == r.total_occurrences,
{
    let hits = dict.scan(text);
    let ghost hs = hits@;
    let penalty = raw_penalty(&hits);
    let r = ChapterAiScore::from_hits(hits, penalty);
    assert(is_scan_of(lines(text@), dict@, hs, false));
    r
}

/// A chapter with no hits has no penalty and scores 100.
pub proof fn law_no_hits_scores_full(hs: Seq<ClicheHit>)
    requires
        hs.len() == 0,
    ensures
        penalty_of(hs) == 0,
        humanity_of(penalty_of(hs)) == 100,
{
}

/// Every hit with an occurrence lowers the unscaled score below 100.
pub proof fn law_any_occurrence_lowers_score(hs: Seq<ClicheHit>)
    requires
        count_sum(hs) > 0,
    ensures
        penalty_of(hs) >= count_sum(hs),
        humanity_of(penalty_of(hs)) < 100,
    decreases hs.len(),
{
    lemma_penalty_at_least_count(hs);
}

proof fn lemma_penalty_at_least_count(hs: Seq<ClicheHit>)
    ensures
        penalty_of(hs) >= count_sum(hs),
    decreases hs.len(),
{
    if hs.len() > 0 {
        lemma_penalty_at_least_count(hs.drop_last());
        assert(severity_weight(hs.last().entry.severity) >= 1);
        assert(severity_weight(hs.last().entry.severity) * hs.last().count >= hs.last().count)
            by (nonlinear_arith)
            requires
                severity_weight(hs.last().entry.severity) >= 1,
        ;
    }
}

/// Sum of the counts of a list of per-category totals.
pub open spec fn totals_sum(ts: Seq<(ClicheCategory, u32)>) -> nat
    decreases ts.len(),
{
    if ts.len() == 0 {
        0
    } else {
        ts[0].1 as nat + totals_sum(ts.drop_first())
    }
}

/// Occurrences of the categories at positions `i..8`.
spec fn categories_sum(hs: Seq<ClicheHit>, i: int) -> nat
    decreases 8 - i,
{
    if i < 0 || i >= 8 {
        0
    } else {
        category_total(hs, category_at(i)) + categories_sum(hs, i + 1)
    }
}

proof fn lemma_category_total_absent(hs: Seq<ClicheHit>, c: ClicheCategory)
    requires
        !has_category(hs, c),
    ensures
        category_total(hs, c) == 0,
    decreases hs.len(),
{
    if hs.len() > 0 {
        assert(hs.last() == hs[hs.len() - 1]);
        assert(!has_category(hs.drop_last(), c)) by {
            if has_category(hs.drop_last(), c) {
                let k = choose|k: int|
                    0 <= k < hs.drop_last().len() && (#[trigger] hs.drop_last()[k]).entry.category == c;
                assert(hs[k] == hs.drop_last()[k]);
            }
        }
        lemma_category_total_absent(hs.drop_last(), c);
    }
}

/// Dropping the last hit takes its count off the categories from `i` on
/// when its category is one of them.
proof fn lemma_categories_sum_drop_last(hs: Seq<ClicheHit>, i: int)
    requires
        hs.len() > 0,
        0 <= i <= 8,
    ensures
        categories_sum(hs, i) == categories_sum(hs.drop_last(), i) + if i <= category_index(
            hs.last().entry.category,
        ) {
            hs.last().count as nat
        } else {
            0nat
        },
    decreases 8 - i,
{
    if i < 8 {
        lemma_categories_sum_drop_last(hs, i + 1);
        assert(category_at(i) == hs.last().entry.category <==> category_index(hs.last().entry.category)
            == i);
    }
}

/// The occurrences of all eight categories are all the occurrences.
proof fn lemma_categories_sum_all(hs: Seq<ClicheHit>)
    ensures
        categories_sum(hs, 0) == count_sum(hs),
    decreases hs.len(),
{
    if hs.len() == 0 {
        assert forall|i: int| 0 <= i <= 8 implies #[trigger] categories_sum(hs, i) == 0 by {
            lemma_categories_sum_empty(hs, i);
        }
    } else {
        lemma_categories_sum_all(hs.drop_last());
        lemma_categories_sum_drop_last(hs, 0);
    }
}

proof fn lemma_categories_sum_empty(hs: Seq<ClicheHit>, i: int)
    requires
        hs.len() == 0,
        0 <= i <= 8,
    ensures
        categories_sum(hs, i) == 0,
    decreases 8 - i,
{
    if i < 8 {
        lemma_categories_sum_empty(hs, i + 1);
    }
}

/// The totals from position `i` on: categories at positions `i..8`,
/// strictly ascending, adding up to their occurrences.
proof fn lemma_category_totals_from(hs: Seq<ClicheHit>, i: int)
    requires
        count_sum(hs) <= u32::MAX,
        0 <= i <= 8,
    ensures
        forall|k: int|
            0 <= k < category_totals_from(hs, i).len() ==> i <= category_index(
                #[trigger] category_totals_from(hs, i)[k].0,
            ) < 8,
        forall|j: int, k: int|
            0 <= j < k < category_totals_from(hs, i).len() ==> category_index(
                #[trigger] category_totals_from(hs, i)[j].0,
            ) < category_index(#[trigger] category_totals_from(hs, i)[k].0),
        totals_sum(category_totals_from(hs, i)) == categories_sum(hs, i),
    decreases 8 - i,
{
    if i < 8 {
        lemma_category_totals_from(hs, i + 1);
        let c = category_at(i);
        let rest = category_totals_from(hs, i + 1);
        assert(category_index(c) == i);
        if has_category(hs, c) {
            lemma_category_total_bound(hs, c);
            let x = (c, category_total(hs, c) as u32);
            let ts = seq![x] + rest;
            assert(category_totals_from(hs, i) == ts);
            assert(ts.drop_first() =~= rest);
            assert(ts[0] == x);
            assert forall|k: int| 1 <= k < ts.len() implies ts[k] == rest[k - 1] by {}
            assert forall|k: int| 0 <= k < ts.len() implies i <= category_index(#[trigger] ts[k].0) < 8 by {
                if k > 0 {
                    assert(ts[k] == rest[k - 1]);
                }
            }
            assert forall|j: int, k: int| 0 <= j < k < ts.len() implies category_index(
                #[trigger] ts[j].0,
            ) < category_index(#[trigger] ts[k].0) by {
                assert(ts[k] == rest[k - 1]);
                if j > 0 {
                    assert(ts[j] == rest[j - 1]);
                }
            }
        } else {
            lemma_category_total_absent(hs, c);
        }
    }
}

/// The per-category totals of a score list each category at most once, in
/// strictly ascending category order, and add up to the total occurrences.
pub proof fn law_category_totals(hs: Seq<ClicheHit>)
    requires
        count_sum(hs) <= u32::MAX,
    ensures
        forall|j: int, k: int|
            0 <= j < k < category_totals_from(hs, 0).len() ==> category_index(
                #[trigger] category_totals_from(hs, 0)[j].0,
            ) < category_index(#[trigger] category_totals_from(hs, 0)[k].0),
        totals_sum(category_totals_from(hs, 0)) == count_sum(hs),
{
    lemma_category_totals_from(hs, 0);
    lemma_categories_sum_all(hs);
}

} // verus!
