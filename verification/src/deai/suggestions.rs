//! Turns cliché hits into rewrite instructions for the model, ordered by the
//! line where each phrase first appears.
use vstd::prelude::*;

use super::dictionary::ClicheHit;

verus! {

/// One rewrite instruction.
#[derive(Debug)]
pub struct Suggestion {
    /// The cliché.
    pub phrase: String,
    /// How often it occurs.
    pub count: u32,
    /// 1-based line of its first occurrence.
    pub first_line: Option<u32>,
    /// Severity 1-3.
    pub severity: u8,
    /// Rewrite advice for the model (Chinese).
    pub instruction: String,
    /// Why the phrase is a cliché.
    pub reason: String,
}

/// The instruction made from one hit.
pub open spec fn suggestion_of(h: ClicheHit) -> Suggestion {
    Suggestion {
        phrase: h.entry.phrase,
        count: h.count,
        first_line: h.first_line,
        severity: h.entry.severity,
        instruction: h.entry.suggestion,
        reason: h.entry.reason,
    }
}

/// Sort key: the first line, with "unknown" after every known line.
pub open spec fn line_key(s: Suggestion) -> int {
    match s.first_line {
        Some(n) => n as int,
        None => u32::MAX as int,
    }
}

/// `out` is `src` stably sorted by `line_key` through the permutation `perm`:
/// `out[k]` is `src[perm[k]]`, the keys ascend, and equal keys keep their
/// order.
pub open spec fn stable_perm(src: Seq<Suggestion>, out: Seq<Suggestion>, perm: Seq<int>) -> bool {
    &&& perm.len() == src.len()
    &&& out.len() == src.len()
    &&& forall|k: int| 0 <= k < perm.len() ==> 0 <= #[trigger] perm[k] < src.len()
    &&& forall|k: int| 0 <= k < out.len() ==> #[trigger] out[k] == src[perm[k]]
    &&& forall|k: int, l: int| 0 <= k < l < perm.len() ==> #[trigger] perm[k] != #[trigger] perm[l]
    &&& forall|k: int, l: int|
        0 <= k < l < out.len() ==> line_key(#[trigger] out[k]) <= line_key(#[trigger] out[l])
    &&& forall|k: int, l: int|
        0 <= k < l < out.len() && line_key(#[trigger] out[k]) == line_key(#[trigger] out[l])
            ==> perm[k] < perm[l]
}

/// `out` is a stable sort of `src` by first line.
pub open spec fn is_stable_sort_by_line(src: Seq<Suggestion>, out: Seq<Suggestion>) -> bool {
    exists|perm: Seq<int>| stable_perm(src, out, perm)
}

/// The instructions of all hits.
pub open spec fn suggestions_of(hs: Seq<ClicheHit>) -> Seq<Suggestion> {
    Seq::new(hs.len(), |i: int| suggestion_of(hs[i]))
}

fn make_suggestion(h: &ClicheHit) -> (s: Suggestion)
    ensures
        s == suggestion_of(*h),
{
    Suggestion {
        phrase: h.entry.phrase.clone(),
        count: h.count,
        first_line: h.first_line,
        severity: h.entry.severity,
        instruction: h.entry.suggestion.clone(),
        reason: h.entry.reason.clone(),
    }
}

fn key_of(s: &Suggestion) -> (k: u32)
    ensures
        k == line_key(*s),
{
    match s.first_line {
        Some(n) => n,
        None => u32::MAX,
    }
}

/// One instruction per hit, stably sorted by first line (unknown last).
pub fn build_suggestions(hits: &[ClicheHit]) -> (out: Vec<Suggestion>)
    ensures
        is_stable_sort_by_line(suggestions_of(hits@), out@),
{
    let ghost src = suggestions_of(hits@);
    let mut out: Vec<Suggestion> = Vec::new();
    let ghost mut perm: Seq<int> = Seq::empty();
    for i in 0..hits.len()
        invariant
            src == suggestions_of(hits@),
            stable_perm(src.take(i as int), out@, perm),
            forall|k: int| 0 <= k < perm.len() ==> #[trigger] perm[k] < i,
    {
        let s = make_suggestion(&hits[i]);
        let key = key_of(&s);
        let mut pos: usize = 0;
        while pos < out.len() && key_of(&out[pos]) <= key
            invariant
                pos <= out@.len(),
                forall|k: int| 0 <= k < pos ==> line_key(#[trigger] out@[k]) <= key,
            decreases out@.len() - pos,
        {
            pos = pos + 1;
        }
        let ghost old_out = out@;
        let ghost old_perm = perm;
        proof {
            assert forall|k: int| pos <= k < old_out.len() implies line_key(#[trigger] old_out[k])
                > key by {
                if k > pos {
                    assert(line_key(old_out[pos as int]) <= line_key(old_out[k]));
                }
            }
        }
        out.insert(pos, s);
        proof {
            perm = old_perm.insert(pos as int, i as int);
            let t = src.take(i + 1);
            assert(t[i as int] == s);
            assert forall|k: int| 0 <= k < out@.len() implies #[trigger] out@[k] == t[perm[k]] by {
                if k < pos {
                    assert(out@[k] == old_out[k] && perm[k] == old_perm[k]);
                    assert(src.take(i as int)[old_perm[k]] == t[old_perm[k]]);
                } else if k > pos {
                    assert(out@[k] == old_out[k - 1] && perm[k] == old_perm[k - 1]);
                    assert(src.take(i as int)[old_perm[k - 1]] == t[old_perm[k - 1]]);
                }
            }
            assert forall|k: int, l: int| 0 <= k < l < perm.len() implies #[trigger] perm[k]
                != #[trigger] perm[l] by {
                if k < pos && l < pos {
                } else if k < pos && l == pos {
                } else if k < pos {
                    assert(perm[l] == old_perm[l - 1]);
                } else if k == pos {
                    assert(perm[l] == old_perm[l - 1]);
                } else {
                    assert(perm[k] == old_perm[k - 1] && perm[l] == old_perm[l - 1]);
                }
            }
            assert forall|k: int, l: int| 0 <= k < l < out@.len() implies line_key(
                #[trigger] out@[k],
            ) <= line_key(#[trigger] out@[l]) by {
                if l < pos {
                } else if l == pos {
                } else if k < pos {
                    assert(out@[l] == old_out[l - 1]);
                } else if k == pos {
                    assert(out@[l] == old_out[l - 1]);
                } else {
                    assert(out@[k] == old_out[k - 1] && out@[l] == old_out[l - 1]);
                }
            }
            assert forall|k: int, l: int|
                0 <= k < l < out@.len() && line_key(#[trigger] out@[k]) == line_key(
                    #[trigger] out@[l],
                ) implies perm[k] < perm[l] by {
                if l < pos {
                } else if l == pos {
                    assert(perm[k] == old_perm[k]);
                } else if k < pos {
                    assert(out@[l] == old_out[l - 1]);
                } else if k == pos {
                    assert(out@[l] == old_out[l - 1]);
                } else {
                    assert(out@[k] == old_out[k - 1] && out@[l] == old_out[l - 1]);
                    assert(perm[k] == old_perm[k - 1] && perm[l] == old_perm[l - 1]);
                }
            }
        }
    }
    assert(src.take(hits@.len() as int) =~= src);
    out
}

} // verus!
