//! The synopsis store: one synopsis per chapter number, in a `BTreeMap`
//! keyed by chapter, and listed in ascending chapter order.
use vstd::prelude::*;

use super::generator::{ChapterSynopsis, Timestamp};
use vstd::std_specs::cmp::OrdSpec;
use vstd::std_specs::iter::IteratorSpec;
use crate::text::{chars_to_string, decimal_pad3, push_decimal_pad3, push_str};

verus! {

#[verifier::external_type_specification]
#[verifier::external_body]
pub struct ExIoError(std::io::Error);

#[verifier::external_type_specification]
#[verifier::external_body]
pub struct ExJsonError(serde_json::Error);

/// Errors of the synopsis store.
#[derive(Debug)]
pub enum SynopsisError {
    Io(std::io::Error),
    Serialize(serde_json::Error),
    /// Chapter numbers start at one.
    InvalidChapterNumber(u32),
}

/// Directory under the project root that holds one file per synopsis.
pub const SYNOPSIS_DIR: &'static str = ".novelwhale/synopses";

/// The file name of a chapter's synopsis, `ch_NNN.json`.
pub fn synopsis_filename(chapter_number: u32) -> (r: String)
    ensures
        r@ == "ch_"@ + decimal_pad3(chapter_number as nat) + ".json"@,
{
    let mut v: Vec<char> = Vec::new();
    push_str(&mut v, "ch_");
    push_decimal_pad3(&mut v, chapter_number as u64);
    push_str(&mut v, ".json");
    chars_to_string(&v)
}

/// Chapter numbers strictly increase along `s`.
pub open spec fn increasing(s: Seq<ChapterSynopsis>) -> bool {
    forall|i: int, j: int|
        0 <= i < j < s.len() ==> (#[trigger] s[i]).chapter_number < (#[trigger] s[j]).chapter_number
}

/// The synopsis of chapter `n` in `s`, if any.
pub open spec fn lookup(s: Seq<ChapterSynopsis>, n: u32) -> Option<ChapterSynopsis>
    decreases s.len(),
{
    if s.len() == 0 {
        None
    } else if s[0].chapter_number == n {
        Some(s[0])
    } else {
        lookup(s.drop_first(), n)
    }
}

/// Index of the first entry from `i` on whose chapter is `n` or later.
pub open spec fn position_from(s: Seq<ChapterSynopsis>, n: u32, i: int) -> int
    decreases s.len() - i,
{
    if i < 0 || i >= s.len() {
        s.len() as int
    } else if s[i].chapter_number >= n {
        i
    } else {
        position_from(s, n, i + 1)
    }
}

/// `s` with `x` stored under its chapter: replacing the entry of that
/// chapter, or inserted where the order puts it.
pub open spec fn insert_entry(s: Seq<ChapterSynopsis>, x: ChapterSynopsis) -> Seq<ChapterSynopsis> {
    let p = position_from(s, x.chapter_number, 0);
    if p < s.len() && s[p].chapter_number == x.chapter_number {
        s.update(p, x)
    } else {
        s.insert(p, x)
    }
}

/// The chapter numbers of `s`.
pub open spec fn chapter_numbers(s: Seq<ChapterSynopsis>) -> Seq<u32> {
    Seq::new(s.len(), |i: int| s[i].chapter_number)
}

/// The order key of the newest-first listing: later instants come first.
pub open spec fn age_key(s: ChapterSynopsis) -> int {
    -(s.generated_at.secs * 0x1_0000_0000 + s.generated_at.nanos)
}

/// `out` is `src` stably sorted by `age_key` through the permutation
/// `perm`: `out[k]` is `src[perm[k]]`, newest first, and synopses of the
/// same instant keep their chapter order.
pub open spec fn newest_first_perm(
    src: Seq<ChapterSynopsis>,
    out: Seq<ChapterSynopsis>,
    perm: Seq<int>,
) -> bool {
    &&& perm.len() == src.len()
    &&& out.len() == src.len()
    &&& forall|k: int| 0 <= k < perm.len() ==> 0 <= #[trigger] perm[k] < src.len()
    &&& forall|k: int| 0 <= k < out.len() ==> #[trigger] out[k] == src[perm[k]]
    &&& forall|k: int, l: int| 0 <= k < l < perm.len() ==> #[trigger] perm[k] != #[trigger] perm[l]
    &&& forall|k: int, l: int|
        0 <= k < l < out.len() ==> age_key(#[trigger] out[k]) <= age_key(#[trigger] out[l])
    &&& forall|k: int, l: int|
        0 <= k < l < out.len() && age_key(#[trigger] out[k]) == age_key(#[trigger] out[l])
            ==> perm[k] < perm[l]
}

/// `rs` is the first `n` synopses of `entries` newest first.
pub open spec fn is_recent(entries: Seq<ChapterSynopsis>, n: nat, rs: Seq<ChapterSynopsis>) -> bool {
    exists|sorted: Seq<ChapterSynopsis>, perm: Seq<int>|
        #[trigger] newest_first_perm(entries, sorted, perm) && rs == sorted.take(
            if n < sorted.len() {
                n as int
            } else {
                sorted.len() as int
            },
        )
}

/// The entries of `m` in ascending key order, each key with its value.
fn ordered_entries<'a>(m: &'a std::collections::BTreeMap<u32, ChapterSynopsis>) -> (r: Vec<
    (u32, &'a ChapterSynopsis),
>)
    ensures
        forall|i: int| 0 <= i < r@.len() ==> #[trigger] m@.contains_key(r@[i].0) && m@[r@[i].0] == *r@[i].1,
        forall|i: int, j: int| 0 <= i < j < r@.len() ==> (#[trigger] r@[i]).0 < (#[trigger] r@[j]).0,
        forall|k: u32| #[trigger] m@.contains_key(k) ==> exists|i: int| 0 <= i < r@.len() && r@[i].0 == k,
{
    broadcast use vstd::std_specs::btree::group_btree_axioms, vstd::laws_cmp::group_laws_cmp;
    let ghost kvs = vstd::std_specs::btree::spec_btree_map_iter(m).remaining();
    assert(vstd::laws_cmp::obeys_cmp::<u32>());
    assert(vstd::std_specs::btree::key_obeys_cmp_spec::<u32>());
    let first = m.iter();
    proof {
        let ks = kvs.map_values(|kv: (&u32, &ChapterSynopsis)| *kv.0);
        assert(first.remaining() == kvs);
        assert(vstd::std_specs::btree::increasing_seq(ks));
        assert forall|i: int, j: int| 0 <= i < j < kvs.len() implies *kvs[i].0 < *kvs[j].0 by {
            assert(ks[i] == *kvs[i].0 && ks[j] == *kvs[j].0);
            assert(ks[i].cmp_spec(&ks[j]) is Less);
        }
    }
    let mut r: Vec<(u32, &ChapterSynopsis)> = Vec::new();
    for kv in it: m.iter()
        invariant
            it.seq() == kvs,
            r@.len() == it.index(),
            forall|j: int| 0 <= j < it.index() ==> (#[trigger] r@[j]).0 == *it.seq()[j].0 && r@[j].1 == it.seq()[j].1,
    {
        r.push((*kv.0, kv.1));
    }
    assert forall|i: int| 0 <= i < r@.len() implies #[trigger] m@.contains_key(r@[i].0) && m@[r@[i].0]
        == *r@[i].1 by {
        assert(m@.contains_key(*kvs[i].0));
    }
    assert forall|k: u32| #[trigger] m@.contains_key(k) implies exists|i: int| 0 <= i < r@.len() && r@[i].0 == k by {
        assert(kvs.contains((&k, &m@[k])));
        let i = choose|i: int| 0 <= i < kvs.len() && kvs[i] == (&k, &m@[k]);
        assert(r@[i].0 == k);
    }
    r
}

/// Two strictly increasing lists of chapter numbers with the same members
/// are the same list.
proof fn lemma_increasing_same_members(a: Seq<u32>, b: Seq<u32>)
    requires
        forall|i: int, j: int| 0 <= i < j < a.len() ==> #[trigger] a[i] < #[trigger] a[j],
        forall|i: int, j: int| 0 <= i < j < b.len() ==> #[trigger] b[i] < #[trigger] b[j],
        forall|i: int| 0 <= i < a.len() ==> b.contains(#[trigger] a[i]),
        forall|j: int| 0 <= j < b.len() ==> a.contains(#[trigger] b[j]),
    ensures
        a == b,
    decreases a.len(),
{
    if a.len() == 0 {
        if b.len() > 0 {
            assert(a.contains(b[0]));
        }
        assert(a =~= b);
    } else {
        assert(b.contains(a[0]));
        let j = choose|j: int| 0 <= j < b.len() && b[j] == a[0];
        assert(a.contains(b[0]));
        let i = choose|i: int| 0 <= i < a.len() && a[i] == b[0];
        if j > 0 {
            assert(b[0] < b[j]);
            if i > 0 {
                assert(a[0] < a[i]);
            }
        }
        assert(a[0] == b[0]);
        let a1 = a.drop_first();
        let b1 = b.drop_first();
        assert forall|x: int, y: int| 0 <= x < y < a1.len() implies #[trigger] a1[x] < #[trigger] a1[y] by {
            assert(a1[x] == a[x + 1] && a1[y] == a[y + 1]);
        }
        assert forall|x: int, y: int| 0 <= x < y < b1.len() implies #[trigger] b1[x] < #[trigger] b1[y] by {
            assert(b1[x] == b[x + 1] && b1[y] == b[y + 1]);
        }
        assert forall|x: int| 0 <= x < a1.len() implies b1.contains(#[trigger] a1[x]) by {
            assert(a1[x] == a[x + 1]);
            assert(b.contains(a[x + 1]));
            let y = choose|y: int| 0 <= y < b.len() && b[y] == a[x + 1];
            assert(a[0] < a[x + 1]);
            assert(y != 0);
            assert(b1[y - 1] == a1[x]);
        }
        assert forall|y: int| 0 <= y < b1.len() implies a1.contains(#[trigger] b1[y]) by {
            assert(b1[y] == b[y + 1]);
            assert(a.contains(b[y + 1]));
            let x = choose|x: int| 0 <= x < a.len() && a[x] == b[y + 1];
            assert(b[0] < b[y + 1]);
            assert(x != 0);
            assert(a1[x - 1] == b1[y]);
        }
        lemma_increasing_same_members(a1, b1);
        assert forall|x: int| 0 <= x < a.len() implies a[x] == b[x] by {
            if x > 0 {
                assert(a[x] == a1[x - 1] && b[x] == b1[x - 1]);
            }
        }
        assert(a =~= b);
    }
}

/// `m` holds exactly the synopses of `s`, each under its chapter.
pub open spec fn holds(m: Map<u32, ChapterSynopsis>, s: Seq<ChapterSynopsis>) -> bool {
    forall|k: u32|
        #[trigger] lookup(s, k) == if m.contains_key(k) {
            Some(m[k])
        } else {
            None
        }
}

/// The synopses, one per chapter number, in a map keyed by chapter.
pub struct SynopsisStore {
    synopses: std::collections::BTreeMap<u32, ChapterSynopsis>,
    /// The synopses in ascending chapter order.
    order: Ghost<Seq<ChapterSynopsis>>,
}

impl SynopsisStore {
    #[verifier::type_invariant]
    spec fn inv(self) -> bool {
        &&& increasing(self.order@)
        &&& holds(self.synopses@, self.order@)
    }

    /// The synopses in ascending chapter order.
    pub closed spec fn entries(self) -> Seq<ChapterSynopsis> {
        self.order@
    }

    /// An empty store.
    pub fn new() -> (r: Self)
        ensures
            r.entries() == Seq::<ChapterSynopsis>::empty(),
    {
        let m: std::collections::BTreeMap<u32, ChapterSynopsis> = std::collections::BTreeMap::new();
        SynopsisStore { synopses: m, order: Ghost(Seq::empty()) }
    }

    /// Stores a synopsis under its chapter, replacing the one there was.
    /// Chapter 0 is refused.
    pub fn add(&mut self, synopsis: ChapterSynopsis) -> (r: Result<(), SynopsisError>)
        ensures
            synopsis.chapter_number == 0 ==> (r matches Err(SynopsisError::InvalidChapterNumber(0)))
                && final(self).entries() == old(self).entries(),
            synopsis.chapter_number != 0 ==> r is Ok && final(self).entries() == insert_entry(
                old(self).entries(),
                synopsis,
            ),
    {
        broadcast use vstd::std_specs::btree::group_btree_axioms, vstd::laws_cmp::group_laws_cmp;
        proof {
            use_type_invariant(&*self);
        }
        if synopsis.chapter_number == 0 {
            return Err(SynopsisError::InvalidChapterNumber(synopsis.chapter_number));
        }
        let n = synopsis.chapter_number;
        let ghost x = synopsis;
        let mut previous = SynopsisStore::new();
        std::mem::swap(self, &mut previous);
        proof {
            use_type_invariant(&previous);
        }
        let ghost s = previous.order@;
        let SynopsisStore { synopses: mut m, order: _ } = previous;
        m.insert(n, synopsis);
        let ghost t = insert_entry(s, x);
        proof {
            lemma_insert_increasing(s, x);
            assert forall|k: u32| #[trigger] lookup(t, k) == if m@.contains_key(k) {
                Some(m@[k])
            } else {
                None
            } by {
                law_add_then_get(s, x, k);
            }
        }
        *self = SynopsisStore { synopses: m, order: Ghost(t) };
        Ok(())
    }

    /// The synopsis of a chapter, if the store has one.
    pub fn get(&self, chapter_number: u32) -> (r: Result<Option<ChapterSynopsis>, SynopsisError>)
        ensures
            r matches Ok(o) && match lookup(self.entries(), chapter_number) {
                Some(x) => o matches Some(y) && y@ == x@,
                None => o is None,
            },
    {
        broadcast use vstd::std_specs::btree::group_btree_axioms, vstd::laws_cmp::group_laws_cmp;
        proof {
            use_type_invariant(self);
        }
        assert(lookup(self.order@, chapter_number) == if self.synopses@.contains_key(chapter_number) {
            Some(self.synopses@[chapter_number])
        } else {
            None
        });
        match self.synopses.get(&chapter_number) {
            Some(x) => Ok(Some(x.clone())),
            None => Ok(None),
        }
    }

    /// The synopses in ascending chapter order.
    fn in_order(&self) -> (r: Vec<&ChapterSynopsis>)
        ensures
            r@.map_values(|p: &ChapterSynopsis| *p) == self.entries(),
    {
        proof {
            use_type_invariant(self);
        }
        let pairs = ordered_entries(&self.synopses);
        let ghost m = self.synopses@;
        let ghost o = self.order@;
        let ghost a = Seq::new(pairs@.len(), |i: int| pairs@[i].0);
        let ghost b = chapter_numbers(o);
        proof {
            assert forall|i: int| 0 <= i < a.len() implies b.contains(#[trigger] a[i]) by {
                assert(m.contains_key(pairs@[i].0));
                assert(lookup(o, a[i]) == Some(m[a[i]]));
                lemma_lookup_some(o, a[i]);
                let k = choose|k: int| 0 <= k < o.len() && o[k] == m[a[i]] && m[a[i]].chapter_number == a[i];
                assert(b[k] == a[i]);
            }
            assert forall|j: int| 0 <= j < b.len() implies a.contains(#[trigger] b[j]) by {
                lemma_lookup_at(o, j);
                assert(lookup(o, b[j]) == Some(o[j]));
                assert(m.contains_key(b[j]));
                let i = choose|i: int| 0 <= i < pairs@.len() && pairs@[i].0 == b[j];
                assert(a[i] == b[j]);
            }
            assert forall|i: int, j: int| 0 <= i < j < a.len() implies #[trigger] a[i] < #[trigger] a[j] by {
                assert(pairs@[i].0 < pairs@[j].0);
            }
            assert forall|i: int, j: int| 0 <= i < j < b.len() implies #[trigger] b[i] < #[trigger] b[j] by {
                assert(o[i].chapter_number < o[j].chapter_number);
            }
            lemma_increasing_same_members(a, b);
        }
        assert(a.len() == b.len());
        let ghost pv = pairs@;
        let mut r: Vec<&ChapterSynopsis> = Vec::new();
        for i in 0..pairs.len()
            invariant
                a == Seq::new(pairs@.len(), |i: int| pairs@[i].0),
                a == chapter_numbers(o),
                pairs@.len() == o.len(),
                o == self.order@,
                m == self.synopses@,
                holds(m, o),
                increasing(o),
                pv == pairs@,
                forall|k: int| 0 <= k < pv.len() ==> #[trigger] m.contains_key(pv[k].0) && m[pv[k].0] == *pv[k].1,
                r@.len() == i,
                forall|k: int| 0 <= k < i ==> *(#[trigger] r@[k]) == o[k],
        {
            proof {
                assert(a[i as int] == pairs@[i as int].0);
                assert(m.contains_key(pairs@[i as int].0));
                lemma_lookup_at(o, i as int);
                assert(lookup(o, pairs@[i as int].0) == Some(m[pairs@[i as int].0]));
            }
            r.push(pairs[i].1);
        }
        assert(r@.map_values(|p: &ChapterSynopsis| *p) =~= o);
        r
    }

    /// The chapter numbers, ascending.
    pub fn list(&self) -> (r: Vec<u32>)
        ensures
            r@ == chapter_numbers(self.entries()),
            forall|i: int, j: int| 0 <= i < j < r@.len() ==> r@[i] < r@[j],
    {
        proof {
            use_type_invariant(self);
        }
        let vals = self.in_order();
        let ghost src = self.entries();
        let mut r: Vec<u32> = Vec::new();
        for i in 0..vals.len()
            invariant
                src == vals@.map_values(|p: &ChapterSynopsis| *p),
                r@ == chapter_numbers(src).take(i as int),
        {
            assert(src[i as int] == *vals@[i as int]);
            r.push(vals[i].chapter_number);
            assert(r@ =~= chapter_numbers(src).take(i + 1));
        }
        assert(chapter_numbers(src).take(src.len() as int) =~= chapter_numbers(src));
        proof {
            assert forall|i: int, j: int| 0 <= i < j < r@.len() implies r@[i] < r@[j] by {
                assert(src[i].chapter_number < src[j].chapter_number);
            }
        }
        r
    }

    /// `(chapter number, synopsis)` pairs in ascending chapter order.
    pub fn synopses(&self) -> (r: Vec<(u32, &ChapterSynopsis)>)
        ensures
            r@.len() == self.entries().len(),
            forall|i: int|
                0 <= i < r@.len() ==> (#[trigger] r@[i]).0 == self.entries()[i].chapter_number
                    && *r@[i].1 == self.entries()[i],
    {
        let vals = self.in_order();
        let ghost src = self.entries();
        let mut r: Vec<(u32, &ChapterSynopsis)> = Vec::new();
        for i in 0..vals.len()
            invariant
                src == vals@.map_values(|p: &ChapterSynopsis| *p),
                r@.len() == i,
                forall|k: int|
                    0 <= k < i ==> (#[trigger] r@[k]).0 == src[k].chapter_number && *r@[k].1 == src[k],
        {
            let s = vals[i];
            assert(src[i as int] == *s);
            r.push((s.chapter_number, s));
        }
        r
    }

    /// The `n` most recently generated synopses, newest first (synopses of
    /// the same instant in chapter order).
    pub fn recent(&self, n: usize) -> (r: Vec<&ChapterSynopsis>)
        ensures
            is_recent(self.entries(), n as nat, r@.map_values(|p: &ChapterSynopsis| *p)),
    {
        let vals = self.in_order();
        let ghost src = self.entries();
        let mut out: Vec<&ChapterSynopsis> = Vec::new();
        let ghost mut perm: Seq<int> = Seq::empty();
        for i in 0..vals.len()
            invariant
                src == vals@.map_values(|p: &ChapterSynopsis| *p),
                newest_first_perm(src.take(i as int), out@.map_values(|p: &ChapterSynopsis| *p), perm),
                forall|k: int| 0 <= k < perm.len() ==> #[trigger] perm[k] < i,
        {
            let s = vals[i];
            assert(src[i as int] == *s);
            let mut pos: usize = 0;
            while pos < out.len() && !newer(s.generated_at, out[pos].generated_at)
                invariant
                    pos <= out@.len(),
                    forall|k: int| 0 <= k < pos ==> age_key(*#[trigger] out@[k]) <= age_key(*s),
                decreases out@.len() - pos,
            {
                pos = pos + 1;
            }
            let ghost old_out = out@.map_values(|p: &ChapterSynopsis| *p);
            let ghost old_perm = perm;
            proof {
                assert forall|k: int| pos <= k < old_out.len() implies age_key(
                    #[trigger] old_out[k],
                ) > age_key(*s) by {
                    if k > pos {
                        assert(age_key(old_out[pos as int]) <= age_key(old_out[k]));
                    }
                }
            }
            out.insert(pos, s);
            proof {
                let ov = out@.map_values(|p: &ChapterSynopsis| *p);
                perm = old_perm.insert(pos as int, i as int);
                let t = src.take(i + 1);
                assert(t[i as int] == *s);
                assert forall|k: int| 0 <= k < ov.len() implies #[trigger] ov[k] == t[perm[k]] by {
                    if k < pos {
                        assert(ov[k] == old_out[k] && perm[k] == old_perm[k]);
                        assert(src.take(i as int)[old_perm[k]] == t[old_perm[k]]);
                    } else if k > pos {
                        assert(ov[k] == old_out[k - 1] && perm[k] == old_perm[k - 1]);
                        assert(src.take(i as int)[old_perm[k - 1]] == t[old_perm[k - 1]]);
                    }
                }
                assert forall|k: int, l: int| 0 <= k < l < perm.len() implies #[trigger] perm[k]
                    != #[trigger] perm[l] by {
                    if k < pos && l < pos {
                    } else if k < pos && l == pos {
                    } else if k < pos {
                        assert(perm[l] == old_perm[l - 1]);
                    } else if k == pos {
                        assert(perm[l] == old_perm[l - 1]);
                    } else {
                        assert(perm[k] == old_perm[k - 1] && perm[l] == old_perm[l - 1]);
                    }
                }
                assert forall|k: int, l: int| 0 <= k < l < ov.len() implies age_key(
                    #[trigger] ov[k],
                ) <= age_key(#[trigger] ov[l]) by {
                    if l < pos {
                        assert(ov[k] == old_out[k] && ov[l] == old_out[l]);
                    } else if l == pos {
                        assert(ov[k] == old_out[k]);
                    } else if k < pos {
                        assert(ov[k] == old_out[k] && ov[l] == old_out[l - 1]);
                    } else if k == pos {
                        assert(ov[l] == old_out[l - 1]);
                    } else {
                        assert(ov[k] == old_out[k - 1] && ov[l] == old_out[l - 1]);
                    }
                }
                assert forall|k: int, l: int|
                    0 <= k < l < ov.len() && age_key(#[trigger] ov[k]) == age_key(#[trigger] ov[l])
                        implies perm[k] < perm[l] by {
                    if l < pos {
                        assert(ov[k] == old_out[k] && ov[l] == old_out[l]);
                    } else if l == pos {
                        assert(perm[k] == old_perm[k]);
                        assert(ov[k] == old_out[k]);
                    } else if k < pos {
                        assert(ov[k] == old_out[k] && ov[l] == old_out[l - 1]);
                    } else if k == pos {
                        assert(ov[l] == old_out[l - 1]);
                    } else {
                        assert(ov[k] == old_out[k - 1] && ov[l] == old_out[l - 1]);
                        assert(perm[k] == old_perm[k - 1] && perm[l] == old_perm[l - 1]);
                    }
                }
            }
        }
        assert(src.take(src.len() as int) =~= src);
        let ghost sorted = out@.map_values(|p: &ChapterSynopsis| *p);
        out.truncate(n);
        assert(newest_first_perm(self.entries(), sorted, perm));
        assert(out@.map_values(|p: &ChapterSynopsis| *p) =~= sorted.take(
            if (n as nat) < sorted.len() {
                n as int
            } else {
                sorted.len() as int
            },
        ));
        out
    }

    /// Number of synopses.
    pub fn len(&self) -> (r: usize)
        ensures
            r == self.entries().len(),
    {
        self.in_order().len()
    }

    /// Whether there are none.
    pub fn is_empty(&self) -> (r: bool)
        ensures
            r == (self.entries().len() == 0),
    {
        self.in_order().len() == 0
    }
}

impl Default for SynopsisStore {
    fn default() -> (r: Self)
        ensures
            r.entries() == Seq::<ChapterSynopsis>::empty(),
    {
        SynopsisStore::new()
    }
}

/// `a` is strictly later than `b`.
fn newer(a: Timestamp, b: Timestamp) -> (r: bool)
    ensures
        r == (-(a.secs * 0x1_0000_0000 + a.nanos) < -(b.secs * 0x1_0000_0000 + b.nanos)),
{
    assert(a.secs < b.secs ==> a.secs * 0x1_0000_0000 + a.nanos < b.secs * 0x1_0000_0000 + b.nanos) by (nonlinear_arith)
        requires a.nanos < 0x1_0000_0000, b.nanos < 0x1_0000_0000;
    assert(a.secs > b.secs ==> a.secs * 0x1_0000_0000 + a.nanos > b.secs * 0x1_0000_0000 + b.nanos) by (nonlinear_arith)
        requires a.nanos < 0x1_0000_0000, b.nanos < 0x1_0000_0000;
    a.secs > b.secs || (a.secs == b.secs && a.nanos > b.nanos)
}

// ---------------------------------------------------------------------------
// Laws
// ---------------------------------------------------------------------------

proof fn lemma_lookup_at(s: Seq<ChapterSynopsis>, i: int)
    requires
        increasing(s),
        0 <= i < s.len(),
    ensures
        lookup(s, s[i].chapter_number) == Some(s[i]),
    decreases s.len(),
{
    if i > 0 {
        assert(s[0].chapter_number < s[i].chapter_number);
        assert(s.drop_first()[i - 1] == s[i]);
        assert forall|a: int, b: int| 0 <= a < b < s.drop_first().len() implies (#[trigger] s.drop_first()[a]).chapter_number
            < (#[trigger] s.drop_first()[b]).chapter_number by {
            assert(s.drop_first()[a] == s[a + 1] && s.drop_first()[b] == s[b + 1]);
        }
        lemma_lookup_at(s.drop_first(), i - 1);
    }
}

proof fn lemma_lookup_absent(s: Seq<ChapterSynopsis>, n: u32)
    requires
        forall|i: int| 0 <= i < s.len() ==> (#[trigger] s[i]).chapter_number != n,
    ensures
        lookup(s, n) is None,
    decreases s.len(),
{
    if s.len() > 0 {
        assert forall|i: int| 0 <= i < s.drop_first().len() implies (#[trigger] s.drop_first()[i]).chapter_number
            != n by {
            assert(s.drop_first()[i] == s[i + 1]);
        }
        lemma_lookup_absent(s.drop_first(), n);
    }
}

proof fn lemma_lookup_some(s: Seq<ChapterSynopsis>, n: u32)
    requires
        increasing(s),
    ensures
        match lookup(s, n) {
            Some(x) => exists|i: int| 0 <= i < s.len() && s[i] == x && x.chapter_number == n,
            None => forall|i: int| 0 <= i < s.len() ==> (#[trigger] s[i]).chapter_number != n,
        },
    decreases s.len(),
{
    if s.len() > 0 {
        assert forall|a: int, b: int| 0 <= a < b < s.drop_first().len() implies (#[trigger] s.drop_first()[a]).chapter_number
            < (#[trigger] s.drop_first()[b]).chapter_number by {
            assert(s.drop_first()[a] == s[a + 1] && s.drop_first()[b] == s[b + 1]);
        }
        lemma_lookup_some(s.drop_first(), n);
        if s[0].chapter_number != n {
            match lookup(s.drop_first(), n) {
                Some(x) => {
                    let i = choose|i: int| 0 <= i < s.drop_first().len() && s.drop_first()[i] == x
                        && x.chapter_number == n;
                    assert(s[i + 1] == x);
                },
                None => {
                    assert forall|i: int| 0 <= i < s.len() implies (#[trigger] s[i]).chapter_number
                        != n by {
                        if i > 0 {
                            assert(s[i] == s.drop_first()[i - 1]);
                        }
                    }
                },
            }
        }
    }
}

proof fn lemma_position(s: Seq<ChapterSynopsis>, n: u32, i: int)
    requires
        0 <= i <= s.len(),
        forall|k: int| 0 <= k < i ==> (#[trigger] s[k]).chapter_number < n,
    ensures
        i <= position_from(s, n, i) <= s.len(),
        forall|k: int| 0 <= k < position_from(s, n, i) ==> (#[trigger] s[k]).chapter_number < n,
        position_from(s, n, i) < s.len() ==> s[position_from(s, n, i)].chapter_number >= n,
    decreases s.len() - i,
{
    if i < s.len() && s[i].chapter_number < n {
        lemma_position(s, n, i + 1);
    }
}

/// Storing a synopsis keeps the chapters in strictly ascending order.
proof fn lemma_insert_increasing(s: Seq<ChapterSynopsis>, x: ChapterSynopsis)
    requires
        increasing(s),
    ensures
        increasing(insert_entry(s, x)),
{
    let n = x.chapter_number;
    lemma_position(s, n, 0);
    let p = position_from(s, n, 0);
    let t = insert_entry(s, x);
    assert(increasing(t)) by {
        assert forall|a: int, b: int| 0 <= a < b < t.len() implies (#[trigger] t[a]).chapter_number
            < (#[trigger] t[b]).chapter_number by {
            if p < s.len() && s[p].chapter_number == n {
            } else {
                if a < p && b > p {
                    assert(t[b] == s[b - 1]);
                    if b - 1 > p {
                        assert(s[p].chapter_number < s[b - 1].chapter_number);
                    }
                } else if a == p {
                    assert(t[b] == s[b - 1]);
                    if b - 1 > p {
                        assert(s[p].chapter_number < s[b - 1].chapter_number);
                    }
                } else if a > p {
                    assert(t[a] == s[a - 1] && t[b] == s[b - 1]);
                }
            }
        }
    }
}

/// After a synopsis is stored, looking up its chapter gives it back, and
/// every other chapter gives what it gave before.
pub proof fn law_add_then_get(s: Seq<ChapterSynopsis>, x: ChapterSynopsis, m: u32)
    requires
        increasing(s),
    ensures
        lookup(insert_entry(s, x), x.chapter_number) == Some(x),
        m != x.chapter_number ==> lookup(insert_entry(s, x), m) == lookup(s, m),
{
    let n = x.chapter_number;
    lemma_position(s, n, 0);
    let p = position_from(s, n, 0);
    let t = insert_entry(s, x);
    lemma_insert_increasing(s, x);
    assert(t[p] == x);
    lemma_lookup_at(t, p);
    if m != n {
        lemma_lookup_some(s, m);
        lemma_lookup_some(t, m);
        match lookup(s, m) {
            Some(y) => {
                let i = choose|i: int| 0 <= i < s.len() && s[i] == y && y.chapter_number == m;
                let j = if i < p || (p < s.len() && s[p].chapter_number == n) {
                    i
                } else {
                    i + 1
                };
                assert(t[j] == y);
                lemma_lookup_at(t, j);
            },
            None => {
                assert forall|i: int| 0 <= i < t.len() implies (#[trigger] t[i]).chapter_number
                    != m by {
                    if p < s.len() && s[p].chapter_number == n {
                        if i != p {
                            assert(t[i] == s[i]);
                        }
                    } else if i < p {
                        assert(t[i] == s[i]);
                    } else if i > p {
                        assert(t[i] == s[i - 1]);
                    }
                }
                lemma_lookup_absent(t, m);
            },
        }
    }
}

} // verus!
