//! Counting how often each text occurs, with the texts in code point order
//! (what a `BTreeMap<String, _>` of counts gives).
use vstd::prelude::*;

use crate::text::{chars_eq, chars_lt, lemma_seq_lt_total, lemma_seq_lt_transitive, seq_lt, views};

verus! {

/// How often `k` occurs in `keys`.
pub open spec fn occ(keys: Seq<Seq<char>>, k: Seq<char>) -> nat
    decreases keys.len(),
{
    if keys.len() == 0 {
        0
    } else {
        occ(keys.drop_last(), k) + if keys.last() == k {
            1nat
        } else {
            0nat
        }
    }
}

/// The texts are in strictly increasing code point order.
pub open spec fn strictly_sorted(ks: Seq<Seq<char>>) -> bool {
    forall|i: int, j: int| 0 <= i < j < ks.len() ==> seq_lt(#[trigger] ks[i], #[trigger] ks[j])
}

/// The keys of a tally.
pub open spec fn tally_keys(t: Seq<(Vec<char>, usize)>) -> Seq<Seq<char>> {
    Seq::new(t.len(), |i: int| t[i].0@)
}

/// `t` counts `keys`: each distinct text once, in order, with its count.
pub open spec fn is_tally_of(keys: Seq<Seq<char>>, t: Seq<(Vec<char>, usize)>) -> bool {
    &&& strictly_sorted(tally_keys(t))
    &&& forall|i: int| 0 <= i < t.len() ==> (#[trigger] t[i]).1 == occ(keys, t[i].0@) && t[i].1 > 0
    &&& forall|j: int|
        0 <= j < keys.len() ==> exists|i: int| 0 <= i < t.len() && (#[trigger] t[i]).0@ == #[trigger] keys[j]
}

pub proof fn lemma_occ_bound(keys: Seq<Seq<char>>, k: Seq<char>)
    ensures
        occ(keys, k) <= keys.len(),
    decreases keys.len(),
{
    if keys.len() > 0 {
        lemma_occ_bound(keys.drop_last(), k);
    }
}

proof fn lemma_occ_absent(keys: Seq<Seq<char>>, k: Seq<char>)
    requires
        forall|j: int| 0 <= j < keys.len() ==> keys[j] != k,
    ensures
        occ(keys, k) == 0,
    decreases keys.len(),
{
    if keys.len() > 0 {
        lemma_occ_absent(keys.drop_last(), k);
    }
}

/// Position of the entry of `t` whose key is `k`.
fn find_key(t: &Vec<(Vec<char>, usize)>, k: &Vec<char>) -> (r: Option<usize>)
    ensures
        match r {
            Some(i) => i < t@.len() && t@[i as int].0@ == k@,
            None => forall|j: int| 0 <= j < t@.len() ==> (#[trigger] t@[j]).0@ != k@,
        },
{
    for i in 0..t.len()
        invariant
            forall|j: int| 0 <= j < i ==> (#[trigger] t@[j]).0@ != k@,
    {
        if chars_eq(&t[i].0, k) {
            return Some(i);
        }
    }
    None
}

/// Counts each distinct text of `keys`, in code point order.
pub fn tally(keys: &Vec<Vec<char>>) -> (t: Vec<(Vec<char>, usize)>)
    ensures
        is_tally_of(views(keys@), t@),
{
    let ghost ks = views(keys@);
    let mut t: Vec<(Vec<char>, usize)> = Vec::new();
    for n in 0..keys.len()
        invariant
            ks == views(keys@),
            is_tally_of(ks.take(n as int), t@),
            t@.len() <= n,
    {
        let ghost pre = ks.take(n as int);
        let ghost post = ks.take(n + 1);
        proof {
            assert(post.drop_last() =~= pre);
            assert(post.last() == keys@[n as int]@);
            lemma_occ_bound(pre, keys@[n as int]@);
        }
        let k = &keys[n];
        let search = find_key(&t, k);
        let ghost old_t = t@;
        if let Some(i) = search {
            assert(t@[i as int].0@ == k@);
            let c = t[i].1;
            proof {
                lemma_occ_bound(pre, k@);
            }
            let key = t[i].0.clone();
            t.set(i, (key, c + 1));
            proof {
                assert(tally_keys(t@) =~= tally_keys(old_t));
                assert forall|a: int| 0 <= a < t@.len() implies (#[trigger] t@[a]).1 == occ(
                    post,
                    t@[a].0@,
                ) && t@[a].1 > 0 by {
                    if a != i {
                        assert(t@[a] == old_t[a]);
                        if old_t[a].0@ == k@ {
                            lemma_seq_lt_irrefl_distinct(tally_keys(old_t), a, i as int);
                        }
                    }
                }
                assert forall|j: int| 0 <= j < post.len() implies exists|a: int|
                    0 <= a < t@.len() && (#[trigger] t@[a]).0@ == #[trigger] post[j] by {
                    if j < n {
                        assert(pre[j] == post[j]);
                        let a = choose|a: int| 0 <= a < old_t.len() && (#[trigger] old_t[a]).0@ == pre[j];
                        assert(t@[a].0@ == old_t[a].0@);
                    } else {
                        assert(t@[i as int].0@ == post[j]);
                    }
                }
            }
        } else {
            proof {
                assert forall|j: int| 0 <= j < pre.len() implies pre[j] != k@ by {
                    let a = choose|a: int| 0 <= a < old_t.len() && (#[trigger] old_t[a]).0@ == pre[j];
                }
                lemma_occ_absent(pre, k@);
            }
            // Insert at the sorted position.
            let mut pos: usize = 0;
            while pos < t.len() && chars_lt(&t[pos].0, k)
                invariant
                    pos <= t@.len(),
                    forall|j: int| 0 <= j < pos ==> seq_lt((#[trigger] t@[j]).0@, k@),
                decreases t@.len() - pos,
            {
                pos = pos + 1;
            }
            proof {
                assert forall|j: int| pos <= j < t@.len() implies seq_lt(k@, (#[trigger] t@[j]).0@) by {
                    if j > pos {
                        assert(seq_lt(t@[pos as int].0@, t@[j].0@) || j == pos) by {
                            assert(tally_keys(t@)[pos as int] == t@[pos as int].0@);
                            assert(tally_keys(t@)[j] == t@[j].0@);
                        }
                        if seq_lt(t@[j].0@, k@) {
                            lemma_seq_lt_transitive(t@[pos as int].0@, t@[j].0@, k@);
                        }
                    }
                    lemma_seq_lt_total(k@, t@[j].0@);
                }
            }
            let key = k.clone();
            t.insert(pos, (key, 1));
            proof {
                let tk = tally_keys(t@);
                assert forall|a: int, b: int| 0 <= a < b < tk.len() implies seq_lt(
                    #[trigger] tk[a],
                    #[trigger] tk[b],
                ) by {
                    assert(tk[a] == t@[a].0@ && tk[b] == t@[b].0@);
                    let ok = tally_keys(old_t);
                    if b < pos {
                        assert(t@[a] == old_t[a] && t@[b] == old_t[b]);
                        assert(ok[a] == old_t[a].0@ && ok[b] == old_t[b].0@);
                    } else if b == pos {
                        assert(t@[a] == old_t[a]);
                    } else if a < pos {
                        assert(t@[a] == old_t[a] && t@[b] == old_t[b - 1]);
                        lemma_seq_lt_transitive(old_t[a].0@, k@, old_t[b - 1].0@);
                    } else if a == pos {
                        assert(t@[b] == old_t[b - 1]);
                    } else {
                        assert(t@[a] == old_t[a - 1] && t@[b] == old_t[b - 1]);
                        assert(ok[a - 1] == old_t[a - 1].0@ && ok[b - 1] == old_t[b - 1].0@);
                    }
                }
                assert forall|a: int| 0 <= a < t@.len() implies (#[trigger] t@[a]).1 == occ(
                    post,
                    t@[a].0@,
                ) && t@[a].1 > 0 by {
                    if a < pos {
                        assert(t@[a] == old_t[a]);
                    } else if a > pos {
                        assert(t@[a] == old_t[a - 1]);
                    }
                }
                assert forall|j: int| 0 <= j < post.len() implies exists|a: int|
                    0 <= a < t@.len() && (#[trigger] t@[a]).0@ == #[trigger] post[j] by {
                    if j < n {
                        assert(pre[j] == post[j]);
                        let a = choose|a: int| 0 <= a < old_t.len() && (#[trigger] old_t[a]).0@ == pre[j];
                        if a < pos {
                            assert(t@[a] == old_t[a]);
                        } else {
                            assert(t@[a + 1] == old_t[a]);
                        }
                    } else {
                        assert(t@[pos as int].0@ == post[j]);
                    }
                }
            }
        }
    }
    assert(ks.take(keys@.len() as int) =~= ks);
    t
}

/// In a strictly sorted sequence two distinct positions hold distinct texts.
proof fn lemma_seq_lt_irrefl_distinct(ks: Seq<Seq<char>>, a: int, b: int)
    requires
        strictly_sorted(ks),
        0 <= a < ks.len(),
        0 <= b < ks.len(),
        a != b,
    ensures
        ks[a] != ks[b],
{
    crate::text::lemma_seq_lt_irreflexive(ks[a]);
    if a < b {
        assert(seq_lt(ks[a], ks[b]));
    } else {
        assert(seq_lt(ks[b], ks[a]));
    }
}

/// A text counted at least once occurs in the list.
proof fn lemma_occ_positive(keys: Seq<Seq<char>>, k: Seq<char>)
    requires
        occ(keys, k) > 0,
    ensures
        exists|j: int| 0 <= j < keys.len() && keys[j] == k,
    decreases keys.len(),
{
    if occ(keys.drop_last(), k) > 0 {
        lemma_occ_positive(keys.drop_last(), k);
        let j = choose|j: int| 0 <= j < keys.drop_last().len() && keys.drop_last()[j] == k;
        assert(keys[j] == k);
    } else {
        assert(keys[keys.len() - 1] == k);
    }
}

/// Two strictly sorted lists that hold the same texts are the same list.
pub proof fn lemma_sorted_same_members(a: Seq<Seq<char>>, b: Seq<Seq<char>>)
    requires
        strictly_sorted(a),
        strictly_sorted(b),
        forall|i: int| 0 <= i < a.len() ==> b.contains(#[trigger] a[i]),
        forall|j: int| 0 <= j < b.len() ==> a.contains(#[trigger] b[j]),
    ensures
        a == b,
    decreases a.len(),
{
    if a.len() == 0 {
        if b.len() > 0 {
            assert(a.contains(b[0]));
        }
        assert(a =~= b);
    } else {
        assert(b.contains(a[0]));
        let j = choose|j: int| 0 <= j < b.len() && b[j] == a[0];
        assert(a.contains(b[0]));
        let i = choose|i: int| 0 <= i < a.len() && a[i] == b[0];
        crate::text::lemma_seq_lt_irreflexive(a[0]);
        crate::text::lemma_seq_lt_irreflexive(b[0]);
        if j > 0 {
            assert(seq_lt(b[0], a[0]));
            if i > 0 {
                assert(seq_lt(a[0], b[0]));
                lemma_seq_lt_transitive(b[0], a[0], b[0]);
            }
        }
        assert(a[0] == b[0]);
        let a1 = a.drop_first();
        let b1 = b.drop_first();
        assert forall|x: int, y: int| 0 <= x < y < a1.len() implies seq_lt(#[trigger] a1[x], #[trigger] a1[y]) by {
            assert(a1[x] == a[x + 1] && a1[y] == a[y + 1]);
        }
        assert forall|x: int, y: int| 0 <= x < y < b1.len() implies seq_lt(#[trigger] b1[x], #[trigger] b1[y]) by {
            assert(b1[x] == b[x + 1] && b1[y] == b[y + 1]);
        }
        assert forall|x: int| 0 <= x < a1.len() implies b1.contains(#[trigger] a1[x]) by {
            assert(a1[x] == a[x + 1]);
            assert(b.contains(a[x + 1]));
            let y = choose|y: int| 0 <= y < b.len() && b[y] == a[x + 1];
            assert(seq_lt(a[0], a[x + 1]));
            crate::text::lemma_seq_lt_irreflexive(a[x + 1]);
            assert(y != 0);
            assert(b1[y - 1] == a1[x]);
        }
        assert forall|y: int| 0 <= y < b1.len() implies a1.contains(#[trigger] b1[y]) by {
            assert(b1[y] == b[y + 1]);
            assert(a.contains(b[y + 1]));
            let x = choose|x: int| 0 <= x < a.len() && a[x] == b[y + 1];
            assert(seq_lt(b[0], b[y + 1]));
            crate::text::lemma_seq_lt_irreflexive(b[y + 1]);
            assert(x != 0);
            assert(a1[x - 1] == b1[y]);
        }
        lemma_sorted_same_members(a1, b1);
        assert forall|x: int| 0 <= x < a.len() implies a[x] == b[x] by {
            if x > 0 {
                assert(a[x] == a1[x - 1] && b[x] == b1[x - 1]);
            }
        }
        assert(a =~= b);
    }
}

/// A list of texts has one tally: any two tallies of it list the same texts,
/// in the same order, with the same counts.
pub proof fn law_tally_unique(keys: Seq<Seq<char>>, t1: Seq<(Vec<char>, usize)>, t2: Seq<(Vec<char>, usize)>)
    requires
        is_tally_of(keys, t1),
        is_tally_of(keys, t2),
    ensures
        tally_keys(t1) == tally_keys(t2),
        t1.len() == t2.len(),
        forall|i: int| 0 <= i < t1.len() ==> (#[trigger] t1[i]).1 == t2[i].1,
{
    let k1 = tally_keys(t1);
    let k2 = tally_keys(t2);
    assert forall|i: int| 0 <= i < k1.len() implies k2.contains(#[trigger] k1[i]) by {
        assert(t1[i].1 == occ(keys, t1[i].0@) && t1[i].1 > 0);
        lemma_occ_positive(keys, t1[i].0@);
        let j = choose|j: int| 0 <= j < keys.len() && keys[j] == t1[i].0@;
        let a = choose|a: int| 0 <= a < t2.len() && (#[trigger] t2[a]).0@ == #[trigger] keys[j];
        assert(k2[a] == k1[i]);
    }
    assert forall|i: int| 0 <= i < k2.len() implies k1.contains(#[trigger] k2[i]) by {
        assert(t2[i].1 == occ(keys, t2[i].0@) && t2[i].1 > 0);
        lemma_occ_positive(keys, t2[i].0@);
        let j = choose|j: int| 0 <= j < keys.len() && keys[j] == t2[i].0@;
        let a = choose|a: int| 0 <= a < t1.len() && (#[trigger] t1[a]).0@ == #[trigger] keys[j];
        assert(k1[a] == k2[i]);
    }
    lemma_sorted_same_members(k1, k2);
    assert(t1.len() == k1.len() && k1.len() == k2.len() && k2.len() == t2.len());
    assert forall|i: int| 0 <= i < t1.len() implies (#[trigger] t1[i]).1 == t2[i].1 by {
        assert(k1[i] == t1[i].0@ && k2[i] == t2[i].0@);
        assert(t1[i].1 == occ(keys, t1[i].0@));
        assert(t2[i].1 == occ(keys, t2[i].0@));
    }
}

} // verus!
