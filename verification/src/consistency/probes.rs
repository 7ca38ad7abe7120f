//! Keyword probes: the nouns a world rule forbids, whether a mention sits in
//! a negated context, and the "number + measure word" phrase of a line.
use vstd::prelude::*;

use crate::text::{
    contains, contains_chars, copy_range, is_ascii_digit, is_cjk, match_positions, positions_from,
    spec_is_ascii_digit, spec_is_cjk, str_to_chars, trim, trim_chars, views,
};

verus! {

// ---------------------------------------------------------------------------
// Rule probes
// ---------------------------------------------------------------------------

/// Punctuation that ends the phrase after a negation marker.
pub open spec fn is_stop(c: char) -> bool {
    c == '。' || c == '，' || c == '；' || c == '.' || c == ',' || c == ';' || c == '、'
}

/// The longest prefix of `s` without stop punctuation, at most `max` chars.
pub open spec fn take_until_stop(s: Seq<char>, max: nat) -> Seq<char>
    decreases s.len(),
{
    if s.len() == 0 || max == 0 || is_stop(s[0]) {
        Seq::empty()
    } else {
        seq![s[0]] + take_until_stop(s.drop_first(), (max - 1) as nat)
    }
}

/// The negation markers, in the order they are tried.
pub open spec fn probe_markers() -> Seq<Seq<char>> {
    seq!["没有"@, "禁止"@, "不可"@, "严禁"@, "不能"@, "无法"@]
}

/// The noun a marker of length `mlen` at char index `i` of `rule` forbids:
/// the phrase up to the next stop (at most 20 chars) without the marker,
/// trimmed, kept when it has 1 to 12 chars.
pub open spec fn probe_at(rule: Seq<char>, mlen: nat, i: int) -> Seq<Seq<char>> {
    let phrase = take_until_stop(rule.skip(i), 20);
    if phrase.len() <= mlen {
        Seq::empty()
    } else {
        let noun = trim(phrase.skip(mlen as int));
        if noun.len() == 0 || noun.len() > 12 {
            Seq::empty()
        } else {
            seq![noun]
        }
    }
}

/// The probes of marker `m` at the match positions `ps`.
pub open spec fn probes_at(rule: Seq<char>, mlen: nat, ps: Seq<int>) -> Seq<Seq<char>>
    decreases ps.len(),
{
    if ps.len() == 0 {
        Seq::empty()
    } else {
        probes_at(rule, mlen, ps.drop_last()) + probe_at(rule, mlen, ps.last())
    }
}

/// The probes of the markers `ms`, marker by marker, each at its matches in
/// order.
pub open spec fn probes_for(rule: Seq<char>, ms: Seq<Seq<char>>) -> Seq<Seq<char>>
    decreases ms.len(),
{
    if ms.len() == 0 {
        Seq::empty()
    } else {
        probes_for(rule, ms.drop_last()) + probes_at(
            rule,
            ms.last().len(),
            positions_from(rule, ms.last(), 0),
        )
    }
}

/// The nouns a world rule forbids.
pub open spec fn rule_probe_nouns(rule: Seq<char>) -> Seq<Seq<char>> {
    probes_for(rule, probe_markers())
}

fn is_stop_char(c: char) -> (r: bool)
    ensures
        r == is_stop(c),
{
    c == '。' || c == '，' || c == '；' || c == '.' || c == ',' || c == ';' || c == '、'
}

/// `take_until_stop(rule.skip(i), 20)`.
fn phrase_after(rule: &Vec<char>, i: usize) -> (r: Vec<char>)
    requires
        i <= rule@.len(),
    ensures
        r@ == take_until_stop(rule@.skip(i as int), 20),
{
    let mut r: Vec<char> = Vec::new();
    let mut j: usize = i;
    assert(rule@.skip(i as int).skip(0) =~= rule@.skip(i as int));
    while j < rule.len() && j - i < 20 && !is_stop_char(rule[j])
        invariant
            i <= j <= rule@.len(),
            j - i <= 20,
            take_until_stop(rule@.skip(i as int), 20) == r@ + take_until_stop(
                rule@.skip(j as int),
                (20 - (j - i)) as nat,
            ),
        decreases rule@.len() - j,
    {
        let ghost rest = rule@.skip(j as int);
        assert(rest.drop_first() =~= rule@.skip(j + 1));
        assert(rest[0] == rule@[j as int]);
        let ghost before = r@;
        r.push(rule[j]);
        assert(before + take_until_stop(rest, (20 - (j - i)) as nat) =~= r@ + take_until_stop(
            rule@.skip(j + 1),
            (20 - (j + 1 - i)) as nat,
        ));
        j = j + 1;
    }
    let ghost rest = rule@.skip(j as int);
    if j < rule.len() {
        assert(rest[0] == rule@[j as int]);
    }
    assert(take_until_stop(rest, (20 - (j - i)) as nat) =~= Seq::<char>::empty());
    assert(r@ + Seq::<char>::empty() =~= r@);
    r
}

fn probe_exec(rule: &Vec<char>, mlen: usize, i: usize) -> (r: Vec<Vec<char>>)
    requires
        i <= rule@.len(),
    ensures
        views(r@) == probe_at(rule@, mlen as nat, i as int),
{
    let phrase = phrase_after(rule, i);
    let mut r: Vec<Vec<char>> = Vec::new();
    if phrase.len() <= mlen {
        assert(views(r@) =~= Seq::<Seq<char>>::empty());
        return r;
    }
    let tail = copy_range(&phrase, mlen, phrase.len());
    assert(tail@ =~= phrase@.skip(mlen as int));
    let noun = trim_chars(&tail);
    if noun.len() == 0 || noun.len() > 12 {
        assert(views(r@) =~= Seq::<Seq<char>>::empty());
        return r;
    }
    let ghost nv = noun@;
    r.push(noun);
    assert(views(r@) =~= seq![nv]);
    r
}

proof fn lemma_markers_nonempty()
    ensures
        forall|t: int| 0 <= t < probe_markers().len() ==> (#[trigger] probe_markers()[t]).len() > 0,
{
    reveal_strlit("没有");
    reveal_strlit("禁止");
    reveal_strlit("不可");
    reveal_strlit("严禁");
    reveal_strlit("不能");
    reveal_strlit("无法");
    let ms = probe_markers();
    assert(ms[0] == "没有"@);
    assert(ms[1] == "禁止"@);
    assert(ms[2] == "不可"@);
    assert(ms[3] == "严禁"@);
    assert(ms[4] == "不能"@);
    assert(ms[5] == "无法"@);
}

/// The negation markers as char vectors.
fn markers() -> (r: Vec<Vec<char>>)
    ensures
        views(r@) == probe_markers(),
{
    let mut r: Vec<Vec<char>> = Vec::new();
    r.push(str_to_chars("没有"));
    r.push(str_to_chars("禁止"));
    r.push(str_to_chars("不可"));
    r.push(str_to_chars("严禁"));
    r.push(str_to_chars("不能"));
    r.push(str_to_chars("无法"));
    assert(views(r@) =~= probe_markers());
    r
}

/// Appends the views of `b` to `a`.
fn append_all(a: &mut Vec<Vec<char>>, b: Vec<Vec<char>>)
    ensures
        views(final(a)@) == views(old(a)@) + views(b@),
{
    let mut b = b;
    let ghost va = views(a@);
    let ghost vb = views(b@);
    a.append(&mut b);
    assert(views(a@) =~= va + vb);
}

/// The nouns the world rule `rule` forbids.
pub fn rule_probes(rule: &Vec<char>) -> (r: Vec<Vec<char>>)
    ensures
        views(r@) == rule_probe_nouns(rule@),
{
    let ms = markers();
    let ghost mv = probe_markers();
    let mut out: Vec<Vec<char>> = Vec::new();
    assert(views(out@) =~= probes_for(rule@, mv.take(0)));
    for k in 0..ms.len()
        invariant
            views(ms@) == mv,
            mv == probe_markers(),
            views(out@) == probes_for(rule@, mv.take(k as int)),
    {
        let m = &ms[k];
        assert(m@ == mv[k as int]);
        assert(mv.take(k + 1).drop_last() =~= mv.take(k as int));
        assert(mv.take(k + 1).last() == m@);
        proof {
            lemma_markers_nonempty();
        }
        assert(m@.len() > 0);
        let ps = match_positions(rule, m);
        let ghost pv = positions_from(rule@, m@, 0);
        let ghost start = views(out@);
        let mut j: usize = 0;
        while j < ps.len()
            invariant
                j <= ps@.len(),
                ps@.len() == pv.len(),
                forall|t: int| 0 <= t < ps@.len() ==> ps@[t] as int == #[trigger] pv[t],
                pv == positions_from(rule@, m@, 0),
                views(out@) == start + probes_at(rule@, m@.len(), pv.take(j as int)),
            decreases ps@.len() - j,
        {
            proof {
                assert(pv.take(j + 1).drop_last() =~= pv.take(j as int));
                assert(pv.take(j + 1).last() == ps@[j as int] as int);
                lemma_positions_in_range(rule@, m@, 0, j as int);
            }
            let one = probe_exec(rule, m.len(), ps[j]);
            append_all(&mut out, one);
            assert(start + probes_at(rule@, m@.len(), pv.take(j as int)) + probe_at(
                rule@,
                m@.len(),
                ps@[j as int] as int,
            ) =~= start + probes_at(rule@, m@.len(), pv.take(j + 1)));
            j = j + 1;
        }
        assert(pv.take(ps@.len() as int) =~= pv);
    }
    assert(mv.take(6) =~= mv);
    out
}

/// Every noun a rule forbids is non-empty.
pub proof fn lemma_probe_nouns_nonempty(rule: Seq<char>)
    ensures
        forall|t: int|
            0 <= t < rule_probe_nouns(rule).len() ==> (#[trigger] rule_probe_nouns(rule)[t]).len() > 0,
{
    lemma_probes_for_nonempty(rule, probe_markers());
}

proof fn lemma_probes_for_nonempty(rule: Seq<char>, ms: Seq<Seq<char>>)
    ensures
        forall|t: int|
            0 <= t < probes_for(rule, ms).len() ==> (#[trigger] probes_for(rule, ms)[t]).len() > 0,
    decreases ms.len(),
{
    if ms.len() > 0 {
        lemma_probes_for_nonempty(rule, ms.drop_last());
        let ps = positions_from(rule, ms.last(), 0);
        lemma_probes_at_nonempty(rule, ms.last().len(), ps);
        let a = probes_for(rule, ms.drop_last());
        let b = probes_at(rule, ms.last().len(), ps);
        assert forall|t: int| 0 <= t < (a + b).len() implies (#[trigger] (a + b)[t]).len() > 0 by {
            if t < a.len() {
                assert((a + b)[t] == a[t]);
            } else {
                assert((a + b)[t] == b[t - a.len()]);
            }
        }
    }
}

proof fn lemma_probes_at_nonempty(rule: Seq<char>, mlen: nat, ps: Seq<int>)
    ensures
        forall|t: int|
            0 <= t < probes_at(rule, mlen, ps).len() ==> (#[trigger] probes_at(rule, mlen, ps)[t]).len()
                > 0,
    decreases ps.len(),
{
    if ps.len() > 0 {
        lemma_probes_at_nonempty(rule, mlen, ps.drop_last());
        let a = probes_at(rule, mlen, ps.drop_last());
        let b = probe_at(rule, mlen, ps.last());
        assert forall|t: int| 0 <= t < (a + b).len() implies (#[trigger] (a + b)[t]).len() > 0 by {
            if t < a.len() {
                assert((a + b)[t] == a[t]);
            } else {
                assert((a + b)[t] == b[t - a.len()]);
            }
        }
    }
}

/// Match positions lie inside the text.
pub proof fn lemma_positions_in_range(h: Seq<char>, n: Seq<char>, i: int, k: int)
    requires
        0 <= i,
        0 <= k < positions_from(h, n, i).len(),
    ensures
        i <= positions_from(h, n, i)[k],
        positions_from(h, n, i)[k] + n.len() <= h.len(),
    decreases h.len() - i,
{
    if n.len() == 0 || i < 0 || i + n.len() > h.len() {
    } else if matches_at_pos(h, n, i) {
        if k > 0 {
            lemma_positions_in_range(h, n, i + n.len(), k - 1);
        }
    } else {
        lemma_positions_in_range(h, n, i + 1, k);
    }
}

spec fn matches_at_pos(h: Seq<char>, n: Seq<char>, i: int) -> bool {
    crate::text::matches_at(h, n, i)
}

// ---------------------------------------------------------------------------
// Negated context
// ---------------------------------------------------------------------------

/// Words that mark a mention as negated or meta narration.
pub open spec fn negators() -> Seq<Seq<char>> {
    seq!["没有"@, "并无"@, "并非"@, "并未"@, "并不"@, "不存"@, "不具"@]
}

/// The up to 8 chars before char index `i`.
pub open spec fn window_before(content: Seq<char>, i: int) -> Seq<char> {
    content.subrange(if i >= 8 {
        i - 8
    } else {
        0
    }, i)
}

/// `w` holds one of the negators.
pub open spec fn has_negator(w: Seq<char>) -> bool {
    exists|j: int| 0 <= j < negators().len() && contains(w, #[trigger] negators()[j])
}

/// Some mention of `noun` in `content` (at the positions `match_indices`
/// visits) has a negator in the 8 chars before it.
pub open spec fn is_negated(content: Seq<char>, noun: Seq<char>) -> bool {
    let ps = positions_from(content, noun, 0);
    exists|k: int| 0 <= k < ps.len() && #[trigger] has_negator(window_before(content, ps[k]))
}

/// One of the seven words that mark a mention as negated: 没有, 并无, 并非,
/// 并未, 并不, 不存, 不具.
pub open spec fn is_negating_word(w: Seq<char>) -> bool {
    ||| w == "没有"@
    ||| w == "并无"@
    ||| w == "并非"@
    ||| w == "并未"@
    ||| w == "并不"@
    ||| w == "不存"@
    ||| w == "不具"@
}

/// A window counts as negated exactly when it holds one of the words 没有,
/// 并无, 并非, 并未, 并不, 不存 and 不具.
pub proof fn law_negated_window(w: Seq<char>)
    ensures
        has_negator(w) <==> exists|word: Seq<char>| #[trigger] is_negating_word(word) && contains(w, word),
{
    let ns = negators();
    assert(ns[0] == "没有"@ && ns[1] == "并无"@ && ns[2] == "并非"@ && ns[3] == "并未"@);
    assert(ns[4] == "并不"@ && ns[5] == "不存"@ && ns[6] == "不具"@);
    if has_negator(w) {
        let j = choose|j: int| 0 <= j < ns.len() && contains(w, #[trigger] ns[j]);
        assert(is_negating_word(ns[j]));
    }
    if exists|word: Seq<char>| #[trigger] is_negating_word(word) && contains(w, word) {
        let word = choose|word: Seq<char>| #[trigger] is_negating_word(word) && contains(w, word);
        if word == "没有"@ {
            assert(contains(w, ns[0]));
        } else if word == "并无"@ {
            assert(contains(w, ns[1]));
        } else if word == "并非"@ {
            assert(contains(w, ns[2]));
        } else if word == "并未"@ {
            assert(contains(w, ns[3]));
        } else if word == "并不"@ {
            assert(contains(w, ns[4]));
        } else if word == "不存"@ {
            assert(contains(w, ns[5]));
        } else {
            assert(contains(w, ns[6]));
        }
    }
}

/// A mention of `noun` with a negating word in the 8 chars before it makes
/// the noun's context negated.
pub proof fn law_negating_word_negates(content: Seq<char>, noun: Seq<char>, p: int, word: Seq<char>)
    requires
        positions_from(content, noun, 0).contains(p),
        is_negating_word(word),
        contains(window_before(content, p), word),
    ensures
        is_negated(content, noun),
{
    law_negated_window(window_before(content, p));
    let ps = positions_from(content, noun, 0);
    let k = choose|k: int| 0 <= k < ps.len() && ps[k] == p;
    assert(has_negator(window_before(content, ps[k])));
}

fn negator_list() -> (r: Vec<Vec<char>>)
    ensures
        views(r@) == negators(),
{
    let mut r: Vec<Vec<char>> = Vec::new();
    r.push(str_to_chars("没有"));
    r.push(str_to_chars("并无"));
    r.push(str_to_chars("并非"));
    r.push(str_to_chars("并未"));
    r.push(str_to_chars("并不"));
    r.push(str_to_chars("不存"));
    r.push(str_to_chars("不具"));
    assert(views(r@) =~= negators());
    r
}

fn window_has_negator(w: &Vec<char>, ns: &Vec<Vec<char>>) -> (r: bool)
    requires
        views(ns@) == negators(),
    ensures
        r == has_negator(w@),
{
    for j in 0..ns.len()
        invariant
            views(ns@) == negators(),
            forall|t: int| 0 <= t < j ==> !contains(w@, #[trigger] negators()[t]),
    {
        assert(ns@[j as int]@ == negators()[j as int]);
        if contains_chars(w, &ns[j]) {
            return true;
        }
    }
    false
}

/// Whether a mention of the non-empty `noun` sits in a negated context.
pub fn is_negated_context(content: &Vec<char>, noun: &Vec<char>) -> (r: bool)
    requires
        noun@.len() > 0,
    ensures
        r == is_negated(content@, noun@),
{
    let ns = negator_list();
    let ps = match_positions(content, noun);
    let ghost pv = positions_from(content@, noun@, 0);
    for k in 0..ps.len()
        invariant
            views(ns@) == negators(),
            ps@.len() == pv.len(),
            pv == positions_from(content@, noun@, 0),
            forall|t: int| 0 <= t < ps@.len() ==> ps@[t] as int == #[trigger] pv[t],
            forall|t: int| 0 <= t < k ==> !#[trigger] has_negator(window_before(content@, pv[t])),
    {
        proof {
            lemma_positions_in_range(content@, noun@, 0, k as int);
        }
        let i = ps[k];
        let start = if i >= 8 {
            i - 8
        } else {
            0
        };
        let w = copy_range(content, start, i);
        assert(w@ == window_before(content@, pv[k as int]));
        if window_has_negator(&w, &ns) {
            return true;
        }
    }
    false
}

// ---------------------------------------------------------------------------
// Quantity phrases
// ---------------------------------------------------------------------------

/// Chinese numerals that count as digits.
pub open spec fn spec_is_cjk_digit(c: char) -> bool {
    "一二三四五六七八九十百千万"@.contains(c)
}

/// Measure words and units that may follow a number.
pub open spec fn spec_is_unit_char(c: char) -> bool {
    "个些位名人只匹头条件把柄张块颗粒滴杯瓶碗盘盏棵株朵门种样项段章节课道句词字行列排队班组团群对双打套沓摞叠堆层座栋幢扇面端部局场幕页篇卷册本支枝束伙帮批簇串家国城村年月日时刻分秒代纪世丈尺寸里步石斤两钱毫吨克米度倍成回次趟遍遭下番"@.contains(
        c,
    )
}

/// Whether `c` is in the chars of `set`.
fn in_set(set: &str, c: char) -> (r: bool)
    ensures
        r == set@.contains(c),
{
    let v = str_to_chars(set);
    for i in 0..v.len()
        invariant
            v@ == set@,
            forall|k: int| 0 <= k < i ==> v@[k] != c,
    {
        if v[i] == c {
            return true;
        }
    }
    false
}

pub fn is_cjk_digit(c: char) -> (r: bool)
    ensures
        r == spec_is_cjk_digit(c),
{
    in_set("一二三四五六七八九十百千万", c)
}

pub fn is_unit_char(c: char) -> (r: bool)
    ensures
        r == spec_is_unit_char(c),
{
    in_set(
        "个些位名人只匹头条件把柄张块颗粒滴杯瓶碗盘盏棵株朵门种样项段章节课道句词字行列排队班组团群对双打套沓摞叠堆层座栋幢扇面端部局场幕页篇卷册本支枝束伙帮批簇串家国城村年月日时刻分秒代纪世丈尺寸里步石斤两钱毫吨克米度倍成回次趟遍遭下番",
        c,
    )
}

/// An ASCII digit or a Chinese numeral.
pub open spec fn is_digitlike(c: char) -> bool {
    spec_is_ascii_digit(c) || spec_is_cjk_digit(c)
}

/// First index at or after `i` holding a digit, or `s.len()`.
pub open spec fn first_digit_from(s: Seq<char>, i: int) -> int
    decreases s.len() - i,
{
    if i < 0 || i >= s.len() {
        s.len() as int
    } else if is_digitlike(s[i]) {
        i
    } else {
        first_digit_from(s, i + 1)
    }
}

/// End of the run of digits starting at `i`.
pub open spec fn digit_run_end(s: Seq<char>, i: int) -> int
    decreases s.len() - i,
{
    if i < 0 || i >= s.len() {
        s.len() as int
    } else if is_digitlike(s[i]) {
        digit_run_end(s, i + 1)
    } else {
        i
    }
}

/// The "number + measure word" phrase of a line: the first run of digits
/// and the CJK measure word right after it, if there is one.
pub open spec fn quantity_phrase(line: Seq<char>) -> Option<Seq<char>> {
    let a = first_digit_from(line, 0);
    let b = digit_run_end(line, a);
    if a >= line.len() {
        None
    } else if b < line.len() && spec_is_cjk(line[b]) && spec_is_unit_char(line[b]) {
        Some(line.subrange(a, b + 1))
    } else {
        None
    }
}

proof fn lemma_first_digit_range(s: Seq<char>, i: int)
    requires
        0 <= i <= s.len(),
    ensures
        i <= first_digit_from(s, i) <= s.len(),
    decreases s.len() - i,
{
    if i < s.len() && !is_digitlike(s[i]) {
        lemma_first_digit_range(s, i + 1);
    }
}

proof fn lemma_digit_run_range(s: Seq<char>, i: int)
    requires
        0 <= i <= s.len(),
    ensures
        i <= digit_run_end(s, i) <= s.len(),
    decreases s.len() - i,
{
    if i < s.len() && is_digitlike(s[i]) {
        lemma_digit_run_range(s, i + 1);
    }
}

/// The "number + measure word" phrase of `line`.
pub fn extract_quantity_phrase(line: &Vec<char>) -> (r: Option<Vec<char>>)
    ensures
        match quantity_phrase(line@) {
            Some(p) => r matches Some(v) && v@ == p,
            None => r is None,
        },
{
    let mut i: usize = 0;
    while i < line.len() && !(is_ascii_digit(line[i]) || is_cjk_digit(line[i]))
        invariant
            i <= line@.len(),
            first_digit_from(line@, 0) == first_digit_from(line@, i as int),
        decreases line@.len() - i,
    {
        i = i + 1;
    }
    if i >= line.len() {
        return None;
    }
    let a = i;
    proof {
        lemma_digit_run_range(line@, a as int);
    }
    while i < line.len() && (is_ascii_digit(line[i]) || is_cjk_digit(line[i]))
        invariant
            a <= i <= line@.len(),
            digit_run_end(line@, a as int) == digit_run_end(line@, i as int),
        decreases line@.len() - i,
    {
        i = i + 1;
    }
    let b = i;
    if b < line.len() && is_cjk(line[b]) && is_unit_char(line[b]) {
        Some(copy_range(line, a, b + 1))
    } else {
        None
    }
}

} // verus!
