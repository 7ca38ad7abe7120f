//! The heuristic fact extractor: candidate character names (a Chinese name
//! right before a speech verb) and candidate world rules (`设定:` /
//! `规则:` lines and "这个世界……" sentences) found in a chapter, and what a
//! merge into the fact store adds.
use vstd::prelude::*;

use crate::model::{Character, CharacterStatus, WorldCategory, WorldSetting};
use crate::tally::{is_tally_of, law_tally_unique, tally, tally_keys};
use crate::text::{
    ascii_lower, byte_len, char_utf8_len, chars_to_string, contains, copy_range, is_alphanumeric,
    is_whitespace, lines, pieces, spec_ascii_lower, spec_is_whitespace, split_lines, split_pieces,
    starts_with, str_to_chars, trim, trim_chars, trim_end, trim_nonempty, trimmed_nonempty,
    unicode_alphanumeric, views, utf8_len, match_at, contains_chars, is_text, lemma_trim_idempotent,
    matches_at,
};

verus! {

/// Where the fact store lives under the project root.
pub const FACTS_PATH: &'static str = ".novelwhale/facts.json";

// ---------------------------------------------------------------------------
// Slugs
// ---------------------------------------------------------------------------

/// One step of slugging: letters and digits (ASCII lower-cased) are kept,
/// any other char becomes one `_` after a kept char.
pub open spec fn slug_step(out: Seq<char>, c: char) -> Seq<char> {
    if unicode_alphanumeric(c) {
        out.push(spec_ascii_lower(c))
    } else if out.len() > 0 && out.last() != '_' {
        out.push('_')
    } else {
        out
    }
}

/// Slugging the rest `s`, with `out` built so far; it stops once the slug
/// reaches 48 bytes.
pub open spec fn slug_scan(s: Seq<char>, out: Seq<char>) -> Seq<char>
    decreases s.len(),
{
    if s.len() == 0 {
        out
    } else {
        let o = slug_step(out, s[0]);
        if byte_len(o) >= 48 {
            o
        } else {
            slug_scan(s.drop_first(), o)
        }
    }
}

pub open spec fn strip_leading_us(s: Seq<char>) -> Seq<char>
    decreases s.len(),
{
    if s.len() > 0 && s[0] == '_' {
        strip_leading_us(s.drop_first())
    } else {
        s
    }
}

pub open spec fn strip_trailing_us(s: Seq<char>) -> Seq<char>
    decreases s.len(),
{
    if s.len() > 0 && s.last() == '_' {
        strip_trailing_us(s.drop_last())
    } else {
        s
    }
}

/// The slug of a text: its slugged form without leading or trailing `_`.
pub open spec fn slug(s: Seq<char>) -> Seq<char> {
    strip_trailing_us(strip_leading_us(slug_scan(s, Seq::empty())))
}

fn strip_underscores(v: &Vec<char>) -> (r: Vec<char>)
    ensures
        r@ == strip_trailing_us(strip_leading_us(v@)),
{
    let mut a: usize = 0;
    assert(v@.skip(0) =~= v@);
    while a < v.len() && v[a] == '_'
        invariant
            a <= v@.len(),
            strip_leading_us(v@) == strip_leading_us(v@.skip(a as int)),
        decreases v@.len() - a,
    {
        assert(v@.skip(a as int).drop_first() =~= v@.skip(a + 1));
        a = a + 1;
    }
    let ghost t = v@.skip(a as int);
    assert(strip_leading_us(t) == t);
    let mut b: usize = v.len();
    assert(t.take(t.len() as int) =~= t);
    while b > a && v[b - 1] == '_'
        invariant
            a <= b <= v@.len(),
            t == v@.skip(a as int),
            strip_trailing_us(t) == strip_trailing_us(t.take(b - a)),
        decreases b,
    {
        assert(t.take(b - a).drop_last() =~= t.take(b - 1 - a));
        assert(t.take(b - a).last() == v@[b - 1]);
        b = b - 1;
    }
    let r = copy_range(v, a, b);
    assert(r@ =~= t.take(b - a));
    if b > a {
        assert(t.take(b - a).last() == v@[b - 1]);
    }
    r
}

/// The slug of `s`: letters and digits lower-cased, other runs as `_`,
/// at most about 48 bytes, without leading or trailing `_`.
pub fn slugify(s: &str) -> (r: String)
    ensures
        r@ == slug(s@),
{
    let chars = str_to_chars(s);
    let ghost sv = chars@;
    let mut out: Vec<char> = Vec::new();
    let mut blen: usize = 0;
    let mut i: usize = 0;
    assert(sv.skip(0) =~= sv);
    while i < chars.len()
        invariant
            sv == chars@,
            sv == s@,
            i <= sv.len(),
            blen == byte_len(out@),
            blen < 48,
            slug_scan(sv, Seq::empty()) == slug_scan(sv.skip(i as int), out@),
        decreases sv.len() - i,
    {
        let c = chars[i];
        let ghost rest = sv.skip(i as int);
        assert(rest.drop_first() =~= sv.skip(i + 1));
        assert(rest[0] == c);
        let ghost before = out@;
        if is_alphanumeric(c) {
            let l = ascii_lower(c);
            out.push(l);
            assert(out@.drop_last() =~= before);
            blen = blen + char_utf8_len(l);
        } else if out.len() > 0 && out[out.len() - 1] != '_' {
            out.push('_');
            assert(out@.drop_last() =~= before);
            blen = blen + 1;
        }
        assert(out@ == slug_step(before, c));
        i = i + 1;
        if blen >= 48 {
            assert(slug_scan(sv, Seq::empty()) == out@);
            let r = strip_underscores(&out);
            let st = chars_to_string(&r);
            assert(st@ == slug(s@));
            return st;
        }
    }
    assert(sv.skip(i as int) =~= Seq::<char>::empty());
    let r = strip_underscores(&out);
    chars_to_string(&r)
}

/// The fact store's name of a world category.
pub open spec fn spec_category_label(c: WorldCategory) -> Seq<char> {
    match c {
        WorldCategory::Geography => "geography"@,
        WorldCategory::History => "history"@,
        WorldCategory::Culture => "culture"@,
        WorldCategory::MagicSystem => "magic"@,
        WorldCategory::Technology => "technology"@,
        WorldCategory::Politics => "politics"@,
        WorldCategory::Economy => "economy"@,
        WorldCategory::Other => "other"@,
    }
}

pub fn category_label(c: &WorldCategory) -> (r: &'static str)
    ensures
        r@ == spec_category_label(*c),
{
    match c {
        WorldCategory::Geography => "geography",
        WorldCategory::History => "history",
        WorldCategory::Culture => "culture",
        WorldCategory::MagicSystem => "magic",
        WorldCategory::Technology => "technology",
        WorldCategory::Politics => "politics",
        WorldCategory::Economy => "economy",
        WorldCategory::Other => "other",
    }
}

// ---------------------------------------------------------------------------
// Character names
// ---------------------------------------------------------------------------

/// A char that may be part of a Chinese name: CJK unified ideographs and
/// extensions A and B.
pub open spec fn is_name_char(c: char) -> bool {
    (0x4E00 <= c as u32 && c as u32 <= 0x9FFF) || (0x3400 <= c as u32 && c as u32 <= 0x4DBF) || (
    0x20000 <= c as u32 && c as u32 <= 0x2A6DF)
}

fn is_name_char_exec(c: char) -> (r: bool)
    ensures
        r == is_name_char(c),
{
    let v = c as u32;
    (0x4E00 <= v && v <= 0x9FFF) || (0x3400 <= v && v <= 0x4DBF) || (0x20000 <= v && v <= 0x2A6DF)
}

/// The speech verbs a name may stand before.
pub open spec fn is_speech_verb(c: char) -> bool {
    "说道笑怒喝问答叫喊叹"@.contains(c)
}

/// The chars that separate clauses.
pub open spec fn clause_separators() -> Seq<char> {
    "。，、；：！？\"「」“”‘’()（）\n\r"@
}

/// Index of the first speech verb from `i` on.
pub open spec fn first_verb_from(s: Seq<char>, i: int) -> Option<int>
    decreases s.len() - i,
{
    if i < 0 || i >= s.len() {
        None
    } else if is_speech_verb(s[i]) {
        Some(i)
    } else {
        first_verb_from(s, i + 1)
    }
}

/// How many name chars end `s`, at most `cap`.
pub open spec fn trailing_name_len(s: Seq<char>, cap: nat) -> nat
    decreases s.len(),
{
    if cap == 0 || s.len() == 0 || !is_name_char(s.last()) {
        0
    } else {
        1 + trailing_name_len(s.drop_last(), (cap - 1) as nat)
    }
}

/// The last 2-3 name chars of a text (after trimming its end), if it ends
/// in at least two.
pub open spec fn last_chinese_name(text: Seq<char>) -> Option<Seq<char>> {
    let t = trim_end(text);
    let k = trailing_name_len(t, 3);
    if k >= 2 {
        Some(t.skip(t.len() - k))
    } else {
        None
    }
}

/// The name right before the first speech verb of a clause, if any.
pub open spec fn name_before_verb(clause: Seq<char>) -> Option<Seq<char>> {
    match first_verb_from(clause, 0) {
        Some(i) => last_chinese_name(clause.take(i)),
        None => None,
    }
}

/// The names of the clauses, in order.
pub open spec fn clause_names(cs: Seq<Seq<char>>) -> Seq<Seq<char>>
    decreases cs.len(),
{
    if cs.len() == 0 {
        Seq::empty()
    } else {
        clause_names(cs.drop_last()) + match name_before_verb(cs.last()) {
            Some(n) => seq![n],
            None => Seq::empty(),
        }
    }
}

/// Every name found in a chapter, once per clause that names it.
pub open spec fn found_names(content: Seq<char>) -> Seq<Seq<char>> {
    clause_names(trimmed_nonempty(pieces(content, clause_separators())))
}

fn is_speech_verb_exec(c: char) -> (r: bool)
    ensures
        r == is_speech_verb(c),
{
    let vs = str_to_chars("说道笑怒喝问答叫喊叹");
    for k in 0..vs.len()
        invariant
            vs@ == "说道笑怒喝问答叫喊叹"@,
            forall|t: int| 0 <= t < k ==> vs@[t] != c,
    {
        if vs[k] == c {
            return true;
        }
    }
    false
}

fn trim_end_chars(s: &Vec<char>) -> (r: Vec<char>)
    ensures
        r@ == trim_end(s@),
{
    let mut b: usize = s.len();
    assert(s@.take(s@.len() as int) =~= s@);
    while b > 0 && is_whitespace(s[b - 1])
        invariant
            b <= s@.len(),
            trim_end(s@) == trim_end(s@.take(b as int)),
        decreases b,
    {
        assert(s@.take(b as int).drop_last() =~= s@.take(b - 1));
        assert(s@.take(b as int).last() == s@[b - 1]);
        b = b - 1;
    }
    let r = copy_range(s, 0, b);
    assert(r@ =~= s@.take(b as int));
    if b > 0 {
        assert(s@.take(b as int).last() == s@[b - 1]);
    }
    r
}

fn last_chinese_name_exec(text: &Vec<char>) -> (r: Option<Vec<char>>)
    ensures
        match last_chinese_name(text@) {
            Some(n) => r matches Some(v) && v@ == n,
            None => r is None,
        },
{
    let t = trim_end_chars(text);
    let mut k: usize = 0;
    assert(t@.take(t@.len() as int) =~= t@);
    while k < 3 && k < t.len() && is_name_char_exec(t[t.len() - 1 - k])
        invariant
            k <= 3,
            k <= t@.len(),
            trailing_name_len(t@, 3) == k + trailing_name_len(t@.take(t@.len() - k), (3 - k) as nat),
        decreases 3 - k,
    {
        let ghost u = t@.take(t@.len() - k);
        assert(u.drop_last() =~= t@.take(t@.len() - k - 1));
        assert(u.last() == t@[t@.len() - 1 - k]);
        k = k + 1;
    }
    if k >= 2 {
        let v = copy_range(&t, t.len() - k, t.len());
        assert(v@ =~= t@.skip(t@.len() - k));
        Some(v)
    } else {
        None
    }
}

fn name_before_verb_exec(clause: &Vec<char>) -> (r: Option<Vec<char>>)
    ensures
        match name_before_verb(clause@) {
            Some(n) => r matches Some(v) && v@ == n,
            None => r is None,
        },
{
    let mut i: usize = 0;
    while i < clause.len() && !is_speech_verb_exec(clause[i])
        invariant
            i <= clause@.len(),
            first_verb_from(clause@, 0) == first_verb_from(clause@, i as int),
        decreases clause@.len() - i,
    {
        i = i + 1;
    }
    if i >= clause.len() {
        return None;
    }
    let prefix = copy_range(clause, 0, i);
    assert(prefix@ =~= clause@.take(i as int));
    last_chinese_name_exec(&prefix)
}

/// The characters of `names`, in order, with only their names set.
pub open spec fn named_characters(cs: Seq<Character>, names: Seq<Seq<char>>) -> bool {
    &&& cs.len() == names.len()
    &&& forall|i: int|
        0 <= i < cs.len() ==> (#[trigger] cs[i]).name@ == names[i] && cs[i].aliases@.len() == 0
            && cs[i].age is None && cs[i].appearance is None && cs[i].personality is None
            && cs[i].background is None && cs[i].goals@.len() == 0 && cs[i].relationships@.len()
            == 0 && cs[i].status == CharacterStatus::Alive
}

fn new_character(name: String) -> (c: Character)
    ensures
        c.name == name,
        c.aliases@.len() == 0,
        c.age is None,
        c.appearance is None,
        c.personality is None,
        c.background is None,
        c.goals@.len() == 0,
        c.relationships@.len() == 0,
        c.status == CharacterStatus::Alive,
{
    Character {
        aliases: Vec::new(),
        age: None,
        appearance: None,
        personality: None,
        background: None,
        goals: Vec::new(),
        relationships: Vec::new(),
        status: CharacterStatus::Alive,
        name,
    }
}

// ---------------------------------------------------------------------------
// World rules
// ---------------------------------------------------------------------------

/// The text after a marker prefix, trimmed.
pub open spec fn after_prefix(line: Seq<char>, p: Seq<char>) -> Option<Seq<char>> {
    if starts_with(line, p) {
        Some(trim(line.skip(p.len() as int)))
    } else {
        None
    }
}

/// The text before the first period.
pub open spec fn before_period(s: Seq<char>) -> Seq<char> {
    pieces(s, seq!['。', '.'])[0]
}

/// The rule a (trimmed, non-empty) line declares, if any: the text after
/// `设定:` / `设定：` / `规则:` / `规则：`, or the first sentence of a line
/// about "这个世界" that has a period.
pub open spec fn rule_candidate(line: Seq<char>) -> Option<Seq<char>> {
    if after_prefix(line, "设定:"@) is Some {
        after_prefix(line, "设定:"@)
    } else if after_prefix(line, "设定："@) is Some {
        after_prefix(line, "设定："@)
    } else if after_prefix(line, "规则:"@) is Some {
        after_prefix(line, "规则:"@)
    } else if after_prefix(line, "规则："@) is Some {
        after_prefix(line, "规则："@)
    } else if contains(line, "这个世界"@) && (line.contains('。') || line.contains('.')) {
        Some(before_period(line))
    } else {
        None
    }
}

/// One of the four markers that declare a rule: `设定:`, `设定：`, `规则:`
/// and `规则：`.
pub open spec fn is_rule_marker(m: Seq<char>) -> bool {
    ||| m == "设定:"@
    ||| m == "设定："@
    ||| m == "规则:"@
    ||| m == "规则："@
}

/// A line that starts with a rule marker declares the text after the
/// marker, trimmed, as a rule, whichever of the four markers it is.
pub proof fn law_marker_declares_rule(line: Seq<char>, m: Seq<char>)
    requires
        is_rule_marker(m),
        starts_with(line, m),
    ensures
        rule_candidate(line) == Some(trim(line.skip(m.len() as int))),
{
    reveal_strlit("设定:");
    reveal_strlit("设定：");
    reveal_strlit("规则:");
    reveal_strlit("规则：");
    assert(line.subrange(0, m.len() as int) == m);
    assert(line[0] == m[0] && line[1] == m[1] && line[2] == m[2]);
    if m != "设定:"@ {
        assert(!starts_with(line, "设定:"@)) by {
            if starts_with(line, "设定:"@) {
                assert(line.subrange(0, 3) == "设定:"@);
                assert(line[0] == '设' && line[2] == ':');
            }
        }
    }
    if m != "设定："@ {
        assert(!starts_with(line, "设定："@)) by {
            if starts_with(line, "设定："@) {
                assert(line.subrange(0, 3) == "设定："@);
                assert(line[0] == '设' && line[2] == '：');
            }
        }
    }
    if m != "规则:"@ {
        assert(!starts_with(line, "规则:"@)) by {
            if starts_with(line, "规则:"@) {
                assert(line.subrange(0, 3) == "规则:"@);
                assert(line[0] == '规' && line[2] == ':');
            }
        }
    }
}

/// Rules found in the first lines stay, in order, as later lines are read.
proof fn lemma_rules_prefix(ls: Seq<Seq<char>>, j: int)
    requires
        0 <= j <= ls.len(),
    ensures
        rules_of_lines(ls.take(j)).len() <= rules_of_lines(ls).len(),
        forall|i: int|
            0 <= i < rules_of_lines(ls.take(j)).len() ==> #[trigger] rules_of_lines(ls)[i]
                == rules_of_lines(ls.take(j))[i],
    decreases ls.len(),
{
    if j == ls.len() {
        assert(ls.take(j) =~= ls);
    } else {
        lemma_rules_prefix(ls.drop_last(), j);
        assert(ls.drop_last().take(j) =~= ls.take(j));
    }
}

/// A line whose trimmed text starts with a rule marker followed by
/// non-blank text yields a rule keyed by the slug of that text (trimmed):
/// as the chapter's only line, exactly that rule, with the text as value.
pub proof fn law_marker_line_yields_rule(ls: Seq<Seq<char>>, k: int, m: Seq<char>)
    requires
        0 <= k < ls.len(),
        is_rule_marker(m),
        starts_with(trim(ls[k]), m),
        trim(trim(ls[k]).skip(m.len() as int)).len() > 0,
    ensures
        ({
            let v = trim(trim(ls[k]).skip(m.len() as int));
            &&& exists|i: int| 0 <= i < rules_of_lines(ls).len() && #[trigger] rules_of_lines(ls)[i].0 == slug(v)
            &&& rules_of_lines(seq![ls[k]]) == seq![(slug(v), v)]
        }),
{
    let line = trim(ls[k]);
    let v = trim(line.skip(m.len() as int));
    law_marker_declares_rule(line, m);
    lemma_trim_idempotent(line.skip(m.len() as int));
    assert(matches_at(line, m, 0));
    assert(line.len() > 0) by {
        reveal_strlit("设定:");
        reveal_strlit("设定：");
        reveal_strlit("规则:");
        reveal_strlit("规则：");
    }
    let pre = ls.take(k);
    let cur = ls.take(k + 1);
    assert(cur.drop_last() =~= pre);
    assert(cur.last() == ls[k]);
    let prev = rules_of_lines(pre);
    assert(rules_of_lines(cur) == add_rule(prev, v));
    assert(trim(v) == v);
    if exists|i: int| 0 <= i < prev.len() && prev[i].0 == slug(v) {
        let i = choose|i: int| 0 <= i < prev.len() && prev[i].0 == slug(v);
        assert(rules_of_lines(cur)[i].0 == slug(v));
        lemma_rules_prefix(ls, k + 1);
        assert(rules_of_lines(ls)[i] == rules_of_lines(cur)[i]);
    } else {
        assert(rules_of_lines(cur) == prev.push((slug(v), v)));
        let i = prev.len() as int;
        assert(rules_of_lines(cur)[i].0 == slug(v));
        lemma_rules_prefix(ls, k + 1);
        assert(rules_of_lines(ls)[i] == rules_of_lines(cur)[i]);
    }
    let one = seq![ls[k]];
    assert(one.drop_last() =~= Seq::<Seq<char>>::empty());
    assert(one.last() == ls[k]);
    assert(rules_of_lines(Seq::<Seq<char>>::empty()) == Seq::<(Seq<char>, Seq<char>)>::empty());
    assert(rules_of_lines(one) =~= seq![(slug(v), v)]);
}

/// `(key, value)` pairs found so far, plus the rule `v` unless it is blank
/// or its slug is already a key.
pub open spec fn add_rule(prev: Seq<(Seq<char>, Seq<char>)>, v: Seq<char>) -> Seq<(Seq<char>, Seq<char>)> {
    let t = trim(v);
    if t.len() == 0 {
        prev
    } else if exists|i: int| 0 <= i < prev.len() && prev[i].0 == slug(t) {
        prev
    } else {
        prev.push((slug(t), t))
    }
}

/// The `(key, value)` rules of the lines, in order.
pub open spec fn rules_of_lines(ls: Seq<Seq<char>>) -> Seq<(Seq<char>, Seq<char>)>
    decreases ls.len(),
{
    if ls.len() == 0 {
        Seq::empty()
    } else {
        let prev = rules_of_lines(ls.drop_last());
        let t = trim(ls.last());
        if t.len() == 0 {
            prev
        } else {
            match rule_candidate(t) {
                Some(v) => add_rule(prev, v),
                None => prev,
            }
        }
    }
}

/// The settings match the `(key, value)` rules: category other, no source
/// chapter, not locked.
pub open spec fn settings_of(ws: Seq<WorldSetting>, rs: Seq<(Seq<char>, Seq<char>)>) -> bool {
    &&& ws.len() == rs.len()
    &&& forall|i: int|
        0 <= i < ws.len() ==> (#[trigger] ws[i]).key@ == rs[i].0 && ws[i].value@ == rs[i].1
            && ws[i].category == WorldCategory::Other && ws[i].source_chapter is None
            && !ws[i].immutable
}

fn after_prefix_exec(line: &Vec<char>, p: &str) -> (r: Option<Vec<char>>)
    ensures
        match after_prefix(line@, p@) {
            Some(x) => r matches Some(v) && v@ == x,
            None => r is None,
        },
{
    let pv = str_to_chars(p);
    if match_at(line, &pv, 0) {
        let rest = copy_range(line, pv.len(), line.len());
        assert(rest@ =~= line@.skip(p@.len() as int));
        Some(trim_chars(&rest))
    } else {
        None
    }
}

fn before_period_exec(s: &Vec<char>) -> (r: Vec<char>)
    ensures
        r@ == before_period(s@),
{
    let mut seps: Vec<char> = Vec::new();
    seps.push('。');
    seps.push('.');
    assert(seps@ =~= seq!['。', '.']);
    let ps = split_pieces(s, &seps);
    proof {
        lemma_pieces_nonempty(s@, seq!['。', '.'], Seq::empty());
    }
    let first = copy_range(&ps[0], 0, ps[0].len());
    assert(first@ =~= views(ps@)[0]);
    first
}

proof fn lemma_pieces_nonempty(s: Seq<char>, seps: Seq<char>, cur: Seq<char>)
    ensures
        crate::text::pieces_from(s, seps, cur).len() > 0,
    decreases s.len(),
{
    if s.len() > 0 && !seps.contains(s[0]) {
        lemma_pieces_nonempty(s.drop_first(), seps, cur.push(s[0]));
    }
}

fn has_char(s: &Vec<char>, c: char) -> (r: bool)
    ensures
        r == s@.contains(c),
{
    for k in 0..s.len()
        invariant
            forall|t: int| 0 <= t < k ==> s@[t] != c,
    {
        if s[k] == c {
            return true;
        }
    }
    false
}

fn rule_candidate_exec(line: &Vec<char>) -> (r: Option<Vec<char>>)
    ensures
        match rule_candidate(line@) {
            Some(x) => r matches Some(v) && v@ == x,
            None => r is None,
        },
{
    if let Some(v) = after_prefix_exec(line, "设定:") {
        return Some(v);
    }
    if let Some(v) = after_prefix_exec(line, "设定：") {
        return Some(v);
    }
    if let Some(v) = after_prefix_exec(line, "规则:") {
        return Some(v);
    }
    if let Some(v) = after_prefix_exec(line, "规则：") {
        return Some(v);
    }
    if contains_chars(line, &str_to_chars("这个世界")) && (has_char(line, '。') || has_char(line, '.')) {
        return Some(before_period_exec(line));
    }
    None
}

// ---------------------------------------------------------------------------
// The extractor
// ---------------------------------------------------------------------------

/// What the extractor found in a chapter.
#[derive(Clone, Debug)]
pub struct ExtractedFacts {
    /// Candidate characters (may repeat known ones).
    pub characters: Vec<Character>,
    /// Candidate world rules.
    pub world_rules: Vec<WorldSetting>,
}

impl ExtractedFacts {
    pub fn is_empty(&self) -> (r: bool)
        ensures
            r == (self.characters@.len() == 0 && self.world_rules@.len() == 0),
    {
        self.characters.len() == 0 && self.world_rules.len() == 0
    }
}

impl Default for ExtractedFacts {
    fn default() -> (r: Self)
        ensures
            r.characters@.len() == 0,
            r.world_rules@.len() == 0,
    {
        ExtractedFacts { characters: Vec::new(), world_rules: Vec::new() }
    }
}

/// The heuristic fact extractor.
#[derive(Clone, Copy, Debug)]
pub struct FactExtractor;

impl FactExtractor {
    /// The characters named before a speech verb, one per distinct name, in
    /// name order.
    pub fn extract_characters(content: &str) -> (r: Vec<Character>)
        ensures
            exists|t: Seq<(Vec<char>, usize)>|
                #[trigger] is_tally_of(found_names(content@), t) && named_characters(
                    r@,
                    tally_keys(t),
                ),
    {
        let text = str_to_chars(content);
        let seps = str_to_chars("。，、；：！？\"「」“”‘’()（）\n\r");
        let ps = split_pieces(&text, &seps);
        let cs = trim_nonempty(&ps);
        let ghost cv = views(cs@);
        let mut names: Vec<Vec<char>> = Vec::new();
        assert(views(names@) =~= clause_names(cv.take(0)));
        for i in 0..cs.len()
            invariant
                cv == views(cs@),
                views(names@) == clause_names(cv.take(i as int)),
        {
            assert(cv.take(i + 1).drop_last() =~= cv.take(i as int));
            assert(cv.take(i + 1).last() == cs@[i as int]@);
            let ghost before = views(names@);
            match name_before_verb_exec(&cs[i]) {
                Some(n) => {
                    let ghost nv = n@;
                    names.push(n);
                    assert(views(names@) =~= before + seq![nv]);
                },
                None => {
                    assert(views(names@) =~= before + Seq::<Seq<char>>::empty());
                },
            }
        }
        assert(cv.take(cv.len() as int) =~= cv);
        assert(views(names@) == found_names(content@));
        let t = tally(&names);
        assert(is_tally_of(found_names(content@), t@));
        let mut r: Vec<Character> = Vec::new();
        for j in 0..t.len()
            invariant
                r@.len() == j,
                j <= t@.len(),
                forall|k: int|
                    0 <= k < j ==> (#[trigger] r@[k]).name@ == t@[k].0@ && r@[k].aliases@.len() == 0
                        && r@[k].age is None && r@[k].appearance is None && r@[k].personality is None
                        && r@[k].background is None && r@[k].goals@.len() == 0
                        && r@[k].relationships@.len() == 0 && r@[k].status == CharacterStatus::Alive,
        {
            let c = new_character(chars_to_string(&t[j].0));
            r.push(c);
        }
        assert(named_characters(r@, tally_keys(t@)));
        r
    }

    /// The world rules declared in a chapter, one per distinct slug, in
    /// order of appearance.
    pub fn extract_world_rules(content: &str) -> (r: Vec<WorldSetting>)
        ensures
            settings_of(r@, rules_of_lines(lines(content@))),
    {
        let text = str_to_chars(content);
        let ls = split_lines(&text);
        let ghost lv = views(ls@);
        let mut out: Vec<WorldSetting> = Vec::new();
        let mut keys: Vec<Vec<char>> = Vec::new();
        for i in 0..ls.len()
            invariant
                lv == views(ls@),
                keys@.len() == out@.len(),
                forall|k: int| 0 <= k < keys@.len() ==> (#[trigger] keys@[k])@ == rules_of_lines(
                    lv.take(i as int),
                )[k].0,
                settings_of(out@, rules_of_lines(lv.take(i as int))),
        {
            assert(lv.take(i + 1).drop_last() =~= lv.take(i as int));
            assert(lv.take(i + 1).last() == ls@[i as int]@);
            let ghost prev = rules_of_lines(lv.take(i as int));
            let line = trim_chars(&ls[i]);
            if line.len() > 0 {
                if let Some(v) = rule_candidate_exec(&line) {
                    let value = trim_chars(&v);
                    if value.len() > 0 {
                        let key = slugify(chars_to_string(&value).as_str());
                        let kc = str_to_chars(key.as_str());
                        let mut seen = false;
                        let mut k: usize = 0;
                        while k < keys.len()
                            invariant
                                k <= keys@.len(),
                                keys@.len() == prev.len(),
                                forall|m: int| 0 <= m < keys@.len() ==> (#[trigger] keys@[m])@ == prev[m].0,
                                seen <==> exists|m: int| 0 <= m < k && prev[m].0 == kc@,
                            decreases keys@.len() - k,
                        {
                            if crate::text::chars_eq(&keys[k], &kc) {
                                seen = true;
                            }
                            k = k + 1;
                        }
                        if !seen {
                            out.push(
                                WorldSetting {
                                    key,
                                    value: chars_to_string(&value),
                                    category: WorldCategory::Other,
                                    source_chapter: None,
                                    immutable: false,
                                },
                            );
                            keys.push(kc);
                        }
                    }
                }
            }
            assert(settings_of(out@, rules_of_lines(lv.take(i + 1))));
        }
        assert(lv.take(lv.len() as int) =~= lv);
        out
    }

    /// Characters and world rules at once.
    pub fn extract(content: &str) -> (r: ExtractedFacts)
        ensures
            exists|t: Seq<(Vec<char>, usize)>|
                #[trigger] is_tally_of(found_names(content@), t) && named_characters(
                    r.characters@,
                    tally_keys(t),
                ),
            settings_of(r.world_rules@, rules_of_lines(lines(content@))),
    {
        ExtractedFacts {
            characters: Self::extract_characters(content),
            world_rules: Self::extract_world_rules(content),
        }
    }
}

/// What `extract` reports is what its two parts report: for one chapter,
/// any characters meeting the contract of `extract` and any meeting that of
/// `extract_characters` are the same characters in the same order, and any
/// world rules meeting the contract of `extract` and any meeting that of
/// `extract_world_rules` are the same rules in the same order.
pub proof fn law_extract_is_its_parts(
    content: Seq<char>,
    whole: ExtractedFacts,
    characters: Seq<Character>,
    rules: Seq<WorldSetting>,
)
    requires
        exists|t: Seq<(Vec<char>, usize)>|
            #[trigger] is_tally_of(found_names(content), t) && named_characters(
                whole.characters@,
                tally_keys(t),
            ),
        settings_of(whole.world_rules@, rules_of_lines(lines(content))),
        exists|t: Seq<(Vec<char>, usize)>|
            #[trigger] is_tally_of(found_names(content), t) && named_characters(characters, tally_keys(t)),
        settings_of(rules, rules_of_lines(lines(content))),
    ensures
        whole.characters@.len() == characters.len(),
        forall|i: int|
            0 <= i < characters.len() ==> (#[trigger] whole.characters@[i]).name@ == characters[i].name@
                && whole.characters@[i].aliases@ == characters[i].aliases@
                && whole.characters@[i].age == characters[i].age
                && whole.characters@[i].appearance == characters[i].appearance
                && whole.characters@[i].personality == characters[i].personality
                && whole.characters@[i].background == characters[i].background
                && whole.characters@[i].goals@ == characters[i].goals@
                && whole.characters@[i].relationships@.len() == characters[i].relationships@.len()
                && whole.characters@[i].status == characters[i].status,
        whole.world_rules@.len() == rules.len(),
        forall|i: int|
            0 <= i < rules.len() ==> (#[trigger] whole.world_rules@[i]).key@ == rules[i].key@
                && whole.world_rules@[i].value@ == rules[i].value@
                && whole.world_rules@[i].category == rules[i].category
                && whole.world_rules@[i].source_chapter == rules[i].source_chapter
                && whole.world_rules@[i].immutable == rules[i].immutable,
{
    let t1 = choose|t: Seq<(Vec<char>, usize)>|
        #[trigger] is_tally_of(found_names(content), t) && named_characters(
            whole.characters@,
            tally_keys(t),
        );
    let t2 = choose|t: Seq<(Vec<char>, usize)>|
        #[trigger] is_tally_of(found_names(content), t) && named_characters(characters, tally_keys(t));
    law_tally_unique(found_names(content), t1, t2);
    let a = whole.characters@;
    assert forall|i: int| 0 <= i < characters.len() implies (#[trigger] a[i]).name@ == characters[i].name@
        && a[i].aliases@ == characters[i].aliases@ && a[i].goals@ == characters[i].goals@ by {
        assert(a[i].name@ == tally_keys(t1)[i]);
        assert(characters[i].name@ == tally_keys(t2)[i]);
        assert(a[i].aliases@ =~= characters[i].aliases@);
        assert(a[i].goals@ =~= characters[i].goals@);
    }
}

// ---------------------------------------------------------------------------
// Merging into the fact store
// ---------------------------------------------------------------------------

/// The candidates, by index, that a merge appends: those whose text no
/// existing entry has and no earlier appended candidate has.
pub open spec fn fresh_upto(existing: Seq<Option<Seq<char>>>, cands: Seq<Seq<char>>, k: int) -> Seq<int>
    decreases k,
{
    if k <= 0 || k > cands.len() {
        Seq::empty()
    } else {
        let prev = fresh_upto(existing, cands, k - 1);
        if (exists|e: int| 0 <= e < existing.len() && existing[e] == Some(cands[k - 1])) || (exists|
            j: int,
        | 0 <= j < prev.len() && cands[prev[j]] == cands[k - 1]) {
            prev
        } else {
            prev.push(k - 1)
        }
    }
}

pub open spec fn opt_views(v: Seq<Option<String>>) -> Seq<Option<Seq<char>>> {
    Seq::new(
        v.len(),
        |i: int|
            match v[i] {
                Some(s) => Some(s@),
                None => None,
            },
    )
}

/// The indices of the candidates a merge appends, given the texts of the
/// existing entries (`None` for an entry without one).
pub fn fresh_candidates(existing: &Vec<Option<String>>, candidates: &Vec<String>) -> (r: Vec<usize>)
    ensures
        r@.len() == fresh_upto(opt_views(existing@), crate::tools::spec::string_views(candidates@), candidates@.len() as int).len(),
        forall|i: int|
            0 <= i < r@.len() ==> r@[i] as int == #[trigger] fresh_upto(
                opt_views(existing@),
                crate::tools::spec::string_views(candidates@),
                candidates@.len() as int,
            )[i],
{
    let ghost ev = opt_views(existing@);
    let ghost cv = crate::tools::spec::string_views(candidates@);
    let mut r: Vec<usize> = Vec::new();
    let ghost mut rv: Seq<int> = Seq::empty();
    let n = candidates.len();
    let mut k: usize = 0;
    while k < n
        invariant
            n == candidates@.len(),
            k <= n,
            ev == opt_views(existing@),
            cv == crate::tools::spec::string_views(candidates@),
            rv == fresh_upto(ev, cv, k as int),
            r@.len() == rv.len(),
            forall|i: int| 0 <= i < r@.len() ==> r@[i] as int == rv[i],
            forall|i: int| 0 <= i < r@.len() ==> r@[i] < k,
        decreases n - k,
    {
        let c = &candidates[k];
        assert(cv[k as int] == c@);
        let mut found = false;
        let mut e: usize = 0;
        while e < existing.len()
            invariant
                e <= existing@.len(),
                k < n,
                n == candidates@.len(),
                ev == opt_views(existing@),
                cv == crate::tools::spec::string_views(candidates@),
                cv[k as int] == c@,
                found <==> exists|m: int| 0 <= m < e && ev[m] == Some(cv[k as int]),
            decreases existing@.len() - e,
        {
            match &existing[e] {
                Some(s) => {
                    assert(ev[e as int] == Some(s@));
                    if *s == *c {
                        found = true;
                    }
                },
                None => {
                    assert(ev[e as int] is None);
                },
            }
            e = e + 1;
        }
        let ghost found_existing = found;
        let mut j: usize = 0;
        while j < r.len()
            invariant
                j <= r@.len(),
                k < n,
                n == candidates@.len(),
                r@.len() == rv.len(),
                forall|i: int| 0 <= i < r@.len() ==> r@[i] as int == rv[i],
                forall|i: int| 0 <= i < r@.len() ==> r@[i] < k,
                cv == crate::tools::spec::string_views(candidates@),
                cv[k as int] == c@,
                found_existing <==> exists|m: int| 0 <= m < existing@.len() && ev[m] == Some(cv[k as int]),
                found <==> found_existing || exists|m: int| 0 <= m < j && cv[rv[m]] == cv[k as int],
            decreases r@.len() - j,
        {
            let idx = r[j];
            assert(cv[rv[j as int]] == candidates@[idx as int]@);
            if candidates[idx] == *c {
                found = true;
            }
            j = j + 1;
        }
        if !found {
            r.push(k);
            proof {
                rv = rv.push(k as int);
            }
        }
        assert(rv == fresh_upto(ev, cv, k + 1));
        k = k + 1;
    }
    r
}

/// The entry texts after a merge: the existing ones, then the texts of the
/// appended candidates, in order.
pub open spec fn merged_texts(existing: Seq<Option<Seq<char>>>, cands: Seq<Seq<char>>) -> Seq<
    Option<Seq<char>>,
> {
    let f = fresh_upto(existing, cands, cands.len() as int);
    existing + Seq::new(f.len(), |j: int| Some(cands[f[j]]))
}

/// Text `t` is an existing entry's, or that of an appended candidate of `f`.
pub open spec fn text_kept(
    existing: Seq<Option<Seq<char>>>,
    cands: Seq<Seq<char>>,
    f: Seq<int>,
    t: Seq<char>,
) -> bool {
    (exists|e: int| 0 <= e < existing.len() && existing[e] == Some(t)) || (exists|j: int|
        0 <= j < f.len() && cands[f[j]] == t)
}

/// After looking at the first `k` candidates, each of them is kept: an
/// existing entry has its text, or an appended candidate does; and every
/// appended index is a candidate's.
proof fn lemma_fresh_keeps(existing: Seq<Option<Seq<char>>>, cands: Seq<Seq<char>>, k: int)
    requires
        0 <= k <= cands.len(),
    ensures
        forall|m: int|
            0 <= m < k ==> #[trigger] text_kept(existing, cands, fresh_upto(existing, cands, k), cands[m]),
        forall|j: int|
            0 <= j < fresh_upto(existing, cands, k).len() ==> 0 <= #[trigger] fresh_upto(
                existing,
                cands,
                k,
            )[j] < k,
    decreases k,
{
    if k > 0 {
        lemma_fresh_keeps(existing, cands, k - 1);
        let prev = fresh_upto(existing, cands, k - 1);
        let cur = fresh_upto(existing, cands, k);
        assert forall|j: int| 0 <= j < prev.len() implies cur[j] == prev[j] by {}
        assert forall|m: int| 0 <= m < k implies #[trigger] text_kept(existing, cands, cur, cands[m]) by {
            if m < k - 1 {
                assert(text_kept(existing, cands, prev, cands[m]));
                if !(exists|e: int| 0 <= e < existing.len() && existing[e] == Some(cands[m])) {
                    let j = choose|j: int| 0 <= j < prev.len() && cands[prev[j]] == cands[m];
                    assert(cur[j] == prev[j]);
                }
            } else {
                if !(exists|e: int| 0 <= e < existing.len() && existing[e] == Some(cands[m])) {
                    if exists|j: int| 0 <= j < prev.len() && cands[prev[j]] == cands[k - 1] {
                        let j = choose|j: int| 0 <= j < prev.len() && cands[prev[j]] == cands[k - 1];
                        assert(cur[j] == prev[j]);
                    } else {
                        assert(cur == prev.push(k - 1));
                        assert(cur[prev.len() as int] == k - 1);
                    }
                }
            }
        }
    }
}

/// When every candidate's text is already an entry's, a merge appends none.
proof fn lemma_fresh_none(entries: Seq<Option<Seq<char>>>, cands: Seq<Seq<char>>, k: int)
    requires
        0 <= k <= cands.len(),
        forall|m: int| 0 <= m < cands.len() ==> entries.contains(Some(#[trigger] cands[m])),
    ensures
        fresh_upto(entries, cands, k).len() == 0,
    decreases k,
{
    if k > 0 {
        lemma_fresh_none(entries, cands, k - 1);
        assert(entries.contains(Some(cands[k - 1])));
        let e = choose|e: int| 0 <= e < entries.len() && entries[e] == Some(cands[k - 1]);
        assert(0 <= e < entries.len() && entries[e] == Some(cands[k - 1]));
    }
}

/// Merging is idempotent: merging the same candidates again into the
/// entries a merge left appends nothing, since every candidate's text is
/// then an entry's.
pub proof fn law_merge_idempotent(existing: Seq<Option<Seq<char>>>, cands: Seq<Seq<char>>)
    ensures
        forall|m: int|
            0 <= m < cands.len() ==> merged_texts(existing, cands).contains(Some(#[trigger] cands[m])),
        fresh_upto(merged_texts(existing, cands), cands, cands.len() as int).len() == 0,
{
    let n = cands.len() as int;
    let f = fresh_upto(existing, cands, n);
    let merged = merged_texts(existing, cands);
    lemma_fresh_keeps(existing, cands, n);
    assert forall|m: int| 0 <= m < n implies exists|e: int|
        0 <= e < merged.len() && merged[e] == Some(#[trigger] cands[m]) by {
        assert(text_kept(existing, cands, f, cands[m]));
        if exists|e: int| 0 <= e < existing.len() && existing[e] == Some(cands[m]) {
            let e = choose|e: int| 0 <= e < existing.len() && existing[e] == Some(cands[m]);
            assert(merged[e] == existing[e]);
        } else {
            let j = choose|j: int| 0 <= j < f.len() && cands[f[j]] == cands[m];
            assert(merged[existing.len() + j] == Some(cands[f[j]]));
        }
    }
    assert forall|m: int| 0 <= m < n implies merged.contains(Some(#[trigger] cands[m])) by {
        let e = choose|e: int| 0 <= e < merged.len() && merged[e] == Some(cands[m]);
    }
    lemma_fresh_none(merged, cands, n);
}

/// Whether a merge records `chapter` among the extraction chapters.
pub fn chapter_is_new(existing: &Vec<Option<u64>>, chapter: u32) -> (r: bool)
    ensures
        r == !existing@.contains(Some(chapter as u64)),
{
    for k in 0..existing.len()
        invariant
            forall|t: int| 0 <= t < k ==> existing@[t] != Some(chapter as u64),
    {
        if existing[k] == Some(chapter as u64) {
            return false;
        }
    }
    true
}

/// The extraction chapters after recording `chapter`: appended when new.
pub open spec fn recorded(existing: Seq<Option<u64>>, chapter: u32) -> Seq<Option<u64>> {
    if existing.contains(Some(chapter as u64)) {
        existing
    } else {
        existing.push(Some(chapter as u64))
    }
}

/// Recording a chapter leaves it listed exactly once (when it was listed at
/// most once before), and recording it again changes nothing.
pub proof fn law_chapter_recorded_once(existing: Seq<Option<u64>>, chapter: u32)
    requires
        forall|i: int, j: int|
            0 <= i < j < existing.len() && existing[i] == Some(chapter as u64) ==> existing[j] != Some(
                chapter as u64,
            ),
    ensures
        exists|k: int|
            0 <= k < recorded(existing, chapter).len() && recorded(existing, chapter)[k] == Some(
                chapter as u64,
            ) && forall|j: int|
                0 <= j < recorded(existing, chapter).len() && #[trigger] recorded(existing, chapter)[j]
                    == Some(chapter as u64) ==> j == k,
        recorded(recorded(existing, chapter), chapter) == recorded(existing, chapter),
{
    let x = Some(chapter as u64);
    let r = recorded(existing, chapter);
    if existing.contains(x) {
        let k = choose|k: int| 0 <= k < existing.len() && existing[k] == x;
        assert forall|j: int| 0 <= j < r.len() && #[trigger] r[j] == x implies j == k by {
            if j < k {
                assert(existing[j] == x);
            } else if j > k {
                assert(existing[k] == x);
            }
        }
    } else {
        let k = existing.len() as int;
        assert(r[k] == x);
        assert forall|j: int| 0 <= j < r.len() && #[trigger] r[j] == x implies j == k by {
            if j < k {
                assert(r[j] == existing[j]);
            }
        }
        assert(r.contains(x));
    }
}

} // verus!
