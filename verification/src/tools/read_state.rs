//! Reading the project state: the title in the project configuration.
use vstd::prelude::*;

use crate::tools::spec::{ApprovalRequirement, ToolCapability, readonly_capabilities};

use crate::text::{
    chars_to_string, copy_range, lines, pieces, split_lines, split_pieces, starts_with, starts_with_chars,
    str_to_chars, trim, trim_chars, views,
};

verus! {

/// Index of the first line from `i` on that starts with `p`.
pub open spec fn first_starting_with(ls: Seq<Seq<char>>, p: Seq<char>, i: int) -> Option<int>
    decreases ls.len() - i,
{
    if i < 0 || i >= ls.len() {
        None
    } else if starts_with(ls[i], p) {
        Some(i)
    } else {
        first_starting_with(ls, p, i + 1)
    }
}

pub open spec fn strip_quotes_front(s: Seq<char>) -> Seq<char>
    decreases s.len(),
{
    if s.len() > 0 && s[0] == '"' {
        strip_quotes_front(s.drop_first())
    } else {
        s
    }
}

pub open spec fn strip_quotes_back(s: Seq<char>) -> Seq<char>
    decreases s.len(),
{
    if s.len() > 0 && s.last() == '"' {
        strip_quotes_back(s.drop_last())
    } else {
        s
    }
}

/// The project title in a configuration text: on the first line starting
/// with `title`, the text after the first `=` (up to a second one),
/// trimmed and without surrounding `"`; empty when there is none.
pub open spec fn spec_config_title(text: Seq<char>) -> Seq<char> {
    let ls = lines(text);
    match first_starting_with(ls, "title"@, 0) {
        Some(i) => {
            let ps = pieces(ls[i], seq!['=']);
            if ps.len() > 1 {
                strip_quotes_back(strip_quotes_front(trim(ps[1])))
            } else {
                Seq::empty()
            }
        },
        None => Seq::empty(),
    }
}

fn strip_quotes(v: &Vec<char>) -> (r: Vec<char>)
    ensures
        r@ == strip_quotes_back(strip_quotes_front(v@)),
{
    let mut a: usize = 0;
    assert(v@.skip(0) =~= v@);
    while a < v.len() && v[a] == '"'
        invariant
            a <= v@.len(),
            strip_quotes_front(v@) == strip_quotes_front(v@.skip(a as int)),
        decreases v@.len() - a,
    {
        assert(v@.skip(a as int).drop_first() =~= v@.skip(a + 1));
        a = a + 1;
    }
    let ghost t = v@.skip(a as int);
    let mut b: usize = v.len();
    assert(t.take(t.len() as int) =~= t);
    while b > a && v[b - 1] == '"'
        invariant
            a <= b <= v@.len(),
            t == v@.skip(a as int),
            strip_quotes_back(t) == strip_quotes_back(t.take(b - a)),
        decreases b,
    {
        assert(t.take(b - a).drop_last() =~= t.take(b - 1 - a));
        assert(t.take(b - a).last() == v@[b - 1]);
        b = b - 1;
    }
    let r = copy_range(v, a, b);
    assert(r@ =~= t.take(b - a));
    if b > a {
        assert(t.take(b - a).last() == v@[b - 1]);
    }
    r
}

/// The project title of a configuration text.
pub fn title_from_config(text: &str) -> (r: String)
    ensures
        r@ == spec_config_title(text@),
{
    let tv = str_to_chars(text);
    let ls = split_lines(&tv);
    let ghost lv = views(ls@);
    let key = str_to_chars("title");
    let mut i: usize = 0;
    while i < ls.len()
        invariant
            lv == views(ls@),
            lv == lines(text@),
            key@ == "title"@,
            i <= lv.len(),
            first_starting_with(lv, "title"@, 0) == first_starting_with(lv, "title"@, i as int),
        decreases lv.len() - i,
    {
        if starts_with_chars(&ls[i], &key) {
            let mut seps: Vec<char> = Vec::new();
            seps.push('=');
            assert(seps@ =~= seq!['=']);
            let ps = split_pieces(&ls[i], &seps);
            if ps.len() > 1 {
                let t = trim_chars(&ps[1]);
                let s = strip_quotes(&t);
                return chars_to_string(&s);
            } else {
                return String::new();
            }
        }
        i = i + 1;
    }
    String::new()
}


/// The `novel_read_state` tool: its name, description, capabilities and approval.
pub struct NovelReadStateTool;

impl NovelReadStateTool {
    pub fn name(&self) -> (r: &'static str)
        ensures
            r@ == "novel_read_state"@,
    {
        "novel_read_state"
    }

    pub fn description(&self) -> (r: &'static str)
        ensures
            r@ == "读取当前小说项目的状态：标题、题材、当前阶段、事实库摘要、已写章节数。用于在每轮开始时把模型校准回项目上下文。"@,
    {
        "读取当前小说项目的状态：标题、题材、当前阶段、事实库摘要、已写章节数。用于在每轮开始时把模型校准回项目上下文。"
    }

    pub fn capabilities(&self) -> (r: Vec<ToolCapability>)
        ensures
            r@ == seq![ToolCapability::ReadOnly, ToolCapability::Sandboxable],
    {
        readonly_capabilities()
    }

    pub fn approval_requirement(&self) -> (r: ApprovalRequirement)
        ensures
            r == ApprovalRequirement::Auto,
    {
        ApprovalRequirement::Auto
    }
}

} // verus!
