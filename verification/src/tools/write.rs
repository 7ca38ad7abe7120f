//! Drafting a chapter: the chapter's file name and body, its word count,
//! and the narrative role a request names.
use vstd::prelude::*;

use crate::tools::spec::{ApprovalRequirement, ToolCapability, write_capabilities};

use crate::model::NarrativeNodeType;
use crate::text::{
    chars_to_string, decimal, decimal_pad3, is_alphanumeric, is_text, is_whitespace, push_decimal,
    push_decimal_pad3, push_str, setting_key, spec_ascii_lower_seq, spec_is_whitespace,
    str_to_chars, trim, trim_chars, unicode_alphanumeric, ascii_lower_chars,
};

verus! {

/// The narrative role a request names (ASCII case-insensitive), `Setup`
/// for anything else.
pub open spec fn spec_parse_node_type(s: Option<Seq<char>>) -> NarrativeNodeType {
    let k = spec_ascii_lower_seq(
        match s {
            Some(x) => x,
            None => Seq::empty(),
        },
    );
    if k == "hook"@ {
        NarrativeNodeType::Hook
    } else if k == "setup"@ {
        NarrativeNodeType::Setup
    } else if k == "conflict"@ {
        NarrativeNodeType::Conflict
    } else if k == "climax"@ {
        NarrativeNodeType::Climax
    } else if k == "twist"@ {
        NarrativeNodeType::Twist
    } else if k == "payoff"@ {
        NarrativeNodeType::Payoff
    } else if k == "exposition"@ {
        NarrativeNodeType::Exposition
    } else if k == "resolution"@ {
        NarrativeNodeType::Resolution
    } else {
        NarrativeNodeType::Setup
    }
}

pub fn parse_node_type(s: Option<&str>) -> (r: NarrativeNodeType)
    ensures
        r == spec_parse_node_type(
            match s {
                Some(x) => Some(x@),
                None => None,
            },
        ),
{
    let raw = match s {
        Some(x) => str_to_chars(x),
        None => Vec::new(),
    };
    let k = ascii_lower_chars(&raw);
    if is_text(&k, "hook") {
        NarrativeNodeType::Hook
    } else if is_text(&k, "setup") {
        NarrativeNodeType::Setup
    } else if is_text(&k, "conflict") {
        NarrativeNodeType::Conflict
    } else if is_text(&k, "climax") {
        NarrativeNodeType::Climax
    } else if is_text(&k, "twist") {
        NarrativeNodeType::Twist
    } else if is_text(&k, "payoff") {
        NarrativeNodeType::Payoff
    } else if is_text(&k, "exposition") {
        NarrativeNodeType::Exposition
    } else if is_text(&k, "resolution") {
        NarrativeNodeType::Resolution
    } else {
        NarrativeNodeType::Setup
    }
}

/// A title char as it may stand in a file name.
pub open spec fn safe_char(c: char) -> char {
    if unicode_alphanumeric(c) || c == '_' || c == '-' {
        c
    } else {
        '_'
    }
}

pub open spec fn safe_title(t: Seq<char>) -> Seq<char> {
    Seq::new(t.len(), |i: int| safe_char(t[i]))
}

/// `ch_NNN.md`, or `ch_NNN_<title>.md` with the title made safe.
pub open spec fn spec_chapter_file_name(n: u32, title: Seq<char>) -> Seq<char> {
    if title.len() == 0 {
        "ch_"@ + decimal_pad3(n as nat) + ".md"@
    } else {
        "ch_"@ + decimal_pad3(n as nat) + "_"@ + safe_title(title) + ".md"@
    }
}

/// The file name of a drafted chapter.
pub fn chapter_file_name(chapter_number: u32, title: &str) -> (r: String)
    ensures
        r@ == spec_chapter_file_name(chapter_number, title@),
{
    let t = str_to_chars(title);
    let mut v: Vec<char> = Vec::new();
    push_str(&mut v, "ch_");
    push_decimal_pad3(&mut v, chapter_number as u64);
    if t.len() > 0 {
        push_str(&mut v, "_");
        let ghost start = v@;
        for i in 0..t.len()
            invariant
                v@ == start + safe_title(t@.take(i as int)),
        {
            let c = t[i];
            let s = if is_alphanumeric(c) || c == '_' || c == '-' {
                c
            } else {
                '_'
            };
            v.push(s);
            assert(v@ =~= start + safe_title(t@.take(i + 1)));
        }
        assert(t@.take(t@.len() as int) =~= t@);
    }
    push_str(&mut v, ".md");
    assert(v@ =~= spec_chapter_file_name(chapter_number, title@));
    chars_to_string(&v)
}

/// The markdown file of a drafted chapter.
pub open spec fn spec_chapter_body(n: u32, title: Seq<char>, content: Seq<char>) -> Seq<char> {
    "# 第"@ + decimal(n as nat) + "章 "@ + title + "\n\n"@ + content + "\n"@
}

pub fn chapter_body(chapter_number: u32, title: &str, content: &str) -> (r: String)
    ensures
        r@ == spec_chapter_body(chapter_number, title@, content@),
{
    let mut v: Vec<char> = Vec::new();
    push_str(&mut v, "# 第");
    push_decimal(&mut v, chapter_number as u64);
    push_str(&mut v, "章 ");
    push_str(&mut v, title);
    push_str(&mut v, "\n\n");
    push_str(&mut v, content);
    push_str(&mut v, "\n");
    assert(v@ =~= spec_chapter_body(chapter_number, title@, content@));
    chars_to_string(&v)
}

/// How many chars of `s` are not whitespace.
pub open spec fn non_ws_count(s: Seq<char>) -> nat
    decreases s.len(),
{
    if s.len() == 0 {
        0
    } else {
        non_ws_count(s.drop_last()) + if spec_is_whitespace(s.last()) {
            0nat
        } else {
            1nat
        }
    }
}

/// The words of a chapter: its chars that are not whitespace (as a `u32`,
/// taken modulo 2^32).
pub fn count_words(content: &str) -> (r: u32)
    ensures
        r == non_ws_count(content@) as u32,
{
    let v = str_to_chars(content);
    let mut n: usize = 0;
    for i in 0..v.len()
        invariant
            n == non_ws_count(v@.take(i as int)),
            n <= i,
    {
        assert(v@.take(i + 1).drop_last() =~= v@.take(i as int));
        if !is_whitespace(v[i]) {
            n = n + 1;
        }
    }
    assert(v@.take(v@.len() as int) =~= v@);
    n as u32
}

/// The chapter number of a draft request (as `u32`), if it is not zero.
pub fn write_chapter_number(raw: u64) -> (r: Option<u32>)
    ensures
        r == (if raw as u32 == 0 {
            None
        } else {
            Some(raw as u32)
        }),
{
    let n = raw as u32;
    if n == 0 {
        None
    } else {
        Some(n)
    }
}

/// Whether a text is empty after trimming.
pub fn is_blank(s: &str) -> (r: bool)
    ensures
        r == (trim(s@).len() == 0),
{
    let t = trim_chars(&str_to_chars(s));
    t.len() == 0
}


/// The `novel_write` tool: its name, description, capabilities and approval.
pub struct NovelWriteTool;

impl NovelWriteTool {
    pub fn name(&self) -> (r: &'static str)
        ensures
            r@ == "novel_write"@,
    {
        "novel_write"
    }

    pub fn description(&self) -> (r: &'static str)
        ensures
            r@ == "写一章正文。模型按系统提示 + 注入的大纲/概要来写；本工具把章节内容落盘到 chapters/ch_NNN_<title>.md，并把章节登记到项目状态。正文生成发生在 LLM 这一轮，工具只接收最终内容。"@,
    {
        "写一章正文。模型按系统提示 + 注入的大纲/概要来写；本工具把章节内容落盘到 chapters/ch_NNN_<title>.md，并把章节登记到项目状态。正文生成发生在 LLM 这一轮，工具只接收最终内容。"
    }

    pub fn capabilities(&self) -> (r: Vec<ToolCapability>)
        ensures
            r@ == seq![ToolCapability::WritesFiles, ToolCapability::Sandboxable],
    {
        write_capabilities()
    }

    pub fn approval_requirement(&self) -> (r: ApprovalRequirement)
        ensures
            r == ApprovalRequirement::Suggest,
    {
        ApprovalRequirement::Suggest
    }
}

} // verus!
