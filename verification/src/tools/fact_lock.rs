//! Locking a world rule: its category, and the line the constitution gains.
use vstd::prelude::*;

use crate::tools::spec::{ApprovalRequirement, ToolCapability, write_capabilities};

use crate::facts::{category_label, spec_category_label};
use crate::model::WorldCategory;
use crate::text::{ascii_lower_chars, chars_to_string, contains, contains_chars, is_text, push_str, spec_ascii_lower_seq, str_to_chars};

verus! {

/// The category a request names (ASCII case-insensitive, `other` when it
/// names none); anything else is `Other`.
pub open spec fn spec_parse_category(s: Option<Seq<char>>) -> WorldCategory {
    let k = spec_ascii_lower_seq(
        match s {
            Some(x) => x,
            None => "other"@,
        },
    );
    if k == "geography"@ {
        WorldCategory::Geography
    } else if k == "history"@ {
        WorldCategory::History
    } else if k == "culture"@ {
        WorldCategory::Culture
    } else if k == "magic"@ {
        WorldCategory::MagicSystem
    } else if k == "technology"@ {
        WorldCategory::Technology
    } else if k == "politics"@ {
        WorldCategory::Politics
    } else if k == "economy"@ {
        WorldCategory::Economy
    } else {
        WorldCategory::Other
    }
}

pub fn parse_category(s: Option<&str>) -> (r: WorldCategory)
    ensures
        r == spec_parse_category(
            match s {
                Some(x) => Some(x@),
                None => None,
            },
        ),
{
    let raw = match s {
        Some(x) => x,
        None => "other",
    };
    let k = ascii_lower_chars(&str_to_chars(raw));
    if is_text(&k, "geography") {
        WorldCategory::Geography
    } else if is_text(&k, "history") {
        WorldCategory::History
    } else if is_text(&k, "culture") {
        WorldCategory::Culture
    } else if is_text(&k, "magic") {
        WorldCategory::MagicSystem
    } else if is_text(&k, "technology") {
        WorldCategory::Technology
    } else if is_text(&k, "politics") {
        WorldCategory::Politics
    } else if is_text(&k, "economy") {
        WorldCategory::Economy
    } else {
        WorldCategory::Other
    }
}

/// What a constitution starts as when the file is missing.
pub const CONSTITUTION_STUB: &'static str = "# 创作宪章 (Constitution)\n\n## World Rules (auto-managed)\n";

/// The constitution with a locked rule listed: unchanged (`None`) when it
/// already mentions the rule, otherwise the rule as a new line at the end.
pub open spec fn spec_constitution_with_rule(
    content: Seq<char>,
    category: WorldCategory,
    value: Seq<char>,
) -> Option<Seq<char>> {
    if contains(content, value) {
        None
    } else {
        Some(content + "\n- ["@ + spec_category_label(category) + "] "@ + value)
    }
}

/// The new constitution text after locking `value`, from the current text
/// (`None` when the file does not exist); `None` when nothing changes.
pub fn constitution_with_rule(existing: Option<&str>, category: &WorldCategory, value: &str) -> (r:
    Option<String>)
    ensures
        r matches Some(t) ==> spec_constitution_with_rule(
            match existing {
                Some(e) => e@,
                None => CONSTITUTION_STUB@,
            },
            *category,
            value@,
        ) == Some(t@),
        r is None ==> spec_constitution_with_rule(
            match existing {
                Some(e) => e@,
                None => CONSTITUTION_STUB@,
            },
            *category,
            value@,
        ) is None,
{
    let mut content = match existing {
        Some(e) => str_to_chars(e),
        None => str_to_chars(CONSTITUTION_STUB),
    };
    let v = str_to_chars(value);
    if contains_chars(&content, &v) {
        return None;
    }
    let ghost start = content@;
    push_str(&mut content, "\n- [");
    push_str(&mut content, category_label(category));
    push_str(&mut content, "] ");
    push_str(&mut content, value);
    assert(content@ =~= start + "\n- ["@ + spec_category_label(*category) + "] "@ + value@);
    Some(chars_to_string(&content))
}


/// The `novel_fact_lock` tool: its name, description, capabilities and approval.
pub struct NovelFactLockTool;

impl NovelFactLockTool {
    pub fn name(&self) -> (r: &'static str)
        ensures
            r@ == "novel_fact_lock"@,
    {
        "novel_fact_lock"
    }

    pub fn description(&self) -> (r: &'static str)
        ensures
            r@ == "把一条世界规则锁为不可变。一旦锁定，任何后续章节生成都不得违反这条事实。用于核心世界规则（例如「这个世界没有电」「主角拥有火系异能」）。该条事实会写入 .novelwhale/facts.json，并同步追加到 constitution.md 以便出现在模型提示中。"@,
    {
        "把一条世界规则锁为不可变。一旦锁定，任何后续章节生成都不得违反这条事实。用于核心世界规则（例如「这个世界没有电」「主角拥有火系异能」）。该条事实会写入 .novelwhale/facts.json，并同步追加到 constitution.md 以便出现在模型提示中。"
    }

    pub fn capabilities(&self) -> (r: Vec<ToolCapability>)
        ensures
            r@ == seq![ToolCapability::WritesFiles, ToolCapability::Sandboxable],
    {
        write_capabilities()
    }

    pub fn approval_requirement(&self) -> (r: ApprovalRequirement)
        ensures
            r == ApprovalRequirement::Suggest,
    {
        ApprovalRequirement::Suggest
    }
}

} // verus!
