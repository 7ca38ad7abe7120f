//! Starting a novel project: the genre and platform a request names, the
//! project's directories, and the texts of its first files.
use vstd::prelude::*;

use crate::tools::spec::{ApprovalRequirement, ToolCapability, write_capabilities};

use crate::model::{Genre, TargetPlatform};
use crate::text::{ascii_lower_chars, chars_to_string, decimal, is_text, push_decimal, push_str, spec_ascii_lower_seq, str_to_chars};
use crate::tools::spec::string_views;

verus! {

/// The genre a project request names (ASCII case-insensitive); anything
/// else is `Other`.
pub open spec fn spec_init_genre(s: Seq<char>) -> Genre {
    let k = spec_ascii_lower_seq(s);
    if k == "xianxia"@ {
        Genre::Xianxia
    } else if k == "urban"@ {
        Genre::Urban
    } else if k == "scifi"@ {
        Genre::SciFi
    } else if k == "fantasy"@ {
        Genre::Fantasy
    } else if k == "historical"@ {
        Genre::Historical
    } else if k == "romance"@ {
        Genre::Romance
    } else if k == "suspense"@ {
        Genre::Suspense
    } else {
        Genre::Other
    }
}

/// The genre of a project request (always found: unknown names are
/// `Other`).
pub fn parse_genre(s: &str) -> (r: Option<Genre>)
    ensures
        r == Some(spec_init_genre(s@)),
{
    let k = ascii_lower_chars(&str_to_chars(s));
    if is_text(&k, "xianxia") {
        Some(Genre::Xianxia)
    } else if is_text(&k, "urban") {
        Some(Genre::Urban)
    } else if is_text(&k, "scifi") {
        Some(Genre::SciFi)
    } else if is_text(&k, "fantasy") {
        Some(Genre::Fantasy)
    } else if is_text(&k, "historical") {
        Some(Genre::Historical)
    } else if is_text(&k, "romance") {
        Some(Genre::Romance)
    } else if is_text(&k, "suspense") {
        Some(Genre::Suspense)
    } else {
        Some(Genre::Other)
    }
}

/// The platform a project request names (ASCII case-insensitive); anything
/// else is `Other`.
pub open spec fn spec_init_platform(s: Seq<char>) -> TargetPlatform {
    let k = spec_ascii_lower_seq(s);
    if k == "qidian"@ {
        TargetPlatform::Qidian
    } else if k == "zongheng"@ {
        TargetPlatform::Zongheng
    } else if k == "fanqie"@ {
        TargetPlatform::Fanqie
    } else if k == "jinjiang"@ {
        TargetPlatform::Jinjiang
    } else if k == "web"@ {
        TargetPlatform::Web
    } else {
        TargetPlatform::Other
    }
}

pub fn parse_platform(s: &str) -> (r: Option<TargetPlatform>)
    ensures
        r == Some(spec_init_platform(s@)),
{
    let k = ascii_lower_chars(&str_to_chars(s));
    if is_text(&k, "qidian") {
        Some(TargetPlatform::Qidian)
    } else if is_text(&k, "zongheng") {
        Some(TargetPlatform::Zongheng)
    } else if is_text(&k, "fanqie") {
        Some(TargetPlatform::Fanqie)
    } else if is_text(&k, "jinjiang") {
        Some(TargetPlatform::Jinjiang)
    } else if is_text(&k, "web") {
        Some(TargetPlatform::Web)
    } else {
        Some(TargetPlatform::Other)
    }
}

pub open spec fn spec_genre_label(g: Genre) -> Seq<char> {
    match g {
        Genre::Xianxia => "xianxia"@,
        Genre::Urban => "urban"@,
        Genre::SciFi => "scifi"@,
        Genre::Fantasy => "fantasy"@,
        Genre::Historical => "historical"@,
        Genre::Romance => "romance"@,
        Genre::Suspense => "suspense"@,
        Genre::Other => "other"@,
    }
}

/// The lower-case name of a genre.
pub fn genre_label(g: &Genre) -> (r: &'static str)
    ensures
        r@ == spec_genre_label(*g),
{
    match g {
        Genre::Xianxia => "xianxia",
        Genre::Urban => "urban",
        Genre::SciFi => "scifi",
        Genre::Fantasy => "fantasy",
        Genre::Historical => "historical",
        Genre::Romance => "romance",
        Genre::Suspense => "suspense",
        Genre::Other => "other",
    }
}

pub open spec fn spec_platform_label(p: TargetPlatform) -> Seq<char> {
    match p {
        TargetPlatform::Qidian => "qidian"@,
        TargetPlatform::Zongheng => "zongheng"@,
        TargetPlatform::Fanqie => "fanqie"@,
        TargetPlatform::Jinjiang => "jinjiang"@,
        TargetPlatform::Web => "web"@,
        TargetPlatform::Other => "other"@,
    }
}

/// The lower-case name of a platform.
pub fn platform_label(p: &TargetPlatform) -> (r: &'static str)
    ensures
        r@ == spec_platform_label(*p),
{
    match p {
        TargetPlatform::Qidian => "qidian",
        TargetPlatform::Zongheng => "zongheng",
        TargetPlatform::Fanqie => "fanqie",
        TargetPlatform::Jinjiang => "jinjiang",
        TargetPlatform::Web => "web",
        TargetPlatform::Other => "other",
    }
}

/// Reading back the name of a genre gives the genre.
pub proof fn law_genre_label_round_trip(g: Genre)
    ensures
        spec_init_genre(spec_genre_label(g)) == g,
{
    reveal_strlit("xianxia");
    reveal_strlit("urban");
    reveal_strlit("scifi");
    reveal_strlit("fantasy");
    reveal_strlit("historical");
    reveal_strlit("romance");
    reveal_strlit("suspense");
    reveal_strlit("other");
    let s = spec_genre_label(g);
    assert(spec_ascii_lower_seq(s) =~= s);
    let lits = seq!["xianxia"@, "urban"@, "scifi"@, "fantasy"@, "historical"@, "romance"@, "suspense"@, "other"@];
    assert forall|i: int| 0 <= i < 8 && lits[i] != s implies lits[i].len() != s.len() || lits[i][0] != s[0] || lits[i][1] != s[1] by {
        if lits[i].len() == s.len() && lits[i][0] == s[0] && lits[i][1] == s[1] {
            assert(lits[i] =~= s);
        }
    }
}

/// Reading back the name of a platform gives the platform.
pub proof fn law_platform_label_round_trip(p: TargetPlatform)
    ensures
        spec_init_platform(spec_platform_label(p)) == p,
{
    reveal_strlit("qidian");
    reveal_strlit("zongheng");
    reveal_strlit("fanqie");
    reveal_strlit("jinjiang");
    reveal_strlit("web");
    reveal_strlit("other");
    let s = spec_platform_label(p);
    assert(spec_ascii_lower_seq(s) =~= s);
    assert(s == "qidian"@ || s.len() != "qidian"@.len() || s[0] != "qidian"@[0]);
    assert(s == "zongheng"@ || s.len() != "zongheng"@.len() || s[0] != "zongheng"@[0]);
    assert(s == "fanqie"@ || s.len() != "fanqie"@.len() || s[0] != "fanqie"@[0]);
    assert(s == "jinjiang"@ || s.len() != "jinjiang"@.len() || s[0] != "jinjiang"@[0]);
    assert(s == "web"@ || s.len() != "web"@.len() || s[0] != "web"@[0]);
}

/// The directories of a new project, relative to its root.
pub open spec fn spec_project_dirs() -> Seq<Seq<char>> {
    seq![
        ".novelwhale"@,
        ".novelwhale/synopses"@,
        "world"@,
        "characters"@,
        "outline"@,
        "outline/arcs"@,
        "outline/chapters"@,
        "chapters"@,
        "drafts"@,
    ]
}

pub fn project_dirs() -> (r: Vec<&'static str>)
    ensures
        r@.len() == spec_project_dirs().len(),
        forall|i: int| 0 <= i < r@.len() ==> r@[i]@ == spec_project_dirs()[i],
{
    let mut r: Vec<&'static str> = Vec::new();
    r.push(".novelwhale");
    r.push(".novelwhale/synopses");
    r.push("world");
    r.push("characters");
    r.push("outline");
    r.push("outline/arcs");
    r.push("outline/chapters");
    r.push("chapters");
    r.push("drafts");
    r
}

/// `style.md` of a new project.
pub const STYLE_TEXT: &'static str = "# 文风规范 (Style)\n\nDescribe the desired prose style here. Examples:\n\n- 第一人称 / 第三人称\n- 简洁 / 细腻 / 热血\n- 网络文学爽文节奏 / 文学性强\n- 对话占比 30%\n";

/// `world/intro.md` of a new project.
pub const WORLD_INTRO_TEXT: &'static str = "# 世界观 (World)\n\nDescribe the world here.\n";

/// `outline/README.md` of a new project.
pub const OUTLINE_README_TEXT: &'static str = "# 大纲 (Outline)\n\nUse `novel_outline_build` to build arc outlines here.\n";

/// `characters/README.md` of a new project.
pub const CHARACTERS_README_TEXT: &'static str = "# 人物 (Characters)\n\nStore character sheets as separate `.md` files here.\n";

/// `chapters/README.md` of a new project.
pub const CHAPTERS_README_TEXT: &'static str = "# 正文 (Manuscript)\n\nChapters saved by `novel_write` will appear here as `ch_NNN_*.md`.\n";

/// `constitution.md` of a new project.
pub open spec fn spec_constitution(title: Seq<char>, g: Genre, p: TargetPlatform) -> Seq<char> {
    "# 创作宪章 (Constitution)\n\n# This file documents world rules and character constraints that MUST NOT be contradicted by any chapter.\n# Use `novel_fact_lock` to mark rules as immutable.\n\n## Project\n\n- Title: "@
        + title + "\n- Genre: "@ + spec_genre_label(g) + "\n- Target platform: "@
        + spec_platform_label(p)
        + "\n\n## World Rules (auto-managed)\n\n_No immutable rules yet. Use `novel_fact_lock` to add._\n"@
}

pub fn constitution(title: &str, genre: &Genre, platform: &TargetPlatform) -> (r: String)
    ensures
        r@ == spec_constitution(title@, *genre, *platform),
{
    let mut v: Vec<char> = Vec::new();
    push_str(
        &mut v,
        "# 创作宪章 (Constitution)\n\n# This file documents world rules and character constraints that MUST NOT be contradicted by any chapter.\n# Use `novel_fact_lock` to mark rules as immutable.\n\n## Project\n\n- Title: ",
    );
    push_str(&mut v, title);
    push_str(&mut v, "\n- Genre: ");
    push_str(&mut v, genre_label(genre));
    push_str(&mut v, "\n- Target platform: ");
    push_str(&mut v, platform_label(platform));
    push_str(
        &mut v,
        "\n\n## World Rules (auto-managed)\n\n_No immutable rules yet. Use `novel_fact_lock` to add._\n",
    );
    assert(v@ =~= spec_constitution(title@, *genre, *platform));
    chars_to_string(&v)
}

/// `.novelwhale/novel.toml` of a new project.
pub open spec fn spec_config_toml(
    title: Seq<char>,
    g: Genre,
    p: TargetPlatform,
    words: u64,
    author: Seq<char>,
    created_at: Seq<char>,
) -> Seq<char> {
    "# NovelWhale project configuration\ntitle = \""@ + title + "\"\ngenre = \""@ + spec_genre_label(g)
        + "\"\ntarget_platform = \""@ + spec_platform_label(p) + "\"\ntarget_word_count = "@
        + decimal(words as nat) + "\nauthor = \""@ + author + "\"\ncreated_at = \""@ + created_at
        + "\"\n"@
}

/// The project configuration; `created_at` is the creation time in RFC
/// 3339.
pub fn build_config_toml(
    title: &str,
    genre: &Genre,
    platform: &TargetPlatform,
    target_word_count: u64,
    author: &str,
    created_at: &str,
) -> (r: String)
    ensures
        r@ == spec_config_toml(title@, *genre, *platform, target_word_count, author@, created_at@),
{
    let mut v: Vec<char> = Vec::new();
    push_str(&mut v, "# NovelWhale project configuration\ntitle = \"");
    push_str(&mut v, title);
    push_str(&mut v, "\"\ngenre = \"");
    push_str(&mut v, genre_label(genre));
    push_str(&mut v, "\"\ntarget_platform = \"");
    push_str(&mut v, platform_label(platform));
    push_str(&mut v, "\"\ntarget_word_count = ");
    push_decimal(&mut v, target_word_count);
    push_str(&mut v, "\nauthor = \"");
    push_str(&mut v, author);
    push_str(&mut v, "\"\ncreated_at = \"");
    push_str(&mut v, created_at);
    push_str(&mut v, "\"\n");
    assert(v@ =~= spec_config_toml(title@, *genre, *platform, target_word_count, author@, created_at@));
    chars_to_string(&v)
}


/// The `novel_init` tool: its name, description, capabilities and approval.
pub struct NovelInitTool;

impl NovelInitTool {
    pub fn name(&self) -> (r: &'static str)
        ensures
            r@ == "novel_init"@,
    {
        "novel_init"
    }

    pub fn description(&self) -> (r: &'static str)
        ensures
            r@ == "初始化一个新的小说项目。创建标准化的目录结构（world/、characters/、outline/、chapters/、.novelwhale/）并写入项目配置。每本新小说开写前调用一次。"@,
    {
        "初始化一个新的小说项目。创建标准化的目录结构（world/、characters/、outline/、chapters/、.novelwhale/）并写入项目配置。每本新小说开写前调用一次。"
    }

    pub fn capabilities(&self) -> (r: Vec<ToolCapability>)
        ensures
            r@ == seq![ToolCapability::WritesFiles, ToolCapability::Sandboxable],
    {
        write_capabilities()
    }

    pub fn approval_requirement(&self) -> (r: ApprovalRequirement)
        ensures
            r == ApprovalRequirement::Suggest,
    {
        ApprovalRequirement::Suggest
    }
}

} // verus!
