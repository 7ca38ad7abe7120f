//! Genre-specific cliché blacklists.
use vstd::prelude::*;

use crate::deai::dictionary::{
    clone_entries, counts_fit, entry, is_scan_of, scan_entries, ClicheCategory, ClicheEntry,
    ClicheHit,
};
use crate::model::Genre;
use crate::text::lines;

verus! {

/// One blacklist hit.
#[derive(Clone, Debug)]
pub struct ClicheMatch {
    pub phrase: String,
    pub count: u32,
    pub first_line: Option<u32>,
}

/// A genre's blacklisted phrases.
#[derive(Debug)]
pub struct ClicheBlacklist {
    entries: Vec<ClicheEntry>,
}

/// A blacklist entry as a table row: phrase, reason, suggestion.
pub open spec fn row_matches(e: ClicheEntry, row: (Seq<char>, Seq<char>, Seq<char>)) -> bool {
    &&& e.phrase@ == row.0
    &&& e.category == ClicheCategory::AbstractDescription
    &&& e.severity == 2
    &&& e.reason@ == row.1
    &&& e.suggestion@ == row.2
}

pub open spec fn rows_match(es: Seq<ClicheEntry>, rows: Seq<(Seq<char>, Seq<char>, Seq<char>)>) -> bool {
    es.len() == rows.len() && forall|i: int| 0 <= i < es.len() ==> row_matches(#[trigger] es[i], rows[i])
}

/// The built-in blacklist of each genre.
pub open spec fn genre_rows(g: Genre) -> Seq<(Seq<char>, Seq<char>, Seq<char>)> {
    match g {
        Genre::Xianxia => seq![
            ("逆天而行"@, "烂大街的玄幻哲学"@, "换成具体的代价或规则"@),
            ("天赋异禀"@, "空洞的夸赞"@, "改成具体能力 + 一次展示"@),
            ("一代天骄"@, "老派玄幻形容"@, "删除"@),
            ("丹田"@, "玄学名词本身没问题，但经常被 LLM 当万能设定"@, "明确境界 → 丹田 → 经脉的对应关系"@),
        ],
        Genre::Urban => seq![
            ("高富帅"@, "都市文里过度套用"@, "换成具体的职级 / 资产 / 兴趣"@),
            ("白富美"@, "同上"@, "同上"@),
            ("成功人士"@, "空泛标签"@, "给具体身份与具体行为"@),
        ],
        Genre::SciFi => seq![
            ("高维"@, "科幻黑话"@, "用具体的维度 / 拓扑概念替代"@),
            ("量子"@, "量子就是用来滥用的"@, "如果不是真的涉及量子效应，就别用"@),
        ],
        Genre::Fantasy => seq![("勇者"@, "西幻陈词"@, "换成具体的称号 / 头衔 / 事迹"@)],
        Genre::Historical => seq![
            ("山呼万岁"@, "古装剧套词"@, "改成符合朝代的礼仪"@),
            ("圣上"@, "过于程式化"@, "结合身份使用更具体的称谓"@),
        ],
        Genre::Romance => seq![
            ("刀削般的脸"@, "AI 男主外貌标志"@, "换成具体的五官 / 动作 / 细节"@),
            ("心动的瞬间"@, "空洞"@, "落到具体事件"@),
            ("少女心"@, "AI 心理描写"@, "换成具体的身体反应"@),
        ],
        Genre::Suspense => seq![
            ("种种迹象表明"@, "AI 旁白"@, "改成具体的证据列举"@),
            ("冥冥之中"@, "悬疑玄学化"@, "删除"@),
        ],
        Genre::Other => Seq::empty(),
    }
}

fn genre_entry(phrase: &str, reason: &str, suggestion: &str) -> (r: ClicheEntry)
    ensures
        row_matches(r, (phrase@, reason@, suggestion@)),
{
    entry(phrase, ClicheCategory::AbstractDescription, 2, reason, suggestion)
}

fn push_row(v: &mut Vec<ClicheEntry>, phrase: &str, reason: &str, suggestion: &str)
    ensures
        final(v)@.len() == old(v)@.len() + 1,
        forall|i: int| 0 <= i < old(v)@.len() ==> final(v)@[i] == old(v)@[i],
        row_matches(final(v)@.last(), (phrase@, reason@, suggestion@)),
{
    v.push(genre_entry(phrase, reason, suggestion));
}

/// The built-in blacklist entries of a genre.
pub fn builtin_for_genre(genre: Genre) -> (r: Vec<ClicheEntry>)
    ensures
        rows_match(r@, genre_rows(genre)),
{
    let mut v: Vec<ClicheEntry> = Vec::new();
    match genre {
        Genre::Xianxia => {
            push_row(&mut v, "逆天而行", "烂大街的玄幻哲学", "换成具体的代价或规则");
            push_row(&mut v, "天赋异禀", "空洞的夸赞", "改成具体能力 + 一次展示");
            push_row(&mut v, "一代天骄", "老派玄幻形容", "删除");
            push_row(&mut v, "丹田", "玄学名词本身没问题，但经常被 LLM 当万能设定", "明确境界 → 丹田 → 经脉的对应关系");
        },
        Genre::Urban => {
            push_row(&mut v, "高富帅", "都市文里过度套用", "换成具体的职级 / 资产 / 兴趣");
            push_row(&mut v, "白富美", "同上", "同上");
            push_row(&mut v, "成功人士", "空泛标签", "给具体身份与具体行为");
        },
        Genre::SciFi => {
            push_row(&mut v, "高维", "科幻黑话", "用具体的维度 / 拓扑概念替代");
            push_row(&mut v, "量子", "量子就是用来滥用的", "如果不是真的涉及量子效应，就别用");
        },
        Genre::Fantasy => {
            push_row(&mut v, "勇者", "西幻陈词", "换成具体的称号 / 头衔 / 事迹");
        },
        Genre::Historical => {
            push_row(&mut v, "山呼万岁", "古装剧套词", "改成符合朝代的礼仪");
            push_row(&mut v, "圣上", "过于程式化", "结合身份使用更具体的称谓");
        },
        Genre::Romance => {
            push_row(&mut v, "刀削般的脸", "AI 男主外貌标志", "换成具体的五官 / 动作 / 细节");
            push_row(&mut v, "心动的瞬间", "空洞", "落到具体事件");
            push_row(&mut v, "少女心", "AI 心理描写", "换成具体的身体反应");
        },
        Genre::Suspense => {
            push_row(&mut v, "种种迹象表明", "AI 旁白", "改成具体的证据列举");
            push_row(&mut v, "冥冥之中", "悬疑玄学化", "删除");
        },
        Genre::Other => {},
    }
    assert(rows_match(v@, genre_rows(genre)));
    v
}

/// The plain content of a blacklist hit made from a scan hit.
pub open spec fn match_of(h: ClicheHit) -> (Seq<char>, u32, Option<u32>) {
    (h.entry.phrase@, h.count, h.first_line)
}

pub open spec fn match_view(m: ClicheMatch) -> (Seq<char>, u32, Option<u32>) {
    (m.phrase@, m.count, m.first_line)
}

impl ClicheBlacklist {
    pub closed spec fn spec_entries(&self) -> Seq<ClicheEntry> {
        self.entries@
    }

    /// An empty blacklist.
    pub fn new() -> (r: Self)
        ensures
            r.spec_entries().len() == 0,
    {
        ClicheBlacklist { entries: Vec::new() }
    }

    /// The built-in blacklist of a genre.
    pub fn for_genre(genre: Genre) -> (r: Self)
        ensures
            rows_match(r.spec_entries(), genre_rows(genre)),
    {
        ClicheBlacklist { entries: builtin_for_genre(genre) }
    }

    /// The entries.
    pub fn entries(&self) -> (r: &[ClicheEntry])
        ensures
            r@ == self.spec_entries(),
    {
        self.entries.as_slice()
    }

    /// Finds the blacklisted phrases in `text`: one match per phrase that
    /// some line contains, in phrase order, with its first line and its
    /// occurrences over all lines (as `match_indices` counts them).
    pub fn scan(&self, text: &str) -> (r: Vec<ClicheMatch>)
        requires
            text@.len() < usize::MAX,
            counts_fit(text@, self.spec_entries(), true),
        ensures
            exists|hs: Seq<ClicheHit>|
                #[trigger] is_scan_of(lines(text@), self.spec_entries(), hs, true) && r@.len()
                    == hs.len() && forall|k: int|
                    0 <= k < r@.len() ==> match_view(#[trigger] r@[k]) == match_of(hs[k]),
    {
        let hits = scan_entries(&self.entries, text, true);
        let mut r: Vec<ClicheMatch> = Vec::new();
        for k in 0..hits.len()
            invariant
                r@.len() == k,
                k <= hits@.len(),
                forall|j: int| 0 <= j < k ==> match_view(#[trigger] r@[j]) == match_of(hits@[j]),
        {
            let h = &hits[k];
            r.push(
                ClicheMatch {
                    phrase: h.entry.phrase.clone(),
                    count: h.count,
                    first_line: h.first_line,
                },
            );
        }
        r
    }
}

impl Default for ClicheBlacklist {
    fn default() -> (r: Self)
        ensures
            r.spec_entries().len() == 0,
    {
        ClicheBlacklist::new()
    }
}

impl Clone for ClicheBlacklist {
    fn clone(&self) -> (r: Self)
        ensures
            r.spec_entries() == self.spec_entries(),
    {
        ClicheBlacklist { entries: clone_entries(&self.entries) }
    }
}

} // verus!
