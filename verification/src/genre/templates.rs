//! Genre templates: pacing targets, scene mix, a story arc split into
//! phases, and a few principles for the model.
use vstd::prelude::*;

use crate::model::Genre;
use crate::text::string_of;
use crate::tools::spec::string_views;

verus! {

/// Words per chapter.
#[derive(Clone, Copy, Debug, PartialEq, Eq, Structural)]
pub struct PaceTarget {
    /// Recommended (in Chinese characters).
    pub recommended_words: u32,
    /// Fewer than this is flagged.
    pub min_words: u32,
    /// More than this may need a split.
    pub max_words: u32,
}

/// Share of each kind of scene, in percent.
#[derive(Clone, Copy, Debug, PartialEq, Eq, Structural)]
pub struct SceneMix {
    pub dialogue: u8,
    pub action: u8,
    pub description: u8,
    pub introspection: u8,
}

impl SceneMix {
    /// The four shares added up.
    pub fn total(&self) -> (r: u8)
        requires
            self.dialogue + self.action + self.description + self.introspection <= u8::MAX,
        ensures
            r == self.dialogue + self.action + self.description + self.introspection,
    {
        self.dialogue + self.action + self.description + self.introspection
    }
}

/// One phase of a story arc.
#[derive(Clone, Debug)]
pub struct ArcPhase {
    pub name: String,
    /// What the phase does (for the model).
    pub goal: String,
    /// Its share of the arc's chapters, in percent.
    pub weight_percent: u8,
    /// Whether the phase ends on a hook.
    pub requires_hook: bool,
}

/// A story arc.
#[derive(Clone, Debug)]
pub struct ArcTemplate {
    /// Chapters in the arc.
    pub total_chapters: u32,
    pub phases: Vec<ArcPhase>,
}

/// The weights of the first `k` phases added up.
pub open spec fn weight_upto(ps: Seq<ArcPhase>, k: int) -> int
    decreases k,
{
    if k <= 0 || k > ps.len() {
        0
    } else {
        weight_upto(ps, k - 1) + ps[k - 1].weight_percent
    }
}

/// The phase chapter `chapter` of `total` falls in, from phase `i` on: the
/// first whose end share reaches the chapter's share of the arc, else the
/// last.
pub open spec fn phase_index_from(ps: Seq<ArcPhase>, chapter: u32, total: u32, i: int) -> int
    decreases ps.len() - i,
{
    if i < 0 || i >= ps.len() {
        ps.len() - 1
    } else if chapter * 100 <= weight_upto(ps, i + 1) * (if total == 0 {
        1
    } else {
        total as int
    }) {
        i
    } else {
        phase_index_from(ps, chapter, total, i + 1)
    }
}

proof fn lemma_phase_index_range(ps: Seq<ArcPhase>, chapter: u32, total: u32, i: int)
    requires
        0 <= i <= ps.len(),
        ps.len() > 0,
    ensures
        0 <= phase_index_from(ps, chapter, total, i) < ps.len(),
    decreases ps.len() - i,
{
    if i < ps.len() {
        lemma_phase_index_range(ps, chapter, total, i + 1);
    }
}

impl ArcTemplate {
    /// The phase a chapter belongs to (none when the arc has no phases): the
    /// first whose cumulative weight reaches the chapter's share of the arc,
    /// `chapter / max(total, 1)`, compared exactly (the weights are whole
    /// percents); the last phase when none does.
    pub fn phase_for_chapter(&self, chapter: u32) -> (r: Option<&ArcPhase>)
        ensures
            self.phases@.len() == 0 ==> r is None,
            self.phases@.len() > 0 ==> (r matches Some(p) && *p == self.phases@[phase_index_from(
                self.phases@,
                chapter,
                self.total_chapters,
                0,
            )]),
    {
        if self.phases.len() == 0 {
            return None;
        }
        proof {
            lemma_phase_index_range(self.phases@, chapter, self.total_chapters, 0);
        }
        let total: u128 = if self.total_chapters == 0 {
            1
        } else {
            self.total_chapters as u128
        };
        let target: u128 = chapter as u128 * 100;
        let mut acc: u128 = 0;
        let mut i: usize = 0;
        while i < self.phases.len()
            invariant
                i <= self.phases@.len(),
                acc == weight_upto(self.phases@, i as int),
                acc <= 255 * i,
                1 <= total <= u32::MAX,
                total == (if self.total_chapters == 0 { 1 } else { self.total_chapters as int }),
                target == chapter * 100,
                phase_index_from(self.phases@, chapter, self.total_chapters, 0) == phase_index_from(
                    self.phases@,
                    chapter,
                    self.total_chapters,
                    i as int,
                ),
            decreases self.phases@.len() - i,
        {
            acc = acc + self.phases[i].weight_percent as u128;
            assert(acc * total <= (255 * (i + 1)) * u32::MAX) by (nonlinear_arith)
                requires
                    acc <= 255 * (i + 1),
                    total <= u32::MAX,
                    acc >= 0,
            ;
            assert((255 * (i + 1)) * u32::MAX < 0x1_0000_0000_0000_0000_0000_0000_0000_0000)
                by (nonlinear_arith)
                requires
                    i < 0x1_0000_0000_0000_0000,
            ;
            if target <= acc * total {
                return Some(&self.phases[i]);
            }
            i = i + 1;
        }
        let last = self.phases.len() - 1;
        Some(&self.phases[last])
    }
}

/// A genre's template.
#[derive(Clone, Debug)]
pub struct GenreTemplate {
    pub genre: Genre,
    /// Chinese name of the genre.
    pub display_name: String,
    pub pace: PaceTarget,
    pub scene_mix: SceneMix,
    pub arc: ArcTemplate,
    /// Key principles (for the model).
    pub key_principles: Vec<String>,
    /// Usual crowd-pleasing moments (for the model).
    pub dopamine_moments: Vec<String>,
}

/// The Chinese name of each genre.
pub open spec fn spec_display_name(g: Genre) -> Seq<char> {
    match g {
        Genre::Xianxia => "玄幻 / 仙侠"@,
        Genre::Urban => "都市 / 日常"@,
        Genre::SciFi => "科幻"@,
        Genre::Fantasy => "西幻 / 奇幻"@,
        Genre::Historical => "历史 / 穿越"@,
        Genre::Romance => "言情"@,
        Genre::Suspense => "悬疑 / 推理"@,
        Genre::Other => "其他"@,
    }
}

/// The pacing of each genre.
pub open spec fn spec_pace(g: Genre) -> PaceTarget {
    match g {
        Genre::Xianxia => PaceTarget { recommended_words: 2200, min_words: 1800, max_words: 3000 },
        Genre::Urban => PaceTarget { recommended_words: 1800, min_words: 1500, max_words: 2500 },
        Genre::SciFi => PaceTarget { recommended_words: 2200, min_words: 1800, max_words: 3000 },
        Genre::Fantasy => PaceTarget { recommended_words: 2200, min_words: 1800, max_words: 2800 },
        Genre::Historical => PaceTarget { recommended_words: 2200, min_words: 1800, max_words: 2800 },
        Genre::Romance => PaceTarget { recommended_words: 1500, min_words: 1200, max_words: 2200 },
        Genre::Suspense => PaceTarget { recommended_words: 2200, min_words: 1800, max_words: 2800 },
        Genre::Other => PaceTarget { recommended_words: 2000, min_words: 1500, max_words: 2800 },
    }
}

/// The scene mix of each genre.
pub open spec fn spec_scene_mix(g: Genre) -> SceneMix {
    match g {
        Genre::Xianxia => SceneMix { dialogue: 30, action: 35, description: 25, introspection: 10 },
        Genre::Urban => SceneMix { dialogue: 45, action: 15, description: 25, introspection: 15 },
        Genre::SciFi => SceneMix { dialogue: 30, action: 25, description: 30, introspection: 15 },
        Genre::Fantasy => SceneMix { dialogue: 30, action: 30, description: 30, introspection: 10 },
        Genre::Historical => SceneMix { dialogue: 35, action: 20, description: 30, introspection: 15 },
        Genre::Romance => SceneMix { dialogue: 50, action: 10, description: 20, introspection: 20 },
        Genre::Suspense => SceneMix { dialogue: 35, action: 15, description: 30, introspection: 20 },
        Genre::Other => SceneMix { dialogue: 35, action: 25, description: 25, introspection: 15 },
    }
}

/// The arc length of each genre.
pub open spec fn spec_total_chapters(g: Genre) -> u32 {
    match g {
        Genre::Xianxia => 50,
        Genre::Urban => 40,
        Genre::SciFi => 60,
        Genre::Fantasy => 50,
        Genre::Historical => 50,
        Genre::Romance => 40,
        Genre::Suspense => 45,
        Genre::Other => 40,
    }
}

/// The arc phases of each genre: name, goal, weight in percent, hook.
pub open spec fn spec_phase_rows(g: Genre) -> Seq<(Seq<char>, Seq<char>, u8, bool)> {
    match g {
        Genre::Xianxia => seq![
            ("开篇立人设"@, "塑造主角，建立金手指/世界观，埋下第一个反派/机缘"@, 20, true),
            ("小试牛刀"@, "主角第一次实战胜利 / 第一次装逼"@, 30, true),
            ("中段反转"@, "出现比主角更强的敌人 / 失势"@, 30, true),
            ("卷末高潮"@, "突破境界 / 击败卷末Boss，开启新地图"@, 20, true),
        ],
        Genre::Urban => seq![
            ("立人设"@, "介绍主角身份、处境、核心关系"@, 20, true),
            ("日常推进"@, "工作 / 感情 / 副业多线并行"@, 50, false),
            ("矛盾爆发"@, "主角遭遇重大打击或反转"@, 20, true),
            ("收尾 / 升级"@, "主角重新站稳，开启新副本"@, 10, true),
        ],
        Genre::SciFi => seq![
            ("设定建立"@, "把世界规则 / 科技层级 / 主角处境交代清楚"@, 20, true),
            ("事件升级"@, "外部冲突逐步逼近，主角决策开始有代价"@, 40, true),
            ("真相揭示"@, "反派动机 / 阴谋全貌浮出水面"@, 20, true),
            ("代价与希望"@, "主角付出代价后达成新平衡"@, 20, true),
        ],
        Genre::Fantasy => seq![
            ("开篇立人设"@, "塑造主角，建立金手指/世界观，埋下第一个反派/机缘"@, 20, true),
            ("小试牛刀"@, "主角第一次实战胜利 / 第一次装逼"@, 30, true),
            ("中段反转"@, "出现比主角更强的敌人 / 失势"@, 30, true),
            ("卷末高潮"@, "突破境界 / 击败卷末Boss，开启新地图"@, 20, true),
        ],
        Genre::Historical => seq![
            ("立人设"@, "交代时代背景 / 主角身份 / 核心矛盾"@, 20, true),
            ("站稳脚跟"@, "用现代知识获取第一波资源"@, 30, true),
            ("卷入大事件"@, "被历史浪潮裹挟"@, 30, true),
            ("改变历史"@, "在关键节点做出选择"@, 20, true),
        ],
        Genre::Romance => seq![
            ("初遇"@, "男女主相遇，建立张力"@, 20, true),
            ("试探"@, "关系推进，反复拉扯"@, 40, false),
            ("误会 / 拆伙"@, "出现第三方 / 旧情人搅局"@, 20, true),
            ("复合 / 抉择"@, "真相大白，关系明确"@, 20, true),
        ],
        Genre::Suspense => seq![
            ("事件发生"@, "案件 / 异常发生，主角介入"@, 15, true),
            ("线索堆积"@, "看似无关的线索接连出现"@, 45, true),
            ("迷雾加深"@, "看似嫌疑人逐一被排除"@, 20, true),
            ("真相 + 反转"@, "真相大白，并附一个意料之外的第二层真相"@, 20, true),
        ],
        Genre::Other => seq![
            ("开篇"@, "立人设，交代背景"@, 25, true),
            ("推进"@, "事件层层推进"@, 50, false),
            ("高潮"@, "卷末冲突爆发"@, 25, true),
        ],
    }
}

/// The key principles of each genre.
pub open spec fn spec_principles(g: Genre) -> Seq<Seq<char>> {
    match g {
        Genre::Xianxia => seq![
            "每章至少出现一次「爽点」：装逼打脸 / 反转 / 升级 / 奇遇"@,
            "境界体系不可前后矛盾，跨级战斗必须给出明确理由"@,
            "金手指能力要有限制，不能让主角无理由碾压"@,
            "反派不能是纯粹的弱智；强敌须有强敌的样子"@,
        ],
        Genre::Urban => seq![
            "人物对白占比高，对话要「能听出口音和身份」"@,
            "金钱 / 职级 / 关系网等现实元素要前后一致"@,
            "情感线要慢热，避免一见钟情式套话"@,
        ],
        Genre::SciFi => seq![
            "科技名词要前后一致，不要混用时代名词"@,
            "硬科幻尽量避免「毫无代价的奇迹」"@,
            "宏大叙事要落到具体一个角色身上"@,
        ],
        Genre::Fantasy => seq![
            "种族 / 教派 / 血脉体系要设定清晰"@,
            "魔法代价要明确，否则设定会显得廉价"@,
            "反派最好有自己的信念，不要单纯「邪恶」"@,
        ],
        Genre::Historical => seq![
            "时代术语 / 官职 / 礼仪要符合史实（架空也要自洽）"@,
            "现代知识不可「超出时代太多」地解决问题"@,
            "感情线要慢，符合古代节奏"@,
        ],
        Genre::Romance => seq![
            "情感要落到具体事件，不能只是心理描写"@,
            "误会必须有充分动机，不要强行误会"@,
            "配角要立体，避免工具人化"@,
        ],
        Genre::Suspense => seq![
            "线索要在前文就有伏笔，不要临时抛出"@,
            "证据链要可验证，不要靠巧合破案"@,
            "每章结尾必须留一个钩子"@,
        ],
        Genre::Other => seq![
            "先把核心冲突讲清楚；节奏均匀，钩子稳定"@,
        ],
    }
}

/// The crowd-pleasing moments of each genre.
pub open spec fn spec_moments(g: Genre) -> Seq<Seq<char>> {
    match g {
        Genre::Xianxia => seq![
            "路人甲讥讽 → 主角亮出真实身份"@,
            "拍卖会 / 比武招亲上一鸣惊人"@,
            "神秘老者 / 戒指老爷爷指点"@,
            "看似柔弱的师妹其实是大佬"@,
        ],
        Genre::Urban => seq![
            "低调身份被当众揭穿"@,
            "前任 / 旧识当场难堪"@,
            "关键时刻谈下大单 / 救场"@,
        ],
        Genre::SciFi => seq![
            "看似无关的小数据最终推翻了整个理论"@,
            "主角从外星信号里读出了关键信息"@,
            "敌对方的内应其实是主角当年的老师"@,
        ],
        Genre::Fantasy => seq![
            "古龙苏醒 / 神器认主"@,
            "屠龙小队全员内鬼"@,
            "主角用契约反噬了恶魔领主"@,
        ],
        Genre::Historical => seq![
            "诗词 / 计策惊艳全场"@,
            "被怀疑是妖邪的现代主角反手破局"@,
            "皇帝私下接见"@,
        ],
        Genre::Romance => seq![
            "久别重逢 / 雨中相拥"@,
            "高甜公开撒糖"@,
            "曾经的对手成了最懂自己的人"@,
        ],
        Genre::Suspense => seq![
            "看似无关的细节突然串成完整链条"@,
            "「凶手」居然是主角最亲近的人"@,
            "主角用凶手才知道的信息设下陷阱"@,
        ],
        Genre::Other => seq![
            "主角第一次真正意义上的胜利"@,
        ],
    }
}

pub open spec fn phase_matches(p: ArcPhase, row: (Seq<char>, Seq<char>, u8, bool)) -> bool {
    p.name@ == row.0 && p.goal@ == row.1 && p.weight_percent == row.2 && p.requires_hook == row.3
}

pub open spec fn phases_match(ps: Seq<ArcPhase>, rows: Seq<(Seq<char>, Seq<char>, u8, bool)>) -> bool {
    ps.len() == rows.len() && forall|i: int| 0 <= i < ps.len() ==> phase_matches(#[trigger] ps[i], rows[i])
}

/// `t` is the built-in template of genre `g`.
pub open spec fn is_template_of(t: GenreTemplate, g: Genre) -> bool {
    &&& t.genre == g
    &&& t.display_name@ == spec_display_name(g)
    &&& t.pace == spec_pace(g)
    &&& t.scene_mix == spec_scene_mix(g)
    &&& t.arc.total_chapters == spec_total_chapters(g)
    &&& phases_match(t.arc.phases@, spec_phase_rows(g))
    &&& string_views(t.key_principles@) == spec_principles(g)
    &&& string_views(t.dopamine_moments@) == spec_moments(g)
}

fn push_phase(v: &mut Vec<ArcPhase>, name: &str, goal: &str, weight_percent: u8, requires_hook: bool)
    ensures
        final(v)@.len() == old(v)@.len() + 1,
        forall|i: int| 0 <= i < old(v)@.len() ==> final(v)@[i] == old(v)@[i],
        phase_matches(final(v)@.last(), (name@, goal@, weight_percent, requires_hook)),
{
    v.push(ArcPhase { name: string_of(name), goal: string_of(goal), weight_percent, requires_hook });
}

fn push_text(v: &mut Vec<String>, s: &str)
    ensures
        string_views(final(v)@) == string_views(old(v)@).push(s@),
{
    let t = string_of(s);
    v.push(t);
    assert(string_views(v@) =~= string_views(old(v)@).push(s@));
}

fn xianxia_phases() -> (r: Vec<ArcPhase>)
    ensures
        phases_match(r@, spec_phase_rows(Genre::Xianxia)),
{
    let mut v: Vec<ArcPhase> = Vec::new();
    push_phase(&mut v, "开篇立人设", "塑造主角，建立金手指/世界观，埋下第一个反派/机缘", 20, true);
    push_phase(&mut v, "小试牛刀", "主角第一次实战胜利 / 第一次装逼", 30, true);
    push_phase(&mut v, "中段反转", "出现比主角更强的敌人 / 失势", 30, true);
    push_phase(&mut v, "卷末高潮", "突破境界 / 击败卷末Boss，开启新地图", 20, true);
    assert(phases_match(v@, spec_phase_rows(Genre::Xianxia)));
    v
}

fn xianxia_texts() -> (r: (Vec<String>, Vec<String>))
    ensures
        string_views(r.0@) == spec_principles(Genre::Xianxia),
        string_views(r.1@) == spec_moments(Genre::Xianxia),
{
    let mut a: Vec<String> = Vec::new();
    let mut b: Vec<String> = Vec::new();
    push_text(&mut a, "每章至少出现一次「爽点」：装逼打脸 / 反转 / 升级 / 奇遇");
    push_text(&mut a, "境界体系不可前后矛盾，跨级战斗必须给出明确理由");
    push_text(&mut a, "金手指能力要有限制，不能让主角无理由碾压");
    push_text(&mut a, "反派不能是纯粹的弱智；强敌须有强敌的样子");
    push_text(&mut b, "路人甲讥讽 → 主角亮出真实身份");
    push_text(&mut b, "拍卖会 / 比武招亲上一鸣惊人");
    push_text(&mut b, "神秘老者 / 戒指老爷爷指点");
    push_text(&mut b, "看似柔弱的师妹其实是大佬");
    assert(string_views(a@) =~= spec_principles(Genre::Xianxia));
    assert(string_views(b@) =~= spec_moments(Genre::Xianxia));
    (a, b)
}

/// The Xianxia template.
fn xianxia_template() -> (r: GenreTemplate)
    ensures
        is_template_of(r, Genre::Xianxia),
{
    let (key_principles, dopamine_moments) = xianxia_texts();
    GenreTemplate {
        genre: Genre::Xianxia,
        display_name: string_of("玄幻 / 仙侠"),
        pace: PaceTarget { recommended_words: 2200, min_words: 1800, max_words: 3000 },
        scene_mix: SceneMix { dialogue: 30, action: 35, description: 25, introspection: 10 },
        arc: ArcTemplate { total_chapters: 50, phases: xianxia_phases() },
        key_principles,
        dopamine_moments,
    }
}

fn urban_phases() -> (r: Vec<ArcPhase>)
    ensures
        phases_match(r@, spec_phase_rows(Genre::Urban)),
{
    let mut v: Vec<ArcPhase> = Vec::new();
    push_phase(&mut v, "立人设", "介绍主角身份、处境、核心关系", 20, true);
    push_phase(&mut v, "日常推进", "工作 / 感情 / 副业多线并行", 50, false);
    push_phase(&mut v, "矛盾爆发", "主角遭遇重大打击或反转", 20, true);
    push_phase(&mut v, "收尾 / 升级", "主角重新站稳，开启新副本", 10, true);
    assert(phases_match(v@, spec_phase_rows(Genre::Urban)));
    v
}

fn urban_texts() -> (r: (Vec<String>, Vec<String>))
    ensures
        string_views(r.0@) == spec_principles(Genre::Urban),
        string_views(r.1@) == spec_moments(Genre::Urban),
{
    let mut a: Vec<String> = Vec::new();
    let mut b: Vec<String> = Vec::new();
    push_text(&mut a, "人物对白占比高，对话要「能听出口音和身份」");
    push_text(&mut a, "金钱 / 职级 / 关系网等现实元素要前后一致");
    push_text(&mut a, "情感线要慢热，避免一见钟情式套话");
    push_text(&mut b, "低调身份被当众揭穿");
    push_text(&mut b, "前任 / 旧识当场难堪");
    push_text(&mut b, "关键时刻谈下大单 / 救场");
    assert(string_views(a@) =~= spec_principles(Genre::Urban));
    assert(string_views(b@) =~= spec_moments(Genre::Urban));
    (a, b)
}

/// The Urban template.
fn urban_template() -> (r: GenreTemplate)
    ensures
        is_template_of(r, Genre::Urban),
{
    let (key_principles, dopamine_moments) = urban_texts();
    GenreTemplate {
        genre: Genre::Urban,
        display_name: string_of("都市 / 日常"),
        pace: PaceTarget { recommended_words: 1800, min_words: 1500, max_words: 2500 },
        scene_mix: SceneMix { dialogue: 45, action: 15, description: 25, introspection: 15 },
        arc: ArcTemplate { total_chapters: 40, phases: urban_phases() },
        key_principles,
        dopamine_moments,
    }
}

fn scifi_phases() -> (r: Vec<ArcPhase>)
    ensures
        phases_match(r@, spec_phase_rows(Genre::SciFi)),
{
    let mut v: Vec<ArcPhase> = Vec::new();
    push_phase(&mut v, "设定建立", "把世界规则 / 科技层级 / 主角处境交代清楚", 20, true);
    push_phase(&mut v, "事件升级", "外部冲突逐步逼近，主角决策开始有代价", 40, true);
    push_phase(&mut v, "真相揭示", "反派动机 / 阴谋全貌浮出水面", 20, true);
    push_phase(&mut v, "代价与希望", "主角付出代价后达成新平衡", 20, true);
    assert(phases_match(v@, spec_phase_rows(Genre::SciFi)));
    v
}

fn scifi_texts() -> (r: (Vec<String>, Vec<String>))
    ensures
        string_views(r.0@) == spec_principles(Genre::SciFi),
        string_views(r.1@) == spec_moments(Genre::SciFi),
{
    let mut a: Vec<String> = Vec::new();
    let mut b: Vec<String> = Vec::new();
    push_text(&mut a, "科技名词要前后一致，不要混用时代名词");
    push_text(&mut a, "硬科幻尽量避免「毫无代价的奇迹」");
    push_text(&mut a, "宏大叙事要落到具体一个角色身上");
    push_text(&mut b, "看似无关的小数据最终推翻了整个理论");
    push_text(&mut b, "主角从外星信号里读出了关键信息");
    push_text(&mut b, "敌对方的内应其实是主角当年的老师");
    assert(string_views(a@) =~= spec_principles(Genre::SciFi));
    assert(string_views(b@) =~= spec_moments(Genre::SciFi));
    (a, b)
}

/// The SciFi template.
fn scifi_template() -> (r: GenreTemplate)
    ensures
        is_template_of(r, Genre::SciFi),
{
    let (key_principles, dopamine_moments) = scifi_texts();
    GenreTemplate {
        genre: Genre::SciFi,
        display_name: string_of("科幻"),
        pace: PaceTarget { recommended_words: 2200, min_words: 1800, max_words: 3000 },
        scene_mix: SceneMix { dialogue: 30, action: 25, description: 30, introspection: 15 },
        arc: ArcTemplate { total_chapters: 60, phases: scifi_phases() },
        key_principles,
        dopamine_moments,
    }
}

fn fantasy_phases() -> (r: Vec<ArcPhase>)
    ensures
        phases_match(r@, spec_phase_rows(Genre::Fantasy)),
{
    xianxia_phases()
}

fn fantasy_texts() -> (r: (Vec<String>, Vec<String>))
    ensures
        string_views(r.0@) == spec_principles(Genre::Fantasy),
        string_views(r.1@) == spec_moments(Genre::Fantasy),
{
    let mut a: Vec<String> = Vec::new();
    let mut b: Vec<String> = Vec::new();
    push_text(&mut a, "种族 / 教派 / 血脉体系要设定清晰");
    push_text(&mut a, "魔法代价要明确，否则设定会显得廉价");
    push_text(&mut a, "反派最好有自己的信念，不要单纯「邪恶」");
    push_text(&mut b, "古龙苏醒 / 神器认主");
    push_text(&mut b, "屠龙小队全员内鬼");
    push_text(&mut b, "主角用契约反噬了恶魔领主");
    assert(string_views(a@) =~= spec_principles(Genre::Fantasy));
    assert(string_views(b@) =~= spec_moments(Genre::Fantasy));
    (a, b)
}

/// The Fantasy template.
fn fantasy_template() -> (r: GenreTemplate)
    ensures
        is_template_of(r, Genre::Fantasy),
{
    let (key_principles, dopamine_moments) = fantasy_texts();
    GenreTemplate {
        genre: Genre::Fantasy,
        display_name: string_of("西幻 / 奇幻"),
        pace: PaceTarget { recommended_words: 2200, min_words: 1800, max_words: 2800 },
        scene_mix: SceneMix { dialogue: 30, action: 30, description: 30, introspection: 10 },
        arc: ArcTemplate { total_chapters: 50, phases: fantasy_phases() },
        key_principles,
        dopamine_moments,
    }
}

fn historical_phases() -> (r: Vec<ArcPhase>)
    ensures
        phases_match(r@, spec_phase_rows(Genre::Historical)),
{
    let mut v: Vec<ArcPhase> = Vec::new();
    push_phase(&mut v, "立人设", "交代时代背景 / 主角身份 / 核心矛盾", 20, true);
    push_phase(&mut v, "站稳脚跟", "用现代知识获取第一波资源", 30, true);
    push_phase(&mut v, "卷入大事件", "被历史浪潮裹挟", 30, true);
    push_phase(&mut v, "改变历史", "在关键节点做出选择", 20, true);
    assert(phases_match(v@, spec_phase_rows(Genre::Historical)));
    v
}

fn historical_texts() -> (r: (Vec<String>, Vec<String>))
    ensures
        string_views(r.0@) == spec_principles(Genre::Historical),
        string_views(r.1@) == spec_moments(Genre::Historical),
{
    let mut a: Vec<String> = Vec::new();
    let mut b: Vec<String> = Vec::new();
    push_text(&mut a, "时代术语 / 官职 / 礼仪要符合史实（架空也要自洽）");
    push_text(&mut a, "现代知识不可「超出时代太多」地解决问题");
    push_text(&mut a, "感情线要慢，符合古代节奏");
    push_text(&mut b, "诗词 / 计策惊艳全场");
    push_text(&mut b, "被怀疑是妖邪的现代主角反手破局");
    push_text(&mut b, "皇帝私下接见");
    assert(string_views(a@) =~= spec_principles(Genre::Historical));
    assert(string_views(b@) =~= spec_moments(Genre::Historical));
    (a, b)
}

/// The Historical template.
fn historical_template() -> (r: GenreTemplate)
    ensures
        is_template_of(r, Genre::Historical),
{
    let (key_principles, dopamine_moments) = historical_texts();
    GenreTemplate {
        genre: Genre::Historical,
        display_name: string_of("历史 / 穿越"),
        pace: PaceTarget { recommended_words: 2200, min_words: 1800, max_words: 2800 },
        scene_mix: SceneMix { dialogue: 35, action: 20, description: 30, introspection: 15 },
        arc: ArcTemplate { total_chapters: 50, phases: historical_phases() },
        key_principles,
        dopamine_moments,
    }
}

fn romance_phases() -> (r: Vec<ArcPhase>)
    ensures
        phases_match(r@, spec_phase_rows(Genre::Romance)),
{
    let mut v: Vec<ArcPhase> = Vec::new();
    push_phase(&mut v, "初遇", "男女主相遇，建立张力", 20, true);
    push_phase(&mut v, "试探", "关系推进，反复拉扯", 40, false);
    push_phase(&mut v, "误会 / 拆伙", "出现第三方 / 旧情人搅局", 20, true);
    push_phase(&mut v, "复合 / 抉择", "真相大白，关系明确", 20, true);
    assert(phases_match(v@, spec_phase_rows(Genre::Romance)));
    v
}

fn romance_texts() -> (r: (Vec<String>, Vec<String>))
    ensures
        string_views(r.0@) == spec_principles(Genre::Romance),
        string_views(r.1@) == spec_moments(Genre::Romance),
{
    let mut a: Vec<String> = Vec::new();
    let mut b: Vec<String> = Vec::new();
    push_text(&mut a, "情感要落到具体事件，不能只是心理描写");
    push_text(&mut a, "误会必须有充分动机，不要强行误会");
    push_text(&mut a, "配角要立体，避免工具人化");
    push_text(&mut b, "久别重逢 / 雨中相拥");
    push_text(&mut b, "高甜公开撒糖");
    push_text(&mut b, "曾经的对手成了最懂自己的人");
    assert(string_views(a@) =~= spec_principles(Genre::Romance));
    assert(string_views(b@) =~= spec_moments(Genre::Romance));
    (a, b)
}

/// The Romance template.
fn romance_template() -> (r: GenreTemplate)
    ensures
        is_template_of(r, Genre::Romance),
{
    let (key_principles, dopamine_moments) = romance_texts();
    GenreTemplate {
        genre: Genre::Romance,
        display_name: string_of("言情"),
        pace: PaceTarget { recommended_words: 1500, min_words: 1200, max_words: 2200 },
        scene_mix: SceneMix { dialogue: 50, action: 10, description: 20, introspection: 20 },
        arc: ArcTemplate { total_chapters: 40, phases: romance_phases() },
        key_principles,
        dopamine_moments,
    }
}

fn suspense_phases() -> (r: Vec<ArcPhase>)
    ensures
        phases_match(r@, spec_phase_rows(Genre::Suspense)),
{
    let mut v: Vec<ArcPhase> = Vec::new();
    push_phase(&mut v, "事件发生", "案件 / 异常发生，主角介入", 15, true);
    push_phase(&mut v, "线索堆积", "看似无关的线索接连出现", 45, true);
    push_phase(&mut v, "迷雾加深", "看似嫌疑人逐一被排除", 20, true);
    push_phase(&mut v, "真相 + 反转", "真相大白，并附一个意料之外的第二层真相", 20, true);
    assert(phases_match(v@, spec_phase_rows(Genre::Suspense)));
    v
}

fn suspense_texts() -> (r: (Vec<String>, Vec<String>))
    ensures
        string_views(r.0@) == spec_principles(Genre::Suspense),
        string_views(r.1@) == spec_moments(Genre::Suspense),
{
    let mut a: Vec<String> = Vec::new();
    let mut b: Vec<String> = Vec::new();
    push_text(&mut a, "线索要在前文就有伏笔，不要临时抛出");
    push_text(&mut a, "证据链要可验证，不要靠巧合破案");
    push_text(&mut a, "每章结尾必须留一个钩子");
    push_text(&mut b, "看似无关的细节突然串成完整链条");
    push_text(&mut b, "「凶手」居然是主角最亲近的人");
    push_text(&mut b, "主角用凶手才知道的信息设下陷阱");
    assert(string_views(a@) =~= spec_principles(Genre::Suspense));
    assert(string_views(b@) =~= spec_moments(Genre::Suspense));
    (a, b)
}

/// The Suspense template.
fn suspense_template() -> (r: GenreTemplate)
    ensures
        is_template_of(r, Genre::Suspense),
{
    let (key_principles, dopamine_moments) = suspense_texts();
    GenreTemplate {
        genre: Genre::Suspense,
        display_name: string_of("悬疑 / 推理"),
        pace: PaceTarget { recommended_words: 2200, min_words: 1800, max_words: 2800 },
        scene_mix: SceneMix { dialogue: 35, action: 15, description: 30, introspection: 20 },
        arc: ArcTemplate { total_chapters: 45, phases: suspense_phases() },
        key_principles,
        dopamine_moments,
    }
}

fn other_phases() -> (r: Vec<ArcPhase>)
    ensures
        phases_match(r@, spec_phase_rows(Genre::Other)),
{
    let mut v: Vec<ArcPhase> = Vec::new();
    push_phase(&mut v, "开篇", "立人设，交代背景", 25, true);
    push_phase(&mut v, "推进", "事件层层推进", 50, false);
    push_phase(&mut v, "高潮", "卷末冲突爆发", 25, true);
    assert(phases_match(v@, spec_phase_rows(Genre::Other)));
    v
}

fn other_texts() -> (r: (Vec<String>, Vec<String>))
    ensures
        string_views(r.0@) == spec_principles(Genre::Other),
        string_views(r.1@) == spec_moments(Genre::Other),
{
    let mut a: Vec<String> = Vec::new();
    let mut b: Vec<String> = Vec::new();
    push_text(&mut a, "先把核心冲突讲清楚；节奏均匀，钩子稳定");
    push_text(&mut b, "主角第一次真正意义上的胜利");
    assert(string_views(a@) =~= spec_principles(Genre::Other));
    assert(string_views(b@) =~= spec_moments(Genre::Other));
    (a, b)
}

/// The Other template.
fn other_template() -> (r: GenreTemplate)
    ensures
        is_template_of(r, Genre::Other),
{
    let (key_principles, dopamine_moments) = other_texts();
    GenreTemplate {
        genre: Genre::Other,
        display_name: string_of("其他"),
        pace: PaceTarget { recommended_words: 2000, min_words: 1500, max_words: 2800 },
        scene_mix: SceneMix { dialogue: 35, action: 25, description: 25, introspection: 15 },
        arc: ArcTemplate { total_chapters: 40, phases: other_phases() },
        key_principles,
        dopamine_moments,
    }
}

impl GenreTemplate {
    /// The built-in template of a genre.
    pub fn for_genre(genre: Genre) -> (r: Self)
        ensures
            is_template_of(r, genre),
    {
        match genre {
            Genre::Xianxia => xianxia_template(),
            Genre::Urban => urban_template(),
            Genre::SciFi => scifi_template(),
            Genre::Fantasy => fantasy_template(),
            Genre::Historical => historical_template(),
            Genre::Romance => romance_template(),
            Genre::Suspense => suspense_template(),
            Genre::Other => other_template(),
        }
    }
}

/// Every built-in template has principles, a positive recommended length
/// within its bounds, a positive arc length, phases whose weights add up to
/// the whole arc, and a scene mix of one hundred percent.
pub proof fn law_templates_are_complete(g: Genre)
    ensures
        spec_principles(g).len() > 0,
        spec_pace(g).recommended_words > 0,
        spec_pace(g).min_words <= spec_pace(g).recommended_words <= spec_pace(g).max_words,
        spec_total_chapters(g) > 0,
        spec_scene_mix(g).dialogue + spec_scene_mix(g).action + spec_scene_mix(g).description
            + spec_scene_mix(g).introspection == 100,
        phase_weight_sum(spec_phase_rows(g)) == 100,
{
    reveal_with_fuel(phase_weight_sum, 5);
}

/// The weights of the phase rows added up.
pub open spec fn phase_weight_sum(rows: Seq<(Seq<char>, Seq<char>, u8, bool)>) -> int
    decreases rows.len(),
{
    if rows.len() == 0 {
        0
    } else {
        phase_weight_sum(rows.drop_last()) + rows.last().2
    }
}

} // verus!
