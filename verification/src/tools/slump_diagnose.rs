//! Mid-book slump diagnosis: the signals read from the synopses and the
//! fact store, the health score, and the follow-up prompt for the model.
use vstd::prelude::*;

use crate::tools::spec::{ApprovalRequirement, ToolCapability, readonly_capabilities};

use crate::consistency::checker::FactStore;
use crate::synopsis::generator::ChapterSynopsis;
use crate::synopsis::store::SynopsisStore;
use crate::text::{chars_to_string, decimal, push_decimal, push_str, str_to_chars, trim, trim_chars};
use crate::tools::spec::joined;

verus! {

/// One slump signal.
#[derive(Clone, Debug)]
pub struct SlumpSignal {
    pub key: String,
    pub label: &'static str,
    /// 0-100.
    pub severity: u8,
    pub detail: String,
}

/// The diagnosis.
#[derive(Clone, Debug)]
pub struct SlumpReport {
    /// 0-100, higher is healthier.
    pub health_score: u8,
    pub signals: Vec<SlumpSignal>,
    pub summary: String,
}

pub struct SignalView {
    pub key: Seq<char>,
    pub label: Seq<char>,
    pub severity: u8,
    pub detail: Seq<char>,
}

impl View for SlumpSignal {
    type V = SignalView;

    open spec fn view(&self) -> SignalView {
        SignalView { key: self.key@, label: self.label@, severity: self.severity, detail: self.detail@ }
    }
}

pub open spec fn signal_views(v: Seq<SlumpSignal>) -> Seq<SignalView> {
    Seq::new(v.len(), |i: int| v[i]@)
}

pub open spec fn sig(key: Seq<char>, label: Seq<char>, severity: u8, detail: Seq<char>) -> SignalView {
    SignalView { key, label, severity, detail }
}

// ---------------------------------------------------------------------------
// The signals, as a specification
// ---------------------------------------------------------------------------

/// Signals of the synopsis list as a whole.
pub open spec fn summary_signals(st: Option<Seq<ChapterSynopsis>>) -> Seq<SignalView> {
    let none = seq![
        sig(
            "no_summaries"@,
            "没有摘要"@,
            30,
            "尚无章节摘要，先调用 novel_write 跑通主流程再回来诊断。"@,
        ),
    ];
    match st {
        None => none,
        Some(v) => if v.len() == 0 {
            none
        } else if v.len() >= 2 && v[v.len() - 1].chapter_number == v[v.len() - 2].chapter_number {
            seq![
                sig(
                    "stale_chapter"@,
                    "重复章节号"@,
                    50,
                    "最近两条摘要的 chapter_number 都是 "@ + decimal(v.last().chapter_number as nat)
                        + "，可能漏改。"@,
                ),
            ]
        } else {
            Seq::empty()
        },
    }
}

/// The last `window` synopses.
pub open spec fn recent_window(v: Seq<ChapterSynopsis>, window: nat) -> Seq<ChapterSynopsis> {
    if v.len() > window {
        v.skip(v.len() - window)
    } else {
        v
    }
}

/// How many synopses leave hooks pending.
pub open spec fn hooked_count(v: Seq<ChapterSynopsis>) -> nat
    decreases v.len(),
{
    if v.len() == 0 {
        0
    } else {
        hooked_count(v.drop_last()) + if v.last().pending_hooks@.len() > 0 {
            1nat
        } else {
            0nat
        }
    }
}

/// No synopsis of `v` leaves a hook pending exactly when the count of those
/// that do is zero; the count is the number of synopses with a non-empty
/// `pending_hooks`, and at most the number of synopses.
pub proof fn law_hooked_count(v: Seq<ChapterSynopsis>)
    ensures
        hooked_count(v) == 0 <==> forall|i: int| 0 <= i < v.len() ==> (#[trigger] v[i]).pending_hooks@.len() == 0,
        hooked_count(v) == v.filter(|s: ChapterSynopsis| s.pending_hooks@.len() > 0).len(),
        hooked_count(v) <= v.len(),
    decreases v.len(),
{
    reveal(Seq::filter);
    if v.len() > 0 {
        law_hooked_count(v.drop_last());
        assert(v.last() == v[v.len() - 1]);
        assert forall|i: int| 0 <= i < v.len() - 1 implies v.drop_last()[i] == v[i] by {}
        if hooked_count(v.drop_last()) != 0 {
            let i = choose|i: int| 0 <= i < v.drop_last().len() && !((#[trigger] v.drop_last()[i]).pending_hooks@.len() == 0);
            assert(v[i] == v.drop_last()[i]);
        }
    }
}

/// The recent synopses raise `no_pending_hooks` exactly when there are at
/// least three of them and none leaves a hook pending.
pub proof fn law_no_pending_hooks_signal(v: Seq<ChapterSynopsis>, window: nat)
    ensures
        ({
            let r = recent_window(v, window);
            let hs = hook_signals(Some(v), window);
            (exists|k: int| 0 <= k < hs.len() && (#[trigger] hs[k]).key == "no_pending_hooks"@) <==> (r.len()
                >= 3 && forall|i: int| 0 <= i < r.len() ==> (#[trigger] r[i]).pending_hooks@.len() == 0)
        }),
{
    let r = recent_window(v, window);
    let hs = hook_signals(Some(v), window);
    law_hooked_count(r);
    reveal_strlit("no_pending_hooks");
    reveal_strlit("weak_ending");
    let a: Seq<SignalView> = if hooked_count(r) == 0 && r.len() >= 3 {
        seq![
            sig(
                "no_pending_hooks"@,
                "伏笔缺失"@,
                80,
                "最近 "@ + decimal(r.len()) + " 章没有任何「待回收伏笔」，读者会觉得主线停滞。"@,
            ),
        ]
    } else {
        Seq::empty()
    };
    let b: Seq<SignalView> = if blank_ending_count(r) * 2 > r.len() {
        seq![sig("weak_ending"@, "章末卡点弱"@, 70, "多章的 ending_state.plot_point 为空，章末钩力度不足。"@)]
    } else {
        Seq::empty()
    };
    assert(hs == a + b);
    if exists|k: int| 0 <= k < hs.len() && (#[trigger] hs[k]).key == "no_pending_hooks"@ {
        let k = choose|k: int| 0 <= k < hs.len() && (#[trigger] hs[k]).key == "no_pending_hooks"@;
        if k >= a.len() {
            assert(hs[k] == b[k - a.len()]);
            assert("weak_ending"@.len() != "no_pending_hooks"@.len());
        }
    }
    if r.len() >= 3 && forall|i: int| 0 <= i < r.len() ==> (#[trigger] r[i]).pending_hooks@.len() == 0 {
        assert(hs[0] == a[0]);
    }
}

/// How many synopses have a blank ending plot point.
pub open spec fn blank_ending_count(v: Seq<ChapterSynopsis>) -> nat
    decreases v.len(),
{
    if v.len() == 0 {
        0
    } else {
        blank_ending_count(v.drop_last()) + if trim(v.last().ending_state.plot_point@).len() == 0 {
            1nat
        } else {
            0nat
        }
    }
}

/// Signals of the recent synopses: no pending hook in three or more recent
/// chapters, and blank ending plot points in more than half of them.
pub open spec fn hook_signals(st: Option<Seq<ChapterSynopsis>>, window: nat) -> Seq<SignalView> {
    match st {
        None => Seq::empty(),
        Some(v) => {
            let r = recent_window(v, window);
            (if hooked_count(r) == 0 && r.len() >= 3 {
                seq![
                    sig(
                        "no_pending_hooks"@,
                        "伏笔缺失"@,
                        80,
                        "最近 "@ + decimal(r.len()) + " 章没有任何「待回收伏笔」，读者会觉得主线停滞。"@,
                    ),
                ]
            } else {
                Seq::empty()
            }) + (if blank_ending_count(r) * 2 > r.len() {
                seq![
                    sig(
                        "weak_ending"@,
                        "章末卡点弱"@,
                        70,
                        "多章的 ending_state.plot_point 为空，章末钩力度不足。"@,
                    ),
                ]
            } else {
                Seq::empty()
            })
        },
    }
}

/// Signals of the fact store: empty, or without events.
pub open spec fn fact_signals(f: Option<FactStore>) -> Seq<SignalView> {
    match f {
        None => Seq::empty(),
        Some(s) => if s.world_rules@.len() + s.characters@.len() + s.events@.len() == 0 {
            seq![
                sig(
                    "no_facts"@,
                    "事实库空"@,
                    40,
                    "还没锁定任何世界规则 / 人物 / 事件；先调用 novel_fact_lock 锚定设定。"@,
                ),
            ]
        } else if s.events@.len() == 0 {
            seq![sig("no_events"@, "事件缺失"@, 55, "事实库有人物但没有事件，主线推动缺乏锚点。"@)]
        } else {
            Seq::empty()
        },
    }
}

/// All signals, in the order they are looked for.
pub open spec fn slump_signals(
    st: Option<Seq<ChapterSynopsis>>,
    f: Option<FactStore>,
    window: nat,
) -> Seq<SignalView> {
    summary_signals(st) + hook_signals(st, window) + fact_signals(f)
}

/// The highest severity (0 when there is none).
pub open spec fn max_severity(v: Seq<SignalView>) -> u8
    decreases v.len(),
{
    if v.len() == 0 {
        0
    } else {
        let m = max_severity(v.drop_last());
        if v.last().severity > m {
            v.last().severity
        } else {
            m
        }
    }
}

/// 100 minus the highest severity, at least 0.
pub open spec fn health(v: Seq<SignalView>) -> u8 {
    if max_severity(v) > 100 {
        0
    } else {
        (100 - max_severity(v)) as u8
    }
}

pub open spec fn labels(v: Seq<SignalView>) -> Seq<Seq<char>> {
    Seq::new(v.len(), |i: int| v[i].label)
}

/// The one-line summary.
pub open spec fn summary_text(v: Seq<SignalView>) -> Seq<char> {
    if v.len() == 0 {
        "诊断通过：没有发现明显的卡壳信号。"@
    } else {
        "诊断完成：识别到 "@ + decimal(v.len()) + " 个信号："@ + joined(labels(v), "、"@) + "。"@
    }
}

pub open spec fn entries_of(s: Option<&SynopsisStore>) -> Option<Seq<ChapterSynopsis>> {
    match s {
        Some(st) => Some(st.entries()),
        None => None,
    }
}

pub open spec fn facts_of(f: Option<&FactStore>) -> Option<FactStore> {
    match f {
        Some(s) => Some(*s),
        None => None,
    }
}

// ---------------------------------------------------------------------------
// The diagnosis
// ---------------------------------------------------------------------------

fn make_signal(key: &str, label: &'static str, severity: u8, detail: Vec<char>) -> (r: SlumpSignal)
    ensures
        r@ == sig(key@, label@, severity, detail@),
{
    SlumpSignal {
        key: chars_to_string(&str_to_chars(key)),
        label,
        severity,
        detail: chars_to_string(&detail),
    }
}

fn push_signal(v: &mut Vec<SlumpSignal>, s: SlumpSignal)
    ensures
        signal_views(final(v)@) == signal_views(old(v)@).push(s@),
{
    let ghost sv = s@;
    v.push(s);
    assert(signal_views(v@) =~= signal_views(old(v)@).push(sv));
}

fn text(s: &str) -> (r: Vec<char>)
    ensures
        r@ == s@,
{
    str_to_chars(s)
}

/// The signals of the synopses.
fn synopsis_signals(st: Option<&SynopsisStore>, window: usize, out: &mut Vec<SlumpSignal>)
    ensures
        signal_views(final(out)@) == signal_views(old(out)@) + summary_signals(entries_of(st))
            + hook_signals(entries_of(st), window as nat),
{
    let ghost start = signal_views(out@);
    match st {
        None => {
            push_signal(
                out,
                make_signal(
                    "no_summaries",
                    "没有摘要",
                    30,
                    text("尚无章节摘要，先调用 novel_write 跑通主流程再回来诊断。"),
                ),
            );
            assert(signal_views(out@) =~= start + summary_signals(entries_of(st)) + hook_signals(
                entries_of(st),
                window as nat,
            ));
        },
        Some(store) => {
            let ghost v = store.entries();
            let all = store.synopses();
            let len = all.len();
            if len == 0 {
                push_signal(
                    out,
                    make_signal(
                        "no_summaries",
                        "没有摘要",
                        30,
                        text("尚无章节摘要，先调用 novel_write 跑通主流程再回来诊断。"),
                    ),
                );
            } else if len >= 2 && all[len - 1].0 == all[len - 2].0 {
                let mut d = text("最近两条摘要的 chapter_number 都是 ");
                push_decimal(&mut d, all[len - 1].0 as u64);
                push_str(&mut d, "，可能漏改。");
                push_signal(out, make_signal("stale_chapter", "重复章节号", 50, d));
            }
            let ghost mid = signal_views(out@);
            assert(mid =~= start + summary_signals(entries_of(st)));
            let from: usize = if len > window {
                len - window
            } else {
                0
            };
            let ghost r = recent_window(v, window as nat);
            assert(r =~= v.subrange(from as int, len as int));
            let mut hooked: usize = 0;
            let mut blank: usize = 0;
            let mut i: usize = from;
            while i < len
                invariant
                    from <= i <= len,
                    len == v.len(),
                    all@.len() == len,
                    forall|k: int| 0 <= k < len ==> *(#[trigger] all@[k]).1 == v[k],
                    r == v.subrange(from as int, len as int),
                    hooked == hooked_count(v.subrange(from as int, i as int)),
                    blank == blank_ending_count(v.subrange(from as int, i as int)),
                    hooked <= i - from,
                    blank <= i - from,
                decreases len - i,
            {
                let s = all[i].1;
                assert(v.subrange(from as int, i + 1).drop_last() =~= v.subrange(from as int, i as int));
                assert(v.subrange(from as int, i + 1).last() == v[i as int]);
                if s.pending_hooks.len() > 0 {
                    hooked = hooked + 1;
                }
                let p = trim_chars(&str_to_chars(s.ending_state.plot_point.as_str()));
                if p.len() == 0 {
                    blank = blank + 1;
                }
                i = i + 1;
            }
            let n = len - from;
            assert(r.len() == n);
            if hooked == 0 && n >= 3 {
                let mut d = text("最近 ");
                push_decimal(&mut d, n as u64);
                push_str(&mut d, " 章没有任何「待回收伏笔」，读者会觉得主线停滞。");
                push_signal(out, make_signal("no_pending_hooks", "伏笔缺失", 80, d));
            }
            let ghost mid2 = signal_views(out@);
            if blank > n / 2 {
                push_signal(
                    out,
                    make_signal(
                        "weak_ending",
                        "章末卡点弱",
                        70,
                        text("多章的 ending_state.plot_point 为空，章末钩力度不足。"),
                    ),
                );
            }
            assert(signal_views(out@) =~= start + summary_signals(entries_of(st)) + hook_signals(
                entries_of(st),
                window as nat,
            ));
        },
    }
}

/// The signals of the fact store.
fn store_signals(f: Option<&FactStore>, out: &mut Vec<SlumpSignal>)
    ensures
        signal_views(final(out)@) == signal_views(old(out)@) + fact_signals(facts_of(f)),
{
    let ghost start = signal_views(out@);
    match f {
        None => {
            assert(signal_views(out@) =~= start + fact_signals(facts_of(f)));
        },
        Some(s) => {
            if s.world_rules.len() == 0 && s.characters.len() == 0 && s.events.len() == 0 {
                push_signal(
                    out,
                    make_signal(
                        "no_facts",
                        "事实库空",
                        40,
                        text("还没锁定任何世界规则 / 人物 / 事件；先调用 novel_fact_lock 锚定设定。"),
                    ),
                );
            } else if s.events.len() == 0 {
                push_signal(
                    out,
                    make_signal("no_events", "事件缺失", 55, text("事实库有人物但没有事件，主线推动缺乏锚点。")),
                );
            }
            assert(signal_views(out@) =~= start + fact_signals(facts_of(f)));
        },
    }
}

/// Diagnoses a slump from the synopses (`None` when they could not be
/// read) and the fact store (`None` when it could not be read), looking at
/// the last `window` chapters.
pub fn diagnose(synopses: Option<&SynopsisStore>, facts: Option<&FactStore>, window: usize) -> (r:
    SlumpReport)
    ensures
        signal_views(r.signals@) == slump_signals(entries_of(synopses), facts_of(facts), window as nat),
        r.health_score == health(signal_views(r.signals@)),
        r.summary@ == summary_text(signal_views(r.signals@)),
{
    let mut signals: Vec<SlumpSignal> = Vec::new();
    synopsis_signals(synopses, window, &mut signals);
    store_signals(facts, &mut signals);
    let ghost sv = signal_views(signals@);
    assert(sv =~= slump_signals(entries_of(synopses), facts_of(facts), window as nat));
    let mut max: u8 = 0;
    for i in 0..signals.len()
        invariant
            sv == signal_views(signals@),
            max == max_severity(sv.take(i as int)),
    {
        assert(sv.take(i + 1).drop_last() =~= sv.take(i as int));
        if signals[i].severity > max {
            max = signals[i].severity;
        }
    }
    assert(sv.take(sv.len() as int) =~= sv);
    let health_score: u8 = if max > 100 {
        0
    } else {
        100 - max
    };
    let summary = if signals.len() == 0 {
        chars_to_string(&text("诊断通过：没有发现明显的卡壳信号。"))
    } else {
        let mut s = text("诊断完成：识别到 ");
        push_decimal(&mut s, signals.len() as u64);
        push_str(&mut s, " 个信号：");
        let ghost before = s@;
        let mut k: usize = 0;
        while k < signals.len()
            invariant
                sv == signal_views(signals@),
                k <= sv.len(),
                s@ == before + joined(labels(sv).take(k as int), "、"@),
            decreases sv.len() - k,
        {
            assert(labels(sv).take(k + 1).drop_last() =~= labels(sv).take(k as int));
            if k > 0 {
                push_str(&mut s, "、");
            }
            push_str(&mut s, signals[k].label);
            assert(s@ =~= before + joined(labels(sv).take(k + 1), "、"@));
            k = k + 1;
        }
        assert(labels(sv).take(sv.len() as int) =~= labels(sv));
        push_str(&mut s, "。");
        assert(s@ =~= summary_text(sv));
        chars_to_string(&s)
    };
    SlumpReport { health_score, signals, summary }
}

/// The prompt that asks the model for rescue advice.
pub open spec fn signal_line(s: SignalView) -> Seq<char> {
    "- ["@ + decimal(s.severity as nat) + "] "@ + s.label + "："@ + s.detail + "\n"@
}

pub open spec fn signal_lines(v: Seq<SignalView>) -> Seq<char>
    decreases v.len(),
{
    if v.len() == 0 {
        Seq::empty()
    } else {
        signal_lines(v.drop_last()) + signal_line(v.last())
    }
}

pub open spec fn followup_prompt(health: u8, v: Seq<SignalView>) -> Seq<char> {
    "健康分："@ + decimal(health as nat) + " / 100。\n\n信号列表：\n"@ + signal_lines(v)
        + "\n请给出 3 条具体的拯救建议（每条 1-2 句中文）。\n"@
}

/// The follow-up prompt for a report.
pub fn build_followup_prompt(report: &SlumpReport) -> (r: String)
    ensures
        r@ == followup_prompt(report.health_score, signal_views(report.signals@)),
{
    let ghost sv = signal_views(report.signals@);
    let mut s = text("健康分：");
    push_decimal(&mut s, report.health_score as u64);
    push_str(&mut s, " / 100。\n\n信号列表：\n");
    let ghost before = s@;
    for k in 0..report.signals.len()
        invariant
            sv == signal_views(report.signals@),
            s@ == before + signal_lines(sv.take(k as int)),
    {
        assert(sv.take(k + 1).drop_last() =~= sv.take(k as int));
        let g = &report.signals[k];
        push_str(&mut s, "- [");
        push_decimal(&mut s, g.severity as u64);
        push_str(&mut s, "] ");
        push_str(&mut s, g.label);
        push_str(&mut s, "：");
        push_str(&mut s, g.detail.as_str());
        push_str(&mut s, "\n");
        assert(s@ =~= before + signal_lines(sv.take(k + 1)));
    }
    assert(sv.take(sv.len() as int) =~= sv);
    push_str(&mut s, "\n请给出 3 条具体的拯救建议（每条 1-2 句中文）。\n");
    assert(s@ =~= followup_prompt(report.health_score, sv));
    chars_to_string(&s)
}

/// The look-back window a request asks for: 6 by default, kept within
/// 2..=30.
pub fn slump_window(requested: Option<u64>) -> (r: usize)
    ensures
        r == match requested {
            Some(w) => if w < 2 {
                2
            } else if w > 30 {
                30
            } else {
                w
            },
            None => 6,
        },
{
    let w = match requested {
        Some(w) => w,
        None => 6,
    };
    if w < 2 {
        2
    } else if w > 30 {
        30
    } else {
        w as usize
    }
}

/// The health score is 100 exactly when there is no signal, given that
/// every signal of a diagnosis has a positive severity.
pub proof fn law_no_signals_full_health(st: Option<Seq<ChapterSynopsis>>, f: Option<FactStore>, window: nat)
    ensures
        (health(slump_signals(st, f, window)) == 100) <==> slump_signals(st, f, window).len() == 0,
{
    let v = slump_signals(st, f, window);
    assert forall|i: int| 0 <= i < v.len() implies (#[trigger] v[i]).severity > 0 by {
        let a = summary_signals(st);
        let b = hook_signals(st, window);
        let c = fact_signals(f);
        if i < a.len() {
            assert(v[i] == a[i]);
        } else if i < a.len() + b.len() {
            assert(v[i] == b[i - a.len()]);
        } else {
            assert(v[i] == c[i - a.len() - b.len()]);
        }
    }
    lemma_max_severity_positive(v);
}

proof fn lemma_max_severity_positive(v: Seq<SignalView>)
    requires
        forall|i: int| 0 <= i < v.len() ==> (#[trigger] v[i]).severity > 0,
    ensures
        (max_severity(v) == 0) <==> v.len() == 0,
        max_severity(v) <= 100 || exists|i: int| 0 <= i < v.len() && v[i].severity > 100,
    decreases v.len(),
{
    if v.len() > 0 {
        assert forall|i: int| 0 <= i < v.drop_last().len() implies (#[trigger] v.drop_last()[i]).severity
            > 0 by {
            assert(v.drop_last()[i] == v[i]);
        }
        lemma_max_severity_positive(v.drop_last());
        assert(v.last().severity > 0);
        if max_severity(v.drop_last()) > 100 {
            let i = choose|i: int| 0 <= i < v.drop_last().len() && v.drop_last()[i].severity > 100;
            assert(v[i] == v.drop_last()[i]);
        }
    }
}


/// The `novel_slump_diagnose` tool: its name, description, capabilities and approval.
pub struct NovelSlumpDiagnoseTool;

impl NovelSlumpDiagnoseTool {
    pub fn name(&self) -> (r: &'static str)
        ensures
            r@ == "novel_slump_diagnose"@,
    {
        "novel_slump_diagnose"
    }

    pub fn description(&self) -> (r: &'static str)
        ensures
            r@ == "中期卡壳诊断：基于事实库、最近章节摘要、章节文件，输出 0-100 的健康分和信号列表。把信号打包成 LLM 提示，拿到具体拯救建议。"@,
    {
        "中期卡壳诊断：基于事实库、最近章节摘要、章节文件，输出 0-100 的健康分和信号列表。把信号打包成 LLM 提示，拿到具体拯救建议。"
    }

    pub fn capabilities(&self) -> (r: Vec<ToolCapability>)
        ensures
            r@ == seq![ToolCapability::ReadOnly, ToolCapability::Sandboxable],
    {
        readonly_capabilities()
    }

    pub fn approval_requirement(&self) -> (r: ApprovalRequirement)
        ensures
            r == ApprovalRequirement::Auto,
    {
        ApprovalRequirement::Auto
    }
}

} // verus!
