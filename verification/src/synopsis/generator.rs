//! Per-chapter synopses: their data, the prompt that asks a model for one,
//! and a heuristic generator that needs no model.
use vstd::prelude::*;

use crate::agents::state::unix_now;
use crate::text::{
    decimal, push_decimal, replace_all, replace_chars, split_pieces, str_to_chars, chars_to_string,
    pieces, trim_nonempty, trimmed_nonempty, views, string_of,
};

verus! {

/// The LLM prompt template for a synopsis; `{chapter_num}`,
/// `{chapter_title}` and `{chapter_content}` are filled in.
pub const SYNOPSIS_PROMPT_TEMPLATE: &'static str = r#"请为以下网络小说章节生成结构化概要：

章节：第{chapter_num}章 {chapter_title}
内容：
{chapter_content}

请按以下JSON结构输出：
{{
  "event_chain": ["事件1", "事件2", ...],
  "key_details": ["细节1", ...],
  "ending_state": {{
    "character_states": ["人物1的状态", ...],
    "plot_point": "本章结尾的剧情卡点",
    "location": "结尾地点",
    "mood": "整体情绪基调"
  }},
  "continuation_notes": ["续写注意事项1", ...],
  "pending_hooks": ["待回收伏笔1", ...]
}}"#;

/// An instant in UTC: whole seconds since the Unix epoch and the
/// nanoseconds past them. Instants are ordered by `(secs, nanos)`.
#[derive(Clone, Copy, Debug, PartialEq, Eq, Structural)]
pub struct Timestamp {
    pub secs: i64,
    pub nanos: u32,
}

/// The current time in UTC, read from the system clock as `chrono::Utc::now`
/// reads it; a clock before the epoch reads as the epoch itself.
pub(crate) fn now_utc() -> (r: Timestamp)
    ensures
        0 <= r.secs,
        r.nanos < 1_000_000_000,
{
    let (secs, nanos) = unix_now();
    let s: i64 = if secs <= 9223372036854775807u64 {
        secs as i64
    } else {
        9223372036854775807i64
    };
    Timestamp { secs: s, nanos }
}

/// The RFC 3339 text chrono gives an instant.
pub uninterp spec fn rfc3339(secs: i64, nanos: u32) -> Seq<char>;

/// `DateTime::<Utc>::from_timestamp(secs, nanos)` written by `to_rfc3339`
/// (an instant chrono cannot represent gives the empty text). The text is
/// named, not stated: it is chrono's formatting.
#[verifier::external_body]
pub(crate) fn timestamp_rfc3339(t: Timestamp) -> (r: String)
    ensures
        r@ == rfc3339(t.secs, t.nanos),
{
    match chrono::DateTime::from_timestamp(t.secs, t.nanos) {
        Some(d) => d.to_rfc3339(),
        None => String::new(),
    }
}

/// Errors of synopsis generation.
#[derive(Clone, Debug)]
pub enum GeneratorError {
    /// The model call failed.
    Llm(String),
    /// The model's answer could not be read.
    InvalidResponse(String),
}

/// How a chapter ends.
#[derive(Debug)]
pub struct EndingState {
    pub character_states: Vec<String>,
    pub plot_point: String,
    pub location: String,
    pub mood: String,
}

impl Default for EndingState {
    fn default() -> (r: Self)
        ensures
            r.character_states@.len() == 0,
            r.plot_point@ == Seq::<char>::empty(),
            r.location@ == Seq::<char>::empty(),
            r.mood@ == Seq::<char>::empty(),
    {
        EndingState {
            character_states: Vec::new(),
            plot_point: String::new(),
            location: String::new(),
            mood: String::new(),
        }
    }
}

/// A copy of a list of strings.
pub fn copy_strings(v: &Vec<String>) -> (r: Vec<String>)
    ensures
        r@ == v@,
{
    let mut r: Vec<String> = Vec::new();
    for i in 0..v.len()
        invariant
            r@ == v@.take(i as int),
    {
        r.push(v[i].clone());
        assert(r@ =~= v@.take(i + 1));
    }
    assert(v@.take(v@.len() as int) =~= v@);
    r
}

/// The plain content of an [`EndingState`].
pub struct EndingView {
    pub character_states: Seq<String>,
    pub plot_point: String,
    pub location: String,
    pub mood: String,
}

impl View for EndingState {
    type V = EndingView;

    open spec fn view(&self) -> EndingView {
        EndingView {
            character_states: self.character_states@,
            plot_point: self.plot_point,
            location: self.location,
            mood: self.mood,
        }
    }
}

impl Clone for EndingState {
    fn clone(&self) -> (r: Self)
        ensures
            r@ == self@,
    {
        EndingState {
            character_states: copy_strings(&self.character_states),
            plot_point: self.plot_point.clone(),
            location: self.location.clone(),
            mood: self.mood.clone(),
        }
    }
}

/// The synopsis of one chapter.
#[derive(Debug)]
pub struct ChapterSynopsis {
    pub chapter_number: u32,
    pub chapter_title: String,
    pub event_chain: Vec<String>,
    pub key_details: Vec<String>,
    pub ending_state: EndingState,
    pub continuation_notes: Vec<String>,
    pub pending_hooks: Vec<String>,
    pub generated_at: Timestamp,
}

/// The plain content of a [`ChapterSynopsis`].
pub struct SynopsisView {
    pub chapter_number: u32,
    pub chapter_title: String,
    pub event_chain: Seq<String>,
    pub key_details: Seq<String>,
    pub ending_state: EndingView,
    pub continuation_notes: Seq<String>,
    pub pending_hooks: Seq<String>,
    pub generated_at: Timestamp,
}

impl View for ChapterSynopsis {
    type V = SynopsisView;

    open spec fn view(&self) -> SynopsisView {
        SynopsisView {
            chapter_number: self.chapter_number,
            chapter_title: self.chapter_title,
            event_chain: self.event_chain@,
            key_details: self.key_details@,
            ending_state: self.ending_state@,
            continuation_notes: self.continuation_notes@,
            pending_hooks: self.pending_hooks@,
            generated_at: self.generated_at,
        }
    }
}

impl Clone for ChapterSynopsis {
    fn clone(&self) -> (r: Self)
        ensures
            r@ == self@,
    {
        ChapterSynopsis {
            chapter_number: self.chapter_number,
            chapter_title: self.chapter_title.clone(),
            event_chain: copy_strings(&self.event_chain),
            key_details: copy_strings(&self.key_details),
            ending_state: self.ending_state.clone(),
            continuation_notes: copy_strings(&self.continuation_notes),
            pending_hooks: copy_strings(&self.pending_hooks),
            generated_at: self.generated_at,
        }
    }
}

impl ChapterSynopsis {
    /// A synopsis stamped with the current time.
    pub fn new(
        chapter_number: u32,
        chapter_title: String,
        event_chain: Vec<String>,
        key_details: Vec<String>,
        ending_state: EndingState,
        continuation_notes: Vec<String>,
        pending_hooks: Vec<String>,
    ) -> (r: Self)
        ensures
            r.chapter_number == chapter_number,
            r.chapter_title == chapter_title,
            r.event_chain@ == event_chain@,
            r.key_details@ == key_details@,
            r.ending_state@ == ending_state@,
            r.continuation_notes@ == continuation_notes@,
            r.pending_hooks@ == pending_hooks@,
            0 <= r.generated_at.secs,
            r.generated_at.nanos < 1_000_000_000,
    {
        ChapterSynopsis {
            chapter_number,
            chapter_title,
            event_chain,
            key_details,
            ending_state,
            continuation_notes,
            pending_hooks,
            generated_at: now_utc(),
        }
    }
}

/// The prompt for chapter `n` with title `title` and text `content`.
pub open spec fn spec_render_prompt(n: u32, title: Seq<char>, content: Seq<char>) -> Seq<char> {
    replace_all(
        replace_all(
            replace_all(SYNOPSIS_PROMPT_TEMPLATE@, "{chapter_num}"@, decimal(n as nat)),
            "{chapter_title}"@,
            title,
        ),
        "{chapter_content}"@,
        content,
    )
}

proof fn lemma_placeholders_nonempty()
    ensures
        "{chapter_num}"@.len() > 0,
        "{chapter_title}"@.len() > 0,
        "{chapter_content}"@.len() > 0,
{
    reveal_strlit("{chapter_num}");
    reveal_strlit("{chapter_title}");
    reveal_strlit("{chapter_content}");
}

/// The synopsis generator backed by a model client `C`.
pub struct LlmSynopsisGenerator<C> {
    client: C,
}

impl<C> LlmSynopsisGenerator<C> {
    pub fn new(client: C) -> (r: Self)
        ensures
            r.client() == client,
    {
        LlmSynopsisGenerator { client }
    }

    pub closed spec fn client(&self) -> C {
        self.client
    }

    /// The model client.
    pub fn client_ref(&self) -> (r: &C)
        ensures
            *r == self.client(),
    {
        &self.client
    }

    /// Fills the prompt template with the chapter's number, title and text.
    pub fn render_prompt(chapter_num: u32, chapter_title: &str, chapter_content: &str) -> (r: String)
        ensures
            r@ == spec_render_prompt(chapter_num, chapter_title@, chapter_content@),
    {
        proof {
            lemma_placeholders_nonempty();
        }
        let t = str_to_chars(SYNOPSIS_PROMPT_TEMPLATE);
        let mut num: Vec<char> = Vec::new();
        push_decimal(&mut num, chapter_num as u64);
        assert(num@ =~= decimal(chapter_num as nat));
        let p1 = replace_chars(&t, &str_to_chars("{chapter_num}"), &num);
        let p2 = replace_chars(&p1, &str_to_chars("{chapter_title}"), &str_to_chars(chapter_title));
        let p3 = replace_chars(
            &p2,
            &str_to_chars("{chapter_content}"),
            &str_to_chars(chapter_content),
        );
        chars_to_string(&p3)
    }
}

/// The paragraphs of a text: its `'\n'`-separated pieces, trimmed, without
/// the empty ones.
pub open spec fn paragraphs(content: Seq<char>) -> Seq<Seq<char>> {
    trimmed_nonempty(pieces(content, seq!['\n']))
}

/// Key details of the heuristic synopsis: the first paragraph, and the last
/// one when it differs.
pub open spec fn heuristic_details(ps: Seq<Seq<char>>) -> Seq<Seq<char>> {
    if ps.len() == 0 {
        Seq::empty()
    } else if ps.len() == 1 || ps[0] == ps.last() {
        seq![ps[0]]
    } else {
        seq![ps[0], ps.last()]
    }
}

/// The key details of a chapter start with its first paragraph and end with
/// its last one: both paragraphs when they differ, the one paragraph when
/// they are equal, nothing for a chapter without paragraphs. Every key
/// detail is one of the chapter's paragraphs.
pub proof fn law_key_details_first_and_last(ps: Seq<Seq<char>>)
    ensures
        ps.len() == 0 ==> heuristic_details(ps).len() == 0,
        ps.len() > 0 ==> heuristic_details(ps).len() > 0 && heuristic_details(ps)[0] == ps[0]
            && heuristic_details(ps).last() == ps[ps.len() - 1],
        ps.len() > 0 && ps[0] != ps[ps.len() - 1] ==> heuristic_details(ps) == seq![ps[0], ps[ps.len() - 1]],
        ps.len() > 0 && ps[0] == ps[ps.len() - 1] ==> heuristic_details(ps) == seq![ps[0]],
        forall|i: int| 0 <= i < heuristic_details(ps).len() ==> ps.contains(#[trigger] heuristic_details(ps)[i]),
{
    if ps.len() > 0 {
        assert(ps.last() == ps[ps.len() - 1]);
        assert(ps.contains(ps[0]));
        assert(ps.contains(ps[ps.len() - 1]));
    }
}

pub open spec fn string_views(v: Seq<String>) -> Seq<Seq<char>> {
    Seq::new(v.len(), |i: int| v[i]@)
}

/// The synopsis generator that needs no model.
#[derive(Clone, Copy, Debug, Default)]
pub struct HeuristicSynopsisGenerator;

impl HeuristicSynopsisGenerator {
    /// The non-empty trimmed paragraphs of `content`.
    pub fn split_paragraphs(content: &str) -> (r: Vec<String>)
        ensures
            string_views(r@) == paragraphs(content@),
    {
        let text = str_to_chars(content);
        let mut seps: Vec<char> = Vec::new();
        seps.push('\n');
        assert(seps@ =~= seq!['\n']);
        let ps = split_pieces(&text, &seps);
        let ts = trim_nonempty(&ps);
        let ghost tv = views(ts@);
        let mut r: Vec<String> = Vec::new();
        for i in 0..ts.len()
            invariant
                tv == views(ts@),
                string_views(r@) == tv.take(i as int),
        {
            let st = chars_to_string(&ts[i]);
            assert(st@ == tv[i as int]);
            let ghost before = r@;
            r.push(st);
            assert(r@ == before.push(st));
            assert(string_views(r@) =~= string_views(before).push(st@));
            assert(string_views(r@) =~= tv.take(i + 1));
        }
        assert(tv.take(tv.len() as int) =~= tv);
        r
    }

    /// The heuristic synopsis of a chapter: the first and last paragraphs
    /// as key details, mood "neutral", everything else empty.
    pub fn generate_synopsis(&self, chapter_content: &str, chapter_num: u32, chapter_title: &str) -> (r:
        ChapterSynopsis)
        ensures
            r.chapter_number == chapter_num,
            r.chapter_title@ == chapter_title@,
            r.event_chain@.len() == 0,
            string_views(r.key_details@) == heuristic_details(paragraphs(chapter_content@)),
            r.ending_state.character_states@.len() == 0,
            r.ending_state.plot_point@ == Seq::<char>::empty(),
            r.ending_state.location@ == Seq::<char>::empty(),
            r.ending_state.mood@ == "neutral"@,
            r.continuation_notes@.len() == 0,
            r.pending_hooks@.len() == 0,
            0 <= r.generated_at.secs,
            r.generated_at.nanos < 1_000_000_000,
    {
        let ps = Self::split_paragraphs(chapter_content);
        let ghost pv = string_views(ps@);
        let mut details: Vec<String> = Vec::new();
        if ps.len() == 1 {
            details.push(ps[0].clone());
        } else if ps.len() > 1 {
            details.push(ps[0].clone());
            let last = ps.len() - 1;
            if !(ps[0] == ps[last]) {
                details.push(ps[last].clone());
            }
        }
        assert(string_views(details@) =~= heuristic_details(pv));
        let ending_state = EndingState {
            character_states: Vec::new(),
            plot_point: String::new(),
            location: String::new(),
            mood: string_of("neutral"),
        };
        ChapterSynopsis::new(
            chapter_num,
            string_of(chapter_title),
            Vec::new(),
            details,
            ending_state,
            Vec::new(),
            Vec::new(),
        )
    }
}

} // verus!
