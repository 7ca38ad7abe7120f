//! The keyword retriever's text handling: the tokenizer (ASCII words, single
//! other chars, and bigrams of neighbouring CJK tokens), the backend label,
//! and the retriever that owns an index.
use vstd::prelude::*;

use super::store::{doc_views, DocView, RagIndex};
use crate::text::{
    chars_eq, trim, trim_chars, chars_to_string, is_ascii_alphanumeric, is_cjk, is_whitespace, spec_ascii_lower_seq,
    spec_is_ascii_alphanumeric, spec_is_cjk, spec_is_whitespace, ascii_lower_chars, str_to_chars,
    views,
};
use crate::tools::spec::string_views;

verus! {

/// Errors of retrieval.
#[derive(Clone, Copy, Debug, PartialEq, Eq, Structural)]
pub enum RetrieverError {
    /// No index could be loaded.
    NoIndex,
    /// The query is blank.
    EmptyQuery,
}

/// Retrieval backends.
#[derive(Clone, Copy, Debug, PartialEq, Eq, Structural)]
pub enum RetrievalBackend {
    Keyword,
    Embedding,
}

impl RetrievalBackend {
    pub fn label(self) -> (r: &'static str)
        ensures
            r@ == match self {
                RetrievalBackend::Keyword => "keyword"@,
                RetrievalBackend::Embedding => "embedding"@,
            },
    {
        match self {
            RetrievalBackend::Keyword => "keyword",
            RetrievalBackend::Embedding => "embedding",
        }
    }
}

/// The keyword retriever, which owns its index.
pub struct KeywordRetriever {
    index: RagIndex,
}

impl KeywordRetriever {
    pub closed spec fn spec_index(&self) -> RagIndex {
        self.index
    }

    pub fn new(index: RagIndex) -> (r: Self)
        ensures
            r.spec_index() == index,
    {
        KeywordRetriever { index }
    }

    /// The retriever over an index that was loaded from a project, or
    /// `NoIndex` when it could not be loaded.
    pub fn from_loaded(loaded: Option<RagIndex>) -> (r: Result<Self, RetrieverError>)
        ensures
            match loaded {
                Some(i) => r matches Ok(k) && k.spec_index() == i,
                None => r matches Err(e) && e == RetrieverError::NoIndex,
            },
    {
        match loaded {
            Some(index) => Ok(KeywordRetriever { index }),
            None => Err(RetrieverError::NoIndex),
        }
    }

    /// The retriever with its index replaced.
    pub fn with_index(self, index: RagIndex) -> (r: Self)
        ensures
            r.spec_index() == index,
    {
        KeywordRetriever { index }
    }

    pub fn index(&self) -> (r: &RagIndex)
        ensures
            *r == self.spec_index(),
    {
        &self.index
    }

    pub fn into_index(self) -> (r: RagIndex)
        ensures
            r == self.spec_index(),
    {
        self.index
    }
}

// ---------------------------------------------------------------------------
// Tokens
// ---------------------------------------------------------------------------

/// Ends the current ASCII word, lower-cased, if there is one.
pub open spec fn flush(out: Seq<Seq<char>>, buf: Seq<char>) -> Seq<Seq<char>> {
    if buf.len() > 0 {
        out.push(spec_ascii_lower_seq(buf))
    } else {
        out
    }
}

/// The unigrams of the rest `s` of a text, with `out` found so far and the
/// ASCII word `buf` being read: whitespace ends a word, ASCII letters and
/// digits extend it, and every other char ends it and is a token itself.
pub open spec fn unigrams_from(s: Seq<char>, out: Seq<Seq<char>>, buf: Seq<char>) -> Seq<Seq<char>>
    decreases s.len(),
{
    if s.len() == 0 {
        flush(out, buf)
    } else if spec_is_whitespace(s[0]) {
        unigrams_from(s.drop_first(), flush(out, buf), Seq::empty())
    } else if spec_is_ascii_alphanumeric(s[0]) {
        unigrams_from(s.drop_first(), out, buf.push(s[0]))
    } else {
        unigrams_from(s.drop_first(), flush(out, buf).push(seq![s[0]]), Seq::empty())
    }
}

pub open spec fn unigrams(s: Seq<char>) -> Seq<Seq<char>> {
    unigrams_from(s, Seq::empty(), Seq::empty())
}

pub open spec fn has_cjk(w: Seq<char>) -> bool {
    exists|i: int| 0 <= i < w.len() && spec_is_cjk(w[i])
}

/// The bigrams of the first `k` + 1 unigrams: each two neighbours that both
/// hold a CJK char, joined.
pub open spec fn bigrams_upto(u: Seq<Seq<char>>, k: int) -> Seq<Seq<char>>
    decreases k,
{
    if k <= 0 || k >= u.len() {
        Seq::empty()
    } else {
        bigrams_upto(u, k - 1) + if has_cjk(u[k - 1]) && has_cjk(u[k]) {
            seq![u[k - 1] + u[k]]
        } else {
            Seq::empty()
        }
    }
}

/// The tokens of a text: its unigrams, then the CJK bigrams.
pub open spec fn tokens(s: Seq<char>) -> Seq<Seq<char>> {
    let u = unigrams(s);
    u + bigrams_upto(u, u.len() - 1)
}

fn has_cjk_exec(w: &Vec<char>) -> (r: bool)
    ensures
        r == has_cjk(w@),
{
    for i in 0..w.len()
        invariant
            forall|j: int| 0 <= j < i ==> !spec_is_cjk(#[trigger] w@[j]),
    {
        if is_cjk(w[i]) {
            return true;
        }
    }
    false
}

fn flush_exec(out: &mut Vec<Vec<char>>, buf: &Vec<char>)
    ensures
        views(final(out)@) == flush(views(old(out)@), buf@),
{
    if buf.len() > 0 {
        let w = ascii_lower_chars(buf);
        let ghost before = views(out@);
        let ghost wv = w@;
        out.push(w);
        assert(views(out@) =~= before.push(wv));
    }
}

/// The unigram and bigram tokens of `text`.
pub fn tokenize(text: &str) -> (r: Vec<String>)
    ensures
        string_views(r@) == tokens(text@),
{
    let chars = str_to_chars(text);
    let ghost s = chars@;
    let mut out: Vec<Vec<char>> = Vec::new();
    let mut buf: Vec<char> = Vec::new();
    let mut i: usize = 0;
    assert(s.skip(0) =~= s);
    assert(views(out@) =~= Seq::<Seq<char>>::empty());
    assert(buf@ =~= Seq::<char>::empty());
    while i < chars.len()
        invariant
            s == chars@,
            i <= s.len(),
            unigrams(s) == unigrams_from(s.skip(i as int), views(out@), buf@),
        decreases s.len() - i,
    {
        let c = chars[i];
        let ghost rest = s.skip(i as int);
        assert(rest.drop_first() =~= s.skip(i + 1));
        assert(rest[0] == c);
        if is_whitespace(c) {
            flush_exec(&mut out, &buf);
            buf = Vec::new();
            assert(buf@ =~= Seq::<char>::empty());
        } else if is_ascii_alphanumeric(c) {
            buf.push(c);
        } else {
            flush_exec(&mut out, &buf);
            buf = Vec::new();
            assert(buf@ =~= Seq::<char>::empty());
            let mut one: Vec<char> = Vec::new();
            one.push(c);
            let ghost before = views(out@);
            let ghost ov = one@;
            out.push(one);
            assert(ov =~= seq![c]);
            assert(views(out@) =~= before.push(seq![c]));
        }
        i = i + 1;
    }
    assert(s.skip(i as int) =~= Seq::<char>::empty());
    flush_exec(&mut out, &buf);
    let ghost u = views(out@);
    assert(u == unigrams(s));
    let n = out.len();
    let mut res: Vec<String> = Vec::new();
    for k in 0..n
        invariant
            u == views(out@),
            n == u.len(),
            string_views(res@) == u.take(k as int),
    {
        let st = chars_to_string(&out[k]);
        let ghost before = res@;
        res.push(st);
        assert(string_views(res@) =~= string_views(before).push(st@));
        assert(string_views(res@) =~= u.take(k + 1));
    }
    assert(u.take(n as int) =~= u);
    let ghost base = string_views(res@);
    let mut k: usize = 1;
    assert(bigrams_upto(u, 0) =~= Seq::<Seq<char>>::empty());
    assert(string_views(res@) =~= u + bigrams_upto(u, 0));
    while k < n
        invariant
            u == views(out@),
            n == u.len(),
            1 <= k <= n || n == 0,
            string_views(res@) == u + bigrams_upto(u, k - 1),
        decreases n - k,
    {
        let ghost before = res@;
        if has_cjk_exec(&out[k - 1]) && has_cjk_exec(&out[k]) {
            let mut w: Vec<char> = Vec::new();
            crate::text::push_chars(&mut w, &out[k - 1]);
            crate::text::push_chars(&mut w, &out[k]);
            let st = chars_to_string(&w);
            res.push(st);
            assert(string_views(res@) =~= string_views(before).push(st@));
        } else {
            assert(string_views(res@) =~= string_views(before));
        }
        assert(string_views(res@) =~= u + bigrams_upto(u, k as int));
        k = k + 1;
    }
    if n > 0 {
        assert(k == n);
    } else {
        assert(bigrams_upto(u, -1) =~= Seq::<Seq<char>>::empty());
    }
    res
}


// ---------------------------------------------------------------------------
// What the keyword retrieval counts
// ---------------------------------------------------------------------------

/// A query is refused when it is blank.
pub fn check_query(text: &str) -> (r: Result<(), RetrieverError>)
    ensures
        r is Err <==> trim(text@).len() == 0,
        r is Err ==> r == Err::<(), RetrieverError>(RetrieverError::EmptyQuery),
{
    let t = trim_chars(&str_to_chars(text));
    if t.len() == 0 {
        Err(RetrieverError::EmptyQuery)
    } else {
        Ok(())
    }
}

/// The kinds a query is limited to, as char sequences.
pub open spec fn kinds_view(kinds: Option<Vec<String>>) -> Option<Seq<Seq<char>>> {
    match kinds {
        Some(ks) => Some(string_views(ks@)),
        None => None,
    }
}

/// A document of kind `kind` is searched: there is no limit, or the limit
/// names the kind.
pub open spec fn kind_selected(kinds: Option<Seq<Seq<char>>>, kind: Seq<char>) -> bool {
    match kinds {
        None => true,
        Some(ks) => exists|i: int| 0 <= i < ks.len() && ks[i] == kind,
    }
}

/// The text of a document that is tokenized: its title, a space, its content.
pub open spec fn searched_text(d: DocView) -> Seq<char> {
    d.title + seq![' '] + d.content
}

/// The searched documents among the first `upto`: their positions in the
/// index and their tokens, in index order.
pub open spec fn candidate_docs(ds: Seq<DocView>, kinds: Option<Seq<Seq<char>>>, upto: int) -> Seq<(int, Seq<Seq<char>>)>
    decreases upto,
{
    if upto <= 0 || upto > ds.len() {
        Seq::empty()
    } else {
        candidate_docs(ds, kinds, upto - 1) + if kind_selected(kinds, ds[upto - 1].kind) {
            seq![(upto - 1, tokens(searched_text(ds[upto - 1])))]
        } else {
            Seq::empty()
        }
    }
}

/// Positions and token lists as integers and char sequences.
pub open spec fn candidates_view(v: Seq<(usize, Vec<String>)>) -> Seq<(int, Seq<Seq<char>>)> {
    Seq::new(v.len(), |i: int| (v[i].0 as int, string_views(v[i].1@)))
}

/// `kind` is one of `ks`.
fn kind_in(ks: &Vec<String>, kind: &String) -> (r: bool)
    ensures
        r == exists|i: int| 0 <= i < ks@.len() && ks@[i]@ == kind@,
{
    let k = str_to_chars(kind.as_str());
    for i in 0..ks.len()
        invariant
            k@ == kind@,
            forall|j: int| 0 <= j < i ==> ks@[j]@ != kind@,
    {
        if chars_eq(&str_to_chars(ks[i].as_str()), &k) {
            return true;
        }
    }
    false
}

/// The documents a query searches (all, or those of the named kinds), with
/// the tokens of their title and content.
pub fn candidates(index: &RagIndex, kinds: &Option<Vec<String>>) -> (r: Vec<(usize, Vec<String>)>)
    ensures
        candidates_view(r@) == candidate_docs(
            doc_views(index.documents@),
            kinds_view(*kinds),
            index.documents@.len() as int,
        ),
{
    let ghost ds = doc_views(index.documents@);
    let ghost kv = kinds_view(*kinds);
    let mut r: Vec<(usize, Vec<String>)> = Vec::new();
    for i in 0..index.documents.len()
        invariant
            ds == doc_views(index.documents@),
            kv == kinds_view(*kinds),
            candidates_view(r@) == candidate_docs(ds, kv, i as int),
    {
        let d = &index.documents[i];
        assert(ds[i as int] == d@);
        let selected = match kinds {
            Some(ks) => {
                let b = kind_in(ks, &d.kind);
                assert(b == kind_selected(kv, d@.kind)) by {
                    if b {
                        let j = choose|j: int| 0 <= j < ks@.len() && ks@[j]@ == d.kind@;
                        assert(string_views(ks@)[j] == ks@[j]@);
                    } else {
                        assert forall|j: int| 0 <= j < string_views(ks@).len() implies string_views(ks@)[j] != d@.kind by {
                            assert(string_views(ks@)[j] == ks@[j]@);
                        }
                    }
                }
                b
            },
            None => true,
        };
        let ghost before = candidates_view(r@);
        if selected {
            let mut text = str_to_chars(d.title.as_str());
            text.push(' ');
            crate::text::push_str(&mut text, d.content.as_str());
            assert(text@ =~= searched_text(d@));
            let st = chars_to_string(&text);
            let toks = tokenize(st.as_str());
            r.push((i, toks));
            assert(candidates_view(r@) =~= before.push((i as int, tokens(searched_text(ds[i as int])))));
        } else {
            assert(candidates_view(r@) =~= before);
        }
    }
    r
}

/// How many of `ts` equal `t`.
pub open spec fn count_in(ts: Seq<Seq<char>>, t: Seq<char>) -> nat
    decreases ts.len(),
{
    if ts.len() == 0 {
        0
    } else {
        count_in(ts.drop_last(), t) + if ts.last() == t {
            1nat
        } else {
            0nat
        }
    }
}

proof fn lemma_count_in_bound(ts: Seq<Seq<char>>, t: Seq<char>)
    ensures
        count_in(ts, t) <= ts.len(),
    decreases ts.len(),
{
    if ts.len() > 0 {
        lemma_count_in_bound(ts.drop_last(), t);
    }
}

/// How many of the tokens `toks` are `t` (its term frequency).
pub fn term_frequency(toks: &Vec<String>, t: &str) -> (r: usize)
    ensures
        r == count_in(string_views(toks@), t@),
{
    let ghost tv = string_views(toks@);
    let tc = str_to_chars(t);
    let mut r: usize = 0;
    for i in 0..toks.len()
        invariant
            tv == string_views(toks@),
            tc@ == t@,
            r == count_in(tv.take(i as int), t@),
    {
        proof {
            assert(tv.take(i + 1).drop_last() =~= tv.take(i as int));
            lemma_count_in_bound(tv.take(i as int), t@);
        }
        assert(tv[i as int] == toks@[i as int]@);
        if chars_eq(&str_to_chars(toks[i].as_str()), &tc) {
            r = r + 1;
        }
    }
    assert(tv.take(toks@.len() as int) =~= tv);
    r
}

/// How many of the token lists hold `t` at least once (its document
/// frequency).
pub open spec fn docs_containing(ds: Seq<(int, Seq<Seq<char>>)>, t: Seq<char>) -> nat
    decreases ds.len(),
{
    if ds.len() == 0 {
        0
    } else {
        docs_containing(ds.drop_last(), t) + if count_in(ds.last().1, t) > 0 {
            1nat
        } else {
            0nat
        }
    }
}

proof fn lemma_docs_containing_bound(ds: Seq<(int, Seq<Seq<char>>)>, t: Seq<char>)
    ensures
        docs_containing(ds, t) <= ds.len(),
    decreases ds.len(),
{
    if ds.len() > 0 {
        lemma_docs_containing_bound(ds.drop_last(), t);
    }
}

/// The number of searched documents whose tokens hold `t`.
pub fn document_frequency(docs: &Vec<(usize, Vec<String>)>, t: &str) -> (r: usize)
    ensures
        r == docs_containing(candidates_view(docs@), t@),
{
    let ghost dv = candidates_view(docs@);
    let mut r: usize = 0;
    for i in 0..docs.len()
        invariant
            dv == candidates_view(docs@),
            r == docs_containing(dv.take(i as int), t@),
    {
        proof {
            assert(dv.take(i + 1).drop_last() =~= dv.take(i as int));
            lemma_docs_containing_bound(dv.take(i as int), t@);
        }
        assert(dv[i as int].1 == string_views(docs@[i as int].1@));
        if term_frequency(&docs[i].1, t) > 0 {
            r = r + 1;
        }
    }
    assert(dv.take(docs@.len() as int) =~= dv);
    r
}

/// The first (up to) three of the query tokens `q[..k]` that occur in `d`,
/// in query order.
pub open spec fn matched_upto(q: Seq<Seq<char>>, d: Seq<Seq<char>>, k: int) -> Seq<Seq<char>>
    decreases k,
{
    if k <= 0 || k > q.len() {
        Seq::empty()
    } else {
        let m = matched_upto(q, d, k - 1);
        if count_in(d, q[k - 1]) > 0 && m.len() < 3 {
            m.push(q[k - 1])
        } else {
            m
        }
    }
}

/// The query tokens that occur in a document's tokens, the first three of
/// them in query order: what its highlights are cut around.
pub fn matched_terms(q: &Vec<String>, doc_tokens: &Vec<String>) -> (r: Vec<String>)
    ensures
        string_views(r@) == matched_upto(string_views(q@), string_views(doc_tokens@), q@.len() as int),
{
    let ghost qv = string_views(q@);
    let ghost dv = string_views(doc_tokens@);
    let mut r: Vec<String> = Vec::new();
    for i in 0..q.len()
        invariant
            qv == string_views(q@),
            dv == string_views(doc_tokens@),
            string_views(r@) == matched_upto(qv, dv, i as int),
    {
        let ghost before = string_views(r@);
        assert(qv[i as int] == q@[i as int]@);
        if term_frequency(doc_tokens, q[i].as_str()) > 0 && r.len() < 3 {
            let st = chars_to_string(&str_to_chars(q[i].as_str()));
            r.push(st);
            assert(string_views(r@) =~= before.push(qv[i as int]));
        }
    }
    r
}

} // verus!
