//! The agent: a conversation with the model in which the model may search, read pages and name
//! addresses.
//!
//! The agent itself does nothing outside. It says what to do next, and is told what came of it.

use vstd::prelude::*;
use crate::json::{
    as_list, as_text, empty_object, fields, get, items_in, json_of, json_text, list, literal,
    member, number, object, put, render, text_in, trees, Json,
};
use crate::nim::{
    calls, msgs, out_calls, read_text, sent_back, text_under, Msg, MsgView,
    NimReply, NimReplyView, OutCall, ToolCall, ToolCallView, DEFAULT_MODEL,
};
use crate::prompts::{prompt_of, sys_prompt};
use crate::text::{
    clip, clipped, digits, join, joined, lowered, same, texts, trim, trimmed, words, words_of, Part,
};

verus! {

/// How often the model is asked at most.
pub const MAX_TURNS: usize = 6;

/// How many findings are kept at most.
pub const MAX_EVIDENCE: usize = 10;

/// What is added to the model's task: what this server cannot do.
pub const SERVER_NOTE: &'static str = "\nWEB SÜRÜM NOTU: harvest aracı YOK (sunucuda gizli tarayıcı çalışmaz), fetch_page ile yetin. open_tab/open_tabs yerine önemli URL'leri yanıtında KANIT LİNKLERİ olarak listele.";

/// What the model is told when it searches for the same thing again.
pub const SEARCHED_BEFORE: &'static str = "bu sorguyu zaten aradın. TEKRAR ARAMA YAPMA; fetch_page ile adayları oku.";

/// What the model is told when a page could not be had.
pub const NO_PAGE: &'static str = "sayfa çekilemedi";

/// What the model is told when it names addresses.
pub const TABS_NOTE: &'static str = "web sürümde sekmeler yeni pencerede açılır; bu URL'leri yanıtındaki KANIT LİNKLERİ'nde listele.";

/// What the model is told when it calls anything else.
pub const NO_SUCH_TOOL: &'static str = "web sürümde bu araç kapalı (harvest yok); fetch_page kullan.";

/// What the model is told when it searches on and on without reading.
pub const READ_NOW: &'static str = "Yeterince adayın var. Yeni web_search YAPMA; en ilgili 2-3 sonucu fetch_page ile oku, sonra toparla.";

/// A ranked search result.
#[derive(Debug, Clone)]
pub struct Hit {
    pub title: String,
    pub url: String,
    pub snippet: String,
    pub source: String,
    /// The network's score, as it is shown.
    pub neural: serde_json::Value,
}

/// A page that was read.
#[derive(Debug, Clone)]
pub struct PageData {
    pub title: String,
    pub text: String,
    /// Its links: their texts and their addresses.
    pub links: Vec<(String, String)>,
}

/// What the agent wants done.
pub enum Action {
    /// Send the messages to the model.
    Ask,
    /// Search for this.
    Search(String),
    /// Read the page at this address.
    Fetch(String),
    /// Nothing more: this is the answer.
    Finish(serde_json::Value),
}

pub struct HitView {
    pub title: Seq<char>,
    pub url: Seq<char>,
    pub snippet: Seq<char>,
    pub source: Seq<char>,
    pub neural: Json,
}

pub struct PageView {
    pub title: Seq<char>,
    pub text: Seq<char>,
    pub links: Seq<(Seq<char>, Seq<char>)>,
}

pub enum ActionView {
    Ask,
    Search(Seq<char>),
    Fetch(Seq<char>),
    Finish(Json),
}

impl View for Hit {
    type V = HitView;

    open spec fn view(&self) -> HitView {
        HitView {
            title: self.title@,
            url: self.url@,
            snippet: self.snippet@,
            source: self.source@,
            neural: json_of(self.neural),
        }
    }
}

impl View for PageData {
    type V = PageView;

    open spec fn view(&self) -> PageView {
        PageView {
            title: self.title@,
            text: self.text@,
            links: Seq::new(self.links@.len(), |i: int| (self.links@[i].0@, self.links@[i].1@)),
        }
    }
}

impl View for Action {
    type V = ActionView;

    open spec fn view(&self) -> ActionView {
        match self {
            Action::Ask => ActionView::Ask,
            Action::Search(q) => ActionView::Search(q@),
            Action::Fetch(u) => ActionView::Fetch(u@),
            Action::Finish(v) => ActionView::Finish(json_of(*v)),
        }
    }
}

/// The hits of a list.
pub open spec fn hits(v: Seq<Hit>) -> Seq<HitView> {
    Seq::new(v.len(), |i: int| v[i]@)
}

/// A conversation.
pub struct AgentView {
    pub mode: Seq<char>,
    pub messages: Seq<MsgView>,
    /// What was found, in lines.
    pub evidence: Seq<Seq<char>>,
    /// The tools that were called, with the start of their arguments.
    pub steps: Seq<(Seq<char>, Seq<char>)>,
    /// What was searched for.
    pub seen: Seq<Seq<char>>,
    /// Whether a page was read.
    pub fetched: bool,
    /// How often the model was asked.
    pub turns: nat,
    /// The calls of the model's last reply that have no answer yet.
    pub calls: Seq<ToolCallView>,
}

/// A message without tool calls.
pub open spec fn said(role: Seq<char>, content: Seq<char>) -> MsgView {
    MsgView { role, content, tool_calls: None, tool_call_id: None }
}

/// The message that answers a call.
pub open spec fn answer_to(id: Seq<char>, content: Seq<char>) -> MsgView {
    MsgView { role: "tool"@, content, tool_calls: None, tool_call_id: Some(id) }
}

/// The message in which the model asks for calls.
pub open spec fn asked_for(reply: NimReplyView) -> MsgView {
    MsgView {
        role: "assistant"@,
        content: reply.content,
        tool_calls: Some(Seq::new(reply.tool_calls.len(), |i: int| sent_back(reply.tool_calls[i]))),
        tool_call_id: None,
    }
}

/// The last twelve messages of a conversation, each cut to 2000 characters; tool calls in them are
/// dropped.
pub open spec fn remembered(history: Seq<MsgView>) -> Seq<MsgView> {
    let from = if history.len() > 12 {
        history.len() - 12
    } else {
        0
    };
    Seq::new(
        (history.len() - from) as nat,
        |i: int| said(history[from + i].role, clipped(history[from + i].content, 2000)),
    )
}

/// The start of a conversation: the task, what was said before, and the question.
pub open spec fn opening(
    mode: Seq<char>,
    message: Seq<char>,
    history: Seq<MsgView>,
) -> Seq<MsgView> {
    seq![said("system"@, prompt_of(mode) + SERVER_NOTE@)] + remembered(history) + seq![
        said("user"@, clipped(message, 2000)),
    ]
}

/// The conversation when the model is first asked.
pub open spec fn started(
    mode: Seq<char>,
    message: Seq<char>,
    history: Seq<MsgView>,
) -> AgentView {
    AgentView {
        mode,
        messages: opening(mode, message, history),
        evidence: Seq::empty(),
        steps: Seq::empty(),
        seen: Seq::empty(),
        fetched: false,
        turns: 1,
        calls: Seq::empty(),
    }
}

/// The findings with some more: those beyond the tenth are dropped.
pub open spec fn noted(evidence: Seq<Seq<char>>, lines: Seq<Seq<char>>) -> Seq<Seq<char>> {
    let all = evidence + lines;
    if all.len() <= MAX_EVIDENCE {
        all
    } else {
        all.take(MAX_EVIDENCE as int)
    }
}

/// The first `n` items of a list, or all of them.
pub open spec fn at_most<A>(s: Seq<A>, n: int) -> Seq<A> {
    if s.len() <= n {
        s
    } else {
        s.take(n)
    }
}

/// The finding that a search result is.
pub open spec fn hit_line(h: HitView) -> Seq<char> {
    "• "@ + clipped(h.title, 90) + " ("@ + h.url + ")"@
}

/// The findings that search results are: the first five of them.
pub open spec fn hit_lines(found: Seq<HitView>) -> Seq<Seq<char>> {
    Seq::new(at_most(found, 5).len(), |i: int| hit_line(found[i]))
}

/// The finding that a page is.
pub open spec fn page_line(p: PageView) -> Seq<char> {
    "• SAYFA "@ + clipped(p.title, 80) + ": "@ + clipped(p.text, 300)
}

/// The finding that a named address is.
pub open spec fn tab_line(url: Seq<char>) -> Seq<char> {
    "• SEKME(adaya eklendi): "@ + url
}

/// A search result as the model sees it.
pub open spec fn hit_doc(h: HitView) -> Json {
    Json::Object(
        empty_object().insert("title"@, Json::Text(h.title)).insert("url"@, Json::Text(h.url)).insert(
            "snippet"@,
            Json::Text(clipped(h.snippet, 220)),
        ).insert("source"@, Json::Text(h.source)).insert("neural"@, h.neural),
    )
}

/// Search results as the model sees them: the first twelve, and how many these are.
pub open spec fn results_doc(found: Seq<HitView>) -> Json {
    let top = at_most(found, 12);
    Json::Object(
        empty_object().insert(
            "results"@,
            Json::List(Seq::new(top.len(), |i: int| hit_doc(found[i]))),
        ).insert("count"@, Json::Number(digits(top.len()))),
    )
}

/// A link as the model sees it.
pub open spec fn link_doc(link: (Seq<char>, Seq<char>)) -> Json {
    Json::Object(
        empty_object().insert("anchor"@, Json::Text(clipped(link.0, 120))).insert(
            "url"@,
            Json::Text(link.1),
        ),
    )
}

/// A page as the model sees it: the start of its text, and its first fourteen links.
pub open spec fn page_doc(p: PageView) -> Json {
    Json::Object(
        empty_object().insert("title"@, Json::Text(clipped(p.title, 200))).insert(
            "text"@,
            Json::Text(clipped(p.text, 2500)),
        ).insert(
            "links"@,
            Json::List(Seq::new(at_most(p.links, 14).len(), |i: int| link_doc(p.links[i]))),
        ),
    )
}

/// An error as the model sees it.
pub open spec fn error_doc(what: Seq<char>) -> Json {
    Json::Object(empty_object().insert("error"@, Json::Text(what)))
}

/// Texts as a document.
pub open spec fn text_docs(s: Seq<Seq<char>>) -> Seq<Json> {
    Seq::new(s.len(), |i: int| Json::Text(s[i]))
}

/// Named addresses as the model sees them.
pub open spec fn tabs_doc(urls: Seq<Seq<char>>) -> Json {
    Json::Object(
        empty_object().insert("opened"@, Json::List(text_docs(urls))).insert(
            "note"@,
            Json::Text(TABS_NOTE@),
        ),
    )
}

/// The texts among some documents.
pub open spec fn texts_among(items: Seq<Json>) -> Seq<Seq<char>>
    decreases items.len(),
{
    if items.len() == 0 {
        Seq::empty()
    } else {
        match text_in(items.last()) {
            Some(s) => texts_among(items.drop_last()).push(s),
            None => texts_among(items.drop_last()),
        }
    }
}

/// The addresses that a call names: the first five texts of the list under `urls`; where there is
/// no such list, the text under `url`.
pub open spec fn named_urls(args: Json) -> Seq<Seq<char>> {
    let urls = match member(args, "urls"@) {
        Some(v) => items_in(v),
        None => None,
    };
    match urls {
        Some(items) => at_most(texts_among(items), 5),
        None => match member(args, "url"@) {
            Some(v) => match text_in(v) {
                Some(s) => seq![s],
                None => Seq::empty(),
            },
            None => Seq::empty(),
        },
    }
}

/// What a query is remembered by: its words in lower case, with one blank between them.
pub open spec fn gist(query: Seq<char>) -> Seq<char> {
    joined(words(lowered(query), Part::Visible), " "@)
}

/// A step of the conversation as a document.
pub open spec fn step_doc(step: (Seq<char>, Seq<char>)) -> Json {
    Json::Object(
        empty_object().insert("tool"@, Json::Text(step.0)).insert("args"@, Json::Text(step.1)),
    )
}

/// The answer of a conversation.
pub open spec fn answer_doc(s: AgentView, answer: Seq<char>) -> Json {
    Json::Object(
        empty_object().insert("mode"@, Json::Text(s.mode)).insert(
            "model"@,
            Json::Text(DEFAULT_MODEL@),
        ).insert("answer"@, Json::Text(answer)).insert(
            "steps"@,
            Json::List(Seq::new(s.steps.len(), |i: int| step_doc(s.steps[i]))),
        ).insert("evidence"@, Json::List(text_docs(s.evidence))),
    )
}

/// What is answered when the model may not be asked any more.
pub open spec fn out_of_turns(s: AgentView) -> Seq<char> {
    if s.evidence.len() == 0 {
        "Adım bütçesi doldu, bulgu yok."@
    } else {
        "Adım bütçesi doldu. Ham bulgular:\n"@ + joined(s.evidence, "\n"@)
    }
}

/// The conversation after the first open call was answered with this document. Who has searched
/// four times without reading a page is told to read.
pub open spec fn answered(s: AgentView, doc: Json) -> AgentView {
    let told = s.messages.push(answer_to(s.calls[0].id, json_text(doc)));
    AgentView {
        messages: if s.seen.len() >= 4 && !s.fetched {
            told.push(said("user"@, READ_NOW@))
        } else {
            told
        },
        calls: s.calls.skip(1),
        ..s
    }
}

/// The conversation after the first open call was entered among the steps.
pub open spec fn stepped(s: AgentView) -> AgentView {
    AgentView {
        steps: s.steps.push((s.calls[0].name, clipped(json_text(s.calls[0].args), 120))),
        ..s
    }
}

/// Whether the first open call is one of this tool.
pub open spec fn awaits(s: AgentView, tool: Seq<char>) -> bool {
    s.calls.len() > 0 && s.calls[0].name == tool
}

/// How the conversation goes on: open calls are taken in turn until one needs something done;
/// when there is none left the model is asked again, if it may be.
pub open spec fn proceed(s: AgentView) -> (AgentView, ActionView)
    decreases s.calls.len(),
{
    if s.calls.len() == 0 {
        if s.turns < MAX_TURNS {
            (AgentView { turns: s.turns + 1, ..s }, ActionView::Ask)
        } else {
            (s, ActionView::Finish(answer_doc(s, out_of_turns(s))))
        }
    } else {
        let call = s.calls[0];
        let t = stepped(s);
        if call.name == "web_search"@ {
            let query = text_under(Some(call.args), "query"@, ""@);
            if t.seen.contains(gist(query)) {
                proceed(answered(t, error_doc(SEARCHED_BEFORE@)))
            } else {
                (AgentView { seen: t.seen.push(gist(query)), ..t }, ActionView::Search(query))
            }
        } else if call.name == "fetch_page"@ {
            (
                AgentView { fetched: true, ..t },
                ActionView::Fetch(text_under(Some(call.args), "url"@, ""@)),
            )
        } else if call.name == "open_tab"@ || call.name == "open_tabs"@ {
            let urls = named_urls(call.args);
            let lines = Seq::new(urls.len(), |i: int| tab_line(urls[i]));
            let u = AgentView { evidence: noted(t.evidence, lines), ..t };
            proceed(answered(u, tabs_doc(urls)))
        } else {
            proceed(answered(t, error_doc(NO_SUCH_TOOL@)))
        }
    }
}

/// How the conversation goes on after a search.
pub open spec fn after_search(s: AgentView, found: Seq<HitView>) -> (AgentView, ActionView) {
    let t = AgentView { evidence: noted(s.evidence, hit_lines(found)), ..s };
    proceed(answered(t, results_doc(found)))
}

/// How the conversation goes on after a page was, or was not, read.
pub open spec fn after_page(s: AgentView, page: Option<PageView>) -> (AgentView, ActionView) {
    match page {
        Some(p) => {
            let t = AgentView { evidence: noted(s.evidence, seq![page_line(p)]), ..s };
            proceed(answered(t, page_doc(p)))
        },
        None => proceed(answered(s, error_doc(NO_PAGE@))),
    }
}

/// What is answered when the model calls no more tools.
pub open spec fn closing(s: AgentView, content: Seq<char>) -> Seq<char> {
    if trimmed(content).len() == 0 && s.evidence.len() > 0 {
        "Özet çıkarılamadı. Ham bulgular:\n"@ + joined(s.evidence, "\n"@)
    } else {
        content
    }
}

/// How the conversation goes on after a reply of the model.
pub open spec fn after_reply(s: AgentView, reply: NimReplyView) -> (AgentView, ActionView) {
    if reply.tool_calls.len() == 0 {
        (s, ActionView::Finish(answer_doc(s, closing(s, reply.content))))
    } else {
        proceed(
            AgentView {
                messages: s.messages.push(asked_for(reply)),
                calls: reply.tool_calls,
                ..s
            },
        )
    }
}

/// How the conversation ends when the model cannot be had.
pub open spec fn after_failure(s: AgentView, error: Seq<char>) -> (AgentView, ActionView) {
    if s.evidence.len() == 0 {
        (s, ActionView::Finish(answer_doc(s, "Model hatası ("@ + error + ")."@)))
    } else {
        (s, ActionView::Finish(answer_doc(s, out_of_turns(s))))
    }
}

/// A conversation with the model.
pub struct Agent {
    mode: String,
    messages: Vec<Msg>,
    evidence: Vec<String>,
    steps: Vec<(String, String)>,
    seen: Vec<String>,
    fetched: bool,
    turns: usize,
    asked: Vec<ToolCall>,
    /// How many of the calls in `asked` have their answer.
    done: usize,
}

/// The tool calls of a list of steps.
pub open spec fn steps_of(v: Seq<(String, String)>) -> Seq<(Seq<char>, Seq<char>)> {
    Seq::new(v.len(), |i: int| (v[i].0@, v[i].1@))
}

impl View for Agent {
    type V = AgentView;

    closed spec fn view(&self) -> AgentView {
        AgentView {
            mode: self.mode@,
            messages: msgs(self.messages@),
            evidence: texts(self.evidence@),
            steps: steps_of(self.steps@),
            seen: texts(self.seen@),
            fetched: self.fetched,
            turns: self.turns as nat,
            calls: calls(self.asked@).skip(self.done as int),
        }
    }
}

/// What holds of every conversation: there are at most ten findings, the model was asked at least
/// once and not more often than it may be, and nothing was searched for twice.
pub open spec fn is_sound(s: AgentView) -> bool {
    &&& s.evidence.len() <= MAX_EVIDENCE
    &&& 1 <= s.turns <= MAX_TURNS
    &&& s.seen.no_duplicates()
}

/// A message without tool calls.
fn plain(role: &str, content: String) -> (r: Msg)
    ensures
        r@ == said(role@, content@),
{
    Msg { role: role.to_string(), content, tool_calls: None, tool_call_id: None }
}

/// The start of a conversation.
fn open_with(mode: &str, message: &str, history: &Vec<Msg>) -> (r: Vec<Msg>)
    ensures
        msgs(r@) == opening(mode@, message@, msgs(history@)),
{
    let mut messages: Vec<Msg> = Vec::new();
    messages.push(plain("system", sys_prompt(mode).concat(SERVER_NOTE)));
    let from: usize = if history.len() > 12 {
        history.len() - 12
    } else {
        0
    };
    let ghost all = msgs(history@);
    let ghost first = messages@[0]@;
    let mut i: usize = from;
    while i < history.len()
        invariant
            from <= i <= history.len(),
            all == msgs(history@),
            from == if all.len() > 12 { all.len() - 12 } else { 0 },
            messages@.len() == 1 + i - from,
            messages@[0]@ == first,
            forall|j: int|
                0 <= j < i - from ==> (#[trigger] messages@[1 + j])@ == said(
                    all[from + j].role,
                    clipped(all[from + j].content, 2000),
                ),
        decreases history.len() - i,
    {
        let ghost before = messages@;
        messages.push(plain(history[i].role.as_str(), clip(history[i].content.as_str(), 2000)));
        proof {
            assert forall|j: int| 0 <= j < i + 1 - from implies (#[trigger] messages@[1 + j])@ == said(
                all[from + j].role,
                clipped(all[from + j].content, 2000),
            ) by {
                if j < i - from {
                    assert(messages@[1 + j] == before[1 + j]);
                }
            }
        }
        i = i + 1;
    }
    messages.push(plain("user", clip(message, 2000)));
    proof {
        let r = msgs(messages@);
        let wanted = opening(mode@, message@, all);
        assert(r.len() == wanted.len());
        assert forall|k: int| 0 <= k < r.len() implies r[k] == wanted[k] by {
            if 0 < k < r.len() - 1 {
                assert(messages@[1 + (k - 1)]@ == remembered(all)[k - 1]);
            }
        }
        assert(r =~= wanted);
    }
    messages
}

/// The texts of a list as a document.
fn text_list(v: &Vec<String>) -> (r: serde_json::Value)
    ensures
        json_of(r) == Json::List(text_docs(texts(v@))),
{
    let mut docs: Vec<serde_json::Value> = Vec::new();
    let mut i: usize = 0;
    while i < v.len()
        invariant
            i <= v@.len(),
            docs@.len() == i,
            forall|j: int| 0 <= j < i ==> json_of(#[trigger] docs@[j]) == Json::Text(v@[j]@),
        decreases v@.len() - i,
    {
        docs.push(literal(v[i].as_str()));
        i = i + 1;
    }
    proof {
        assert(trees(docs@) =~= text_docs(texts(v@)));
    }
    list(docs)
}

fn error_value(what: &str) -> (r: serde_json::Value)
    ensures
        json_of(r) == error_doc(what@),
{
    let mut o = fields();
    put(&mut o, "error", literal(what));
    object(o)
}

fn hit_value(h: &Hit) -> (r: serde_json::Value)
    ensures
        json_of(r) == hit_doc(h@),
{
    let mut o = fields();
    put(&mut o, "title", literal(h.title.as_str()));
    put(&mut o, "url", literal(h.url.as_str()));
    put(&mut o, "snippet", literal(clip(h.snippet.as_str(), 220).as_str()));
    put(&mut o, "source", literal(h.source.as_str()));
    put(&mut o, "neural", h.neural.clone());
    object(o)
}

fn results_value(found: &Vec<Hit>) -> (r: serde_json::Value)
    ensures
        json_of(r) == results_doc(hits(found@)),
{
    let n: usize = if found.len() <= 12 {
        found.len()
    } else {
        12
    };
    let mut docs: Vec<serde_json::Value> = Vec::new();
    let mut i: usize = 0;
    while i < n
        invariant
            i <= n <= found@.len(),
            docs@.len() == i,
            forall|j: int| 0 <= j < i ==> json_of(#[trigger] docs@[j]) == hit_doc(found@[j]@),
        decreases n - i,
    {
        docs.push(hit_value(&found[i]));
        i = i + 1;
    }
    proof {
        let h = hits(found@);
        assert(at_most(h, 12).len() == n);
        assert(trees(docs@) =~= Seq::new(at_most(h, 12).len(), |i: int| hit_doc(h[i])));
    }
    let mut o = fields();
    put(&mut o, "results", list(docs));
    put(&mut o, "count", number(n as u64));
    object(o)
}

fn page_value(p: &PageData) -> (r: serde_json::Value)
    ensures
        json_of(r) == page_doc(p@),
{
    let n: usize = if p.links.len() <= 14 {
        p.links.len()
    } else {
        14
    };
    let mut docs: Vec<serde_json::Value> = Vec::new();
    let mut i: usize = 0;
    while i < n
        invariant
            i <= n <= p.links@.len(),
            docs@.len() == i,
            forall|j: int| 0 <= j < i ==> json_of(#[trigger] docs@[j]) == link_doc(p@.links[j]),
        decreases n - i,
    {
        let mut link = fields();
        put(&mut link, "anchor", literal(clip(p.links[i].0.as_str(), 120).as_str()));
        put(&mut link, "url", literal(p.links[i].1.as_str()));
        docs.push(object(link));
        i = i + 1;
    }
    proof {
        let l = p@.links;
        assert(at_most(l, 14).len() == n);
        assert(trees(docs@) =~= Seq::new(at_most(l, 14).len(), |i: int| link_doc(l[i])));
    }
    let mut o = fields();
    put(&mut o, "title", literal(clip(p.title.as_str(), 200).as_str()));
    put(&mut o, "text", literal(clip(p.text.as_str(), 2500).as_str()));
    put(&mut o, "links", list(docs));
    object(o)
}

fn tabs_value(urls: &Vec<String>) -> (r: serde_json::Value)
    ensures
        json_of(r) == tabs_doc(texts(urls@)),
{
    let mut o = fields();
    put(&mut o, "opened", text_list(urls));
    put(&mut o, "note", literal(TABS_NOTE));
    object(o)
}

proof fn lemma_texts_among(items: Seq<Json>, i: int)
    requires
        0 <= i < items.len(),
    ensures
        texts_among(items.take(i + 1)) == match text_in(items[i]) {
            Some(s) => texts_among(items.take(i)).push(s),
            None => texts_among(items.take(i)),
        },
{
    assert(items.take(i + 1).drop_last() =~= items.take(i));
}

/// The addresses that a call names.
pub fn urls_in(args: &serde_json::Value) -> (r: Vec<String>)
    ensures
        texts(r@) == named_urls(json_of(*args)),
{
    let mut urls: Vec<String> = Vec::new();
    let listed = match get(args, "urls") {
        Some(v) => as_list(v),
        None => None,
    };
    match listed {
        Some(items) => {
            let ghost all = trees(items@);
            let mut i: usize = 0;
            proof {
                assert(texts_among(all.take(0)) =~= Seq::empty());
                assert(texts(urls@) =~= Seq::empty());
            }
            while i < items.len()
                invariant
                    i <= items@.len(),
                    all == trees(items@),
                    urls@.len() <= 5,
                    texts(urls@) == at_most(texts_among(all.take(i as int)), 5),
                decreases items@.len() - i,
            {
                let ghost before = urls@;
                let ghost found = texts_among(all.take(i as int));
                proof {
                    lemma_texts_among(all, i as int);
                }
                if let Some(s) = as_text(&items[i]) {
                    if urls.len() < 5 {
                        urls.push(s.to_string());
                        proof {
                            assert(texts(urls@) =~= texts(before).push(s@));
                            assert(found.push(s@).take(found.len() as int) =~= found);
                        }
                    } else {
                        proof {
                            assert(found.len() >= 5);
                            assert(found.push(s@).take(5) =~= found.take(5));
                            assert(found.take(5) =~= at_most(found, 5));
                        }
                    }
                }
                i = i + 1;
            }
            proof {
                assert(all.take(all.len() as int) =~= all);
            }
        },
        None => {
            if let Some(v) = get(args, "url") {
                if let Some(s) = as_text(v) {
                    urls.push(s.to_string());
                    proof {
                        assert(texts(urls@) =~= seq![s@]);
                    }
                    return urls;
                }
            }
            proof {
                assert(texts(urls@) =~= Seq::empty());
            }
        },
    }
    urls
}

/// What a query is remembered by.
pub fn gist_of(query: &str) -> (r: String)
    ensures
        r@ == gist(query@),
{
    join(&words_of(query.to_lowercase().as_str(), Part::Visible), " ")
}

/// Whether a text is in a list.
fn listed(v: &Vec<String>, s: &str) -> (r: bool)
    ensures
        r == texts(v@).contains(s@),
{
    let mut i: usize = 0;
    while i < v.len()
        invariant
            i <= v@.len(),
            forall|j: int| 0 <= j < i ==> #[trigger] texts(v@)[j] != s@,
        decreases v@.len() - i,
    {
        if same(v[i].as_str(), s) {
            proof {
                assert(texts(v@)[i as int] == s@);
            }
            return true;
        }
        i = i + 1;
    }
    false
}

/// Lines that are noted one after the other are noted together.
proof fn lemma_noted(evidence: Seq<Seq<char>>, lines: Seq<Seq<char>>, i: int)
    requires
        evidence.len() <= MAX_EVIDENCE,
        0 <= i < lines.len(),
    ensures
        noted(noted(evidence, lines.take(i)), seq![lines[i]]) == noted(evidence, lines.take(i + 1)),
{
    let before = noted(evidence, lines.take(i));
    assert(lines.take(i + 1) =~= lines.take(i) + seq![lines[i]]);
    assert(noted(before, seq![lines[i]]) =~= noted(evidence, lines.take(i + 1)));
}

impl Agent {
    /// Whether no more calls are done than were asked for.
    pub closed spec fn is_in_step(&self) -> bool {
        self.done <= self.asked.len()
    }

    /// What holds of this conversation.
    pub open spec fn wf(&self) -> bool {
        &&& self.is_in_step()
        &&& is_sound(self@)
    }

    /// A conversation that has just been begun, with the model to be asked.
    pub fn start(mode: &str, message: &str, history: &Vec<Msg>) -> (r: Agent)
        ensures
            r.wf(),
            r@ == started(mode@, message@, msgs(history@)),
    {
        let r = Agent {
            mode: mode.to_string(),
            messages: open_with(mode, message, history),
            evidence: Vec::new(),
            steps: Vec::new(),
            seen: Vec::new(),
            fetched: false,
            turns: 1,
            asked: Vec::new(),
            done: 0,
        };
        proof {
            assert(r@.evidence =~= Seq::empty());
            assert(r@.steps =~= Seq::empty());
            assert(r@.seen =~= Seq::empty());
            assert(r@.calls =~= Seq::empty());
        }
        r
    }

    /// The messages so far: what the model is sent when it is asked.
    pub fn messages(&self) -> (r: &Vec<Msg>)
        ensures
            msgs(r@) == self@.messages,
    {
        &self.messages
    }

    /// Notes a finding.
    fn note(&mut self, line: String)
        requires
            old(self).wf(),
        ensures
            final(self).wf(),
            final(self)@ == (AgentView {
                evidence: noted(old(self)@.evidence, seq![line@]),
                ..old(self)@
            }),
    {
        if self.evidence.len() < MAX_EVIDENCE {
            self.evidence.push(line);
            proof {
                assert(self@.evidence =~= old(self)@.evidence + seq![line@]);
            }
        } else {
            proof {
                assert(self@.evidence =~= noted(old(self)@.evidence, seq![line@]));
            }
        }
    }

    /// Answers the first open call.
    fn answer(&mut self, doc: serde_json::Value)
        requires
            old(self).wf(),
            old(self)@.calls.len() > 0,
        ensures
            final(self).wf(),
            final(self)@ == answered(old(self)@, json_of(doc)),
    {
        let ghost before = self.messages@;
        let message = Msg {
            role: "tool".to_string(),
            content: render(&doc),
            tool_calls: None,
            tool_call_id: Some(self.asked[self.done].id.clone()),
        };
        self.messages.push(message);
        proof {
            assert(message@ == answer_to(old(self)@.calls[0].id, json_text(json_of(doc))));
            assert(msgs(self.messages@) =~= msgs(before).push(message@));
        }
        if self.seen.len() >= 4 && !self.fetched {
            let ghost told = self.messages@;
            let nudge = plain("user", READ_NOW.to_string());
            self.messages.push(nudge);
            proof {
                assert(msgs(self.messages@) =~= msgs(told).push(nudge@));
            }
        }
        self.done = self.done + 1;
        proof {
            assert(self@.calls =~= old(self)@.calls.skip(1));
        }
    }

    /// Enters the first open call among the steps.
    fn step(&mut self)
        requires
            old(self).wf(),
            old(self)@.calls.len() > 0,
        ensures
            final(self).wf(),
            final(self)@ == stepped(old(self)@),
    {
        let ghost before = self.steps@;
        let name = self.asked[self.done].name.clone();
        let args = clip(render(&self.asked[self.done].args).as_str(), 120);
        let ghost entry = (name@, args@);
        self.steps.push((name, args));
        proof {
            assert(steps_of(self.steps@) =~= steps_of(before).push(entry));
        }
    }

    /// The answer of the conversation.
    fn conclude(&self, answer: &str) -> (r: serde_json::Value)
        ensures
            json_of(r) == answer_doc(self@, answer@),
    {
        let mut docs: Vec<serde_json::Value> = Vec::new();
        let mut i: usize = 0;
        while i < self.steps.len()
            invariant
                i <= self.steps@.len(),
                docs@.len() == i,
                forall|j: int| 0 <= j < i ==> json_of(#[trigger] docs@[j]) == step_doc(self@.steps[j]),
            decreases self.steps@.len() - i,
        {
            let mut step = fields();
            put(&mut step, "tool", literal(self.steps[i].0.as_str()));
            put(&mut step, "args", literal(self.steps[i].1.as_str()));
            docs.push(object(step));
            i = i + 1;
        }
        proof {
            let steps = self@.steps;
            assert(trees(docs@) =~= Seq::new(steps.len(), |i: int| step_doc(steps[i])));
        }
        let mut o = fields();
        put(&mut o, "mode", literal(self.mode.as_str()));
        put(&mut o, "model", literal(DEFAULT_MODEL));
        put(&mut o, "answer", literal(answer));
        put(&mut o, "steps", list(docs));
        put(&mut o, "evidence", text_list(&self.evidence));
        object(o)
    }

    /// The answer when the model may not be asked any more.
    fn give_up(&self) -> (r: Action)
        ensures
            r@ == ActionView::Finish(answer_doc(self@, out_of_turns(self@))),
    {
        if self.evidence.len() == 0 {
            Action::Finish(self.conclude("Adım bütçesi doldu, bulgu yok."))
        } else {
            let text = "Adım bütçesi doldu. Ham bulgular:\n".to_string().concat(
                join(&self.evidence, "\n").as_str(),
            );
            Action::Finish(self.conclude(text.as_str()))
        }
    }

    /// Notes the addresses that the first open call names, and answers it.
    fn name_urls(&mut self)
        requires
            old(self).wf(),
            old(self)@.calls.len() > 0,
        ensures
            final(self).wf(),
            ({
                let s = old(self)@;
                let urls = named_urls(s.calls[0].args);
                let lines = Seq::new(urls.len(), |i: int| tab_line(urls[i]));
                final(self)@ == answered(
                    AgentView { evidence: noted(s.evidence, lines), ..s },
                    tabs_doc(urls),
                )
            }),
    {
        let urls = urls_in(&self.asked[self.done].args);
        let ghost named = texts(urls@);
        let ghost lines = Seq::new(named.len(), |i: int| tab_line(named[i]));
        let ghost s = self@;
        let mut i: usize = 0;
        proof {
            assert(noted(s.evidence, lines.take(0)) =~= s.evidence);
        }
        while i < urls.len()
            invariant
                i <= urls@.len(),
                named == texts(urls@),
                lines == Seq::new(named.len(), |i: int| tab_line(named[i])),
                s.evidence.len() <= MAX_EVIDENCE,
                self.wf(),
                self@ == (AgentView { evidence: noted(s.evidence, lines.take(i as int)), ..s }),
            decreases urls@.len() - i,
        {
            proof {
                lemma_noted(s.evidence, lines, i as int);
            }
            self.note("• SEKME(adaya eklendi): ".to_string().concat(urls[i].as_str()));
            i = i + 1;
        }
        proof {
            assert(lines.take(lines.len() as int) =~= lines);
        }
        self.answer(tabs_value(&urls));
    }

    /// Goes on with the conversation: open calls are taken in turn until one needs something done;
    /// when there is none left the model is asked again, if it may be.
    fn go_on(&mut self) -> (r: Action)
        requires
            old(self).wf(),
        ensures
            final(self).wf(),
            (final(self)@, r@) == proceed(old(self)@),
    {
        while self.done < self.asked.len()
            invariant
                self.wf(),
                proceed(self@) == proceed(old(self)@),
            decreases self.asked@.len() - self.done,
        {
            let ghost s = self@;
            self.step();
            let ghost t = self@;
            let name = self.asked[self.done].name.clone();
            proof {
                assert(name@ == s.calls[0].name);
                assert(t.calls == s.calls);
                reveal_with_fuel(proceed, 2);
            }
            if same(name.as_str(), "web_search") {
                let query = read_text(Some(&self.asked[self.done].args), "query", "");
                let g = gist_of(query.as_str());
                if listed(&self.seen, g.as_str()) {
                    self.answer(error_value(SEARCHED_BEFORE));
                } else {
                    let ghost before = self.seen@;
                    let ghost key = g@;
                    self.seen.push(g);
                    proof {
                        assert(texts(self.seen@) =~= texts(before).push(key));
                        assert(self@.seen.no_duplicates());
                    }
                    return Action::Search(query);
                }
            } else if same(name.as_str(), "fetch_page") {
                self.fetched = true;
                return Action::Fetch(read_text(Some(&self.asked[self.done].args), "url", ""));
            } else if same(name.as_str(), "open_tab") || same(name.as_str(), "open_tabs") {
                self.name_urls();
            } else {
                self.answer(error_value(NO_SUCH_TOOL));
            }
        }
        proof {
            assert(self@.calls.len() == 0);
        }
        if self.turns < MAX_TURNS {
            self.turns = self.turns + 1;
            return Action::Ask;
        }
        self.give_up()
    }

    /// Goes on after the model replied.
    pub fn replied(&mut self, reply: NimReply) -> (r: Action)
        requires
            old(self).wf(),
        ensures
            final(self).wf(),
            (final(self)@, r@) == after_reply(old(self)@, reply@),
    {
        if reply.tool_calls.len() == 0 {
            if trim(reply.content.as_str()).as_str().is_empty() && self.evidence.len() > 0 {
                let text = "Özet çıkarılamadı. Ham bulgular:\n".to_string().concat(
                    join(&self.evidence, "\n").as_str(),
                );
                return Action::Finish(self.conclude(text.as_str()));
            }
            return Action::Finish(self.conclude(reply.content.as_str()));
        }
        let mut outs: Vec<OutCall> = Vec::new();
        let mut i: usize = 0;
        while i < reply.tool_calls.len()
            invariant
                i <= reply.tool_calls@.len(),
                outs@.len() == i,
                forall|j: int|
                    0 <= j < i ==> (#[trigger] outs@[j])@ == sent_back(reply.tool_calls@[j]@),
            decreases reply.tool_calls@.len() - i,
        {
            outs.push(reply.tool_calls[i].to_out());
            i = i + 1;
        }
        let ghost before = self.messages@;
        let ghost said = reply@;
        proof {
            let c = said.tool_calls;
            assert(out_calls(outs@) =~= Seq::new(c.len(), |i: int| sent_back(c[i])));
        }
        let message = Msg {
            role: "assistant".to_string(),
            content: reply.content,
            tool_calls: Some(outs),
            tool_call_id: None,
        };
        self.messages.push(message);
        self.asked = reply.tool_calls;
        self.done = 0;
        proof {
            assert(message@ == asked_for(said));
            assert(self@.messages =~= msgs(before).push(message@));
            assert(self@.calls =~= said.tool_calls);
        }
        self.go_on()
    }

    /// Ends after the model could not be had.
    pub fn failed(&mut self, error: &str) -> (r: Action)
        requires
            old(self).wf(),
        ensures
            final(self).wf(),
            (final(self)@, r@) == after_failure(old(self)@, error@),
    {
        if self.evidence.len() == 0 {
            let text = "Model hatası (".to_string().concat(error).concat(").");
            return Action::Finish(self.conclude(text.as_str()));
        }
        self.give_up()
    }

    /// Goes on after a search: the agent asked for one, and this was found.
    pub fn found(&mut self, results: &Vec<Hit>) -> (r: Action)
        requires
            old(self).wf(),
            awaits(old(self)@, "web_search"@),
        ensures
            final(self).wf(),
            (final(self)@, r@) == after_search(old(self)@, hits(results@)),
    {
        let ghost all = hits(results@);
        let ghost lines = hit_lines(all);
        let ghost s = self@;
        let n: usize = if results.len() <= 5 {
            results.len()
        } else {
            5
        };
        let mut i: usize = 0;
        proof {
            assert(at_most(all, 5).len() == n);
            assert(noted(s.evidence, lines.take(0)) =~= s.evidence);
        }
        while i < n
            invariant
                i <= n <= results@.len(),
                all == hits(results@),
                lines == hit_lines(all),
                lines.len() == n,
                s.evidence.len() <= MAX_EVIDENCE,
                self.wf(),
                self@ == (AgentView { evidence: noted(s.evidence, lines.take(i as int)), ..s }),
            decreases n - i,
        {
            proof {
                lemma_noted(s.evidence, lines, i as int);
            }
            let line = "• ".to_string().concat(clip(results[i].title.as_str(), 90).as_str()).concat(
                " (",
            ).concat(results[i].url.as_str()).concat(")");
            self.note(line);
            i = i + 1;
        }
        proof {
            assert(lines.take(lines.len() as int) =~= lines);
        }
        self.answer(results_value(results));
        self.go_on()
    }

    /// Goes on after a page was read, or could not be: the agent asked for it.
    pub fn read(&mut self, page: Option<&PageData>) -> (r: Action)
        requires
            old(self).wf(),
            awaits(old(self)@, "fetch_page"@),
        ensures
            final(self).wf(),
            (final(self)@, r@) == after_page(
                old(self)@,
                match page {
                    Some(p) => Some(p@),
                    None => None,
                },
            ),
    {
        match page {
            Some(p) => {
                let line = "• SAYFA ".to_string().concat(clip(p.title.as_str(), 80).as_str()).concat(
                    ": ",
                ).concat(clip(p.text.as_str(), 300).as_str());
                self.note(line);
                self.answer(page_value(p));
            },
            None => {
                self.answer(error_value(NO_PAGE));
            },
        }
        self.go_on()
    }
}

} // verus!
