//! What the agent is for: what the model is told, what is kept of what it finds, and what the user
//! is answered.

use vstd::prelude::*;
use crate::agent::{
    after_failure, after_page, after_reply, after_search, answer_doc, answered, asked_for, awaits,
    closing, error_doc, gist, hit_doc, hit_line, hit_lines, hits, is_sound, link_doc, named_urls,
    noted, opening, out_of_turns, page_doc, page_line, proceed, remembered, results_doc, started,
    stepped, steps_of, tab_line, tabs_doc, text_docs, texts_among, Action, ActionView, AgentView,
    Hit, HitView, PageData, PageView,
};
use crate::conversations::lemma_proceed;
use crate::json::{json_of, json_text, Json};
use crate::nim::{sent_back, text_under, MsgView, NimReplyView, DEFAULT_MODEL};
use crate::prompts::{OSINT_PROMPT, RESEARCH_PROMPT};
use crate::text::{clipped, digits, joined, lowered, trimmed, white, words, Part};
use crate::text_laws::law_clipped;

verus! {

/// Hits, pages and actions stand for all that they hold, and lists for all their items.
pub proof fn law_values(
    h: Hit,
    p: PageData,
    q: String,
    v: serde_json::Value,
    l: Seq<Hit>,
    s: Seq<(String, String)>,
)
    ensures
        h@.title == h.title@ && h@.url == h.url@ && h@.snippet == h.snippet@ && h@.source
            == h.source@ && h@.neural == json_of(h.neural),
        p@.title == p.title@ && p@.text == p.text@ && p@.links.len() == p.links@.len(),
        forall|i: int|
            0 <= i < p.links@.len() ==> #[trigger] p@.links[i] == (p.links@[i].0@, p.links@[i].1@),
        Action::Ask@ == ActionView::Ask,
        Action::Search(q)@ == ActionView::Search(q@),
        Action::Fetch(q)@ == ActionView::Fetch(q@),
        Action::Finish(v)@ == ActionView::Finish(json_of(v)),
        hits(l).len() == l.len(),
        forall|i: int| 0 <= i < l.len() ==> #[trigger] hits(l)[i] == l[i]@,
        steps_of(s).len() == s.len(),
        forall|i: int| 0 <= i < s.len() ==> #[trigger] steps_of(s)[i] == (s[i].0@, s[i].1@),
{
}

/// The start of a text, as far as it may go.
pub open spec fn start(s: Seq<char>, n: int) -> Seq<char> {
    s.take(
        if s.len() < n {
            s.len() as int
        } else {
            n
        },
    )
}

proof fn lemma_start(s: Seq<char>, n: int)
    requires
        0 <= n,
    ensures
        clipped(s, n) == start(s, n),
{
    law_clipped(s, n);
    assert(clipped(s, n) =~= start(s, n));
}

/// A conversation opens with the task, then the last twelve messages of the history in their
/// order, then the question; contents are cut at two thousand characters, and no tool call is taken
/// over from before.
pub proof fn law_opening(mode: Seq<char>, message: Seq<char>, history: Seq<MsgView>)
    ensures
        ({
            let o = opening(mode, message, history);
            let n: int = if history.len() < 12 {
                history.len() as int
            } else {
                12
            };
            &&& o.len() == n + 2
            &&& o[0].role == "system"@
            &&& mode == "osint"@ ==> o[0].content == OSINT_PROMPT@ + "\nWEB SÜRÜM NOTU: harvest aracı YOK (sunucuda gizli tarayıcı çalışmaz), fetch_page ile yetin. open_tab/open_tabs yerine önemli URL'leri yanıtında KANIT LİNKLERİ olarak listele."@
            &&& mode != "osint"@ ==> o[0].content == RESEARCH_PROMPT@ + "\nWEB SÜRÜM NOTU: harvest aracı YOK (sunucuda gizli tarayıcı çalışmaz), fetch_page ile yetin. open_tab/open_tabs yerine önemli URL'leri yanıtında KANIT LİNKLERİ olarak listele."@
            &&& o[n + 1].role == "user"@
            &&& o[n + 1].content == start(message, 2000)
            &&& forall|i: int|
                0 <= i < n ==> (#[trigger] o[1 + i]).role == history[history.len() - n + i].role
                    && o[1 + i].content == start(history[history.len() - n + i].content, 2000)
            &&& forall|i: int|
                0 <= i < o.len() ==> (#[trigger] o[i]).tool_calls is None && o[i].tool_call_id is None
        }),
{
    let o = opening(mode, message, history);
    let n: int = if history.len() < 12 {
        history.len() as int
    } else {
        12
    };
    let r = remembered(history);
    assert(r.len() == n);
    lemma_start(message, 2000);
    assert forall|i: int| 0 <= i < n implies (#[trigger] o[1 + i]).role == history[history.len() - n
        + i].role && o[1 + i].content == start(history[history.len() - n + i].content, 2000) by {
        assert(o[1 + i] == r[i]);
        lemma_start(history[history.len() - n + i].content, 2000);
    }
    assert forall|i: int| 0 <= i < o.len() implies (#[trigger] o[i]).tool_calls is None
        && o[i].tool_call_id is None by {
        if 0 < i < n + 1 {
            assert(o[i] == r[i - 1]);
        }
    }
}

/// A conversation starts with its opening, with nothing found, done or searched for, and with the
/// model asked once.
pub proof fn law_started(mode: Seq<char>, message: Seq<char>, history: Seq<MsgView>)
    ensures
        started(mode, message, history).mode == mode,
        started(mode, message, history).messages == opening(mode, message, history),
        started(mode, message, history).evidence.len() == 0,
        started(mode, message, history).steps.len() == 0,
        started(mode, message, history).seen.len() == 0,
        started(mode, message, history).calls.len() == 0,
        !started(mode, message, history).fetched,
        started(mode, message, history).turns == 1,
{
}

/// New findings come behind the old ones, in their order, and there is room for ten.
pub proof fn law_noted(evidence: Seq<Seq<char>>, lines: Seq<Seq<char>>)
    ensures
        noted(evidence, lines).len() == if evidence.len() + lines.len() < 10 {
            evidence.len() + lines.len()
        } else {
            10
        },
        forall|i: int|
            0 <= i < evidence.len() && i < 10 ==> #[trigger] noted(evidence, lines)[i] == evidence[i],
        forall|i: int|
            evidence.len() <= i < evidence.len() + lines.len() && i < 10 ==> #[trigger] noted(
                evidence,
                lines,
            )[i] == lines[i - evidence.len()],
{
}

/// What a finding says: of a result its title, cut at ninety characters, and its whole address; of
/// a page its title and the start of its text; of a named address the address.
pub proof fn law_findings(h: HitView, p: PageView, url: Seq<char>, found: Seq<HitView>)
    ensures
        hit_line(h) == "• "@ + start(h.title, 90) + " ("@ + h.url + ")"@,
        page_line(p) == "• SAYFA "@ + start(p.title, 80) + ": "@ + start(p.text, 300),
        tab_line(url) == "• SEKME(adaya eklendi): "@ + url,
        hit_lines(found).len() == if found.len() < 5 {
            found.len() as int
        } else {
            5
        },
        forall|i: int|
            0 <= i < hit_lines(found).len() ==> #[trigger] hit_lines(found)[i] == hit_line(found[i]),
{
    lemma_start(h.title, 90);
    lemma_start(p.title, 80);
    lemma_start(p.text, 300);
}

/// What the model sees of a result: title, address, source and score as they are, and the start of
/// the snippet.
pub proof fn law_hit_doc(h: HitView)
    ensures
        hit_doc(h) matches Json::Object(o) && {
            &&& o.contains_key("title"@) && o["title"@] == Json::Text(h.title)
            &&& o.contains_key("url"@) && o["url"@] == Json::Text(h.url)
            &&& o.contains_key("snippet"@) && o["snippet"@] == Json::Text(start(h.snippet, 220))
            &&& o.contains_key("source"@) && o["source"@] == Json::Text(h.source)
            &&& o.contains_key("neural"@) && o["neural"@] == h.neural
        },
{
    lemma_start(h.snippet, 220);
    reveal_strlit("title");
    reveal_strlit("url");
    reveal_strlit("snippet");
    reveal_strlit("source");
    reveal_strlit("neural");
    assert("title"@.len() == 5 && "url"@.len() == 3 && "snippet"@.len() == 7 && "source"@.len() == 6
        && "neural"@.len() == 6);
    assert("source"@[0] == 's' && "neural"@[0] == 'n');
}

/// What the model sees of a search: the first twelve results, in their order, and how many these
/// are.
pub proof fn law_results_doc(found: Seq<HitView>)
    ensures
        results_doc(found) matches Json::Object(o) && {
            let n: int = if found.len() < 12 {
                found.len() as int
            } else {
                12
            };
            &&& o.contains_key("results"@)
            &&& o["results"@] matches Json::List(l) && l.len() == n && forall|i: int|
                0 <= i < n ==> #[trigger] l[i] == hit_doc(found[i])
            &&& o.contains_key("count"@) && o["count"@] == Json::Number(digits(n as nat))
        },
{
    reveal_strlit("results");
    reveal_strlit("count");
    assert("results"@.len() == 7 && "count"@.len() == 5);
}

/// What the model sees of a page: the start of its title and of its text, and its first fourteen
/// links with their addresses.
pub proof fn law_page_doc(p: PageView)
    ensures
        page_doc(p) matches Json::Object(o) && {
            let n: int = if p.links.len() < 14 {
                p.links.len() as int
            } else {
                14
            };
            &&& o.contains_key("title"@) && o["title"@] == Json::Text(start(p.title, 200))
            &&& o.contains_key("text"@) && o["text"@] == Json::Text(start(p.text, 2500))
            &&& o.contains_key("links"@)
            &&& o["links"@] matches Json::List(l) && l.len() == n && forall|i: int|
                0 <= i < n ==> #[trigger] l[i] == link_doc(p.links[i])
        },
{
    lemma_start(p.title, 200);
    lemma_start(p.text, 2500);
    reveal_strlit("title");
    reveal_strlit("text");
    reveal_strlit("links");
    assert("title"@.len() == 5 && "text"@.len() == 4 && "links"@.len() == 5);
    assert("title"@[0] == 't' && "links"@[0] == 'l');
}

/// What the model sees of a link, of an error, of named addresses.
pub proof fn law_small_docs(link: (Seq<char>, Seq<char>), what: Seq<char>, urls: Seq<Seq<char>>)
    ensures
        link_doc(link) matches Json::Object(o) && o.contains_key("anchor"@) && o["anchor"@]
            == Json::Text(start(link.0, 120)) && o.contains_key("url"@) && o["url"@] == Json::Text(
            link.1,
        ),
        error_doc(what) matches Json::Object(o) && o.contains_key("error"@) && o["error"@]
            == Json::Text(what),
        text_docs(urls).len() == urls.len(),
        forall|i: int| 0 <= i < urls.len() ==> #[trigger] text_docs(urls)[i] == Json::Text(urls[i]),
        tabs_doc(urls) matches Json::Object(o) && o.contains_key("opened"@) && o["opened"@]
            == Json::List(text_docs(urls)) && o.contains_key("note"@) && o["note"@] == Json::Text(
            "web sürümde sekmeler yeni pencerede açılır; bu URL'leri yanıtındaki KANIT LİNKLERİ'nde listele."@,
        ),
{
    lemma_start(link.0, 120);
    reveal_strlit("anchor");
    reveal_strlit("url");
    reveal_strlit("opened");
    reveal_strlit("note");
    assert("anchor"@.len() == 6 && "url"@.len() == 3 && "opened"@.len() == 6 && "note"@.len() == 4);
}

/// What the user is answered: the mode, the model, the answer as it is, every step with its tool
/// and its arguments, and every finding.
pub proof fn law_answers_are_whole(s: AgentView, answer: Seq<char>)
    ensures
        answer_doc(s, answer) matches Json::Object(o) && {
            &&& o.contains_key("mode"@) && o["mode"@] == Json::Text(s.mode)
            &&& o.contains_key("model"@) && o["model"@] == Json::Text(DEFAULT_MODEL@)
            &&& o.contains_key("answer"@) && o["answer"@] == Json::Text(answer)
            &&& o.contains_key("steps"@)
            &&& o["steps"@] matches Json::List(l) && l.len() == s.steps.len() && forall|i: int|
                0 <= i < l.len() ==> (#[trigger] l[i] matches Json::Object(d) && d.contains_key(
                    "tool"@,
                ) && d["tool"@] == Json::Text(s.steps[i].0) && d.contains_key("args"@) && d["args"@]
                    == Json::Text(s.steps[i].1))
            &&& o.contains_key("evidence"@)
            &&& o["evidence"@] matches Json::List(l) && l.len() == s.evidence.len() && forall|
                i: int,
            |
                0 <= i < l.len() ==> #[trigger] l[i] == Json::Text(s.evidence[i])
        },
{
    reveal_strlit("mode");
    reveal_strlit("model");
    reveal_strlit("answer");
    reveal_strlit("steps");
    reveal_strlit("evidence");
    assert("mode"@.len() == 4 && "model"@.len() == 5 && "answer"@.len() == 6 && "steps"@.len() == 5
        && "evidence"@.len() == 8);
    assert("model"@[0] == 'm' && "steps"@[0] == 's');
    reveal_strlit("tool");
    reveal_strlit("args");
    assert("tool"@[0] == 't' && "args"@[0] == 'a');
}

proof fn lemma_blank(content: Seq<char>)
    ensures
        trimmed(content).len() == 0 <==> forall|i: int|
            0 <= i < content.len() ==> white(#[trigger] content[i]),
    decreases content.len(),
{
    if content.len() > 0 {
        if white(content[0]) {
            let rest = content.skip(1);
            lemma_blank(rest);
            if forall|i: int| 0 <= i < rest.len() ==> white(#[trigger] rest[i]) {
                assert forall|i: int| 0 <= i < content.len() implies white(#[trigger] content[i]) by {
                    if i > 0 {
                        assert(white(rest[i - 1]));
                    }
                }
            } else {
                let i = choose|i: int| 0 <= i < rest.len() && !white(#[trigger] rest[i]);
                assert(!white(content[i + 1]));
            }
        } else if white(content.last()) {
            lemma_blank(content.drop_last());
            assert(!white(content.drop_last()[0]));
        }
    }
}

/// A reply without calls ends the conversation, and is the answer: wherever it has a character that
/// is not white space the user gets it unchanged, whatever was found. Only for a blank reply the
/// findings stand in, where there are any.
pub proof fn law_the_model_has_the_last_word(s: AgentView, reply: NimReplyView)
    requires
        reply.tool_calls.len() == 0,
    ensures
        after_reply(s, reply).0 == s,
        after_reply(s, reply).1 matches ActionView::Finish(d) && d matches Json::Object(o) && {
            let blank = forall|i: int|
                0 <= i < reply.content.len() ==> white(#[trigger] reply.content[i]);
            &&& o.contains_key("answer"@)
            &&& !blank ==> o["answer"@] == Json::Text(reply.content)
            &&& s.evidence.len() == 0 ==> o["answer"@] == Json::Text(reply.content)
            &&& blank && s.evidence.len() > 0 ==> o["answer"@] == Json::Text(
                "Özet çıkarılamadı. Ham bulgular:\n"@ + joined(s.evidence, "\n"@),
            )
            &&& d == answer_doc(s, closing(s, reply.content))
        },
{
    lemma_blank(reply.content);
    law_answers_are_whole(s, closing(s, reply.content));
}

/// Where the model cannot be had the conversation ends: with the error where nothing was found, and
/// with the findings where there are some.
pub proof fn law_failures_are_answered(s: AgentView, error: Seq<char>)
    ensures
        after_failure(s, error).0 == s,
        after_failure(s, error).1 matches ActionView::Finish(d) && d matches Json::Object(o) && {
            &&& o.contains_key("answer"@)
            &&& s.evidence.len() == 0 ==> o["answer"@] == Json::Text(
                "Model hatası ("@ + error + ")."@,
            )
            &&& s.evidence.len() > 0 ==> o["answer"@] == Json::Text(
                "Adım bütçesi doldu. Ham bulgular:\n"@ + joined(s.evidence, "\n"@),
            )
        },
        after_failure(s, error).1 matches ActionView::Finish(d) && exists|t: Seq<char>|
            d == #[trigger] answer_doc(s, t),
{
    law_answers_are_whole(s, "Model hatası ("@ + error + ")."@);
    law_answers_are_whole(s, out_of_turns(s));
}

/// With no call open the model is asked again, up to six times in all, and then the conversation
/// ends with what was found.
pub proof fn law_turns(s: AgentView)
    requires
        s.calls.len() == 0,
    ensures
        s.turns < 6 ==> proceed(s).1 == ActionView::Ask && proceed(s).0 == (AgentView {
            turns: s.turns + 1,
            ..s
        }),
        s.turns >= 6 ==> proceed(s).0 == s && (proceed(s).1 matches ActionView::Finish(d)
            && d matches Json::Object(o) && {
            &&& o.contains_key("answer"@)
            &&& s.evidence.len() == 0 ==> o["answer"@] == Json::Text(
                "Adım bütçesi doldu, bulgu yok."@,
            )
            &&& s.evidence.len() > 0 ==> o["answer"@] == Json::Text(
                "Adım bütçesi doldu. Ham bulgular:\n"@ + joined(s.evidence, "\n"@),
            )
            &&& d == answer_doc(s, out_of_turns(s))
        }),
{
    law_answers_are_whole(s, out_of_turns(s));
}

/// An answer to a call is told to the model under the name of that call, behind all that was said
/// before; who has searched four times without reading a page is told to read. The call is then no
/// longer open, and nothing else changes.
pub proof fn law_answered(s: AgentView, doc: Json)
    requires
        s.calls.len() > 0,
    ensures
        ({
            let t = answered(s, doc);
            let n = s.messages.len() as int;
            let nudged = s.seen.len() >= 4 && !s.fetched;
            &&& t.messages.len() == n + if nudged {
                2int
            } else {
                1
            }
            &&& forall|i: int| 0 <= i < n ==> #[trigger] t.messages[i] == s.messages[i]
            &&& t.messages[n].role == "tool"@
            &&& t.messages[n].content == json_text(doc)
            &&& t.messages[n].tool_call_id == Some(s.calls[0].id)
            &&& t.messages[n].tool_calls is None
            &&& nudged ==> t.messages[n + 1].role == "user"@ && t.messages[n + 1].content
                == "Yeterince adayın var. Yeni web_search YAPMA; en ilgili 2-3 sonucu fetch_page ile oku, sonra toparla."@ && t.messages[n + 1].tool_calls is None && t.messages[n
                + 1].tool_call_id is None
            &&& t.calls.len() == s.calls.len() - 1
            &&& forall|i: int| 0 <= i < t.calls.len() ==> #[trigger] t.calls[i] == s.calls[i + 1]
            &&& t.mode == s.mode
            &&& t.evidence == s.evidence
            &&& t.steps == s.steps
            &&& t.seen == s.seen
            &&& t.fetched == s.fetched
            &&& t.turns == s.turns
        }),
{
}

/// A call is entered among the steps with its tool and the start of its arguments, and nothing else
/// changes.
pub proof fn law_stepped(s: AgentView)
    requires
        s.calls.len() > 0,
    ensures
        ({
            let t = stepped(s);
            let n = s.steps.len() as int;
            &&& t.steps.len() == n + 1
            &&& forall|i: int| 0 <= i < n ==> #[trigger] t.steps[i] == s.steps[i]
            &&& t.steps[n].0 == s.calls[0].name
            &&& t.steps[n].1 == start(json_text(s.calls[0].args), 120)
            &&& t.mode == s.mode
            &&& t.messages == s.messages
            &&& t.evidence == s.evidence
            &&& t.seen == s.seen
            &&& t.fetched == s.fetched
            &&& t.turns == s.turns
            &&& t.calls == s.calls
        }),
{
    lemma_start(json_text(s.calls[0].args), 120);
}

/// What a query is remembered by: its words in lower case, white space between them no matter.
pub proof fn law_gist(query: Seq<char>)
    ensures
        gist(query) == joined(words(lowered(query), Part::Visible), seq![' ']),
{
    reveal_strlit(" ");
    assert(" "@ =~= seq![' ']);
}

/// A search is done for the whole query, unless one with the same words was done before, of which
/// the model is then told.
pub proof fn law_searches(s: AgentView, query: Seq<char>)
    requires
        s.calls.len() > 0,
        s.calls[0].name == "web_search"@,
        query == text_under(Some(s.calls[0].args), "query"@, ""@),
    ensures
        !s.seen.contains(gist(query)) ==> proceed(s).1 == ActionView::Search(query) && proceed(s).0
            == (AgentView { seen: s.seen.push(gist(query)), ..stepped(s) }),
        s.seen.contains(gist(query)) ==> proceed(s) == proceed(
            answered(stepped(s), error_doc("bu sorguyu zaten aradın. TEKRAR ARAMA YAPMA; fetch_page ile adayları oku."@)),
        ),
{
}

proof fn lemma_tool_names()
    ensures
        "web_search"@ != "fetch_page"@,
        "web_search"@ != "open_tab"@,
        "web_search"@ != "open_tabs"@,
        "fetch_page"@ != "open_tab"@,
        "fetch_page"@ != "open_tabs"@,
{
    reveal_strlit("web_search");
    reveal_strlit("fetch_page");
    reveal_strlit("open_tab");
    reveal_strlit("open_tabs");
    assert("web_search"@[0] == 'w' && "fetch_page"@[0] == 'f' && "open_tab"@[0] == 'o'
        && "open_tabs"@[0] == 'o');
}

/// A page is read at the whole address that was named, and it is kept that one was read.
pub proof fn law_pages(s: AgentView)
    requires
        s.calls.len() > 0,
        s.calls[0].name == "fetch_page"@,
    ensures
        proceed(s).1 == ActionView::Fetch(text_under(Some(s.calls[0].args), "url"@, ""@)),
        proceed(s).0 == (AgentView { fetched: true, ..stepped(s) }),
{
    lemma_tool_names();
}

/// Named addresses become findings, each of them, and the model is told so.
pub proof fn law_tabs(s: AgentView, lines: Seq<Seq<char>>)
    requires
        s.calls.len() > 0,
        s.calls[0].name == "open_tab"@ || s.calls[0].name == "open_tabs"@,
        lines.len() == named_urls(s.calls[0].args).len(),
        forall|i: int|
            0 <= i < lines.len() ==> #[trigger] lines[i] == tab_line(
                named_urls(s.calls[0].args)[i],
            ),
    ensures
        proceed(s) == proceed(
            answered(
                AgentView { evidence: noted(s.evidence, lines), ..stepped(s) },
                tabs_doc(named_urls(s.calls[0].args)),
            ),
        ),
{
    lemma_tool_names();
    let urls = named_urls(s.calls[0].args);
    assert(Seq::new(urls.len(), |i: int| tab_line(urls[i])) =~= lines);
}

/// Any other tool is refused.
pub proof fn law_other_tools(s: AgentView)
    requires
        s.calls.len() > 0,
        s.calls[0].name != "web_search"@,
        s.calls[0].name != "fetch_page"@,
        s.calls[0].name != "open_tab"@,
        s.calls[0].name != "open_tabs"@,
    ensures
        proceed(s) == proceed(answered(stepped(s), error_doc("web sürümde bu araç kapalı (harvest yok); fetch_page kullan."@))),
{
}

/// The texts among two lists of documents are those of the first and then those of the second.
pub proof fn law_texts_among(a: Seq<Json>, b: Seq<Json>, t: Seq<char>, j: Json)
    ensures
        texts_among(a + b) == texts_among(a) + texts_among(b),
        a.len() == 0 ==> texts_among(a).len() == 0,
        texts_among(seq![Json::Text(t)]) == seq![t],
        !(j is Text) ==> texts_among(seq![j]).len() == 0,
    decreases b.len(),
{
    reveal_with_fuel(texts_among, 2);
    assert(seq![Json::Text(t)].drop_last() =~= Seq::<Json>::empty());
    assert(seq![j].drop_last() =~= Seq::<Json>::empty());
    assert(texts_among(seq![Json::Text(t)]) =~= seq![t]);
    if b.len() == 0 {
        assert(a + b =~= a);
        assert(texts_among(a) + texts_among(b) =~= texts_among(a));
    } else {
        assert((a + b).drop_last() =~= a + b.drop_last());
        law_texts_among(a, b.drop_last(), t, j);
        assert(texts_among(a + b) =~= texts_among(a) + texts_among(b));
    }
}

/// The addresses that a call names: the first five texts of its list, or without a list the one
/// text.
pub proof fn law_named_urls(m: Map<Seq<char>, Json>, l: Seq<Json>)
    ensures
        m.contains_key("urls"@) && m["urls"@] == Json::List(l) ==> {
            let r = named_urls(Json::Object(m));
            &&& r.len() == if texts_among(l).len() < 5 {
                texts_among(l).len() as int
            } else {
                5
            }
            &&& forall|i: int| 0 <= i < r.len() ==> #[trigger] r[i] == texts_among(l)[i]
        },
        !(m.contains_key("urls"@) && m["urls"@] is List) && m.contains_key("url"@)
            && m["url"@] is Text ==> named_urls(Json::Object(m)) == seq![m["url"@]->Text_0],
        !(m.contains_key("urls"@) && m["urls"@] is List) && !(m.contains_key("url"@)
            && m["url"@] is Text) ==> named_urls(Json::Object(m)).len() == 0,
{
}

/// After a search the findings have the first results, and the model sees them as the answer to its
/// call.
pub proof fn law_after_search(s: AgentView, found: Seq<HitView>)
    ensures
        after_search(s, found) == proceed(
            answered(
                AgentView { evidence: noted(s.evidence, hit_lines(found)), ..s },
                results_doc(found),
            ),
        ),
{
}

/// After a page was read the findings have it, and the model sees it as the answer to its call;
/// where it could not be read, the model is told so.
pub proof fn law_after_page(s: AgentView, p: PageView)
    ensures
        after_page(s, Some(p)) == proceed(
            answered(
                AgentView { evidence: noted(s.evidence, seq![page_line(p)]), ..s },
                page_doc(p),
            ),
        ),
        after_page(s, None) == proceed(answered(s, error_doc("sayfa çekilemedi"@))),
{
}

/// A reply with calls is kept in the conversation with its whole content and with every call, and
/// the calls are then open in their order.
pub proof fn law_calls_are_taken_up(s: AgentView, reply: NimReplyView, t: AgentView)
    requires
        reply.tool_calls.len() > 0,
        t.messages.len() == s.messages.len() + 1,
        forall|i: int| 0 <= i < s.messages.len() ==> #[trigger] t.messages[i] == s.messages[i],
        t.messages.last().role == "assistant"@,
        t.messages.last().content == reply.content,
        t.messages.last().tool_call_id is None,
        t.messages.last().tool_calls matches Some(c) && c.len() == reply.tool_calls.len() && forall|
            i: int,
        |
            0 <= i < c.len() ==> #[trigger] c[i] == sent_back(reply.tool_calls[i]),
        t.calls == reply.tool_calls,
        t.mode == s.mode,
        t.evidence == s.evidence,
        t.steps == s.steps,
        t.seen == s.seen,
        t.fetched == s.fetched,
        t.turns == s.turns,
    ensures
        after_reply(s, reply) == proceed(t),
{
    let m = asked_for(reply);
    let c = t.messages.last().tool_calls->Some_0;
    assert(Seq::new(reply.tool_calls.len(), |i: int| sent_back(reply.tool_calls[i])) =~= c);
    assert(t.messages.last() == m);
    assert(t.messages =~= s.messages.push(m));
}

/// What was found reaches the model: right behind all that was said before it is told the results,
/// under the name of its call, and they are among the findings from then on.
pub proof fn law_results_reach_the_model(s: AgentView, found: Seq<HitView>)
    requires
        is_sound(s),
        awaits(s, "web_search"@),
    ensures
        ({
            let r = after_search(s, found).0;
            let n = s.messages.len() as int;
            &&& r.messages.len() > n
            &&& forall|i: int| 0 <= i < n ==> #[trigger] r.messages[i] == s.messages[i]
            &&& r.messages[n].role == "tool"@
            &&& r.messages[n].tool_call_id == Some(s.calls[0].id)
            &&& r.messages[n].content == json_text(results_doc(found))
            &&& forall|i: int|
                0 <= i < found.len() && i < 5 && s.evidence.len() + i < 10 ==> s.evidence.len() + i
                    < r.evidence.len() && r.evidence[s.evidence.len() + i] == hit_line(
                    #[trigger] found[i],
                )
        }),
{
    let t = AgentView { evidence: noted(s.evidence, hit_lines(found)), ..s };
    law_noted(s.evidence, hit_lines(found));
    let u = answered(t, results_doc(found));
    law_answered(t, results_doc(found));
    lemma_proceed(u);
    let r = after_search(s, found).0;
    lemma_prefix(u.messages, r.messages);
    lemma_prefix(u.evidence, r.evidence);
    assert forall|i: int|
        0 <= i < found.len() && i < 5 && s.evidence.len() + i < 10 implies s.evidence.len() + i
        < r.evidence.len() && r.evidence[s.evidence.len() + i] == hit_line(#[trigger] found[i]) by {
        assert(hit_lines(found)[i] == hit_line(found[i]));
        assert(t.evidence[s.evidence.len() + i] == hit_lines(found)[i]);
    }
}

/// What was read reaches the model: right behind all that was said before it is told the page,
/// under the name of its call, and the page is among the findings where there is room.
pub proof fn law_pages_reach_the_model(s: AgentView, p: PageView)
    requires
        is_sound(s),
        awaits(s, "fetch_page"@),
    ensures
        ({
            let r = after_page(s, Some(p)).0;
            let n = s.messages.len() as int;
            &&& r.messages.len() > n
            &&& forall|i: int| 0 <= i < n ==> #[trigger] r.messages[i] == s.messages[i]
            &&& r.messages[n].role == "tool"@
            &&& r.messages[n].tool_call_id == Some(s.calls[0].id)
            &&& r.messages[n].content == json_text(page_doc(p))
            &&& s.evidence.len() < 10 ==> s.evidence.len() < r.evidence.len()
                && r.evidence[s.evidence.len() as int] == page_line(p)
        }),
{
    let lines = seq![page_line(p)];
    let t = AgentView { evidence: noted(s.evidence, lines), ..s };
    law_noted(s.evidence, lines);
    let u = answered(t, page_doc(p));
    law_answered(t, page_doc(p));
    lemma_proceed(u);
    let r = after_page(s, Some(p)).0;
    lemma_prefix(u.messages, r.messages);
    lemma_prefix(u.evidence, r.evidence);
    if s.evidence.len() < 10 {
        assert(t.evidence[s.evidence.len() as int] == lines[0]);
    }
}

/// What the model says stays in the conversation: a reply with calls stands right behind all that
/// was said before, with its whole content and every call.
pub proof fn law_replies_are_kept(s: AgentView, reply: NimReplyView)
    requires
        is_sound(s),
        reply.tool_calls.len() > 0,
    ensures
        ({
            let r = after_reply(s, reply).0;
            let n = s.messages.len() as int;
            &&& r.messages.len() > n
            &&& forall|i: int| 0 <= i < n ==> #[trigger] r.messages[i] == s.messages[i]
            &&& r.messages[n].role == "assistant"@
            &&& r.messages[n].content == reply.content
            &&& r.messages[n].tool_calls matches Some(c) && c.len() == reply.tool_calls.len()
                && forall|i: int|
                0 <= i < c.len() ==> #[trigger] c[i] == sent_back(reply.tool_calls[i])
        }),
{
    let t = AgentView {
        messages: s.messages.push(asked_for(reply)),
        calls: reply.tool_calls,
        ..s
    };
    lemma_proceed(t);
    lemma_prefix(t.messages, after_reply(s, reply).0.messages);
}

proof fn lemma_prefix<A>(a: Seq<A>, b: Seq<A>)
    requires
        a.is_prefix_of(b),
    ensures
        a.len() <= b.len(),
        forall|i: int| 0 <= i < a.len() ==> #[trigger] a[i] == b[i],
        forall|i: int| 0 <= i < a.len() ==> a[i] == #[trigger] b[i],
{
    assert forall|i: int| 0 <= i < a.len() implies #[trigger] a[i] == b[i] by {
        assert(a[i] == b.take(a.len() as int)[i]);
    }
}

} // verus!
