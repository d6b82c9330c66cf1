//! What holds of every conversation, whatever it is told.

use vstd::prelude::*;
use crate::agent::{
    after_failure, after_page, after_reply, after_search, answer_to, answered, asked_for, awaits,
    error_doc, gist, hit_lines, is_sound, named_urls, noted, page_doc, page_line, proceed,
    results_doc, said, started, stepped, tab_line, tabs_doc, ActionView, AgentView, HitView,
    MAX_EVIDENCE, MAX_TURNS, NO_PAGE, NO_SUCH_TOOL, PageView, READ_NOW, SEARCHED_BEFORE,
};
use crate::json::{json_text, Json};
use crate::nim::{text_under, MsgView, NimReplyView, ToolCallView};

verus! {

/// What a conversation is told.
pub enum EventView {
    Replied(NimReplyView),
    Failed(Seq<char>),
    Found(Seq<HitView>),
    Read(Option<PageView>),
}

/// How the conversation goes on after what it was told.
pub open spec fn after(s: AgentView, event: EventView) -> (AgentView, ActionView) {
    match event {
        EventView::Replied(reply) => after_reply(s, reply),
        EventView::Failed(error) => after_failure(s, error),
        EventView::Found(found) => after_search(s, found),
        EventView::Read(page) => after_page(s, page),
    }
}

/// Whether this is what the conversation waits for: an open search waits for what was found, an
/// open page for what was read, and without an open call it is the model's turn.
pub open spec fn is_due(s: AgentView, event: EventView) -> bool {
    match event {
        EventView::Replied(_) | EventView::Failed(_) => s.calls.len() == 0,
        EventView::Found(_) => awaits(s, "web_search"@),
        EventView::Read(_) => awaits(s, "fetch_page"@),
    }
}

/// Whether `after` has all that was said, found, done and searched for in `before`, in the same
/// order, and maybe more at the end.
pub open spec fn extends(before: AgentView, after: AgentView) -> bool {
    &&& before.mode == after.mode
    &&& before.messages.is_prefix_of(after.messages)
    &&& before.evidence.is_prefix_of(after.evidence)
    &&& before.steps.is_prefix_of(after.steps)
    &&& before.seen.is_prefix_of(after.seen)
    &&& before.fetched ==> after.fetched
}

/// The calls that a list of messages answers, in order.
pub open spec fn answers_in(messages: Seq<MsgView>) -> Seq<Seq<char>>
    decreases messages.len(),
{
    if messages.len() == 0 {
        Seq::empty()
    } else {
        match messages.last().tool_call_id {
            Some(id) => answers_in(messages.drop_last()).push(id),
            None => answers_in(messages.drop_last()),
        }
    }
}

/// The names by which calls are answered.
pub open spec fn ids(calls: Seq<ToolCallView>) -> Seq<Seq<char>> {
    Seq::new(calls.len(), |i: int| calls[i].id)
}

/// The calls that were answered, and after them those that are still open.
pub open spec fn ledger(s: AgentView) -> Seq<Seq<char>> {
    answers_in(s.messages) + ids(s.calls)
}

proof fn lemma_said(messages: Seq<MsgView>, m: MsgView)
    ensures
        answers_in(messages.push(m)) == match m.tool_call_id {
            Some(id) => answers_in(messages).push(id),
            None => answers_in(messages),
        },
{
    assert(messages.push(m).drop_last() =~= messages);
}

proof fn lemma_answered(s: AgentView, doc: Json)
    requires
        s.calls.len() > 0,
    ensures
        extends(s, answered(s, doc)),
        ledger(answered(s, doc)) == ledger(s),
        is_sound(s) ==> is_sound(answered(s, doc)),
{
    let m = answer_to(s.calls[0].id, json_text(doc));
    let told = s.messages.push(m);
    lemma_said(s.messages, m);
    lemma_said(told, said("user"@, READ_NOW@));
    assert(answers_in(answered(s, doc).messages) == answers_in(s.messages).push(s.calls[0].id));
    assert(ledger(answered(s, doc)) =~= ledger(s));
}

proof fn lemma_noted_extends(evidence: Seq<Seq<char>>, lines: Seq<Seq<char>>)
    requires
        evidence.len() <= MAX_EVIDENCE,
    ensures
        evidence.is_prefix_of(noted(evidence, lines)),
        noted(evidence, lines).len() <= MAX_EVIDENCE,
{
    assert(noted(evidence, lines).take(evidence.len() as int) =~= evidence);
}

proof fn lemma_extends(a: AgentView, b: AgentView, c: AgentView)
    requires
        extends(a, b),
        extends(b, c),
    ensures
        extends(a, c),
{
    lemma_prefixes(a.messages, b.messages, c.messages);
    lemma_prefixes(a.evidence, b.evidence, c.evidence);
    lemma_prefixes(a.steps, b.steps, c.steps);
    lemma_prefixes(a.seen, b.seen, c.seen);
}

proof fn lemma_prefixes<A>(a: Seq<A>, b: Seq<A>, c: Seq<A>)
    requires
        a.is_prefix_of(b),
        b.is_prefix_of(c),
    ensures
        a.is_prefix_of(c),
{
    assert forall|i: int| 0 <= i < a.len() implies a[i] == #[trigger] c[i] by {
        assert(a[i] == b.take(a.len() as int)[i]);
        assert(b[i] == c.take(b.len() as int)[i]);
    }
    assert(a =~= c.take(a.len() as int));
}

/// Going on keeps a conversation sound, forgets nothing and answers every call.
pub proof fn lemma_proceed(s: AgentView)
    requires
        is_sound(s),
    ensures
        is_sound(proceed(s).0),
        extends(s, proceed(s).0),
        ledger(proceed(s).0) == ledger(s),
        match proceed(s).1 {
            ActionView::Ask => proceed(s).0.calls.len() == 0 && proceed(s).0.turns == s.turns + 1,
            ActionView::Search(q) => awaits(proceed(s).0, "web_search"@)
                && proceed(s).0.calls.len() <= s.calls.len() && proceed(s).0.turns == s.turns,
            ActionView::Fetch(_) => awaits(proceed(s).0, "fetch_page"@)
                && proceed(s).0.calls.len() <= s.calls.len() && proceed(s).0.turns == s.turns,
            ActionView::Finish(_) => proceed(s).0.calls.len() == 0 && proceed(s).0.turns == s.turns,
        },
        match proceed(s).1 {
            ActionView::Search(q) => !s.seen.contains(gist(q)) && proceed(s).0.seen == s.seen.push(
                gist(q),
            ),
            _ => proceed(s).0.seen == s.seen,
        },
    decreases s.calls.len(),
{
    if s.calls.len() > 0 {
        let t = stepped(s);
        assert(extends(s, t));
        assert(ledger(t) =~= ledger(s));
        let call = s.calls[0];
        if call.name == "web_search"@ {
            let query = text_under(Some(call.args), "query"@, ""@);
            if t.seen.contains(gist(query)) {
                let u = answered(t, error_doc(SEARCHED_BEFORE@));
                lemma_answered(t, error_doc(SEARCHED_BEFORE@));
                lemma_extends(s, t, u);
                lemma_proceed(u);
                lemma_extends(s, u, proceed(s).0);
            } else {
                let u = AgentView { seen: t.seen.push(gist(query)), ..t };
                assert(proceed(s).0 == u);
                assert(ledger(u) =~= ledger(s));
            }
        } else if call.name == "fetch_page"@ {
            let u = AgentView { fetched: true, ..t };
            assert(proceed(s).0 == u);
            assert(ledger(u) =~= ledger(s));
        } else if call.name == "open_tab"@ || call.name == "open_tabs"@ {
            let urls = named_urls(call.args);
            let lines = Seq::new(urls.len(), |i: int| tab_line(urls[i]));
            let u = AgentView { evidence: noted(t.evidence, lines), ..t };
            lemma_noted_extends(t.evidence, lines);
            assert(ledger(u) =~= ledger(s));
            let v = answered(u, tabs_doc(urls));
            lemma_answered(u, tabs_doc(urls));
            lemma_extends(s, t, u);
            lemma_extends(s, u, v);
            lemma_proceed(v);
            lemma_extends(s, v, proceed(s).0);
        } else {
            let u = answered(t, error_doc(NO_SUCH_TOOL@));
            lemma_answered(t, error_doc(NO_SUCH_TOOL@));
            lemma_extends(s, t, u);
            lemma_proceed(u);
            lemma_extends(s, u, proceed(s).0);
        }
    } else if s.turns < MAX_TURNS {
        assert(ledger(proceed(s).0) =~= ledger(s));
    }
}

/// The conversation from which it goes on to the next action.
spec fn prepared(s: AgentView, event: EventView) -> Option<AgentView> {
    match event {
        EventView::Replied(reply) => if reply.tool_calls.len() == 0 {
            None
        } else {
            Some(
                AgentView {
                    messages: s.messages.push(asked_for(reply)),
                    calls: reply.tool_calls,
                    ..s
                },
            )
        },
        EventView::Failed(_) => None,
        EventView::Found(found) => Some(
            answered(
                AgentView { evidence: noted(s.evidence, hit_lines(found)), ..s },
                results_doc(found),
            ),
        ),
        EventView::Read(page) => Some(
            match page {
                Some(p) => answered(
                    AgentView { evidence: noted(s.evidence, seq![page_line(p)]), ..s },
                    page_doc(p),
                ),
                None => answered(s, error_doc(NO_PAGE@)),
            },
        ),
    }
}

proof fn lemma_prepared(s: AgentView, event: EventView)
    requires
        is_sound(s),
        is_due(s, event),
    ensures
        match prepared(s, event) {
            Some(t) => {
                &&& after(s, event) == proceed(t)
                &&& is_sound(t)
                &&& extends(s, t)
                &&& t.turns == s.turns
                &&& t.seen == s.seen
                &&& match event {
                    EventView::Replied(reply) => t.calls == reply.tool_calls && ledger(t)
                        == answers_in(s.messages) + ids(reply.tool_calls),
                    _ => t.calls.len() == s.calls.len() - 1 && ledger(t) == ledger(s),
                }
            },
            None => after(s, event).0 == s && after(s, event).1 is Finish,
        },
{
    match event {
        EventView::Replied(reply) => {
            lemma_said(s.messages, asked_for(reply));
        },
        EventView::Failed(_) => {},
        EventView::Found(found) => {
            let lines = hit_lines(found);
            let t = AgentView { evidence: noted(s.evidence, lines), ..s };
            lemma_noted_extends(s.evidence, lines);
            lemma_answered(t, results_doc(found));
            lemma_extends(s, t, answered(t, results_doc(found)));
        },
        EventView::Read(page) => {
            match page {
                Some(p) => {
                    let lines = seq![page_line(p)];
                    let t = AgentView { evidence: noted(s.evidence, lines), ..s };
                    lemma_noted_extends(s.evidence, lines);
                    lemma_answered(t, page_doc(p));
                    lemma_extends(s, t, answered(t, page_doc(p)));
                },
                None => {
                    lemma_answered(s, error_doc(NO_PAGE@));
                },
            }
        },
    }
}

/// A conversation is sound from its start and stays so: never more than ten findings, never more
/// than six questions to the model.
pub proof fn law_conversations_are_sound(
    mode: Seq<char>,
    message: Seq<char>,
    history: Seq<MsgView>,
    s: AgentView,
    event: EventView,
)
    ensures
        is_sound(started(mode, message, history)),
        is_sound(s) && is_due(s, event) ==> is_sound(after(s, event).0),
{
    if is_sound(s) && is_due(s, event) {
        lemma_prepared(s, event);
        if let Some(t) = prepared(s, event) {
            lemma_proceed(t);
        }
    }
}

/// Nothing that was said, found or done is forgotten.
pub proof fn law_nothing_is_forgotten(s: AgentView, event: EventView)
    requires
        is_sound(s),
        is_due(s, event),
    ensures
        extends(s, after(s, event).0),
{
    lemma_prepared(s, event);
    if let Some(t) = prepared(s, event) {
        lemma_proceed(t);
        lemma_extends(s, t, after(s, event).0);
    }
}

/// Every call of the model is answered exactly once, by its own name and in its turn: the answers
/// given and the calls still open are together always the same, and when the model is asked again
/// no call is open.
pub proof fn law_every_call_is_answered(s: AgentView, event: EventView)
    requires
        is_sound(s),
        is_due(s, event),
    ensures
        match event {
            EventView::Replied(reply) => ledger(after(s, event).0) == answers_in(s.messages) + ids(
                reply.tool_calls,
            ),
            _ => ledger(after(s, event).0) == ledger(s),
        },
        after(s, event).1 is Ask ==> after(s, event).0.calls.len() == 0,
{
    lemma_prepared(s, event);
    match prepared(s, event) {
        Some(t) => {
            lemma_proceed(t);
        },
        None => {
            if let EventView::Replied(reply) = event {
                assert(ids(reply.tool_calls) =~= ids(s.calls));
            }
        },
    }
}

/// Nothing is searched for twice, however it is spelt: a search is asked for only where no query
/// with the same words came before, and is then remembered.
pub proof fn law_no_search_is_repeated(s: AgentView, event: EventView)
    requires
        is_sound(s),
        is_due(s, event),
    ensures
        match after(s, event).1 {
            ActionView::Search(q) => !s.seen.contains(gist(q)) && after(s, event).0.seen
                == s.seen.push(gist(q)),
            _ => after(s, event).0.seen == s.seen,
        },
{
    lemma_prepared(s, event);
    if let Some(t) = prepared(s, event) {
        lemma_proceed(t);
    }
}

/// A conversation ends. Whatever it is told, it is over, or it asks the model once more, which it
/// does six times in all, or it waits for the answer to an open call of the tool that it names, of
/// which there are fewer each time.
pub proof fn law_conversations_end(s: AgentView, event: EventView)
    requires
        is_sound(s),
        is_due(s, event),
    ensures
        match after(s, event).1 {
            ActionView::Finish(_) => true,
            ActionView::Ask => after(s, event).0.turns == s.turns + 1 <= MAX_TURNS && after(
                s,
                event,
            ).0.calls.len() == 0,
            ActionView::Search(_) | ActionView::Fetch(_) => {
                let open = match event {
                    EventView::Replied(reply) => reply.tool_calls.len() as int,
                    _ => s.calls.len() - 1,
                };
                &&& after(s, event).0.turns == s.turns
                &&& after(s, event).0.calls.len() <= open
                &&& after(s, event).1 is Search ==> awaits(after(s, event).0, "web_search"@)
                &&& after(s, event).1 is Fetch ==> awaits(after(s, event).0, "fetch_page"@)
            },
        },
{
    lemma_prepared(s, event);
    if let Some(t) = prepared(s, event) {
        lemma_proceed(t);
    }
}

} // verus!
