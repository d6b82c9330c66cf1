//! What the exchange with the language model is for: nothing that was said is lost on the way to
//! the model, and nothing that it replies on the way back.

use vstd::prelude::*;
use crate::json::{element, items_in, json_of, json_parse, json_text, member, text_in, trees, Json};
use crate::nim::{
    call_in, calls, calls_in, final_of, msg_doc, msg_docs, msgs, out_call_doc, out_calls,
    power_of_two, record_of, reply_from, reply_in, reply_or_error, request_of, sent_back,
    text_shape, text_under, texts_shape, tool_of, tools_of, wait_of, Attempt, Msg, MsgView,
    NimReply, NimReplyView, OutCall, OutCallView, ToolCall, ToolCallView,
};
use crate::text::digits;

verus! {

/// What is got out of a document: the value under a key of an object, the item at a position of a
/// list, the text of a text; and nothing of any other document.
pub proof fn law_documents(
    m: Map<Seq<char>, Json>,
    l: Seq<Json>,
    s: Seq<char>,
    k: Seq<char>,
    i: int,
)
    ensures
        m.contains_key(k) ==> member(Json::Object(m), k) == Some(m[k]),
        !m.contains_key(k) ==> member(Json::Object(m), k) is None,
        member(Json::List(l), k) is None,
        member(Json::Text(s), k) is None,
        0 <= i < l.len() ==> element(Json::List(l), i) == Some(l[i]),
        i >= l.len() ==> element(Json::List(l), i) is None,
        element(Json::Object(m), i) is None,
        text_in(Json::Text(s)) == Some(s),
        text_in(Json::Object(m)) is None && text_in(Json::List(l)) is None && text_in(Json::Null)
            is None,
        items_in(Json::List(l)) == Some(l),
        items_in(Json::Object(m)) is None && items_in(Json::Text(s)) is None,
{
}

/// Lists stand for all their items: documents, calls, messages.
pub proof fn law_lists(
    v: Seq<serde_json::Value>,
    c: Seq<ToolCall>,
    o: Seq<OutCall>,
    m: Seq<Msg>,
)
    ensures
        trees(v).len() == v.len(),
        forall|i: int| 0 <= i < v.len() ==> #[trigger] trees(v)[i] == json_of(v[i]),
        calls(c).len() == c.len(),
        forall|i: int| 0 <= i < c.len() ==> #[trigger] calls(c)[i] == c[i]@,
        out_calls(o).len() == o.len(),
        forall|i: int| 0 <= i < o.len() ==> #[trigger] out_calls(o)[i] == o[i]@,
        msgs(m).len() == m.len(),
        forall|i: int| 0 <= i < m.len() ==> #[trigger] msgs(m)[i] == m[i]@,
{
}

/// Messages, calls and replies stand for all that they hold.
pub proof fn law_values(m: Msg, c: ToolCall, o: OutCall, r: NimReply)
    ensures
        m@.role == m.role@,
        m@.content == m.content@,
        m.tool_calls is None <==> m@.tool_calls is None,
        m.tool_calls matches Some(v) ==> m@.tool_calls == Some(out_calls(v@)),
        m.tool_call_id is None <==> m@.tool_call_id is None,
        m.tool_call_id matches Some(id) ==> m@.tool_call_id == Some(id@),
        c@.id == c.id@,
        c@.name == c.name@,
        c@.args == json_of(c.args),
        o@.id == o.id@,
        o@.kind == o.kind@,
        o@.name == o.function.name@,
        o@.arguments == o.function.arguments@,
        r@.content == r.content@,
        r@.tool_calls == calls(r.tool_calls@),
{
}

/// A call goes back to the model as it came, with its arguments as text.
pub proof fn law_sent_back(call: ToolCallView)
    ensures
        sent_back(call).id == call.id,
        sent_back(call).name == call.name,
        sent_back(call).arguments == json_text(call.args),
        sent_back(call).kind == "function"@,
{
}

/// A reply is the content of the first choice's message, whole and unchanged, however long it is,
/// and the calls that the message asks for. A message without a content that is a text has an
/// empty one.
pub proof fn law_replies_are_read_whole(
    doc: Map<Seq<char>, Json>,
    choices: Seq<Json>,
    choice: Map<Seq<char>, Json>,
    message: Map<Seq<char>, Json>,
)
    requires
        !doc.contains_key("error"@),
        doc.contains_key("choices"@) && doc["choices"@] == Json::List(choices),
        choices.len() > 0 && choices[0] == Json::Object(choice),
        choice.contains_key("message"@) && choice["message"@] == Json::Object(message),
    ensures
        reply_in(Json::Object(doc)) matches Ok(r) && {
            &&& message.contains_key("content"@) && message["content"@] is Text ==> r.content
                == message["content"@]->Text_0
            &&& !(message.contains_key("content"@) && message["content"@] is Text) ==> r.content.len()
                == 0
            &&& message.contains_key("tool_calls"@) && message["tool_calls"@] is List
                ==> r.tool_calls == calls_in(message["tool_calls"@]->List_0)
            &&& !(message.contains_key("tool_calls"@) && message["tool_calls"@] is List)
                ==> r.tool_calls.len() == 0
        },
{
    reveal_strlit("");
}

/// A document with an error is that error, one without a message is an error, and so is a text that
/// is no document; any other text is read as its document. A document or a message that is no
/// object has nothing in it.
pub proof fn law_reply_errors(doc: Map<Seq<char>, Json>, e: Seq<char>, d: Json)
    ensures
        reply_from(Ok(d)) == reply_in(d),
        !(d is Object) ==> reply_in(d) == Err::<NimReplyView, Seq<char>>(
            "nim: choices.message yok"@,
        ),
        !doc.contains_key("error"@) && doc.contains_key("choices"@) && doc["choices"@] is List
            && doc["choices"@]->List_0.len() > 0 && doc["choices"@]->List_0[0] is Object
            && doc["choices"@]->List_0[0]->Object_0.contains_key("message"@)
            && !(doc["choices"@]->List_0[0]->Object_0["message"@] is Object) ==> (reply_in(
            Json::Object(doc),
        ) matches Ok(r) && r.content.len() == 0 && r.tool_calls.len() == 0),
        doc.contains_key("error"@) ==> reply_in(Json::Object(doc)) == Err::<
            NimReplyView,
            Seq<char>,
        >("nim api: "@ + json_text(doc["error"@])),
        !doc.contains_key("error"@) && !(doc.contains_key("choices"@) && doc["choices"@] is List
            && doc["choices"@]->List_0.len() > 0 && doc["choices"@]->List_0[0] is Object
            && doc["choices"@]->List_0[0]->Object_0.contains_key("message"@)) ==> reply_in(Json::Object(doc)) == Err::<NimReplyView, Seq<char>>(
            "nim: choices.message yok"@,
        ),
        reply_from(Err(e)) == Err::<NimReplyView, Seq<char>>("nim json: "@ + e),
{
    reveal_strlit("");
}

/// The text under a key is that text, whole; where there is none, the other one stands in.
pub proof fn law_text_under(o: Map<Seq<char>, Json>, j: Json, key: Seq<char>, other: Seq<char>)
    ensures
        o.contains_key(key) && o[key] is Text ==> text_under(Some(Json::Object(o)), key, other)
            == o[key]->Text_0,
        !(o.contains_key(key) && o[key] is Text) ==> text_under(Some(Json::Object(o)), key, other)
            == other,
        !(j is Object) ==> text_under(Some(j), key, other) == other,
        text_under(None, key, other) == other,
{
}

/// A reply or an error is what it holds.
pub proof fn law_reply_or_error(r: NimReply, e: String)
    ensures
        reply_or_error(Ok(r)) == Ok::<NimReplyView, Seq<char>>(r@),
        reply_or_error(Err(e)) == Err::<NimReplyView, Seq<char>>(e@),
{
}

/// The calls of two lists of items are those of the first and then those of the second: none is
/// lost, none is added, and they keep their order.
pub proof fn law_calls_in(a: Seq<Json>, b: Seq<Json>)
    ensures
        calls_in(a + b) == calls_in(a) + calls_in(b),
        a.len() == 0 ==> calls_in(a).len() == 0,
    decreases b.len(),
{
    if b.len() == 0 {
        assert(a + b =~= a);
        assert(calls_in(a) + calls_in(b) =~= calls_in(a));
    } else {
        assert((a + b).drop_last() =~= a + b.drop_last());
        law_calls_in(a, b.drop_last());
        assert(calls_in(a + b) =~= calls_in(a) + calls_in(b));
    }
}

/// An item with a named function is one call of that name, with the item's id and with what its
/// arguments are read as; arguments that cannot be read are none.
pub proof fn law_a_call_is_read(item: Map<Seq<char>, Json>, f: Map<Seq<char>, Json>)
    requires
        item.contains_key("function"@) && item["function"@] == Json::Object(f),
        f.contains_key("name"@) && f["name"@] is Text && f["name"@]->Text_0.len() > 0,
    ensures
        calls_in(seq![Json::Object(item)]).len() == 1,
        ({
            let call = calls_in(seq![Json::Object(item)])[0];
            &&& call.name == f["name"@]->Text_0
            &&& item.contains_key("id"@) && item["id"@] is Text ==> call.id == item["id"@]->Text_0
            &&& !(item.contains_key("id"@) && item["id"@] is Text) ==> call.id.len() == 0
            &&& f.contains_key("arguments"@) && f["arguments"@] is Text ==> call.args == (
            match json_parse(f["arguments"@]->Text_0) {
                Ok(j) => j,
                Err(_) => Json::Object(Map::empty()),
            })
            &&& !(f.contains_key("arguments"@) && f["arguments"@] is Text) ==> call.args == (
            match json_parse("{}"@) {
                Ok(j) => j,
                Err(_) => Json::Object(Map::empty()),
            })
        }),
{
    reveal_strlit("");
    let items = seq![Json::Object(item)];
    assert(items.drop_last() =~= Seq::empty());
    reveal_with_fuel(calls_in, 2);
    assert(calls_in(items) =~= seq![call_in(Json::Object(item))]);
}

/// An item that names no function is no call.
pub proof fn law_no_call_without_a_name(item: Json)
    requires
        !(item is Object && item->Object_0.contains_key("function"@)
            && item->Object_0["function"@] is Object
            && item->Object_0["function"@]->Object_0.contains_key("name"@)
            && item->Object_0["function"@]->Object_0["name"@] is Text
            && item->Object_0["function"@]->Object_0["name"@]->Text_0.len() > 0),
    ensures
        calls_in(seq![item]).len() == 0,
{
    reveal_strlit("");
    let items = seq![item];
    assert(items.drop_last() =~= Seq::empty());
    reveal_with_fuel(calls_in, 2);
    assert(call_in(item).name.len() == 0);
}

proof fn lemma_message_keys()
    ensures
        "role"@ != "content"@,
        "role"@ != "tool_calls"@,
        "role"@ != "tool_call_id"@,
        "content"@ != "tool_calls"@,
        "content"@ != "tool_call_id"@,
        "tool_calls"@ != "tool_call_id"@,
{
    reveal_strlit("role");
    reveal_strlit("content");
    reveal_strlit("tool_calls");
    reveal_strlit("tool_call_id");
    assert("role"@.len() == 4 && "content"@.len() == 7 && "tool_calls"@.len() == 10
        && "tool_call_id"@.len() == 12);
}

/// A message is sent with its role and its content, with its calls and with the name of the call
/// that it answers; what it does not have is not sent.
pub proof fn law_messages_are_sent_whole(m: MsgView)
    ensures
        msg_doc(m) matches Json::Object(o) && {
            &&& o.contains_key("role"@) && o["role"@] == Json::Text(m.role)
            &&& o.contains_key("content"@) <==> m.content.len() > 0
            &&& m.content.len() > 0 ==> o["content"@] == Json::Text(m.content)
            &&& o.contains_key("tool_calls"@) <==> m.tool_calls is Some
            &&& m.tool_calls matches Some(c) ==> o["tool_calls"@] matches Json::List(l) && l.len()
                == c.len() && forall|i: int|
                0 <= i < c.len() ==> #[trigger] l[i] == out_call_doc(c[i])
            &&& o.contains_key("tool_call_id"@) <==> m.tool_call_id is Some
            &&& m.tool_call_id matches Some(id) ==> o["tool_call_id"@] == Json::Text(id)
        },
{
    lemma_message_keys();
}

/// A call is sent with its id, its kind, its name and its arguments.
pub proof fn law_calls_are_sent_whole(c: OutCallView)
    ensures
        out_call_doc(c) matches Json::Object(o) && {
            &&& o.contains_key("id"@) && o["id"@] == Json::Text(c.id)
            &&& o.contains_key("type"@) && o["type"@] == Json::Text(c.kind)
            &&& o.contains_key("function"@)
            &&& o["function"@] matches Json::Object(f) && {
                &&& f.contains_key("name"@) && f["name"@] == Json::Text(c.name)
                &&& f.contains_key("arguments"@) && f["arguments"@] == Json::Text(c.arguments)
            }
        },
{
    reveal_strlit("id");
    reveal_strlit("type");
    reveal_strlit("function");
    reveal_strlit("name");
    reveal_strlit("arguments");
    assert("id"@.len() == 2 && "type"@.len() == 4 && "function"@.len() == 8 && "name"@.len() == 4
        && "arguments"@.len() == 9);
}

proof fn lemma_request_keys()
    ensures
        "model"@ != "messages"@,
        "model"@ != "max_tokens"@,
        "model"@ != "temperature"@,
        "model"@ != "tools"@,
        "model"@ != "tool_choice"@,
        "messages"@ != "max_tokens"@,
        "messages"@ != "temperature"@,
        "messages"@ != "tools"@,
        "messages"@ != "tool_choice"@,
        "max_tokens"@ != "temperature"@,
        "max_tokens"@ != "tools"@,
        "max_tokens"@ != "tool_choice"@,
        "temperature"@ != "tools"@,
        "temperature"@ != "tool_choice"@,
        "tools"@ != "tool_choice"@,
{
    reveal_strlit("model");
    reveal_strlit("messages");
    reveal_strlit("max_tokens");
    reveal_strlit("temperature");
    reveal_strlit("tools");
    reveal_strlit("tool_choice");
    assert("model"@.len() == 5 && "messages"@.len() == 8 && "max_tokens"@.len() == 10
        && "temperature"@.len() == 11 && "tools"@.len() == 5 && "tool_choice"@.len() == 11);
    assert("model"@[0] == 'm' && "tools"@[0] == 't');
    assert("temperature"@[1] == 'e' && "tool_choice"@[1] == 'o');
}

/// A request carries every message of the conversation, each at its place, with the role and the
/// content that it has.
pub proof fn law_requests_carry_all_messages(
    model: Seq<char>,
    messages: Seq<MsgView>,
    tools: Json,
)
    ensures
        request_of(model, messages, tools) matches Json::Object(o) && {
            &&& o.contains_key("messages"@)
            &&& o["messages"@] matches Json::List(l) && {
                &&& l.len() == messages.len()
                &&& forall|i: int|
                    0 <= i < messages.len() ==> (#[trigger] l[i] matches Json::Object(d) && {
                        &&& d.contains_key("role"@) && d["role"@] == Json::Text(messages[i].role)
                        &&& d.contains_key("content"@) <==> messages[i].content.len() > 0
                        &&& messages[i].content.len() > 0 ==> d["content"@] == Json::Text(
                            messages[i].content,
                        )
                    })
                &&& forall|i: int|
                    0 <= i < messages.len() ==> #[trigger] l[i] == msg_doc(messages[i])
            }
        },
{
    lemma_request_keys();
    let o = request_of(model, messages, tools)->Object_0;
    let l = msg_docs(messages);
    assert(o["messages"@] == Json::List(l));
    assert forall|i: int| 0 <= i < messages.len() implies (#[trigger] l[i] matches Json::Object(d)
        && {
        &&& d.contains_key("role"@) && d["role"@] == Json::Text(messages[i].role)
        &&& d.contains_key("content"@) <==> messages[i].content.len() > 0
        &&& messages[i].content.len() > 0 ==> d["content"@] == Json::Text(messages[i].content)
    }) by {
        law_messages_are_sent_whole(messages[i]);
    }
}

/// A request names the model and its settings, and announces the tools, all of them, wherever there
/// are any.
pub proof fn law_requests_name_model_and_tools(
    model: Seq<char>,
    messages: Seq<MsgView>,
    tools: Json,
)
    ensures
        request_of(model, messages, tools) matches Json::Object(o) && {
            &&& o.contains_key("model"@) && o["model"@] == Json::Text(model)
            &&& o.contains_key("max_tokens"@) && o["max_tokens"@] == Json::Number(
                seq!['2', '0', '4', '8'],
            )
            &&& o.contains_key("temperature"@) && o["temperature"@] == Json::Number(
                seq!['0', '.', '3'],
            )
            &&& (tools is List && tools->List_0.len() > 0) ==> o.contains_key("tools"@)
                && o["tools"@] == tools && o.contains_key("tool_choice"@) && o["tool_choice"@]
                == Json::Text("auto"@)
            &&& !(tools is List && tools->List_0.len() > 0) ==> !o.contains_key("tools"@)
                && !o.contains_key("tool_choice"@)
        },
{
    lemma_request_keys();
    reveal_strlit("0.3");
    assert("0.3"@ =~= seq!['0', '.', '3']);
    reveal_with_fuel(digits, 5);
    assert(digits(2048) =~= seq!['2', '0', '4', '8']);
}

/// A tool is announced with its name, what it is for, its one parameter and that this is required.
pub proof fn law_tools_are_announced(
    name: Seq<char>,
    help: Seq<char>,
    param: Seq<char>,
    shape: Json,
)
    ensures
        tool_of(name, help, param, shape) matches Json::Object(o) && {
            &&& o.contains_key("type"@) && o["type"@] == Json::Text("function"@)
            &&& o.contains_key("function"@)
            &&& o["function"@] matches Json::Object(f) && {
                &&& f.contains_key("name"@) && f["name"@] == Json::Text(name)
                &&& f.contains_key("description"@) && f["description"@] == Json::Text(help)
                &&& f.contains_key("parameters"@)
                &&& f["parameters"@] matches Json::Object(p) && {
                    &&& p.contains_key("type"@) && p["type"@] == Json::Text("object"@)
                    &&& p.contains_key("properties"@) && p["properties"@] == Json::Object(
                        Map::empty().insert(param, shape),
                    )
                    &&& p.contains_key("required"@) && p["required"@] == Json::List(
                        seq![Json::Text(param)],
                    )
                }
            }
        },
        text_shape(help) matches Json::Object(t) && t["type"@] == Json::Text("string"@)
            && t["description"@] == Json::Text(help),
        texts_shape(help) matches Json::Object(t) && t["type"@] == Json::Text("array"@)
            && t["description"@] == Json::Text(help) && t["items"@] == Json::Object(
            Map::empty().insert("type"@, Json::Text("string"@)),
        ),
{
    reveal_strlit("type");
    reveal_strlit("function");
    reveal_strlit("name");
    reveal_strlit("description");
    reveal_strlit("parameters");
    reveal_strlit("properties");
    reveal_strlit("required");
    reveal_strlit("items");
    assert("type"@.len() == 4 && "function"@.len() == 8 && "name"@.len() == 4
        && "description"@.len() == 11 && "parameters"@.len() == 10 && "properties"@.len() == 10
        && "required"@.len() == 8 && "items"@.len() == 5);
}

/// The tools of the model, each under its name and with its parameter: to search, to read a page, to
/// name several addresses or one, and to harvest where that is asked for.
pub proof fn law_tools(harvest: bool)
    ensures
        tools_of(harvest).len() == if harvest {
            5nat
        } else {
            4nat
        },
        forall|i: int| 0 <= i < 4 ==> #[trigger] tools_of(harvest)[i] == tools_of(!harvest)[i],
        tools_of(harvest)[0] == tool_of(
            "web_search"@,
            "Yerel ücretsiz motorda web araması. Kişi, site, konu, kullanıcı adı bulur. Son 3-4 kelimelik odaklı sorgular kullan."@,
            "query"@,
            text_shape("Arama sorgusu"@),
        ),
        tools_of(harvest)[1] == tool_of(
            "fetch_page"@,
            "Bir sayfanın metnini, meta/OG bilgisini ve dış linklerini çeker. Profil bio'larındaki linkleri takip etmek, siteler arası bağlantı kurmak için kullan. Linktree/about.me gibi hub sayfaları otomatik açılır."@,
            "url"@,
            text_shape("Tam URL (http...)"@),
        ),
        tools_of(harvest)[2] == tool_of(
            "open_tabs"@,
            "Birden fazla önemli URL'yi tek seferde yeni sekmelerde açar (en fazla 5). Profil + haber + resmi site gibi toplu açışlarda open_tab yerine bunu kullan."@,
            "urls"@,
            texts_shape("Tam URL listesi"@),
        ),
        tools_of(harvest)[3] == tool_of(
            "open_tab"@,
            "URL'yi kullanıcının tarayıcısında yeni sekmede açar. Önemli bulguları (profil, kaynak) açmak için kullan."@,
            "url"@,
            text_shape("Tam URL (http...)"@),
        ),
        harvest ==> tools_of(harvest)[4] == tool_of(
            "harvest"@,
            "DENEYSEL: URL'yi gizli gerçek-tarayıcıda açıp EKRAN verisini çeker (JS ile oluşan içerik dahil). Bot duvarlı sitelerde fetch_page ölürse bunu dene. Yavaştır (10-30sn), idareli kullan."@,
            "url"@,
            text_shape("Tam URL (http...)"@),
        ),
{
}

/// Who is told to wait, and how long: after a passing fault the first wait is two seconds and each
/// is twice the one before, but none is longer than twenty seconds, and there are six; where the
/// server is not reached there are two waits of three seconds; otherwise there is none.
pub proof fn law_waits(attempt: nat, status: u16, a: String, b: String)
    requires
        1 <= attempt,
    ensures
        ({
            let passing = status == 429 || status == 500 || status == 502 || status == 503 || status
                == 504;
            let wait = wait_of(attempt, Attempt::Refused(status, a));
            let next = wait_of(attempt + 1, Attempt::Refused(status, b));
            &&& !passing ==> wait is None
            &&& passing ==> (wait is Some <==> attempt <= 6)
            &&& passing && attempt == 1 ==> wait == Some(2nat)
            &&& passing && attempt < 6 ==> next == Some(
                if wait->Some_0 * 2 < 20 {
                    wait->Some_0 * 2
                } else {
                    20
                },
            )
        }),
        wait_of(attempt, Attempt::Unreachable(a)) == if attempt <= 2 {
            Some(3nat)
        } else {
            None
        },
        wait_of(attempt, Attempt::Answered(a)) is None,
        wait_of(attempt, Attempt::Unread(a)) is None,
{
    reveal_with_fuel(power_of_two, 8);
}

/// What is returned in the end: the reply that was answered, or an error with all that is known of
/// its cause, of a refusal the first five hundred characters.
pub proof fn law_final(status: u16, body: String)
    ensures
        final_of(Attempt::Answered(body)) == reply_from(json_parse(body@)),
        final_of(Attempt::Unread(body)) == Err::<NimReplyView, Seq<char>>("nim gövde: "@ + body@),
        final_of(Attempt::Unreachable(body)) == Err::<NimReplyView, Seq<char>>("nim http: "@ + body@),
        final_of(Attempt::Refused(status, body)) matches Err(e) && {
            let head = "nim "@ + digits(status as nat) + ": "@;
            &&& body@.len() <= 500 ==> e == head + body@
            &&& body@.len() > 500 ==> e == head + body@.take(500)
        },
{
}

/// The record of a refusal has the whole request, the status and the whole response.
pub proof fn law_records(request: Json, status: u16, body: Seq<char>)
    ensures
        record_of(request, status, body) matches Json::Object(o) && {
            &&& o.contains_key("request"@) && o["request"@] == request
            &&& o.contains_key("status"@) && o["status"@] == Json::Number(digits(status as nat))
            &&& o.contains_key("response"@) && o["response"@] == Json::Text(body)
        },
{
    reveal_strlit("request");
    reveal_strlit("status");
    reveal_strlit("response");
    assert("request"@.len() == 7 && "status"@.len() == 6 && "response"@.len() == 8);
}

} // verus!
