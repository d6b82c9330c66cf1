//! The language model behind the agent: its messages, its tools, its replies, and how a request
//! to it is made and retried.

use vstd::prelude::*;
use crate::json::{
    as_list, as_text, element, empty_object, fields, get, items_in, json_of, json_parse,
    json_text, list, literal, member, nth, number, object, parse, put, render, text_in, trees, Json,
};
use crate::text::{clip, clipped, decimal, digits};

verus! {

/// Where the model is served.
pub const NIM_BASE: &'static str = "https://integrate.api.nvidia.com/v1";

/// The model that is asked.
pub const DEFAULT_MODEL: &'static str = "nvidia/nemotron-3-super-120b-a12b";

/// How many tool steps the prompts allow.
pub const MAX_STEPS: usize = 8;

/// A message of a conversation.
#[derive(Debug, Clone)]
pub struct Msg {
    pub role: String,
    pub content: String,
    pub tool_calls: Option<Vec<OutCall>>,
    pub tool_call_id: Option<String>,
}

/// A tool call that the model asks for.
#[derive(Debug, Clone)]
pub struct ToolCall {
    pub id: String,
    pub name: String,
    pub args: serde_json::Value,
}

/// A tool call as it is sent back to the model.
#[derive(Debug, Clone)]
pub struct OutCall {
    pub id: String,
    pub kind: String,
    pub function: OutFunc,
}

/// Name and arguments of a tool call that is sent back; the arguments are JSON text.
#[derive(Debug, Clone)]
pub struct OutFunc {
    pub name: String,
    pub arguments: String,
}

/// A reply of the model.
#[derive(Debug, Clone)]
pub struct NimReply {
    pub content: String,
    pub tool_calls: Vec<ToolCall>,
}

pub struct ToolCallView {
    pub id: Seq<char>,
    pub name: Seq<char>,
    pub args: Json,
}

pub struct OutCallView {
    pub id: Seq<char>,
    pub kind: Seq<char>,
    pub name: Seq<char>,
    pub arguments: Seq<char>,
}

pub struct MsgView {
    pub role: Seq<char>,
    pub content: Seq<char>,
    pub tool_calls: Option<Seq<OutCallView>>,
    pub tool_call_id: Option<Seq<char>>,
}

pub struct NimReplyView {
    pub content: Seq<char>,
    pub tool_calls: Seq<ToolCallView>,
}

impl View for ToolCall {
    type V = ToolCallView;

    open spec fn view(&self) -> ToolCallView {
        ToolCallView { id: self.id@, name: self.name@, args: json_of(self.args) }
    }
}

impl View for OutCall {
    type V = OutCallView;

    open spec fn view(&self) -> OutCallView {
        OutCallView {
            id: self.id@,
            kind: self.kind@,
            name: self.function.name@,
            arguments: self.function.arguments@,
        }
    }
}

impl View for Msg {
    type V = MsgView;

    open spec fn view(&self) -> MsgView {
        MsgView {
            role: self.role@,
            content: self.content@,
            tool_calls: match self.tool_calls {
                Some(calls) => Some(out_calls(calls@)),
                None => None,
            },
            tool_call_id: match self.tool_call_id {
                Some(id) => Some(id@),
                None => None,
            },
        }
    }
}

impl View for NimReply {
    type V = NimReplyView;

    open spec fn view(&self) -> NimReplyView {
        NimReplyView { content: self.content@, tool_calls: calls(self.tool_calls@) }
    }
}

/// The tool calls of a list.
pub open spec fn calls(v: Seq<ToolCall>) -> Seq<ToolCallView> {
    Seq::new(v.len(), |i: int| v[i]@)
}

/// The outgoing tool calls of a list.
pub open spec fn out_calls(v: Seq<OutCall>) -> Seq<OutCallView> {
    Seq::new(v.len(), |i: int| v[i]@)
}

/// The messages of a list.
pub open spec fn msgs(v: Seq<Msg>) -> Seq<MsgView> {
    Seq::new(v.len(), |i: int| v[i]@)
}

/// A tool call as it goes back to the model.
pub open spec fn sent_back(call: ToolCallView) -> OutCallView {
    OutCallView {
        id: call.id,
        kind: "function"@,
        name: call.name,
        arguments: json_text(call.args),
    }
}

impl ToolCall {
    /// The call as it goes back to the model: its arguments become JSON text.
    pub fn to_out(&self) -> (r: OutCall)
        ensures
            r@ == sent_back(self@),
    {
        OutCall {
            id: self.id.clone(),
            kind: "function".to_string(),
            function: OutFunc { name: self.name.clone(), arguments: render(&self.args) },
        }
    }
}

/// The text under `key` of `j`, or `other` where there is no such text.
pub open spec fn text_under(j: Option<Json>, key: Seq<char>, other: Seq<char>) -> Seq<char> {
    match j {
        Some(o) => match member(o, key) {
            Some(t) => match text_in(t) {
                Some(s) => s,
                None => other,
            },
            None => other,
        },
        None => other,
    }
}

/// The text under `key` of `v`, or `other` where there is no such text.
pub fn read_text(v: Option<&serde_json::Value>, key: &str, other: &str) -> (r: String)
    ensures
        r@ == text_under(
            match v {
                Some(x) => Some(json_of(*x)),
                None => None,
            },
            key@,
            other@,
        ),
{
    if let Some(o) = v {
        if let Some(t) = get(o, key) {
            if let Some(s) = as_text(t) {
                return s.to_string();
            }
        }
    }
    other.to_string()
}

/// The arguments of a call whose argument text was read with this result: what cannot be read is
/// an object without entries.
pub open spec fn args_from(parsed: Result<Json, Seq<char>>) -> Json {
    match parsed {
        Ok(j) => j,
        Err(_) => Json::Object(empty_object()),
    }
}

/// The call that an item of a reply asks for.
pub open spec fn call_in(item: Json) -> ToolCallView {
    let function = member(item, "function"@);
    ToolCallView {
        id: text_under(Some(item), "id"@, ""@),
        name: text_under(function, "name"@, ""@),
        args: args_from(json_parse(text_under(function, "arguments"@, "{}"@))),
    }
}

/// The calls that a list of items asks for: an item without a name asks for none.
pub open spec fn calls_in(items: Seq<Json>) -> Seq<ToolCallView>
    decreases items.len(),
{
    if items.len() == 0 {
        Seq::empty()
    } else {
        let before = calls_in(items.drop_last());
        let call = call_in(items.last());
        if call.name.len() == 0 {
            before
        } else {
            before.push(call)
        }
    }
}

/// The message of a reply document, if it has one.
pub open spec fn message_in(doc: Json) -> Option<Json> {
    match member(doc, "choices"@) {
        Some(choices) => match element(choices, 0) {
            Some(choice) => member(choice, "message"@),
            None => None,
        },
        None => None,
    }
}

/// The reply that a document holds, or why it holds none.
pub open spec fn reply_in(doc: Json) -> Result<NimReplyView, Seq<char>> {
    match member(doc, "error"@) {
        Some(e) => Err("nim api: "@ + json_text(e)),
        None => match message_in(doc) {
            None => Err("nim: choices.message yok"@),
            Some(message) => Ok(
                NimReplyView {
                    content: text_under(Some(message), "content"@, ""@),
                    tool_calls: match member(message, "tool_calls"@) {
                        Some(t) => match items_in(t) {
                            Some(items) => calls_in(items),
                            None => Seq::empty(),
                        },
                        None => Seq::empty(),
                    },
                },
            ),
        },
    }
}

/// The reply in a text that was read as JSON with this result.
pub open spec fn reply_from(parsed: Result<Json, Seq<char>>) -> Result<NimReplyView, Seq<char>> {
    match parsed {
        Err(e) => Err("nim json: "@ + e),
        Ok(doc) => reply_in(doc),
    }
}

/// A reply or an error text, by view.
pub open spec fn reply_or_error(r: Result<NimReply, String>) -> Result<NimReplyView, Seq<char>> {
    match r {
        Ok(reply) => Ok(reply@),
        Err(e) => Err(e@),
    }
}

/// The arguments of a call whose argument text was read with this result.
pub fn read_args(parsed: Result<serde_json::Value, String>) -> (r: serde_json::Value)
    ensures
        json_of(r) == args_from(
            match parsed {
                Ok(v) => Ok(json_of(v)),
                Err(e) => Err(e@),
            },
        ),
{
    match parsed {
        Ok(v) => v,
        Err(_) => object(fields()),
    }
}

/// The call that an item of a reply asks for.
pub fn read_call(item: &serde_json::Value) -> (r: ToolCall)
    ensures
        r@ == call_in(json_of(*item)),
{
    let function = get(item, "function");
    let id = read_text(Some(item), "id", "");
    let name = read_text(function, "name", "");
    let arguments = read_text(function, "arguments", "{}");
    let args = read_args(parse(arguments.as_str()));
    ToolCall { id, name, args }
}

/// The reply that a document holds, or why it holds none.
pub fn read_reply(doc: &serde_json::Value) -> (r: Result<NimReply, String>)
    ensures
        reply_or_error(r) == reply_in(json_of(*doc)),
{
    if let Some(e) = get(doc, "error") {
        return Err("nim api: ".to_string().concat(render(e).as_str()));
    }
    let choice = match get(doc, "choices") {
        Some(choices) => nth(choices, 0),
        None => None,
    };
    let message = match choice {
        Some(choice) => get(choice, "message"),
        None => None,
    };
    let message = match message {
        Some(message) => message,
        None => {
            return Err("nim: choices.message yok".to_string());
        },
    };
    let content = read_text(Some(message), "content", "");
    let mut tool_calls: Vec<ToolCall> = Vec::new();
    if let Some(t) = get(message, "tool_calls") {
        if let Some(items) = as_list(t) {
            let ghost all = trees(items@);
            let mut i: usize = 0;
            proof {
                assert(calls(tool_calls@) =~= Seq::empty());
                assert(all.take(0) =~= Seq::empty());
            }
            while i < items.len()
                invariant
                    i <= items@.len(),
                    all == trees(items@),
                    calls(tool_calls@) == calls_in(all.take(i as int)),
                decreases items@.len() - i,
            {
                let call = read_call(&items[i]);
                proof {
                    assert(all.take(i + 1).drop_last() =~= all.take(i as int));
                    assert(all.take(i + 1).last() == json_of(items@[i as int]));
                }
                if !call.name.as_str().is_empty() {
                    let ghost before = tool_calls@;
                    let ghost c = call@;
                    tool_calls.push(call);
                    proof {
                        assert(calls(tool_calls@) =~= calls(before).push(c));
                    }
                }
                i = i + 1;
            }
            proof {
                assert(all.take(all.len() as int) =~= all);
            }
        }
    }
    proof {
        if calls(tool_calls@).len() == 0 {
            assert(calls(tool_calls@) =~= Seq::empty());
        }
    }
    Ok(NimReply { content, tool_calls })
}

/// The reply in the text that the model's server sent, or why there is none in it.
pub fn parse_reply(txt: &str) -> (r: Result<NimReply, String>)
    ensures
        reply_or_error(r) == reply_from(json_parse(txt@)),
{
    match parse(txt) {
        Err(e) => Err("nim json: ".to_string().concat(e.as_str())),
        Ok(doc) => read_reply(&doc),
    }
}

proof fn lemma_calls_in(items: Seq<Json>)
    ensures
        calls_in(items).len() <= items.len(),
        forall|i: int| 0 <= i < calls_in(items).len() ==> (#[trigger] calls_in(items)[i]).name.len() > 0,
    decreases items.len(),
{
    if items.len() > 0 {
        lemma_calls_in(items.drop_last());
    }
}

/// Every call of a reply names a tool, and a reply that holds an error is never taken for an
/// answer.
pub proof fn law_calls_have_names(doc: Json)
    ensures
        reply_in(doc) matches Ok(reply) ==> member(doc, "error"@) is None && forall|i: int|
            0 <= i < reply.tool_calls.len() ==> (#[trigger] reply.tool_calls[i]).name.len() > 0,
{
    if let Some(message) = message_in(doc) {
        if let Some(t) = member(message, "tool_calls"@) {
            if let Some(items) = items_in(t) {
                lemma_calls_in(items);
            }
        }
    }
}

/// What the model is told of `web_search`.
pub const WEB_SEARCH_HELP: &'static str = "Yerel ücretsiz motorda web araması. Kişi, site, konu, kullanıcı adı bulur. Son 3-4 kelimelik odaklı sorgular kullan.";

/// What the model is told of `fetch_page`.
pub const FETCH_PAGE_HELP: &'static str = "Bir sayfanın metnini, meta/OG bilgisini ve dış linklerini çeker. Profil bio'larındaki linkleri takip etmek, siteler arası bağlantı kurmak için kullan. Linktree/about.me gibi hub sayfaları otomatik açılır.";

/// What the model is told of `open_tabs`.
pub const OPEN_TABS_HELP: &'static str = "Birden fazla önemli URL'yi tek seferde yeni sekmelerde açar (en fazla 5). Profil + haber + resmi site gibi toplu açışlarda open_tab yerine bunu kullan.";

/// What the model is told of `open_tab`.
pub const OPEN_TAB_HELP: &'static str = "URL'yi kullanıcının tarayıcısında yeni sekmede açar. Önemli bulguları (profil, kaynak) açmak için kullan.";

/// What the model is told of `harvest`.
pub const HARVEST_HELP: &'static str = "DENEYSEL: URL'yi gizli gerçek-tarayıcıda açıp EKRAN verisini çeker (JS ile oluşan içerik dahil). Bot duvarlı sitelerde fetch_page ölürse bunu dene. Yavaştır (10-30sn), idareli kullan.";

/// The shape of a parameter that is a text.
pub open spec fn text_shape(help: Seq<char>) -> Json {
    Json::Object(
        empty_object().insert("type"@, Json::Text("string"@)).insert("description"@, Json::Text(help)),
    )
}

/// The shape of a parameter that is a list of texts.
pub open spec fn texts_shape(help: Seq<char>) -> Json {
    Json::Object(
        empty_object().insert("type"@, Json::Text("array"@)).insert(
            "items"@,
            Json::Object(empty_object().insert("type"@, Json::Text("string"@))),
        ).insert("description"@, Json::Text(help)),
    )
}

/// The description of a tool with one parameter, which is required.
pub open spec fn tool_of(name: Seq<char>, help: Seq<char>, param: Seq<char>, shape: Json) -> Json {
    Json::Object(
        empty_object().insert("type"@, Json::Text("function"@)).insert(
            "function"@,
            Json::Object(
                empty_object().insert("name"@, Json::Text(name)).insert(
                    "description"@,
                    Json::Text(help),
                ).insert(
                    "parameters"@,
                    Json::Object(
                        empty_object().insert("type"@, Json::Text("object"@)).insert(
                            "properties"@,
                            Json::Object(empty_object().insert(param, shape)),
                        ).insert("required"@, Json::List(seq![Json::Text(param)])),
                    ),
                ),
            ),
        ),
    )
}

/// The tools that the model may call.
pub open spec fn tools_of(harvest: bool) -> Seq<Json> {
    let base = seq![
        tool_of("web_search"@, WEB_SEARCH_HELP@, "query"@, text_shape("Arama sorgusu"@)),
        tool_of("fetch_page"@, FETCH_PAGE_HELP@, "url"@, text_shape("Tam URL (http...)"@)),
        tool_of("open_tabs"@, OPEN_TABS_HELP@, "urls"@, texts_shape("Tam URL listesi"@)),
        tool_of("open_tab"@, OPEN_TAB_HELP@, "url"@, text_shape("Tam URL (http...)"@)),
    ];
    if harvest {
        base.push(tool_of("harvest"@, HARVEST_HELP@, "url"@, text_shape("Tam URL (http...)"@)))
    } else {
        base
    }
}

fn shape_of_text(help: &str) -> (r: serde_json::Value)
    ensures
        json_of(r) == text_shape(help@),
{
    let mut o = fields();
    put(&mut o, "type", literal("string"));
    put(&mut o, "description", literal(help));
    object(o)
}

fn shape_of_texts(help: &str) -> (r: serde_json::Value)
    ensures
        json_of(r) == texts_shape(help@),
{
    let mut item = fields();
    put(&mut item, "type", literal("string"));
    let mut o = fields();
    put(&mut o, "type", literal("array"));
    put(&mut o, "items", object(item));
    put(&mut o, "description", literal(help));
    object(o)
}

fn tool(name: &str, help: &str, param: &str, shape: serde_json::Value) -> (r: serde_json::Value)
    ensures
        json_of(r) == tool_of(name@, help@, param@, json_of(shape)),
{
    let mut properties = fields();
    put(&mut properties, param, shape);
    let mut required: Vec<serde_json::Value> = Vec::new();
    required.push(literal(param));
    proof {
        assert(trees(required@) =~= seq![Json::Text(param@)]);
    }
    let mut parameters = fields();
    put(&mut parameters, "type", literal("object"));
    put(&mut parameters, "properties", object(properties));
    put(&mut parameters, "required", list(required));
    let mut function = fields();
    put(&mut function, "name", literal(name));
    put(&mut function, "description", literal(help));
    put(&mut function, "parameters", object(parameters));
    let mut o = fields();
    put(&mut o, "type", literal("function"));
    put(&mut o, "function", object(function));
    object(o)
}

/// The tools that the model may call, in the form in which they are announced to it. The
/// experimental `harvest` is among them only where it is asked for.
pub fn tools_schema(harvest: bool) -> (r: serde_json::Value)
    ensures
        json_of(r) == Json::List(tools_of(harvest)),
{
    let mut tools: Vec<serde_json::Value> = Vec::new();
    tools.push(tool("web_search", WEB_SEARCH_HELP, "query", shape_of_text("Arama sorgusu")));
    tools.push(tool("fetch_page", FETCH_PAGE_HELP, "url", shape_of_text("Tam URL (http...)")));
    tools.push(tool("open_tabs", OPEN_TABS_HELP, "urls", shape_of_texts("Tam URL listesi")));
    tools.push(tool("open_tab", OPEN_TAB_HELP, "url", shape_of_text("Tam URL (http...)")));
    if harvest {
        tools.push(tool("harvest", HARVEST_HELP, "url", shape_of_text("Tam URL (http...)")));
    }
    proof {
        assert(trees(tools@) =~= tools_of(harvest));
    }
    list(tools)
}

/// An outgoing tool call as a document.
pub open spec fn out_call_doc(call: OutCallView) -> Json {
    Json::Object(
        empty_object().insert("id"@, Json::Text(call.id)).insert("type"@, Json::Text(call.kind)).insert(
            "function"@,
            Json::Object(
                empty_object().insert("name"@, Json::Text(call.name)).insert(
                    "arguments"@,
                    Json::Text(call.arguments),
                ),
            ),
        ),
    )
}

/// The documents of a list of outgoing tool calls.
pub open spec fn out_call_docs(calls: Seq<OutCallView>) -> Seq<Json> {
    Seq::new(calls.len(), |i: int| out_call_doc(calls[i]))
}

/// A message as a document: an empty content and what the message does not have are left out.
pub open spec fn msg_doc(m: MsgView) -> Json {
    let role = empty_object().insert("role"@, Json::Text(m.role));
    let content = if m.content.len() == 0 {
        role
    } else {
        role.insert("content"@, Json::Text(m.content))
    };
    let calls = match m.tool_calls {
        Some(calls) => content.insert("tool_calls"@, Json::List(out_call_docs(calls))),
        None => content,
    };
    let id = match m.tool_call_id {
        Some(id) => calls.insert("tool_call_id"@, Json::Text(id)),
        None => calls,
    };
    Json::Object(id)
}

/// The documents of a list of messages.
pub open spec fn msg_docs(ms: Seq<MsgView>) -> Seq<Json> {
    Seq::new(ms.len(), |i: int| msg_doc(ms[i]))
}

/// The body of a request to the model. Tools are announced only where there are any.
pub open spec fn request_of(model: Seq<char>, messages: Seq<MsgView>, tools: Json) -> Json {
    let plain = empty_object().insert("model"@, Json::Text(model)).insert(
        "messages"@,
        Json::List(msg_docs(messages)),
    ).insert("max_tokens"@, Json::Number(digits(2048))).insert(
        "temperature"@,
        Json::Number("0.3"@),
    );
    match items_in(tools) {
        Some(items) => if items.len() > 0 {
            Json::Object(
                plain.insert("tools"@, tools).insert("tool_choice"@, Json::Text("auto"@)),
            )
        } else {
            Json::Object(plain)
        },
        None => Json::Object(plain),
    }
}

fn out_call_value(call: &OutCall) -> (r: serde_json::Value)
    ensures
        json_of(r) == out_call_doc(call@),
{
    let mut function = fields();
    put(&mut function, "name", literal(call.function.name.as_str()));
    put(&mut function, "arguments", literal(call.function.arguments.as_str()));
    let mut o = fields();
    put(&mut o, "id", literal(call.id.as_str()));
    put(&mut o, "type", literal(call.kind.as_str()));
    put(&mut o, "function", object(function));
    object(o)
}

/// A message as a document: an empty content and what the message does not have are left out.
pub fn msg_value(m: &Msg) -> (r: serde_json::Value)
    ensures
        json_of(r) == msg_doc(m@),
{
    let mut o = fields();
    put(&mut o, "role", literal(m.role.as_str()));
    if !m.content.as_str().is_empty() {
        put(&mut o, "content", literal(m.content.as_str()));
    }
    if let Some(calls) = &m.tool_calls {
        let mut docs: Vec<serde_json::Value> = Vec::new();
        let mut i: usize = 0;
        while i < calls.len()
            invariant
                i <= calls@.len(),
                docs@.len() == i,
                forall|j: int| 0 <= j < i ==> json_of(#[trigger] docs@[j]) == out_call_doc(calls@[j]@),
            decreases calls@.len() - i,
        {
            docs.push(out_call_value(&calls[i]));
            i = i + 1;
        }
        proof {
            assert(trees(docs@) =~= out_call_docs(out_calls(calls@)));
        }
        put(&mut o, "tool_calls", list(docs));
    }
    if let Some(id) = &m.tool_call_id {
        put(&mut o, "tool_call_id", literal(id.as_str()));
    }
    object(o)
}

/// The body of a request to the model. Tools are announced only where there are any.
pub fn chat_request(model: &str, messages: &Vec<Msg>, tools: &serde_json::Value) -> (r:
    serde_json::Value)
    ensures
        json_of(r) == request_of(model@, msgs(messages@), json_of(*tools)),
{
    let mut docs: Vec<serde_json::Value> = Vec::new();
    let mut i: usize = 0;
    while i < messages.len()
        invariant
            i <= messages@.len(),
            docs@.len() == i,
            forall|j: int| 0 <= j < i ==> json_of(#[trigger] docs@[j]) == msg_doc(messages@[j]@),
        decreases messages@.len() - i,
    {
        docs.push(msg_value(&messages[i]));
        i = i + 1;
    }
    proof {
        assert(trees(docs@) =~= msg_docs(msgs(messages@)));
    }
    let mut body = fields();
    put(&mut body, "model", literal(model));
    put(&mut body, "messages", list(docs));
    put(&mut body, "max_tokens", number(2048));
    if let Ok(temperature) = parse("0.3") {
        put(&mut body, "temperature", temperature);
    }
    if let Some(items) = as_list(tools) {
        if items.len() > 0 {
            put(&mut body, "tools", tools.clone());
            put(&mut body, "tool_choice", literal("auto"));
        }
    }
    object(body)
}

/// The text of a request to the model, as it is sent.
pub fn chat_body(model: &str, messages: &Vec<Msg>, tools: &serde_json::Value) -> (r: String)
    ensures
        r@ == json_text(request_of(model@, msgs(messages@), json_of(*tools))),
{
    render(&chat_request(model, messages, tools))
}

/// The address that requests go to.
pub fn chat_url() -> (r: String)
    ensures
        r@ == "https://integrate.api.nvidia.com/v1"@ + "/chat/completions"@,
{
    NIM_BASE.to_string().concat("/chat/completions")
}

/// The value of the header that carries the key.
pub fn bearer(key: &str) -> (r: String)
    ensures
        r@ == "Bearer "@ + key@,
{
    "Bearer ".to_string().concat(key)
}

/// What came of sending a request once.
pub enum Attempt {
    /// The server answered, with this body.
    Answered(String),
    /// The server answered, but its body could not be read, for this reason.
    Unread(String),
    /// The server refused, with this status and body.
    Refused(u16, String),
    /// The server was not reached, for this reason.
    Unreachable(String),
}

/// What to do after a request was sent.
pub enum Next {
    /// Wait for so many seconds, then send the request again.
    Wait(u64),
    /// Return this. Where there is a record of the failure, keep it.
    Finish { result: Result<NimReply, String>, record: Option<String> },
}

/// Whether a status stands for overload, an exhausted quota or a passing fault.
pub open spec fn passing(status: u16) -> bool {
    status == 429 || status == 500 || status == 502 || status == 503 || status == 504
}

/// Two to the power of `n`.
pub open spec fn power_of_two(n: nat) -> nat
    decreases n,
{
    if n == 0 {
        1
    } else {
        2 * power_of_two((n - 1) as nat)
    }
}

/// How many seconds to wait before the request is sent again, if it is: six times after a passing
/// fault, each wait twice as long as the one before it but none longer than twenty seconds; twice
/// where the server was not reached.
pub open spec fn wait_of(attempt: nat, outcome: Attempt) -> Option<nat> {
    match outcome {
        Attempt::Refused(status, _) => if passing(status) && attempt <= 6 {
            Some(
                if power_of_two(attempt) < 20 {
                    power_of_two(attempt)
                } else {
                    20
                },
            )
        } else {
            None
        },
        Attempt::Unreachable(_) => if attempt <= 2 {
            Some(3)
        } else {
            None
        },
        _ => None,
    }
}

/// The record of a refused request.
pub open spec fn record_of(request: Json, status: u16, body: Seq<char>) -> Json {
    Json::Object(
        empty_object().insert("request"@, request).insert(
            "status"@,
            Json::Number(digits(status as nat)),
        ).insert("response"@, Json::Text(body)),
    )
}

/// What is returned once no further request is sent.
pub open spec fn final_of(outcome: Attempt) -> Result<NimReplyView, Seq<char>> {
    match outcome {
        Attempt::Answered(body) => reply_from(json_parse(body@)),
        Attempt::Unread(e) => Err("nim gövde: "@ + e@),
        Attempt::Refused(status, body) => Err(
            "nim "@ + digits(status as nat) + ": "@ + clipped(body@, 500),
        ),
        Attempt::Unreachable(e) => Err("nim http: "@ + e@),
    }
}

/// What to do after the request was sent for the `attempt`-th time.
pub fn after_attempt(attempt: u32, request: &serde_json::Value, outcome: Attempt) -> (r: Next)
    requires
        1 <= attempt,
    ensures
        match r {
            Next::Wait(seconds) => wait_of(attempt as nat, outcome) == Some(seconds as nat),
            Next::Finish { result, record } => {
                &&& wait_of(attempt as nat, outcome) is None
                &&& reply_or_error(result) == final_of(outcome)
                &&& match outcome {
                    Attempt::Refused(status, body) => record matches Some(t) && t@ == json_text(
                        record_of(json_of(*request), status, body@),
                    ),
                    _ => record is None,
                }
            },
        },
{
    match outcome {
        Attempt::Answered(body) => Next::Finish {
            result: parse_reply(body.as_str()),
            record: None,
        },
        Attempt::Unread(e) => Next::Finish {
            result: Err("nim gövde: ".to_string().concat(e.as_str())),
            record: None,
        },
        Attempt::Refused(status, body) => {
            let again = status == 429 || status == 500 || status == 502 || status == 503 || status
                == 504;
            if again && attempt <= 6 {
                let mut wait: u64 = 1;
                let mut k: u32 = 0;
                while k < attempt
                    invariant
                        k <= attempt <= 6,
                        wait == power_of_two(k as nat),
                        k == 0 ==> wait == 1,
                        k == 1 ==> wait == 2,
                        k == 2 ==> wait == 4,
                        k == 3 ==> wait == 8,
                        k == 4 ==> wait == 16,
                        k == 5 ==> wait == 32,
                        k == 6 ==> wait == 64,
                    decreases attempt - k,
                {
                    wait = wait * 2;
                    k = k + 1;
                }
                return Next::Wait(if wait < 20 { wait } else { 20 });
            }
            let mut record = fields();
            put(&mut record, "request", request.clone());
            put(&mut record, "status", number(status as u64));
            put(&mut record, "response", literal(body.as_str()));
            let error = "nim ".to_string().concat(decimal(status as u64).as_str()).concat(": ").concat(
                clip(body.as_str(), 500).as_str(),
            );
            Next::Finish { result: Err(error), record: Some(render(&object(record))) }
        },
        Attempt::Unreachable(e) => {
            if attempt <= 2 {
                return Next::Wait(3);
            }
            Next::Finish { result: Err("nim http: ".to_string().concat(e.as_str())), record: None }
        },
    }
}

/// A request is sent at most seven times, and no wait is longer than twenty seconds.
pub proof fn law_requests_end(attempt: nat, outcome: Attempt)
    requires
        1 <= attempt,
    ensures
        attempt >= 7 ==> wait_of(attempt, outcome) is None,
        wait_of(attempt, outcome) matches Some(seconds) ==> 2 <= seconds <= 20,
{
    lemma_power_grows(1, attempt);
}

/// The waits between the repetitions of one request never get shorter.
pub proof fn law_waits_grow(earlier: nat, later: nat, status: u16, a: String, b: String)
    requires
        1 <= earlier <= later,
    ensures
        wait_of(later, Attempt::Refused(status, b)) matches Some(w) ==> wait_of(
            earlier,
            Attempt::Refused(status, a),
        ) matches Some(v) && v <= w,
{
    lemma_power_grows(earlier, later);
}

proof fn lemma_power_grows(a: nat, b: nat)
    requires
        a <= b,
    ensures
        power_of_two(a) <= power_of_two(b),
        a >= 1 ==> power_of_two(a) >= 2,
    decreases b,
{
    reveal_with_fuel(power_of_two, 2);
    if a >= 1 {
        lemma_power_positive((a - 1) as nat);
    }
    if a < b {
        lemma_power_grows(a, (b - 1) as nat);
        lemma_power_positive((b - 1) as nat);
    }
}

proof fn lemma_power_positive(n: nat)
    ensures
        power_of_two(n) >= 1,
    decreases n,
{
    if n > 0 {
        lemma_power_positive((n - 1) as nat);
    }
}

} // verus!
