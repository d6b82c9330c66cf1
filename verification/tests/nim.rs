use noral_web::nim::{
    after_attempt, bearer, chat_body, chat_request, chat_url, msg_value, parse_reply, read_args, read_reply,
    tools_schema, Attempt, Msg, Next, OutCall, OutFunc, ToolCall, DEFAULT_MODEL, MAX_STEPS,
    NIM_BASE, WEB_SEARCH_HELP,
};
use noral_web::prompts::{sys_prompt, OSINT_PROMPT, RESEARCH_PROMPT};

fn json(s: &str) -> serde_json::Value {
    serde_json::from_str(s).unwrap()
}

fn said(role: &str, content: &str) -> Msg {
    Msg { role: role.to_string(), content: content.to_string(), tool_calls: None, tool_call_id: None }
}

#[test]
fn yanit_ayristir() {
    let txt = r#"{"id":"x","choices":[{"message":{"role":"assistant","content":"Merhaba","tool_calls":[{"id":"c1","type":"function","function":{"name":"web_search","arguments":"{\"query\":\"test\"}"}}]},"finish_reason":"tool_calls"}]}"#;
    let r = parse_reply(txt).unwrap();
    assert_eq!(r.content, "Merhaba");
    assert_eq!(r.tool_calls.len(), 1);
    assert_eq!(r.tool_calls[0].name, "web_search");
    assert_eq!(r.tool_calls[0].args["query"], "test");
}

#[test]
fn aracsiz_yanit() {
    let txt = r#"{"choices":[{"message":{"role":"assistant","content":"42","tool_calls":[]}}]}"#;
    let r = parse_reply(txt).unwrap();
    assert_eq!(r.content, "42");
    assert!(r.tool_calls.is_empty());
}

#[test]
fn hata_yaniti() {
    let txt = r#"{"error":{"message":"kota bitti"}}"#;
    assert!(parse_reply(txt).is_err());
}

#[test]
fn each_error_of_a_reply_is_named() {
    assert_eq!(
        parse_reply(r#"{"choices":[{"message":{}}],"error":{"message":"kota bitti"}}"#).unwrap_err(),
        r#"nim api: {"message":"kota bitti"}"#
    );
    for txt in ["{}", r#"{"choices":[]}"#, r#"{"choices":{}}"#, r#"{"choices":[{}]}"#, "[]", "7"] {
        assert_eq!(parse_reply(txt).unwrap_err(), "nim: choices.message yok");
    }
    assert_eq!(
        parse_reply("{").unwrap_err(),
        "nim json: EOF while parsing an object at line 1 column 1"
    );
}

#[test]
fn replies_are_read_leniently() {
    let r = parse_reply(
        r#"{"choices":[{"message":{"content":null,"tool_calls":[
            {"id":"a","function":{"arguments":"{}"}},
            {"function":{"name":"n1"}},
            {"id":"c","function":{"name":"n2","arguments":"not json"}},
            {"id":"d","function":{"name":"n3","arguments":"[1]"}}]}}]}"#,
    )
    .unwrap();
    assert_eq!(r.content, "");
    let names: Vec<&str> = r.tool_calls.iter().map(|c| c.name.as_str()).collect();
    assert_eq!(names, vec!["n1", "n2", "n3"]);
    assert_eq!(r.tool_calls[0].id, "");
    assert_eq!(r.tool_calls[0].args, json("{}"));
    assert_eq!(r.tool_calls[1].id, "c");
    assert_eq!(r.tool_calls[1].args, json("{}"));
    assert_eq!(r.tool_calls[2].args, json("[1]"));
    let other = read_reply(&json(r#"{"choices":[{"message":{"content":"x","tool_calls":7}}]}"#)).unwrap();
    assert_eq!(other.content, "x");
    assert!(other.tool_calls.is_empty());
    assert_eq!(read_args(Err("e".to_string())), json("{}"));
    assert_eq!(read_args(Ok(json("3"))), json("3"));
}

#[test]
fn calls_go_back_with_their_arguments_as_text() {
    let call = ToolCall {
        id: "c1".to_string(),
        name: "web_search".to_string(),
        args: json(r#"{ "query" : "a b", "n" : [1, true, null] }"#),
    };
    let out = call.to_out();
    assert_eq!(out.id, "c1");
    assert_eq!(out.kind, "function");
    assert_eq!(out.function.name, "web_search");
    assert_eq!(out.function.arguments, r#"{"n":[1,true,null],"query":"a b"}"#);
}

#[test]
fn tools_are_announced() {
    let four = tools_schema(false);
    let five = tools_schema(true);
    let names = |v: &serde_json::Value| -> Vec<String> {
        v.as_array()
            .unwrap()
            .iter()
            .map(|t| t["function"]["name"].as_str().unwrap().to_string())
            .collect()
    };
    assert_eq!(names(&four), vec!["web_search", "fetch_page", "open_tabs", "open_tab"]);
    assert_eq!(names(&five), vec!["web_search", "fetch_page", "open_tabs", "open_tab", "harvest"]);
    assert_eq!(four[0]["type"], "function");
    assert_eq!(four[0]["function"]["description"], WEB_SEARCH_HELP);
    assert_eq!(
        four[0]["function"]["parameters"],
        json(r#"{"type":"object","properties":{"query":{"type":"string","description":"Arama sorgusu"}},"required":["query"]}"#)
    );
    assert_eq!(
        four[2]["function"]["parameters"],
        json(r#"{"type":"object","properties":{"urls":{"type":"array","items":{"type":"string"},"description":"Tam URL listesi"}},"required":["urls"]}"#)
    );
    assert_eq!(
        five[4]["function"]["parameters"]["properties"]["url"]["description"],
        "Tam URL (http...)"
    );
}

#[test]
fn prompts_follow_the_mode() {
    assert_eq!(sys_prompt("osint"), OSINT_PROMPT);
    assert_eq!(sys_prompt("arastirma"), RESEARCH_PROMPT);
    assert_eq!(sys_prompt(""), RESEARCH_PROMPT);
    assert_eq!(sys_prompt("OSINT"), RESEARCH_PROMPT);
    assert_ne!(OSINT_PROMPT, RESEARCH_PROMPT);
    assert!(!OSINT_PROMPT.contains("harvest") && !RESEARCH_PROMPT.contains("harvest"));
    assert_eq!((OSINT_PROMPT.chars().count(), RESEARCH_PROMPT.chars().count()), (628, 345));
    assert!(OSINT_PROMPT.contains("'\"Ad Soyad\" instagram'"));
    assert!(OSINT_PROMPT.contains("korelasyonu. Kurallar: (1)"));
    assert!(RESEARCH_PROMPT.ends_with("(5) en fazla 8 araç adımı."));
    assert_eq!(MAX_STEPS, 8);
}

#[test]
fn messages_leave_out_what_they_do_not_have() {
    assert_eq!(msg_value(&said("user", "hi")), json(r#"{"role":"user","content":"hi"}"#));
    assert_eq!(msg_value(&said("user", "")), json(r#"{"role":"user"}"#));
    let mut m = said("assistant", "");
    m.tool_calls = Some(vec![OutCall {
        id: "c1".to_string(),
        kind: "function".to_string(),
        function: OutFunc { name: "f".to_string(), arguments: "{}".to_string() },
    }]);
    assert_eq!(
        msg_value(&m),
        json(r#"{"role":"assistant","tool_calls":[{"id":"c1","type":"function","function":{"name":"f","arguments":"{}"}}]}"#)
    );
    let mut t = said("tool", "x");
    t.tool_call_id = Some("c1".to_string());
    assert_eq!(msg_value(&t), json(r#"{"role":"tool","content":"x","tool_call_id":"c1"}"#));
    t.tool_calls = Some(Vec::new());
    assert_eq!(msg_value(&t)["tool_calls"], json("[]"));
}

#[test]
fn requests_announce_tools_only_where_there_are_any() {
    let messages = vec![said("system", "s"), said("user", "u")];
    let plain = chat_request(DEFAULT_MODEL, &messages, &json("[]"));
    assert_eq!(
        plain.to_string(),
        r#"{"max_tokens":2048,"messages":[{"content":"s","role":"system"},{"content":"u","role":"user"}],"model":"nvidia/nemotron-3-super-120b-a12b","temperature":0.3}"#
    );
    assert_eq!(chat_body(DEFAULT_MODEL, &messages, &json("[]")), plain.to_string());
    assert_eq!(chat_request(DEFAULT_MODEL, &messages, &json("{}")), plain);
    let full = chat_request("m", &Vec::new(), &json(r#"["t"]"#));
    assert_eq!(full["tools"], json(r#"["t"]"#));
    assert_eq!(full["tool_choice"], "auto");
    assert_eq!(full["model"], "m");
    assert_eq!(full["messages"], json("[]"));
    assert_eq!(full["temperature"].as_f64(), Some(0.3));
}

#[test]
fn requests_go_to_the_model_with_the_key() {
    assert_eq!(chat_url(), format!("{}/chat/completions", NIM_BASE));
    assert_eq!(bearer("k"), "Bearer k");
}

fn refused(attempt: u32, status: u16) -> Next {
    after_attempt(attempt, &json("{\"a\":1}"), Attempt::Refused(status, "busy".to_string()))
}

#[test]
fn passing_faults_are_waited_out() {
    let mut waits = Vec::new();
    for attempt in 1..7 {
        match refused(attempt, 429) {
            Next::Wait(s) => waits.push(s),
            Next::Finish { .. } => panic!("no wait"),
        }
    }
    assert_eq!(waits, vec![2, 4, 8, 16, 20, 20]);
    for status in [500, 502, 503, 504] {
        assert!(matches!(refused(1, status), Next::Wait(2)));
    }
    for status in [400, 401, 404, 501, 505] {
        assert!(matches!(refused(1, status), Next::Finish { .. }));
    }
}

#[test]
fn refusals_are_recorded() {
    match refused(7, 429) {
        Next::Finish { result, record } => {
            assert_eq!(result.unwrap_err(), "nim 429: busy");
            assert_eq!(record.unwrap(), r#"{"request":{"a":1},"response":"busy","status":429}"#);
        }
        Next::Wait(_) => panic!("waits"),
    }
    let long = "ş".repeat(501);
    match after_attempt(1, &json("null"), Attempt::Refused(400, long.clone())) {
        Next::Finish { result, record } => {
            assert_eq!(result.unwrap_err(), format!("nim 400: {}", "ş".repeat(500)));
            assert!(record.unwrap().contains(&long));
        }
        Next::Wait(_) => panic!("waits"),
    }
}

#[test]
fn unreached_servers_are_tried_twice_more() {
    let gone = || Attempt::Unreachable("timeout".to_string());
    assert!(matches!(after_attempt(1, &json("0"), gone()), Next::Wait(3)));
    assert!(matches!(after_attempt(2, &json("0"), gone()), Next::Wait(3)));
    match after_attempt(3, &json("0"), gone()) {
        Next::Finish { result, record } => {
            assert_eq!(result.unwrap_err(), "nim http: timeout");
            assert!(record.is_none());
        }
        Next::Wait(_) => panic!("waits"),
    }
}

#[test]
fn answers_are_read() {
    let body = r#"{"choices":[{"message":{"content":"42"}}]}"#.to_string();
    match after_attempt(1, &json("0"), Attempt::Answered(body)) {
        Next::Finish { result, record } => {
            assert_eq!(result.unwrap().content, "42");
            assert!(record.is_none());
        }
        Next::Wait(_) => panic!("waits"),
    }
    match after_attempt(1, &json("0"), Attempt::Unread("cut off".to_string())) {
        Next::Finish { result, record } => {
            assert_eq!(result.unwrap_err(), "nim gövde: cut off");
            assert!(record.is_none());
        }
        Next::Wait(_) => panic!("waits"),
    }
}
