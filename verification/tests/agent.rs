use noral_web::agent::{
    gist_of, urls_in, Action, Agent, Hit, PageData, NO_PAGE, NO_SUCH_TOOL, READ_NOW,
    SEARCHED_BEFORE, SERVER_NOTE, TABS_NOTE,
};
use noral_web::nim::{Msg, NimReply, ToolCall};
use noral_web::prompts::sys_prompt;

fn json(s: &str) -> serde_json::Value {
    serde_json::from_str(s).unwrap()
}

fn call(id: &str, name: &str, args: &str) -> ToolCall {
    ToolCall { id: id.to_string(), name: name.to_string(), args: json(args) }
}

fn reply(content: &str, tool_calls: Vec<ToolCall>) -> NimReply {
    NimReply { content: content.to_string(), tool_calls }
}

fn hit(n: usize) -> Hit {
    Hit {
        title: format!("t{}", n),
        url: format!("https://h{}.com", n),
        snippet: "s".repeat(300),
        source: "bing".to_string(),
        neural: json("0.5"),
    }
}

fn fresh() -> Agent {
    Agent::start("arastirma", "soru", &Vec::new())
}

fn finished(a: Action) -> serde_json::Value {
    match a {
        Action::Finish(v) => v,
        _ => panic!("not finished"),
    }
}

fn last(a: &Agent) -> &Msg {
    &a.messages()[a.messages().len() - 1]
}

#[test]
fn conversations_open_with_task_history_and_question() {
    let mut history = Vec::new();
    for i in 0..14 {
        history.push(Msg {
            role: "user".to_string(),
            content: format!("{}{}", i, "ç".repeat(2000)),
            tool_calls: Some(Vec::new()),
            tool_call_id: Some("x".to_string()),
        });
    }
    let a = Agent::start("osint", &"ş".repeat(2001), &history);
    let m = a.messages();
    assert_eq!(m.len(), 14);
    assert_eq!(m[0].role, "system");
    assert_eq!(m[0].content, format!("{}{}", sys_prompt("osint"), SERVER_NOTE));
    assert_eq!(m[1].content, format!("2{}", "ç".repeat(1999)));
    assert_eq!(m[12].content, format!("13{}", "ç".repeat(1998)));
    assert!(m[1].tool_calls.is_none() && m[1].tool_call_id.is_none());
    assert_eq!(m[13].role, "user");
    assert_eq!(m[13].content, "ş".repeat(2000));
    assert_eq!(fresh().messages().len(), 2);
}

#[test]
fn a_reply_without_calls_is_the_answer() {
    let v = finished(fresh().replied(reply("cevap", Vec::new())));
    assert_eq!(
        v,
        json(r#"{"mode":"arastirma","model":"nvidia/nemotron-3-super-120b-a12b","answer":"cevap","steps":[],"evidence":[]}"#)
    );
    assert_eq!(finished(fresh().replied(reply("", Vec::new())))["answer"], "");
}

#[test]
fn an_empty_answer_is_made_up_for_by_the_findings() {
    let mut a = fresh();
    let r = a.replied(reply("", vec![call("1", "open_tab", r#"{"url":"u1"}"#)]));
    assert!(matches!(r, Action::Ask));
    let v = finished(a.replied(reply(" \n", Vec::new())));
    assert_eq!(v["answer"], "Özet çıkarılamadı. Ham bulgular:\n• SEKME(adaya eklendi): u1");
    assert_eq!(v["evidence"], json(r#"["• SEKME(adaya eklendi): u1"]"#));
}

#[test]
fn searches_are_asked_for_and_answered() {
    let mut a = fresh();
    let r = a.replied(reply("bakıyorum", vec![call("c1", "web_search", r#"{"query":"Kedi  Maması"}"#)]));
    assert!(matches!(r, Action::Search(q) if q == "Kedi  Maması"));
    let asked = last(&a);
    assert_eq!(asked.role, "assistant");
    assert_eq!(asked.content, "bakıyorum");
    let outs = asked.tool_calls.as_ref().unwrap();
    assert_eq!(outs[0].id, "c1");
    assert_eq!(outs[0].function.arguments, r#"{"query":"Kedi  Maması"}"#);
    let mut results: Vec<Hit> = (0..13).map(hit).collect();
    results[0].title = "ğ".repeat(91);
    let r = a.found(&results);
    assert!(matches!(r, Action::Ask));
    let told = last(&a);
    assert_eq!(told.role, "tool");
    assert_eq!(told.tool_call_id.as_deref(), Some("c1"));
    let doc = json(&told.content);
    assert_eq!(doc["count"], 12);
    assert_eq!(doc["results"].as_array().unwrap().len(), 12);
    assert_eq!(doc["results"][0]["title"], "ğ".repeat(91));
    assert_eq!(doc["results"][11]["url"], "https://h11.com");
    assert_eq!(doc["results"][1]["snippet"], "s".repeat(220));
    assert_eq!(doc["results"][1]["source"], "bing");
    assert_eq!(doc["results"][1]["neural"], 0.5);
    let v = finished(a.replied(reply("bitti", Vec::new())));
    assert_eq!(v["evidence"].as_array().unwrap().len(), 5);
    assert_eq!(v["evidence"][0], format!("• {} (https://h0.com)", "ğ".repeat(90)));
    assert_eq!(v["evidence"][4], "• t4 (https://h4.com)");
    assert_eq!(v["steps"], json(r#"[{"tool":"web_search","args":"{\"query\":\"Kedi  Maması\"}"}]"#));
}

#[test]
fn a_search_is_not_repeated() {
    let mut a = fresh();
    let calls = vec![
        call("1", "web_search", r#"{"query":"Kedi  Maması"}"#),
        call("2", "web_search", r#"{"query":" kedi maması "}"#),
        call("3", "web_search", r#"{}"#),
    ];
    assert!(matches!(a.replied(reply("", calls)), Action::Search(_)));
    let r = a.found(&Vec::new());
    assert!(matches!(r, Action::Search(q) if q.is_empty()));
    assert_eq!(last(&a).tool_call_id.as_deref(), Some("2"));
    assert_eq!(json(&last(&a).content), serde_json::Value::from_iter([("error", SEARCHED_BEFORE)]));
    assert!(matches!(a.found(&Vec::new()), Action::Ask));
    assert_eq!(json(&last(&a).content), json(r#"{"count":0,"results":[]}"#));
    assert_eq!(gist_of(" Kedi\t MAMASI "), "kedi mamasi");
}

#[test]
fn pages_are_read() {
    let mut a = fresh();
    let calls = vec![
        call("1", "fetch_page", r#"{"url":"https://x.com"}"#),
        call("2", "fetch_page", r#"{"url":7}"#),
    ];
    assert!(matches!(a.replied(reply("", calls)), Action::Fetch(u) if u == "https://x.com"));
    let page = PageData {
        title: "ü".repeat(201),
        text: "x".repeat(2501),
        links: (0..15).map(|i| ("a".repeat(121), format!("l{}", i))).collect(),
    };
    assert!(matches!(a.read(Some(&page)), Action::Fetch(u) if u.is_empty()));
    let doc = json(&last(&a).content);
    assert_eq!(doc["title"], "ü".repeat(200));
    assert_eq!(doc["text"], "x".repeat(2500));
    assert_eq!(doc["links"].as_array().unwrap().len(), 14);
    assert_eq!(doc["links"][13]["anchor"], "a".repeat(120));
    assert_eq!(doc["links"][13]["url"], "l13");
    assert!(matches!(a.read(None), Action::Ask));
    assert_eq!(json(&last(&a).content), serde_json::Value::from_iter([("error", NO_PAGE)]));
    let v = finished(a.replied(reply("bitti", Vec::new())));
    assert_eq!(
        v["evidence"],
        serde_json::Value::from(vec![format!("• SAYFA {}: {}", "ü".repeat(80), "x".repeat(300))])
    );
}

#[test]
fn addresses_are_noted() {
    assert_eq!(
        urls_in(&json(r#"{"urls":["a",1,"b","c","d","e","f"],"url":"z"}"#)),
        vec!["a", "b", "c", "d", "e"]
    );
    assert!(urls_in(&json(r#"{"urls":[],"url":"z"}"#)).is_empty());
    assert_eq!(urls_in(&json(r#"{"urls":"x","url":"z"}"#)), vec!["z"]);
    assert!(urls_in(&json(r#"{"url":3}"#)).is_empty());
    assert!(urls_in(&json("[]")).is_empty());
    let mut a = fresh();
    let calls = vec![
        call("1", "open_tabs", r#"{"urls":["a","b"]}"#),
        call("2", "harvest", r#"{"url":"c"}"#),
    ];
    assert!(matches!(a.replied(reply("", calls)), Action::Ask));
    let m = a.messages();
    let tabs = json(&m[m.len() - 2].content);
    assert_eq!(tabs["opened"], json(r#"["a","b"]"#));
    assert_eq!(tabs["note"], TABS_NOTE);
    assert_eq!(json(&last(&a).content), serde_json::Value::from_iter([("error", NO_SUCH_TOOL)]));
    assert_eq!(last(&a).tool_call_id.as_deref(), Some("2"));
}

#[test]
fn no_more_than_ten_findings_are_kept() {
    let mut a = fresh();
    let calls = (0..3)
        .map(|i| call("x", "web_search", &format!("{{\"query\":\"q{}\"}}", i)))
        .collect();
    let mut r = a.replied(reply("", calls));
    for _ in 0..3 {
        assert!(matches!(r, Action::Search(_)));
        let results: Vec<Hit> = (0..4).map(hit).collect();
        r = a.found(&results);
    }
    let v = finished(a.failed("x"));
    assert_eq!(v["evidence"].as_array().unwrap().len(), 10);
    assert_eq!(v["evidence"][9], "• t1 (https://h1.com)");
}

#[test]
fn who_only_searches_is_told_to_read() {
    let mut a = fresh();
    let calls = (0..5)
        .map(|i| call("x", "web_search", &format!("{{\"query\":\"q{}\"}}", i)))
        .collect();
    let mut r = a.replied(reply("", calls));
    let mut told = Vec::new();
    for _ in 0..5 {
        assert!(matches!(r, Action::Search(_)));
        let before = a.messages().len();
        r = a.found(&Vec::new());
        told.push(a.messages().len() - before);
    }
    assert_eq!(told, vec![1, 1, 1, 2, 2]);
    assert_eq!(last(&a).role, "user");
    assert_eq!(last(&a).content, READ_NOW);
    let r = a.replied(reply("", vec![call("y", "fetch_page", "{}")]));
    assert!(matches!(r, Action::Fetch(_)));
    let before = a.messages().len();
    a.read(None);
    assert_eq!(a.messages().len(), before + 1);
}

#[test]
fn the_model_is_asked_six_times() {
    let mut a = fresh();
    let again = || reply("", vec![call("x", "none", "{}")]);
    for _ in 0..5 {
        assert!(matches!(a.replied(again()), Action::Ask));
    }
    let v = finished(a.replied(again()));
    assert_eq!(v["answer"], "Adım bütçesi doldu, bulgu yok.");
    assert_eq!(v["steps"].as_array().unwrap().len(), 6);
    let mut b = fresh();
    let mut r = Action::Ask;
    for i in 0..6 {
        assert!(matches!(r, Action::Ask));
        let args = format!("{{\"url\":\"u{}\"}}", i);
        r = b.replied(reply("", vec![call("x", "open_tab", &args)]));
    }
    let v = finished(r);
    assert!(v["answer"].as_str().unwrap().starts_with(
        "Adım bütçesi doldu. Ham bulgular:\n• SEKME(adaya eklendi): u0\n• SEKME(adaya eklendi): u1\n"
    ));
}

#[test]
fn a_failing_model_ends_the_conversation() {
    let v = finished(fresh().failed("nim 400: x"));
    assert_eq!(v["answer"], "Model hatası (nim 400: x).");
    let mut a = fresh();
    a.replied(reply("", vec![call("x", "open_tab", r#"{"url":"u"}"#)]));
    let v = finished(a.failed("nim 400: x"));
    assert_eq!(v["answer"], "Adım bütçesi doldu. Ham bulgular:\n• SEKME(adaya eklendi): u");
}

#[test]
fn every_call_is_answered_in_its_turn() {
    let mut a = fresh();
    let calls = vec![
        call("1", "none", "{}"),
        call("2", "web_search", r#"{"query":"q"}"#),
        call("3", "open_tab", r#"{"url":"u"}"#),
        call("4", "fetch_page", r#"{"url":"u"}"#),
        call("5", "web_search", r#"{"query":"Q"}"#),
    ];
    assert!(matches!(a.replied(reply("", calls)), Action::Search(_)));
    assert!(matches!(a.found(&Vec::new()), Action::Fetch(_)));
    assert!(matches!(a.read(None), Action::Ask));
    let ids: Vec<&str> = a.messages().iter().filter_map(|m| m.tool_call_id.as_deref()).collect();
    assert_eq!(ids, vec!["1", "2", "3", "4", "5"]);
}

#[test]
fn steps_show_the_start_of_the_arguments() {
    let mut a = fresh();
    let long = format!("{{\"k\":\"{}\"}}", "ö".repeat(200));
    a.replied(reply("", vec![call("x", "none", &long)]));
    let v = finished(a.failed("e"));
    assert_eq!(v["steps"][0]["args"], format!("{{\"k\":\"{}", "ö".repeat(114)));
    assert_eq!(v["steps"][0]["tool"], "none");
}
