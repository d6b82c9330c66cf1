//! What a request to the server asks for.

use vstd::prelude::*;
use crate::json::{boolean, empty_object, fields, json_of, list, literal, object, put, trees, Json};
use crate::keys::opt;
use crate::nim::DEFAULT_MODEL;
use crate::text::{same, trim, trimmed};

verus! {

/// A research that was asked for.
#[derive(Debug, Clone)]
pub struct ResearchPlan {
    pub query: String,
    /// Whether pages are searched too.
    pub deep: bool,
    /// How much of the paid lane is used: 0, 1 or 2.
    pub apx: u8,
}

/// How much of the paid lane is used: as asked for, but at most 2, and 1 where nothing was said.
pub open spec fn lane_level(apx: Option<u8>) -> u8 {
    match apx {
        Some(n) => if n < 2 {
            n
        } else {
            2
        },
        None => 1,
    }
}

fn level(apx: Option<u8>) -> (r: u8)
    ensures
        r == lane_level(apx),
{
    match apx {
        Some(n) => if n < 2 {
            n
        } else {
            2
        },
        None => 1,
    }
}

/// The research that a request asks for. It is deep unless another depth than 1 was asked for. A
/// request without a query asks for none.
pub fn research_plan(query: &str, depth: Option<u8>, apx: Option<u8>) -> (r: Option<ResearchPlan>)
    ensures
        match r {
            Some(p) => {
                &&& p.query@ == trimmed(query@)
                &&& p.query@.len() > 0
                &&& p.deep == (depth is None || depth == Some(1u8))
                &&& p.apx == lane_level(apx)
            },
            None => trimmed(query@).len() == 0,
        },
{
    let q = trim(query);
    if q.as_str().is_empty() {
        return None;
    }
    let deep = match depth {
        Some(d) => d == 1,
        None => true,
    };
    Some(ResearchPlan { query: q, deep, apx: level(apx) })
}

/// A conversation that was asked for.
#[derive(Debug, Clone)]
pub struct AgentPlan {
    pub message: String,
    /// "osint" or "arastirma".
    pub mode: String,
    pub apx: u8,
}

/// The mode of a conversation: looking for people where that was asked for, research otherwise.
pub open spec fn mode_of(mode: Option<Seq<char>>) -> Seq<char> {
    if mode == Some("osint"@) {
        "osint"@
    } else {
        "arastirma"@
    }
}

/// The conversation that a request asks for. A request without a message asks for none.
pub fn agent_plan(message: &str, mode: Option<String>, apx: Option<u8>) -> (r: Option<AgentPlan>)
    ensures
        match r {
            Some(p) => {
                &&& p.message@ == trimmed(message@)
                &&& p.message@.len() > 0
                &&& p.mode@ == mode_of(opt(mode))
                &&& p.apx == lane_level(apx)
            },
            None => trimmed(message@).len() == 0,
        },
{
    let m = trim(message);
    if m.as_str().is_empty() {
        return None;
    }
    let osint = match &mode {
        Some(s) => same(s.as_str(), "osint"),
        None => false,
    };
    let mode = if osint {
        "osint".to_string()
    } else {
        "arastirma".to_string()
    };
    Some(AgentPlan { message: m, mode, apx: level(apx) })
}

/// What is answered where the model's key is missing.
pub const NO_KEY: &'static str = "NIM anahtarı yok. Ortam değişkeni NIM_KEY ver ya da panelden kaydet, sonra tekrar dene.";

/// The answer to a conversation that cannot be had for want of a key: nothing was done and nothing
/// found.
pub fn no_key_answer(mode: &str) -> (r: serde_json::Value)
    ensures
        json_of(r) == Json::Object(
            empty_object().insert("mode"@, Json::Text(mode@)).insert(
                "model"@,
                Json::Text(DEFAULT_MODEL@),
            ).insert("answer"@, Json::Text("NIM anahtarı yok. Ortam değişkeni NIM_KEY ver ya da panelden kaydet, sonra tekrar dene."@)).insert(
                "steps"@,
                Json::List(Seq::empty()),
            ).insert("evidence"@, Json::List(Seq::empty())).insert("need_key"@, Json::Bool(true)),
        ),
{
    let steps: Vec<serde_json::Value> = Vec::new();
    let evidence: Vec<serde_json::Value> = Vec::new();
    proof {
        assert(trees(steps@) =~= Seq::empty());
        assert(trees(evidence@) =~= Seq::empty());
    }
    let mut o = fields();
    put(&mut o, "mode", literal(mode));
    put(&mut o, "model", literal(DEFAULT_MODEL));
    put(&mut o, "answer", literal(NO_KEY));
    put(&mut o, "steps", list(steps));
    put(&mut o, "evidence", list(evidence));
    put(&mut o, "need_key", boolean(true));
    object(o)
}

} // verus!
