//! Where keys are kept, and which of them count.

use vstd::prelude::*;
use crate::text::{same, texts, trim, trimmed, white};

verus! {

/// Where a key file lies.
#[derive(Debug, Clone, Copy, PartialEq, Eq, Structural)]
pub enum Place {
    /// Beside the program.
    BesideProgram,
    /// In the application's data directory.
    Appdata,
}

/// A service that takes a key: the environment variable that may bring the key.
#[derive(Debug, Clone)]
pub struct Lane {
    pub service: String,
    pub variable: String,
}

/// The services that take a key, and the environment variables that may bring them.
pub open spec fn lane_table() -> Seq<(Seq<char>, Seq<char>)> {
    seq![
        ("apinex"@, "APINEX_KEY"@),
        ("langsearch"@, "LANGSEARCH_KEY"@),
        ("brave"@, "BRAVE_KEY"@),
        ("exa"@, "EXA_KEY"@),
        ("tavily"@, "TAVILY_KEY"@),
        ("serper"@, "SERPER_KEY"@),
        ("nim"@, "NIM_KEY"@),
    ]
}

/// Lanes by view.
pub open spec fn lane_views(v: Seq<Lane>) -> Seq<(Seq<char>, Seq<char>)> {
    Seq::new(v.len(), |i: int| (v[i].service@, v[i].variable@))
}

fn lane(service: &str, variable: &str) -> (r: Lane)
    ensures
        (r.service@, r.variable@) == (service@, variable@),
{
    Lane { service: service.to_string(), variable: variable.to_string() }
}

/// The services that take a key.
pub fn lanes() -> (r: Vec<Lane>)
    ensures
        lane_views(r@) == lane_table(),
{
    let mut out: Vec<Lane> = Vec::new();
    out.push(lane("apinex", "APINEX_KEY"));
    out.push(lane("langsearch", "LANGSEARCH_KEY"));
    out.push(lane("brave", "BRAVE_KEY"));
    out.push(lane("exa", "EXA_KEY"));
    out.push(lane("tavily", "TAVILY_KEY"));
    out.push(lane("serper", "SERPER_KEY"));
    out.push(lane("nim", "NIM_KEY"));
    proof {
        assert(lane_views(out@) =~= lane_table());
    }
    out
}

/// The name of the file that keeps the key of a service.
pub open spec fn file_of(service: Seq<char>) -> Seq<char> {
    service + "-key.txt"@
}

/// Where the key file of a service lies: that of the model in the application's data directory,
/// any other beside the program.
pub open spec fn place_of(service: Seq<char>) -> Place {
    if service == "nim"@ {
        Place::Appdata
    } else {
        Place::BesideProgram
    }
}

/// The name of the file that keeps the key of a service.
pub fn key_file(service: &str) -> (r: String)
    ensures
        r@ == file_of(service@),
{
    service.to_string().concat("-key.txt")
}

/// Where the key file of a service lies.
pub fn key_place(service: &str) -> (r: Place)
    ensures
        r == place_of(service@),
{
    if same(service, "nim") {
        Place::Appdata
    } else {
        Place::BesideProgram
    }
}

/// The key in a text, if there is one: the text without white space around it, unless nothing is
/// left.
pub open spec fn key_in(text: Option<Seq<char>>) -> Option<Seq<char>> {
    match text {
        Some(t) => if trimmed(t).len() == 0 {
            None
        } else {
            Some(trimmed(t))
        },
        None => None,
    }
}

/// An optional text by view.
pub open spec fn opt(s: Option<String>) -> Option<Seq<char>> {
    match s {
        Some(t) => Some(t@),
        None => None,
    }
}

/// The key in what was read from a variable, a file or a form, if there is one.
pub fn usable_key(text: Option<String>) -> (r: Option<String>)
    ensures
        opt(r) == key_in(opt(text)),
{
    match text {
        Some(t) => {
            let k = trim(t.as_str());
            if k.as_str().is_empty() {
                None
            } else {
                Some(k)
            }
        },
        None => None,
    }
}

/// A key that is to be written: into which file, and where that lies.
#[derive(Debug, Clone)]
pub struct KeyWrite {
    pub place: Place,
    pub file: String,
    pub key: String,
}

/// What is to be written when a service's key was given as this text: nothing where the text
/// holds no key.
pub fn key_write(service: &str, text: Option<String>) -> (r: Option<KeyWrite>)
    ensures
        match r {
            Some(w) => {
                &&& key_in(opt(text)) == Some(w.key@)
                &&& w.place == place_of(service@)
                &&& w.file@ == file_of(service@)
            },
            None => key_in(opt(text)) is None,
        },
{
    match usable_key(text) {
        Some(key) => Some(KeyWrite { place: key_place(service), file: key_file(service), key }),
        None => None,
    }
}

/// The model's key in its file, if the file could be read and holds one.
pub fn nim_key(file: Option<String>) -> (r: Option<String>)
    ensures
        opt(r) == key_in(opt(file)),
{
    usable_key(file)
}

/// Whether a service has a key, in either of the two places.
pub fn key_on(beside_program: Option<String>, appdata: Option<String>) -> (r: bool)
    ensures
        r == (key_in(opt(beside_program)) is Some || key_in(opt(appdata)) is Some),
{
    usable_key(beside_program).is_some() || usable_key(appdata).is_some()
}

/// The directories that lead to the application's data: under Windows `NoralWeb` in the user's
/// application data, elsewhere `.config/NoralWeb` in the home directory. Where the system names no
/// such base, the directory for temporary files takes its place.
pub open spec fn appdata_of(windows: bool, base: Option<Seq<char>>, temporary: Seq<char>) -> Seq<
    Seq<char>,
> {
    let root = match base {
        Some(b) => b,
        None => temporary,
    };
    if windows {
        seq![root, "NoralWeb"@]
    } else {
        seq![root, ".config"@, "NoralWeb"@]
    }
}

/// The directories that lead to the application's data, one in the other.
pub fn appdata_dir(windows: bool, base: Option<String>, temporary: String) -> (r: Vec<String>)
    ensures
        texts(r@) == appdata_of(windows, opt(base), temporary@),
{
    let mut out: Vec<String> = Vec::new();
    out.push(
        match base {
            Some(b) => b,
            None => temporary,
        },
    );
    if !windows {
        out.push(".config".to_string());
    }
    out.push("NoralWeb".to_string());
    proof {
        assert(texts(out@) =~= appdata_of(windows, opt(base), temporary@));
    }
    out
}

/// The path to the file that keeps the model's key, one step after the other.
pub fn nim_key_path(windows: bool, base: Option<String>, temporary: String) -> (r: Vec<String>)
    ensures
        texts(r@) == appdata_of(windows, opt(base), temporary@).push("nim-key.txt"@),
{
    let mut out = appdata_dir(windows, base, temporary);
    let ghost before = out@;
    out.push("nim-key.txt".to_string());
    proof {
        assert(texts(out@) =~= texts(before).push("nim-key.txt"@));
    }
    out
}

/// A key is kept without white space around it, and reading it back changes nothing.
pub proof fn law_keys_are_kept_as_they_are(text: Seq<char>)
    ensures
        key_in(Some(text)) matches Some(k) ==> key_in(Some(k)) == Some(k) && k.len() > 0,
{
    lemma_trimmed_twice(text);
}

proof fn lemma_trimmed_twice(s: Seq<char>)
    ensures
        trimmed(trimmed(s)) == trimmed(s),
    decreases s.len(),
{
    if s.len() > 0 {
        if white(s[0]) {
            lemma_trimmed_twice(s.skip(1));
        } else if white(s.last()) {
            lemma_trimmed_twice(s.drop_last());
        }
    }
}

} // verus!
