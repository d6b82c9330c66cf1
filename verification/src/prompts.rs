//! What the language model is told of its task.

use vstd::prelude::*;
use crate::text::{at, has, same};

verus! {

/// What the model is told of its task when it looks for people.
pub const OSINT_PROMPT: &'static str = "Sen Nöral Web'in OSINT ajanısın. Türkçe yanıt verirsin. Görevin: kişi, kullanıcı adı ve sosyal profil korelasyonu. \
        Kurallar: (1) Önce web_search ile geniş tara — sorguları spesifik yaz (tam ad + platform/ipucu ekle, örn. '\"Ad Soyad\" instagram'). Sonra fetch_page ile profil bio'larındaki linkleri takip et, siteler arası bağlantı kur (github↔mastodon↔bluesky↔X↔kişisel site). \
        (2) Tahmin üretme; her iddiayı kaynak URL ile destekle. (3) Emin olmadıklarını 'olasılık' diye etiketle. \
        (4) Önemli bulguları open_tabs ile toplu aç (tek tek open_tab yerine). (5) En fazla 8 araç adımı; sonra toparla: kim, nerede aktif, kanıt linkleri.";

/// What the model is told of its task when it researches a question.
pub const RESEARCH_PROMPT: &'static str = "Sen Nöral Web'in araştırma ajanısın. Türkçe yanıt verirsin. Görevin: soruyu derinlemesine araştırıp kaynaklı yanıt vermek. \
        Kurallar: (1) web_search ile farklı açılardan 2-4 spesifik sorgu yap, (2) kritik sayfaları fetch_page ile oku, \
        (3) yanıtında kaynak URL'lerini belirt, (4) önemli sayfaları open_tabs ile toplu aç, (5) en fazla 8 araç adımı.";

/// What the model is told of its task, by mode.
pub open spec fn prompt_of(mode: Seq<char>) -> Seq<char> {
    if mode == "osint"@ {
        OSINT_PROMPT@
    } else {
        RESEARCH_PROMPT@
    }
}

/// What the model is told of its task: mode `osint` looks for people, any other mode researches.
pub fn sys_prompt(mode: &str) -> (r: String)
    ensures
        r@ == prompt_of(mode@),
{
    if same(mode, "osint") {
        OSINT_PROMPT.to_string()
    } else {
        RESEARCH_PROMPT.to_string()
    }
}

/// Whether `b` never stands right behind `a` where `a` stands in the places `from..to` of a text.
spec fn apart(s: Seq<char>, a: char, b: char, from: int, to: int) -> bool
    decreases to - from,
{
    if from >= to {
        true
    } else if from + 1 == to {
        !(s[from] == a && s[to] == b)
    } else {
        let middle = (from + to) / 2;
        apart(s, a, b, from, middle) && apart(s, a, b, middle, to)
    }
}

proof fn lemma_apart(s: Seq<char>, a: char, b: char, from: int, to: int, i: int)
    requires
        apart(s, a, b, from, to),
        from <= i < to,
    ensures
        !(s[i] == a && s[i + 1] == b),
    decreases to - from,
{
    if from + 1 < to {
        let middle = (from + to) / 2;
        if i < middle {
            lemma_apart(s, a, b, from, middle, i);
        } else {
            lemma_apart(s, a, b, middle, to, i);
        }
    }
}

/// A text in which no v stands behind an r does not name harvest.
proof fn lemma_names_no_harvest(s: Seq<char>)
    requires
        s.len() > 0,
        apart(s, 'r', 'v', 0, s.len() - 1),
    ensures
        !(has(s, "harvest"@)),
{
    reveal_strlit("harvest");
    assert forall|i: int| !at(s, "harvest"@, i) by {
        if at(s, "harvest"@, i) {
            let w = s.subrange(i, i + 7);
            assert(w[2] == 'r' && w[3] == 'v');
            lemma_apart(s, 'r', 'v', 0, s.len() - 1, i + 2);
        }
    }
}

proof fn lemma_osint_prompt()
    ensures
        OSINT_PROMPT@.len() == 628,
        apart(OSINT_PROMPT@, 'r', 'v', 0, 627),
{
    reveal_strlit(
        "Sen Nöral Web'in OSINT ajanısın. Türkçe yanıt verirsin. Görevin: kişi, kullanıcı adı ve sosyal profil korelasyonu. \
        Kurallar: (1) Önce web_search ile geniş tara — sorguları spesifik yaz (tam ad + platform/ipucu ekle, örn. '\"Ad Soyad\" instagram'). Sonra fetch_page ile profil bio'larındaki linkleri takip et, siteler arası bağlantı kur (github↔mastodon↔bluesky↔X↔kişisel site). \
        (2) Tahmin üretme; her iddiayı kaynak URL ile destekle. (3) Emin olmadıklarını 'olasılık' diye etiketle. \
        (4) Önemli bulguları open_tabs ile toplu aç (tek tek open_tab yerine). (5) En fazla 8 araç adımı; sonra toparla: kim, nerede aktif, kanıt linkleri.",
    );
    reveal_with_fuel(apart, 12);
}

proof fn lemma_research_prompt()
    ensures
        RESEARCH_PROMPT@.len() == 345,
        apart(RESEARCH_PROMPT@, 'r', 'v', 0, 344),
{
    reveal_strlit(
        "Sen Nöral Web'in araştırma ajanısın. Türkçe yanıt verirsin. Görevin: soruyu derinlemesine araştırıp kaynaklı yanıt vermek. \
        Kurallar: (1) web_search ile farklı açılardan 2-4 spesifik sorgu yap, (2) kritik sayfaları fetch_page ile oku, \
        (3) yanıtında kaynak URL'lerini belirt, (4) önemli sayfaları open_tabs ile toplu aç, (5) en fazla 8 araç adımı.",
    );
    reveal_with_fuel(apart, 12);
}

/// Every mode but `osint` has the one task, and `osint` has another. Neither is empty, and neither
/// names the tool that this server does not have.
pub proof fn law_prompts_differ(mode: Seq<char>)
    ensures
        mode != "osint"@ ==> prompt_of(mode) == RESEARCH_PROMPT@ && prompt_of(mode) != prompt_of(
            "osint"@,
        ),
        prompt_of(mode).len() > 0,
        !(has(prompt_of(mode), "harvest"@)),
{
    lemma_osint_prompt();
    lemma_research_prompt();
    lemma_names_no_harvest(OSINT_PROMPT@);
    lemma_names_no_harvest(RESEARCH_PROMPT@);
}

} // verus!
