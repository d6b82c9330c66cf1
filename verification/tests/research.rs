use noral_web::order::order_by;
use noral_web::ranking::{order_key, rank, Placed, Scored};
use noral_web::research::{
    cand, coverage, host_of, lower_turkish, mock_candidates, normalize, signals, squished, tokenize,
    Cosine, NeuralRank,
};

fn terms(q: &str) -> Vec<String> {
    tokenize(q)
}

fn value(c: &Cosine) -> f64 {
    if c.qn == 0 || c.dn == 0 {
        0.0
    } else {
        c.dot as f64 / ((c.qn as f64).sqrt() * (c.dn as f64).sqrt())
    }
}

#[test]
fn kosinus_benzerligi_sifirdan_buyuk() {
    let hits = NeuralRank.score(
        &tokenize("kedi maması"),
        &cand("en iyi kedi maması", "https://x.com", "kedi maması seçimi", "ddg"),
    );
    let cos = value(&hits.cosine);
    assert!(cos > 0.3);
}

#[test]
fn texts_are_broken_into_terms() {
    assert_eq!(tokenize("Kedi maması, en iyi!"), vec!["kedi", "maması", "iyi"]);
    assert_eq!(tokenize("Isparta ve IĞDIR"), vec!["ısparta", "ığdır"]);
    assert!(tokenize("a bc -- ").is_empty());
    assert_eq!(tokenize("rust2021-ed x"), vec!["rust2021"]);
}

#[test]
fn texts_are_normalized() {
    assert_eq!(normalize("Berkcan-Özbalci"), "berkcan özbalci");
    assert_eq!(normalize("  a -- B_c! "), "a b c");
    assert_eq!(normalize("--"), "");
    assert_eq!(squished("Berkcan Özbalci"), "berkcanozbalci");
    assert_eq!(squished("ÇĞIÖŞÜ ı-2"), "cgiosui2");
    assert_eq!(squished(" - "), "");
}

#[test]
fn sources_are_trusted_differently() {
    let table = [
        ("gecmis", 140),
        ("wikipedia", 125),
        ("ddg-özet", 120),
        ("wikidata", 120),
        ("dbpedia", 120),
        ("github", 115),
        ("brave", 115),
        ("stack", 115),
        ("apinex", 120),
        ("apinex-derin", 125),
        ("exa", 120),
        ("tavily", 120),
        ("serper", 120),
        ("langsearch", 120),
        ("arxiv", 110),
        ("akademik", 110),
        ("hackernews", 110),
        ("ddg-web", 105),
        ("ddg", 100),
        ("bing", 100),
        ("npm", 100),
        ("crates", 100),
        ("mastodon", 100),
        ("bluesky", 100),
        ("twitter", 105),
        ("wiby", 100),
        ("cc", 95),
        ("derin", 90),
        ("yerli", 85),
        ("", 85),
    ];
    for (source, hundredths) in table {
        assert_eq!(NeuralRank::authority(source), hundredths, "{}", source);
    }
}

#[test]
fn terms_are_counted_in_texts() {
    let t = terms("kedi mama");
    assert_eq!(NeuralRank::term_hits(&t, "KEDI kedi Kediler mamma"), vec![3, 0]);
    assert_eq!(coverage(&t, "kedi mamalar"), 2);
    assert_eq!(coverage(&t, "mam"), 0);
    let c = NeuralRank::cosine(&terms("kedi kedi mama"), "Mama kedi; süt süt");
    assert_eq!(c, Cosine { dot: 3, qn: 5, dn: 6 });
    let same = NeuralRank::cosine(&terms("kedi mama"), "mama kedi");
    assert_eq!(same.dot * same.dot, same.qn * same.dn);
    assert_eq!(NeuralRank::cosine(&Vec::new(), "kedi"), Cosine { dot: 0, qn: 0, dn: 1 });
    assert_eq!(NeuralRank::cosine(&terms("kedi"), ""), Cosine { dot: 0, qn: 1, dn: 0 });
}

#[test]
fn hosts_are_read_from_addresses() {
    assert_eq!(host_of("https://a.com/x"), "a.com");
    assert_eq!(host_of("a.com/x"), "a.com");
    assert_eq!(host_of("a.com"), "a.com");
    assert_eq!(host_of("http://a.com://b/c"), "a.com");
    assert_eq!(host_of("://"), "");
    assert_eq!(host_of(""), "");
    assert_eq!(host_of("https://ü.com:80/?q=/"), "ü.com:80");
}

#[test]
fn names_are_told_apart() {
    let query = "Berkcan Özbalci";
    let ozan = signals(
        query,
        &cand("Berkcan Ozan", "https://x.com/berkcanozan", "Berkcan Ozan profili", "twitter"),
    );
    assert!(!ozan.exact && !ozan.surname && !ozan.handle);
    assert_eq!((ozan.terms, ozan.title_terms, ozan.snippet_terms, ozan.all_terms), (2, 1, 1, 1));
    let full = signals(
        query,
        &cand(
            "Berkcan Özbalci",
            "https://github.com/berkcanozbalci",
            "Berkcan Özbalci projeleri",
            "github",
        ),
    );
    assert!(full.exact && full.surname && full.handle && full.shallow);
    assert_eq!((full.title_terms, full.snippet_terms, full.all_terms), (2, 2, 2));
    assert_eq!(full.authority, 115);
    assert_eq!(full.length, "Berkcan Özbalci".len() + "Berkcan Özbalci projeleri".len());
    let by_url = signals(query, &cand("profil", "https://x.com/BerkcanOzbalci", "", "twitter"));
    assert!(by_url.exact && by_url.handle && !by_url.surname);
}

#[test]
fn signals_of_unusual_candidates() {
    let s = signals("ab", &cand("ab", "u", "ab", "wikipedia"));
    assert!(s.hits.is_none());
    assert_eq!((s.terms, s.all_terms), (0, 0));
    assert_eq!(s.authority, 75);
    assert!(s.exact && s.surname && !s.handle);
    let s = signals("kedi", &cand("kedi", "u", "", "wikipedia"));
    assert_eq!(s.authority, 125);
    let mut c = cand("x", "u", &"ş".repeat(1500), "bing");
    c.depth = 1;
    c.page = "kedi kedi".to_string();
    let s = signals("kedi", &c);
    assert_eq!(s.length, 2000);
    assert!(!s.shallow);
    assert_eq!(s.page, Cosine { dot: 2, qn: 1, dn: 4 });
    let none = signals("--", &cand("--", "u", "--", "bing"));
    assert!(!none.exact && !none.handle);
}

#[test]
fn a_placeholder_stands_in_when_offline() {
    let r = mock_candidates("kedi");
    assert_eq!(r.len(), 1);
    assert_eq!(r[0].title, "kedi — çevrimdışı önizleme");
    assert_eq!(r[0].url, "https://example.com");
    assert_eq!(r[0].snippet, "Bağlantı kurulamadı; bu bir yer tutucu sonuçtur.");
    assert_eq!((r[0].source.as_str(), r[0].depth, r[0].page.as_str()), ("yerli", 0, ""));
}

fn item(url: &str, alone: i64) -> Scored {
    Scored { url: url.to_string(), alone, once: alone * 3 / 4, twice: alone * 9 / 16 }
}

fn place(index: usize, repeats: u8) -> Placed {
    Placed { index, repeats }
}

#[test]
fn neighbours_of_one_host_are_pushed_down() {
    let r = rank(&vec![
        item("https://a/1", 100),
        item("https://a/2", 96),
        item("https://a/3", 92),
        item("https://b/1", 60),
        item("https://a/4", 88),
    ]);
    assert_eq!(r, vec![place(0, 0), place(1, 1), place(3, 0), place(2, 2), place(4, 2)]);
    assert!(rank(&Vec::new()).is_empty());
    let far = rank(&vec![item("https://a/1", 9), item("https://b", 8), item("https://a/2", 7)]);
    assert_eq!(far, vec![place(0, 0), place(1, 0), place(2, 1)]);
    let farther =
        rank(&vec![item("a", 9), item("b", 8), item("c", 7), item("a", 6)]);
    assert_eq!(farther, vec![place(0, 0), place(1, 0), place(2, 0), place(3, 0)]);
}

#[test]
fn orders_are_stable() {
    assert_eq!(order_by(&vec![1, 3, 2, 3, 1]), vec![1, 3, 2, 0, 4]);
    assert_eq!(order_by(&vec![i64::MIN, i64::MAX, -1]), vec![1, 2, 0]);
    assert!(order_by(&Vec::new()).is_empty());
}

#[test]
fn cosines_lie_between_nought_and_one() {
    let texts = ["kedi mama kedi", "mama süt", "kedi", "bambaşka bir metin", ""];
    for a in texts {
        for b in texts {
            let c = NeuralRank::cosine(&terms(a), b);
            let d = NeuralRank::cosine(&terms(b), a);
            assert!(c.dot * c.dot <= c.qn * c.dn);
            assert_eq!((c.dot, c.qn, c.dn), (d.dot, d.dn, d.qn));
            assert_eq!(c.qn > 0, !terms(a).is_empty());
        }
    }
    let c = NeuralRank::cosine(&terms("kedi mama kedi"), "mama süt");
    assert_eq!(c, Cosine { dot: 1, qn: 5, dn: 2 });
}

#[test]
fn longer_texts_cover_no_fewer_terms() {
    let t = terms("kedi mama süt");
    assert_eq!(coverage(&t, "kedi"), 1);
    assert_eq!(coverage(&t, "en iyi kedi maması"), 2);
    assert_eq!(coverage(&t, "süt, en iyi kedi maması, kedi"), 3);
    let s = signals("kedi mama süt", &cand("kedi", "u", "mama ve kedi", "gecmis"));
    assert_eq!((s.title_terms, s.snippet_terms, s.all_terms, s.terms), (1, 2, 2, 3));
    assert_eq!(s.authority, 140);
}

#[test]
fn capitals_do_not_hide_a_match() {
    let pairs = [
        ("IRMAK", "IRMAK"),
        ("IBM", "ibm"),
        ("ibm", "IBM"),
        ("Instagram", "instagram"),
        ("instagram", "Instagram"),
    ];
    for (query, title) in pairs {
        let s = signals(query, &cand(title, "https://x.com", title, "wikipedia"));
        assert_eq!((s.terms, s.title_terms, s.snippet_terms, s.all_terms), (1, 1, 1, 1), "{}", query);
        let hits = s.hits.unwrap();
        assert_eq!((hits.title, hits.snippet), (vec![1], vec![1]));
        assert!(s.exact && s.surname);
        assert_eq!(s.authority, 125);
    }
    for (query, title) in [("ısparta", "Isparta"), ("kir", "kır")] {
        let s = signals(query, &cand(title, "u", "", "bing"));
        assert_eq!((s.title_terms, s.surname), (0, false), "{}", query);
        assert_eq!(s.hits.unwrap().title, vec![0]);
    }
    assert_eq!(NeuralRank::term_hits(&terms("IRMAK"), "IRMAK ırmak"), vec![1]);
    assert_eq!(NeuralRank::cosine(&terms("IRMAK"), "ırmak"), Cosine { dot: 1, qn: 1, dn: 1 });
    assert_eq!(lower_turkish("ISI, Ilık"), "ısı, ılık");
}

#[test]
fn the_last_word_counts_though_it_is_short() {
    let s = signals("Ali Ak", &cand("Ali Veli", "https://x.com/1", "", "bing"));
    assert!(!s.surname);
    let s = signals("Ali Ak", &cand("Ak, Ali", "https://x.com/1", "", "bing"));
    assert!(s.surname);
    assert!(!signals("--", &cand("--", "u", "", "bing")).surname);
}

#[test]
fn empty_pages_count_nothing() {
    let s = signals("kedi mama", &cand("kedi", "u", "", "bing"));
    assert_eq!(s.page, Cosine { dot: 0, qn: 2, dn: 0 });
}

#[test]
fn spellings_agree() {
    for q in ["Kedi  Maması, en iyi!", "a-b cde cde", "", "--", "ŞEKER 2x"] {
        let n = normalize(q);
        assert_eq!(normalize(&n), n);
        let long: Vec<&str> = n.split(' ').filter(|w| w.chars().count() > 2).collect();
        assert_eq!(tokenize(q), long);
        assert_eq!(n.is_empty(), !q.to_lowercase().chars().any(|c| c.is_alphanumeric()));
    }
    for s in ["Some_User-Name 42", "IBM i", "", " .,"] {
        let one = squished(s);
        assert_eq!(one, normalize(s).replace(' ', ""));
        assert_eq!(squished(&normalize(s)), one);
        assert_eq!(squished(&one), one);
    }
}

#[test]
fn keys_order_like_numbers() {
    let numbers = [-f64::INFINITY, -2.5, -0.75, -0.0, 0.0, 1e-300, 0.5, 0.75, 1.0, f64::INFINITY];
    for a in numbers {
        for b in numbers {
            let (x, y) = (order_key(a.to_bits()), order_key(b.to_bits()));
            assert_eq!(x.cmp(&y), a.total_cmp(&b), "{} {}", a, b);
        }
    }
    assert_eq!(order_key(0), 0);
    assert_eq!(order_key(1 << 63), -1);
    assert_eq!(order_key(u64::MAX), i64::MIN);
}
