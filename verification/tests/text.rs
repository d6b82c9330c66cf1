use noral_web::text::{
    clip, contains, count_occurrences, decimal, find, join, same, trim, up_to, words_of, Part,
};

#[test]
fn words_are_runs_of_one_kind() {
    assert_eq!(words_of("a-b  cd!", Part::Alphanumeric), vec!["a", "b", "cd"]);
    assert_eq!(words_of(" a-b\t cd! ", Part::Visible), vec!["a-b", "cd!"]);
    assert!(words_of(" \n", Part::Visible).is_empty());
    assert_eq!(words_of("ağ²", Part::Alphanumeric), vec!["ağ²"]);
}

#[test]
fn texts_are_found_where_they_first_stand() {
    assert_eq!(find("üç üç", "ç"), Some(1));
    assert_eq!(find("abc", "d"), None);
    assert_eq!(find("abc", ""), Some(0));
    assert!(contains("abc", "bc"));
    assert!(!contains("abc", "ac"));
    assert_eq!(up_to("a/b/c", "/"), "a");
    assert_eq!(up_to("abc", "/"), "abc");
    assert_eq!(up_to("/abc", "/"), "");
}

#[test]
fn occurrences_do_not_overlap() {
    for (s, pat) in [("aaaa", "aa"), ("aaa", "aa"), ("abcabc", "bc"), ("abc", "x"), ("", "x"), ("çç", "")] {
        assert_eq!(count_occurrences(s, pat), s.matches(pat).count() as u128);
    }
    assert_eq!(count_occurrences("aaaa", "aa"), 2);
    assert_eq!(count_occurrences("üü", ""), 3);
}

#[test]
fn texts_are_clipped_by_characters() {
    assert_eq!(clip("çğış", 2), "çğ");
    assert_eq!(clip("ab", 2), "ab");
    assert_eq!(clip("ab", 9), "ab");
    assert_eq!(clip("ab", 0), "");
}

#[test]
fn texts_are_joined_and_trimmed() {
    let list = vec!["a".to_string(), "".to_string(), "b".to_string()];
    assert_eq!(join(&list, "--"), "a----b");
    assert_eq!(join(&Vec::new(), "--"), "");
    assert_eq!(trim(" \t a b\u{a0}\n"), "a b");
    assert_eq!(trim("  "), "");
    assert!(same("ab", "ab"));
    assert!(!same("ab", "abc"));
    assert!(!same("ab", "ac"));
}

#[test]
fn numbers_are_written_in_decimal() {
    for n in [0u64, 7, 10, 99, 100, 2048, u64::MAX] {
        assert_eq!(decimal(n), n.to_string());
    }
}
