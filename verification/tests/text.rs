use msym::text::{
    chars_of, find_chars, is_whitespace, join_lines_nl, split_lines, str_eq_ignore_ascii_case,
    string_of, trim_start_index,
};

const SAMPLES: [&str; 12] = [
    "",
    "\n",
    "\n\n",
    "a",
    "a\n",
    "a\r\nb",
    "a\r\nb\r\n",
    "a\rb\r",
    "\r",
    "x\n\ny\n",
    "  \t lead\u{3000}x",
    "é\u{2028}z\r\n\r\n",
];

#[test]
fn whitespace_matches_std_for_every_char() {
    for c in (0u32..=0x10FFFF).filter_map(char::from_u32) {
        assert_eq!(is_whitespace(c), c.is_whitespace(), "{:?}", c);
    }
}

#[test]
fn split_lines_matches_std_lines() {
    for s in SAMPLES {
        let mine: Vec<String> = split_lines(&chars_of(s)).iter().map(|l| string_of(l)).collect();
        let std: Vec<String> = s.lines().map(|l| l.to_string()).collect();
        assert_eq!(mine, std, "{:?}", s);
    }
}

#[test]
fn join_lines_appends_final_newline() {
    let ls = vec![chars_of("a"), chars_of(""), chars_of("b")];
    assert_eq!(string_of(&join_lines_nl(&ls)), "a\n\nb\n");
    assert_eq!(string_of(&join_lines_nl(&Vec::new())), "\n");
}

#[test]
fn trim_start_matches_std() {
    for s in SAMPLES {
        let v = chars_of(s);
        let k = trim_start_index(&v);
        assert_eq!(string_of(&v[k..]), s.trim_start(), "{:?}", s);
    }
}

#[test]
fn ascii_case_insensitive_comparison() {
    assert!(str_eq_ignore_ascii_case("ROUNDED", &chars_of("rounded")));
    assert!(!str_eq_ignore_ascii_case("rounde", &chars_of("rounded")));
    assert!(!str_eq_ignore_ascii_case("roundéd", &chars_of("rounded")));
}

#[test]
fn find_chars_finds_first_occurrence() {
    let v = chars_of("public val a; public val b");
    assert_eq!(find_chars(&v, &chars_of("public val "), 0), Some(0));
    assert_eq!(find_chars(&v, &chars_of("public val "), 1), Some(14));
    assert_eq!(find_chars(&v, &chars_of("private"), 0), None);
}
