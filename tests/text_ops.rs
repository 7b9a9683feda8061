use concurrently::text::{contains, decimal_text, parse_i32, replace, split, starts_with, truncate};

#[test]
fn replace_rewrites_every_occurrence() {
    assert_eq!(replace("npm:a && npm:b", "npm:", "npm run "), "npm run a && npm run b");
    assert_eq!(replace("aaa", "aa", "b"), "ba");
    assert_eq!(replace("", "x", "y"), "");
}

#[test]
fn split_matches_std() {
    assert_eq!(split("a,b,,c", ","), vec!["a", "b", "", "c"]);
    assert_eq!(split("", ","), vec![""]);
    assert_eq!(split("ab", ""), vec!["", "a", "b", ""]);
    assert_eq!(split("x--y--", "--"), vec!["x", "y", ""]);
}

#[test]
fn search_helpers() {
    assert!(contains("run pnpm:dev", "pnpm:"));
    assert!(!contains("run dev", "pnpm:"));
    assert!(contains("abc", ""));
    assert!(starts_with("npm:dev", "npm:"));
    assert!(!starts_with("xnpm:dev", "npm:"));
}

#[test]
fn truncate_counts_characters() {
    assert_eq!(truncate("héllo world", 5), "héllo");
    assert_eq!(truncate("abc", 10), "abc");
    assert_eq!(truncate("abc", 0), "");
}

#[test]
fn decimal_text_writes_numbers() {
    assert_eq!(decimal_text(0), "0");
    assert_eq!(decimal_text(7), "7");
    assert_eq!(decimal_text(1234567890), "1234567890");
    assert_eq!(decimal_text(u64::MAX), u64::MAX.to_string());
}

#[test]
fn parse_i32_matches_std() {
    for s in ["0", "42", "+7", "-13", "2147483647", "-2147483648", "2147483648", "-2147483649", "", "-", "+", "4x", " 4", "99999999999999"] {
        assert_eq!(parse_i32(s), s.parse::<i32>().ok(), "input {:?}", s);
    }
}
