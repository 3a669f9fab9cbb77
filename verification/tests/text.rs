use oidc_rs::{is_whitespace, split_whitespace, trim, trim_end, trim_end_char, trim_start};

#[test]
fn whitespace_matches_std_for_every_char() {
    for u in 0u32..=0x10FFFF {
        if let Some(c) = char::from_u32(u) {
            assert_eq!(is_whitespace(c), c.is_whitespace(), "char {u:#x}");
        }
    }
}

#[test]
fn trimming() {
    assert_eq!(trim_start(" \t a b "), "a b ");
    assert_eq!(trim_end(" a b \u{a0}\n"), " a b");
    assert_eq!(trim("  a  "), "a");
    assert_eq!(trim("   "), "");
    assert_eq!(trim_end_char("https://idp//", '/'), "https://idp");
    assert_eq!(trim_end_char("///", '/'), "");
}

#[test]
fn words() {
    assert_eq!(split_whitespace(" a  bc\u{2003}d "), vec!["a", "bc", "d"]);
    assert!(split_whitespace("").is_empty());
    assert!(split_whitespace(" \n ").is_empty());
    assert_eq!(split_whitespace("x"), vec!["x"]);
    let s = "jobs.read  jobs.write\u{3000}admin";
    let expected: Vec<&str> = s.split_whitespace().collect();
    assert_eq!(split_whitespace(s), expected);
}
