use zellij_attention::text::{
    decimal_text, ends_with, find, join_spaced, parse_number, same_text, split_on, starts_with,
    trim_suffix,
};

#[test]
fn suffixes_and_prefixes() {
    assert!(ends_with("build ⏳", " ⏳"));
    assert!(!ends_with("build ⏳", " ✅"));
    assert!(!ends_with("⏳", " ⏳"));
    assert!(ends_with("", ""));
    assert!(starts_with("zellij-attention::waiting::5", "zellij-attention::"));
    assert!(!starts_with("zellij-attention:waiting:5", "zellij-attention::"));
    assert!(same_text("é", "é"));
    assert!(!same_text("é", "e"));
}

#[test]
fn trimming_takes_every_copy() {
    assert_eq!(trim_suffix("build ⏳ ⏳ ⏳", " ⏳"), "build");
    assert_eq!(trim_suffix("build", " ⏳"), "build");
    assert_eq!(trim_suffix(" ⏳", " ⏳"), "");
    assert_eq!(trim_suffix("aaa", "aa"), "a");
}

#[test]
fn joining_puts_one_space() {
    assert_eq!(join_spaced("build", "✅"), "build ✅");
    assert_eq!(join_spaced("", ""), " ");
}

#[test]
fn splitting_takes_separators_from_the_left() {
    assert_eq!(split_on("a::b::c", "::"), vec!["a", "b", "c"]);
    assert_eq!(split_on("a:::b", "::"), vec!["a", ":b"]);
    assert_eq!(split_on("::::", "::"), vec!["", "", ""]);
    assert_eq!(split_on("", "::"), vec![""]);
    assert_eq!(split_on("a:b", "::"), vec!["a:b"]);
    assert_eq!(find("x⏳::y", "::"), Some(2));
    assert_eq!(find(":", "::"), None);
}

#[test]
fn numbers_are_written_in_decimal() {
    assert_eq!(decimal_text(0), "0");
    assert_eq!(decimal_text(9), "9");
    assert_eq!(decimal_text(10), "10");
    assert_eq!(decimal_text(18446744073709551615), "18446744073709551615");
}

#[test]
fn numbers_are_read_as_the_standard_library_reads_them() {
    let cases: Vec<&str> = vec![
        "0", "5", "+5", "0000000000007", "4294967295", "4294967296", "99999999999999999999", "", "+",
        "-", "-1", "-0", "++1", " 1", "1 ", "1a", "a", "٣", "1.0", "0x10",
    ];
    for case in cases {
        assert_eq!(parse_number(case), case.parse::<u32>().ok(), "{}", case);
    }
}

#[test]
fn written_numbers_are_read_back() {
    for n in [0u32, 1, 9, 10, 99, 100, 65535, 4294967295] {
        assert_eq!(parse_number(&decimal_text(n as u64)), Some(n));
    }
}
