use async_jira_cli::text::{is_letter_option, parse_u32_str, parse_u8_str, trim_end_matches_char, trim_end_white};
use async_jira_cli::utils::{append_bytes, parse_4_bytes};

#[test]
fn test_parse_4_bytes_is_little_endian() {
    assert_eq!(parse_4_bytes(&[49, 9, 0, 0]), 2353);
    assert_eq!(parse_4_bytes(&[0xff, 0xff, 0xff, 0xff, 7]), u32::MAX);
}

#[test]
fn test_append_bytes() {
    let mut out = vec![1u8, 2];
    append_bytes(&mut out, &[3, 4]);
    assert_eq!(out, vec![1, 2, 3, 4]);
}

#[test]
fn test_trims() {
    assert_eq!(trim_end_matches_char("name\n\n", '\n'), "name");
    assert_eq!(trim_end_matches_char("name \n", '\n'), "name ");
    assert_eq!(trim_end_white("3 \t\r\n"), "3");
    assert_eq!(trim_end_white("y\u{3000}"), "y");
    assert_eq!(trim_end_white(" y"), " y");
}

#[test]
fn test_parse_numbers_as_std_does() {
    for text in ["0", "97", "+4", "4294967295", "4294967296", "", "+", "-1", " 1", "1a"] {
        assert_eq!(parse_u32_str(text), text.parse::<u32>().ok(), "{}", text);
    }
    for text in ["0", "255", "256", "+3", "-0", "x"] {
        assert_eq!(parse_u8_str(text), text.parse::<u8>().ok(), "{}", text);
    }
}

#[test]
fn test_letter_options() {
    assert!(is_letter_option("q", 'q', 'Q'));
    assert!(is_letter_option("Q", 'q', 'Q'));
    assert!(!is_letter_option("qq", 'q', 'Q'));
    assert!(!is_letter_option("", 'q', 'Q'));
}
