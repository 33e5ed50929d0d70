use sensor_recorder::session::{
    accept_choice, check_base_dir, next_session_name, read_height, trim, BaseDirError, HeightReply,
};
use sensor_recorder::text::{decimal_string, is_blank_line};

#[test]
fn base_dir_checks() {
    assert_eq!(check_base_dir(false, false), Err(BaseDirError::Missing));
    assert_eq!(check_base_dir(true, false), Err(BaseDirError::NotADirectory));
    assert_eq!(check_base_dir(true, true), Ok(()));
}

#[test]
fn session_name_counts_entries_not_names() {
    // entries "1", "2" and "4": three readable entries
    assert_eq!(next_session_name(&vec![true, true, true]), "4");
}

#[test]
fn session_name_of_empty_dir_and_unreadable_entries() {
    assert_eq!(next_session_name(&vec![]), "1");
    assert_eq!(next_session_name(&vec![true, false, true]), "3");
    assert_eq!(next_session_name(&vec![true; 11]), "12");
}

#[test]
fn decimal_numerals() {
    assert_eq!(decimal_string(0), "0");
    assert_eq!(decimal_string(9), "9");
    assert_eq!(decimal_string(10), "10");
    assert_eq!(decimal_string(1234567890), "1234567890");
    assert_eq!(decimal_string(u64::MAX), "18446744073709551615");
}

#[test]
fn blank_line_detection() {
    assert!(is_blank_line(""));
    assert!(is_blank_line(" \t\r\n"));
    assert!(is_blank_line("\u{2003}\u{85}"));
    assert!(!is_blank_line(" 1 "));
}

#[test]
fn trim_both_ends() {
    assert_eq!(trim("  ab c \n"), "ab c");
    assert_eq!(trim("\u{3000}x\u{a0}"), "x");
    assert_eq!(trim("   "), "");
    assert_eq!(trim(""), "");
}

#[test]
fn choice_replies() {
    let sexes = ["f", "m"];
    let hands = ["l", "r"];
    assert_eq!(accept_choice("  F \n", &sexes, None), Some("f".to_string()));
    assert_eq!(accept_choice("m\n", &sexes, None), Some("m".to_string()));
    assert_eq!(accept_choice("x\n", &sexes, None), None);
    assert_eq!(accept_choice("\n", &sexes, None), None);
    assert_eq!(accept_choice("\n", &hands, Some("r")), Some("r".to_string()));
    assert_eq!(accept_choice(" L\n", &hands, Some("r")), Some("l".to_string()));
    assert_eq!(accept_choice("left\n", &hands, Some("r")), None);
}

#[test]
fn height_replies() {
    assert_eq!(read_height("180\n"), HeightReply::Height(180));
    assert_eq!(read_height("  50 "), HeightReply::Height(50));
    assert_eq!(read_height("+300"), HeightReply::Height(300));
    assert_eq!(read_height("\n"), HeightReply::Skipped);
    assert_eq!(read_height("49"), HeightReply::OutOfRange);
    assert_eq!(read_height("301"), HeightReply::OutOfRange);
    assert_eq!(read_height("-170"), HeightReply::OutOfRange);
    assert_eq!(read_height("2147483647"), HeightReply::OutOfRange);
    assert_eq!(read_height("-2147483648"), HeightReply::OutOfRange);
    assert_eq!(read_height("2147483648"), HeightReply::NotANumber);
    assert_eq!(read_height("abc"), HeightReply::NotANumber);
    assert_eq!(read_height("1 80"), HeightReply::NotANumber);
    assert_eq!(read_height("+"), HeightReply::NotANumber);
    assert_eq!(read_height("-"), HeightReply::NotANumber);
    assert_eq!(read_height("17.5"), HeightReply::NotANumber);
}
