use lineutils::wc::{
    configure, count, format_field, report, report_total, tally, FileInfo, InvalidUtf8,
};

#[test]
fn test_count() {
    let text = "I don't want the world. I just want your half.\r\n";
    let info = count(text.as_bytes());
    assert!(info.is_ok());
    let expected = FileInfo {
        num_lines: 1,
        num_words: 10,
        num_chars: 48,
        num_bytes: 48,
    };
    assert_eq!(info.unwrap(), expected);
}

#[test]
fn test_format_field() {
    assert_eq!(format_field(1, false), "");
    assert_eq!(format_field(3, true), "       3");
    assert_eq!(format_field(10, true), "      10");
}

#[test]
fn format_field_wider_than_the_column() {
    assert_eq!(format_field(12345678, true), "12345678");
    assert_eq!(format_field(123456789, true), "123456789");
    assert_eq!(format_field(0, true), "       0");
}

#[test]
fn count_of_nothing() {
    assert_eq!(
        count(b"").unwrap(),
        FileInfo { num_lines: 0, num_words: 0, num_bytes: 0, num_chars: 0 }
    );
}

#[test]
fn count_without_final_line_feed() {
    assert_eq!(
        count(b"one two\nthree").unwrap(),
        FileInfo { num_lines: 2, num_words: 3, num_bytes: 13, num_chars: 13 }
    );
}

#[test]
fn count_blank_lines_and_runs_of_space() {
    assert_eq!(
        count(b"\n\n  a \t b\n\n").unwrap(),
        FileInfo { num_lines: 4, num_words: 2, num_bytes: 11, num_chars: 11 }
    );
}

#[test]
fn count_characters_of_more_than_one_byte() {
    let text = "á é\u{a0}í\n";
    assert_eq!(
        count(text.as_bytes()).unwrap(),
        FileInfo { num_lines: 1, num_words: 3, num_bytes: 10, num_chars: 6 }
    );
}

#[test]
fn count_refuses_invalid_utf8() {
    assert_eq!(count(&[b'a', 0xff, b'\n']), Err(InvalidUtf8));
    assert_eq!(count(&[0xc3]), Err(InvalidUtf8));
}

#[test]
fn tally_agrees_with_count() {
    let text = "a b\nc\n";
    assert_eq!(tally(text), count(text.as_bytes()).unwrap());
}

#[test]
fn default_columns() {
    let config = configure(vec!["-".to_string()], false, false, false, false);
    assert!(config.lines && config.words && config.bytes && !config.char);
    let config = configure(vec![], false, false, false, true);
    assert!(!config.lines && !config.words && !config.bytes && config.char);
    let config = configure(vec![], true, false, true, false);
    assert!(config.lines && !config.words && config.bytes && !config.char);
}

#[test]
fn report_lines() {
    let info = FileInfo { num_lines: 1, num_words: 10, num_bytes: 48, num_chars: 48 };
    let config = configure(vec![], false, false, false, false);
    assert_eq!(report(&info, &config, "fox.txt"), "       1      10      48 fox.txt");
    assert_eq!(report(&info, &config, "-"), "       1      10      48");
    assert_eq!(report(&info, &config, "--"), "       1      10      48 --");
    assert_eq!(report_total(&info, &config), "       1      10      48 total");
    let config = configure(vec![], false, true, false, true);
    assert_eq!(report(&info, &config, "a"), "      10      48 a");
}

#[test]
fn totals() {
    let a = FileInfo { num_lines: 1, num_words: 2, num_bytes: 3, num_chars: 4 };
    let b = FileInfo { num_lines: 10, num_words: 20, num_bytes: 30, num_chars: 40 };
    assert_eq!(
        a.plus(&b),
        Some(FileInfo { num_lines: 11, num_words: 22, num_bytes: 33, num_chars: 44 })
    );
    assert_eq!(FileInfo::zero().plus(&a), Some(a));
    let big = FileInfo { num_lines: 0, num_words: 0, num_bytes: usize::MAX, num_chars: 0 };
    assert_eq!(big.plus(&a), None);
}
