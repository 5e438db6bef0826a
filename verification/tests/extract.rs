use lineutils::extract::{extract_bytes, extract_chars, extract_fields, select};
use lineutils::positions::parse_pos;

#[test]
fn test_extract_chars() {
    assert_eq!(extract_chars("", &[0]), "".to_string());
    assert_eq!(extract_chars("ábc", &[0]), "á".to_string());
    assert_eq!(extract_chars("ábc", &[0, 2]), "ác".to_string());
    assert_eq!(extract_chars("ábc", &[0, 1, 2]), "ábc".to_string());
    assert_eq!(extract_chars("ábc", &[2, 1]), "cb".to_string());
    assert_eq!(extract_chars("ábc", &[0, 1, 4]), "áb".to_string());
}

#[test]
fn extract_chars_with_parsed_selection() {
    assert_eq!(extract_chars("ábc", &parse_pos("1").unwrap()), "á");
    assert_eq!(extract_chars("ábc", &parse_pos("1,3").unwrap()), "ác");
    assert_eq!(extract_chars("ábc", &parse_pos("3,2").unwrap()), "cb");
    assert_eq!(extract_chars("ábc", &parse_pos("1-2,5").unwrap()), "áb");
}

#[test]
fn extract_chars_repeats_what_is_listed_twice() {
    assert_eq!(extract_chars("ábc", &[1, 1, 0, 1]), "bbáb");
}

#[test]
fn extract_chars_all_out_of_range() {
    assert_eq!(extract_chars("ábc", &[3, 4, 100]), "");
    assert_eq!(extract_chars("ábc", &[usize::MAX]), "");
    assert_eq!(extract_chars("ábc", &[]), "");
}

#[test]
fn test_extract_bytes() {
    assert_eq!(extract_bytes("ábc", &[0]), "\u{fffd}".to_string());
    assert_eq!(extract_bytes("ábc", &[0, 1]), "á".to_string());
    assert_eq!(extract_bytes("ábc", &[0, 1, 2]), "áb".to_string());
    assert_eq!(extract_bytes("ábc", &[0, 1, 2, 3]), "ábc".to_string());
    assert_eq!(extract_bytes("ábc", &[3, 2]), "cb".to_string());
    assert_eq!(extract_bytes("ábc", &[0, 1, 5]), "á".to_string());
}

#[test]
fn extract_bytes_all_out_of_range() {
    assert_eq!(extract_bytes("abc", &[3, 9]), "");
    assert_eq!(extract_bytes("", &[0]), "");
}

#[test]
fn bytes_and_chars_differ_on_a_two_byte_character() {
    let by_byte = extract_bytes("á", &[1]);
    let by_char = extract_chars("á", &[1]);
    assert_ne!(by_byte, by_char);
    assert_eq!(by_byte, "\u{fffd}");
    assert_eq!(by_char, "");
}

#[test]
fn bytes_and_chars_agree_on_ascii() {
    assert_eq!(extract_bytes("hello", &[4, 0, 0]), extract_chars("hello", &[4, 0, 0]));
    assert_eq!(extract_bytes("hello", &[4, 0, 0]), "ohh");
}

#[test]
fn test_extract_fields() {
    let rec = csv::StringRecord::from(vec!["Captain", "Sham", "12345"]);
    assert_eq!(extract_fields(&rec, &[0]), &["Captain"]);
    assert_eq!(extract_fields(&rec, &[1]), &["Sham"]);
    assert_eq!(extract_fields(&rec, &[0, 2]), &["Captain", "12345"]);
    assert_eq!(extract_fields(&rec, &[0, 3]), &["Captain"]);
    assert_eq!(extract_fields(&rec, &[1, 0]), &["Sham", "Captain"]);
}

#[test]
fn extract_fields_repeated_and_reversed() {
    let rec = csv::StringRecord::from(vec!["a", "b", "c"]);
    assert_eq!(extract_fields(&rec, &[2, 1, 0]), &["c", "b", "a"]);
    assert_eq!(extract_fields(&rec, &[1, 1]), &["b", "b"]);
    assert_eq!(extract_fields(&rec, &[0, 2, 0]), &["a", "c", "a"]);
}

#[test]
fn extract_fields_out_of_range() {
    let rec = csv::StringRecord::from(vec!["a", "b", "c"]);
    let none: Vec<&str> = Vec::new();
    assert_eq!(extract_fields(&rec, &[3, 7]), none);
    assert_eq!(extract_fields(&csv::StringRecord::new(), &[0]), none);
}

#[test]
fn extract_fields_of_a_record_read_with_quotes() {
    let mut reader = csv::ReaderBuilder::new()
        .delimiter(b',')
        .has_headers(false)
        .from_reader("one,\"two, with comma\",three\n".as_bytes());
    let record = reader.records().next().unwrap().unwrap();
    assert_eq!(
        extract_fields(&record, &[1, 0]),
        &["two, with comma", "one"]
    );
}

#[test]
fn select_picks_in_order() {
    assert_eq!(select(&[10u8, 20, 30], &[2, 0, 5, 2]), vec![30, 10, 30]);
    assert_eq!(select(&['x', 'y'], &[]), Vec::<char>::new());
}

fn cut_fields(input: &str, delimiter: u8, positions: &[usize]) -> String {
    let mut reader = csv::ReaderBuilder::new()
        .delimiter(delimiter)
        .has_headers(false)
        .from_reader(input.as_bytes());
    let mut writer = csv::WriterBuilder::new()
        .delimiter(delimiter)
        .from_writer(Vec::new());
    for record in reader.records() {
        let record = record.unwrap();
        writer.write_record(extract_fields(&record, positions)).unwrap();
    }
    String::from_utf8(writer.into_inner().unwrap()).unwrap()
}

#[test]
fn fields_are_written_with_the_delimiter_they_were_read_with() {
    assert_eq!(cut_fields("a,b,c\n", b',', &[2, 0, 0]), "c,a,a\n");
    assert_eq!(cut_fields("a\tb\tc\nd\te\tf\n", b'\t', &[1, 0]), "b\ta\ne\td\n");
    assert_eq!(cut_fields("a;\"b;c\";d\n", b';', &[1, 2]), "\"b;c\";d\n");
    assert_eq!(cut_fields("a,b,c\n", b',', &[1, 7]), "b\n");
}
