use lineutils::cat;
use lineutils::cut;
use lineutils::decimal::{format_u64, format_usize, parse_usize};
use lineutils::echo;
use lineutils::extract::Extract;
use lineutils::find;
use lineutils::grep;
use lineutils::text::{chars_of, join_with, pad_left, string_of};
use lineutils::uniq;

#[test]
fn decimal_reading() {
    assert_eq!(parse_usize("0"), Some(0));
    assert_eq!(parse_usize("42"), Some(42));
    assert_eq!(parse_usize("+42"), Some(42));
    assert_eq!(parse_usize("0042"), Some(42));
    assert_eq!(parse_usize(""), None);
    assert_eq!(parse_usize("+"), None);
    assert_eq!(parse_usize("++1"), None);
    assert_eq!(parse_usize("4 2"), None);
    assert_eq!(parse_usize("42a"), None);
    assert_eq!(parse_usize("-0"), None);
    assert_eq!(parse_usize("18446744073709551616"), None);
}

#[test]
fn decimal_reading_agrees_with_std() {
    for text in ["7", "+7", "007", "", "+", "a", "1a", " 1", "99999999999999999999", "-3"] {
        assert_eq!(parse_usize(text), text.parse::<usize>().ok());
    }
}

#[test]
fn decimal_writing() {
    assert_eq!(format_usize(0), "0");
    assert_eq!(format_usize(7), "7");
    assert_eq!(format_usize(10), "10");
    assert_eq!(format_usize(1234567890), "1234567890");
    assert_eq!(format_u64(u64::MAX), "18446744073709551615");
    assert_eq!(format_usize(usize::MAX), usize::MAX.to_string());
}

#[test]
fn decimal_round_trip() {
    for n in [0usize, 1, 9, 10, 99, 100, 12345, usize::MAX] {
        assert_eq!(parse_usize(&format_usize(n)), Some(n));
    }
}

#[test]
fn text_bridges() {
    assert_eq!(chars_of("ábc"), vec!['á', 'b', 'c']);
    assert_eq!(string_of(&vec!['c', 'á']), "cá");
    assert_eq!(pad_left("ab", 4), "  ab");
    assert_eq!(pad_left("abcd", 4), "abcd");
    assert_eq!(pad_left("abcde", 4), "abcde");
    assert_eq!(pad_left("á", 3), "  á");
    assert_eq!(join_with(&[], ','), "");
    assert_eq!(join_with(&["a".to_string()], ','), "a");
    assert_eq!(
        join_with(&["a".to_string(), "".to_string(), "b".to_string()], ','),
        "a,,b"
    );
}

#[test]
fn echo_output() {
    let words = vec!["Hello".to_string(), "there".to_string()];
    assert_eq!(echo::render(&words, false), "Hello there\n");
    assert_eq!(echo::render(&words, true), "Hello there ");
    assert_eq!(echo::render(&words[..1], false), "Hello\n");
    assert_eq!(echo::render(&[], false), "\n");
}

fn cat_config(number_lines: bool, number_nonblank_files: bool, show_end_line: bool) -> cat::Config {
    cat::Config {
        files: vec![],
        number_lines,
        number_nonblank_files,
        show_end_line,
    }
}

#[test]
fn cat_plain_lines() {
    let config = cat_config(false, false, false);
    assert_eq!(cat::render_line(&config, 0, 0, "abc"), ("abc".to_string(), 0));
    assert_eq!(cat::render_line(&config, 5, 0, ""), ("".to_string(), 0));
    let config = cat_config(false, false, true);
    assert_eq!(cat::render_line(&config, 0, 0, "abc"), ("abc$".to_string(), 0));
    assert_eq!(cat::render_line(&config, 1, 0, ""), ("$".to_string(), 0));
}

#[test]
fn cat_numbered_lines() {
    let config = cat_config(true, false, false);
    assert_eq!(cat::render_line(&config, 0, 0, "abc"), ("     1\tabc".to_string(), 0));
    assert_eq!(cat::render_line(&config, 1, 0, ""), ("     2\t".to_string(), 0));
    assert_eq!(
        cat::render_line(&config, 1234566, 0, "x"),
        ("1234567\tx".to_string(), 0)
    );
    let config = cat_config(true, true, true);
    assert_eq!(cat::render_line(&config, 9, 3, ""), ("    10\t$".to_string(), 3));
}

#[test]
fn cat_numbered_nonblank_lines() {
    let config = cat_config(false, true, false);
    assert_eq!(cat::render_line(&config, 0, 0, "abc"), ("     1\tabc".to_string(), 1));
    assert_eq!(cat::render_line(&config, 1, 1, ""), ("".to_string(), 1));
    assert_eq!(cat::render_line(&config, 2, 1, "def"), ("     2\tdef".to_string(), 2));
    let config = cat_config(false, true, true);
    assert_eq!(cat::render_line(&config, 1, 1, ""), ("$".to_string(), 1));
    assert_eq!(cat::render_line(&config, 2, 1, " "), ("     2\t $".to_string(), 2));
}

#[test]
fn cut_delimiter() {
    assert_eq!(cut::delimiter_byte(",").unwrap(), b',');
    assert_eq!(cut::delimiter_byte("\t").unwrap(), b'\t');
    assert_eq!(
        cut::delimiter_byte(",,").unwrap_err().to_string(),
        "--delim \",,\" must be a single byte"
    );
    assert_eq!(
        cut::delimiter_byte("").unwrap_err().to_string(),
        "--delim \"\" must be a single byte"
    );
    assert_eq!(
        cut::delimiter_byte("á").unwrap_err().to_string(),
        "--delim \"á\" must be a single byte"
    );
}

#[test]
fn cut_selection() {
    assert!(matches!(
        cut::choose_extract(Some(vec![1]), Some(vec![2]), Some(vec![3])),
        Ok(Extract::Fields(p)) if p == vec![1]
    ));
    assert!(matches!(
        cut::choose_extract(None, Some(vec![2]), Some(vec![3])),
        Ok(Extract::Bytes(p)) if p == vec![2]
    ));
    assert!(matches!(
        cut::choose_extract(None, None, Some(vec![3])),
        Ok(Extract::Chars(p)) if p == vec![3]
    ));
    assert_eq!(
        cut::choose_extract(None, None, None).unwrap_err().to_string(),
        "Must have --fields, --bytes, or --chars"
    );
}

#[test]
fn cut_settings() {
    let config = cut::configure(vec!["f".to_string()], "\t", Some("1,3"), None, None).unwrap();
    assert_eq!(config.files, vec!["f".to_string()]);
    assert_eq!(config.delimiter, b'\t');
    assert!(matches!(config.extract, Extract::Fields(p) if p == vec![0, 2]));
    let config = cut::configure(vec![], ",", None, Some("2-3"), None).unwrap();
    assert!(matches!(config.extract, Extract::Bytes(p) if p == vec![1, 2]));
    let config = cut::try_configure(vec![], ",", None, None, Some("2")).unwrap().unwrap();
    assert!(matches!(config.extract, Extract::Chars(p) if p == vec![1]));
}

#[test]
fn cut_settings_refused() {
    assert_eq!(
        cut::configure(vec![], "ab", Some("x"), None, None).unwrap_err().to_string(),
        "--delim \"ab\" must be a single byte"
    );
    assert_eq!(
        cut::configure(vec![], ",", Some("1"), Some("0"), Some("a")).unwrap_err().to_string(),
        "illegal list value: \"0\""
    );
    assert_eq!(
        cut::configure(vec![], ",", None, None, Some("3-1")).unwrap_err().to_string(),
        "First number in range (3) must be lower than second number (1)"
    );
    assert_eq!(
        cut::configure(vec![], ",", None, None, None).unwrap_err().to_string(),
        "Must have --fields, --bytes, or --chars"
    );
    assert!(matches!(
        cut::configure(vec![], ",", None, None, None),
        Err(cut::ConfigError::NoSelection)
    ));
    assert!(matches!(
        cut::configure(vec![], "", None, None, None),
        Err(cut::ConfigError::Delimiter(d)) if d.is_empty()
    ));
    assert!(matches!(
        cut::configure(vec![], ",", Some("b"), None, None),
        Err(cut::ConfigError::Positions(_))
    ));
}

#[test]
fn uniq_lines_match_up_to_trailing_space() {
    assert!(uniq::lines_match("a\n", "a"));
    assert!(uniq::lines_match("a \t\r\n", "a\n"));
    assert!(uniq::lines_match("", "\n"));
    assert!(!uniq::lines_match(" a\n", "a\n"));
    assert!(!uniq::lines_match("a\n", "b\n"));
    assert!(!uniq::lines_match("a\n", "ab\n"));
}

#[test]
fn uniq_entries() {
    assert_eq!(uniq::entry(0, "a\n", true), None);
    assert_eq!(uniq::entry(0, "a\n", false), None);
    assert_eq!(uniq::entry(3, "a\n", false), Some("a\n".to_string()));
    assert_eq!(uniq::entry(3, "a\n", true), Some("   3 a\n".to_string()));
    assert_eq!(uniq::entry(12345, "a\n", true), Some("12345 a\n".to_string()));
}

#[test]
fn uniq_runs() {
    let mut written: Vec<String> = Vec::new();
    let mut run = uniq::Run::new();
    for line in ["a\n", "a\n", "b\n", "a\n", "a \n", "c"] {
        let (next, out) = run.step(line, true);
        written.extend(out);
        run = next;
    }
    written.extend(run.finish(true));
    assert_eq!(written, vec!["   2 a\n", "   1 b\n", "   2 a\n", "   1 c"]);
}

#[test]
fn uniq_of_nothing_writes_nothing() {
    assert_eq!(uniq::Run::new().finish(true), None);
    assert_eq!(uniq::Run::new().finish(false), None);
}

#[test]
fn uniq_leading_blank_lines_join_the_empty_start() {
    let run = uniq::Run::new();
    let (run, out) = run.step("\n", false);
    assert_eq!(out, None);
    assert_eq!(run.count, 1);
    assert_eq!(run.last_line, "");
    let (run, out) = run.step("a\n", false);
    assert_eq!(out, Some("".to_string()));
    assert_eq!(run.finish(false), Some("a\n".to_string()));
}

fn entry(is_link: bool, is_dir: bool, is_file: bool, name: &str) -> find::Entry {
    find::Entry { is_link, is_dir, is_file, name: name.to_string() }
}

fn texts(items: &[&str]) -> Vec<String> {
    items.iter().map(|s| s.to_string()).collect()
}

#[test]
fn find_kinds() {
    assert_eq!(find::read_entry_type("d"), Some(find::EntryType::Dir));
    assert_eq!(find::read_entry_type("f"), Some(find::EntryType::File));
    assert_eq!(find::read_entry_type("l"), Some(find::EntryType::Link));
    assert_eq!(find::read_entry_type("x"), None);
    assert_eq!(find::read_entry_type(""), None);
    assert_eq!(find::read_entry_type("dd"), None);
    assert_eq!(
        find::read_entry_types(&texts(&["l", "x", "d", "d"])),
        vec![find::EntryType::Link, find::EntryType::Dir, find::EntryType::Dir]
    );
}

#[test]
fn find_without_conditions_lists_everything() {
    let config = find::Config::new(texts(&["."]), vec![], None).unwrap();
    assert_eq!(config.dirs(), &texts(&["."]));
    assert!(config.selects(&entry(false, false, true, "a.txt")));
    assert!(config.selects(&entry(false, true, false, "d")));
    assert!(config.selects(&entry(false, false, false, "")));
}

#[test]
fn find_by_kind() {
    let config = find::Config::new(texts(&["."]), vec![], Some(texts(&["f", "l"]))).unwrap();
    assert!(config.selects(&entry(false, false, true, "a")));
    assert!(config.selects(&entry(true, false, false, "a")));
    assert!(!config.selects(&entry(false, true, false, "a")));
    assert!(config.type_matches(&entry(true, true, false, "a")));
    let config = find::Config::new(texts(&["."]), vec![], Some(vec![])).unwrap();
    assert!(!config.selects(&entry(false, false, true, "a")));
}

#[test]
fn find_by_name() {
    let config = find::Config::new(texts(&["."]), texts(&[".*[.]csv", "^b"]), None).unwrap();
    assert!(config.selects(&entry(false, false, true, "data.csv")));
    assert!(config.selects(&entry(false, true, false, "bin")));
    assert!(!config.selects(&entry(false, false, true, "data.txt")));
    assert!(config.name_matches("abc.csv.bak"));
    assert!(!config.name_matches("csv"));
}

#[test]
fn find_by_kind_and_name() {
    let config = find::Config::new(texts(&["."]), texts(&["a"]), Some(texts(&["d"]))).unwrap();
    assert!(config.selects(&entry(false, true, false, "a")));
    assert!(!config.selects(&entry(false, false, true, "a")));
    assert!(!config.selects(&entry(false, true, false, "b")));
}

#[test]
fn find_refuses_a_bad_name() {
    assert_eq!(
        find::Config::new(texts(&["."]), texts(&["a", "*.csv", "("]), None).unwrap_err(),
        "Invalid --name \"*.csv\""
    );
}

#[test]
fn grep_settings() {
    let config = grep::configure("fo+", true, texts(&["-"]), false, true, false).unwrap();
    assert_eq!(config.pattern, "fo+");
    assert!(config.insensitive);
    assert_eq!(config.files, texts(&["-"]));
    assert!(!config.recursive);
    assert!(config.count);
    assert!(!config.invert_match);
}

#[test]
fn grep_refuses_a_bad_pattern() {
    assert_eq!(
        grep::configure("*foo", false, vec![], false, false, false).unwrap_err(),
        "Invalid pattern \"*foo\""
    );
    assert_eq!(
        grep::configure("(", true, vec![], false, false, false).unwrap_err(),
        "Invalid pattern \"(\""
    );
}
