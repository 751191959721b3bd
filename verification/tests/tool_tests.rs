use textutils::cat::number_line;
use textutils::echo::join_words;
use textutils::find::{matches_name, matches_type, regex_do_match, FindType};
use textutils::head::parse_positive_int;
use textutils::numerals::{decimal_string, padded_decimal};
use textutils::split::{split_bytes, split_str};
use textutils::text::trim_end;
use textutils::uniq::{format_count_line, read_file};
use textutils::wc::{count, format_field, get_args, get_pad, ArgConfig, FileInfo};

#[test]
fn test_parse_positive_int() {
    // a positive integer
    let res = parse_positive_int("3");
    assert!(res.is_ok());
    assert_eq!(3, res.unwrap());

    // any string should give error
    let res = parse_positive_int("foo");
    assert!(res.is_err());
    assert_eq!(res.unwrap_err().to_string(), "foo".to_string());

    // a zero is an error
    let res = parse_positive_int("0");
    assert!(res.is_err());
    assert_eq!(res.unwrap_err().to_string(), "0".to_string());
}

#[test]
fn test_count() {
    let text = "I don't want the world. I just want your half.\r\n";
    let info = count(text);

    let expected = FileInfo {
        line_count: 1,
        word_count: 10,
        char_count: 48,
        byte_count: 48,
    };
    assert_eq!(info, expected);
}

#[test]
fn test_format_field() {
    assert_eq!(format_field(&1, 1, false), "");
    assert_eq!(format_field(&101, 4, true), " 101");
    assert_eq!(format_field(&10, 5, true), "   10");
}

#[test]
fn test_get_pad() {
    assert_eq!(get_pad(100), 4);
    assert_eq!(get_pad(0), 2);
    assert_eq!(get_pad(2), 2);
    assert_eq!(get_pad(20), 3);
}

#[test]
fn test_regex() {
    assert_eq!(regex_do_match("this is good", "is g"), true);
    assert_eq!(regex_do_match("this is good", ".*is g"), true);
    assert_eq!(regex_do_match("this. is good", r"\..*is g"), true);
    assert_eq!(regex_do_match("this. is good", "\\..*is g"), true);
}

#[test]
fn bad_pattern_matches_nothing() {
    assert_eq!(regex_do_match("anything", "("), false);
    assert_eq!(regex_do_match("(", "("), false);
}

#[test]
fn count_of_empty_and_unterminated_text() {
    let info = count("");
    assert_eq!(info, FileInfo { line_count: 0, word_count: 0, char_count: 0, byte_count: 0 });
    // a final line without a newline still counts as a line
    let info = count("one two\nthree");
    assert_eq!(info, FileInfo { line_count: 2, word_count: 3, char_count: 13, byte_count: 13 });
    // characters and bytes differ on non-ASCII text
    let info = count("áé\n");
    assert_eq!(info, FileInfo { line_count: 1, word_count: 1, char_count: 3, byte_count: 5 });
}

#[test]
fn get_args_defaults() {
    let cfg = get_args(ArgConfig {
        files: Vec::new(),
        lines: false,
        chars: false,
        bytes: false,
        words: false,
    });
    assert_eq!(cfg.files, vec!["-".to_string()]);
    assert!(cfg.lines && cfg.words && cfg.bytes && !cfg.chars);

    let cfg = get_args(ArgConfig {
        files: vec!["a.txt".to_string()],
        lines: false,
        chars: true,
        bytes: false,
        words: false,
    });
    assert_eq!(cfg.files, vec!["a.txt".to_string()]);
    assert!(!cfg.lines && !cfg.words && !cfg.bytes && cfg.chars);
}

#[test]
fn decimal_and_padding() {
    assert_eq!(decimal_string(0), "0");
    assert_eq!(decimal_string(7), "7");
    assert_eq!(decimal_string(1234), "1234");
    assert_eq!(padded_decimal(5, 3), "  5");
    assert_eq!(padded_decimal(12345, 3), "12345");
}

#[test]
fn trim_and_split() {
    assert_eq!(trim_end("abc  \t\r\n"), "abc");
    assert_eq!(trim_end("   "), "");
    assert_eq!(trim_end("a b"), "a b");
    let parts = split_str("1,,3", ',');
    assert_eq!(parts, vec!["1".to_string(), "".to_string(), "3".to_string()]);
    assert_eq!(split_str("", ','), vec!["".to_string()]);
    let bparts = split_bytes(b"a\tb", b'\t');
    assert_eq!(bparts, vec![b"a".to_vec(), b"b".to_vec()]);
}

#[test]
fn read_file_groups_consecutive_lines() {
    let lines = vec!["a\n".to_string(), "a\n".to_string(), "b\n".to_string()];
    let groups = read_file(lines);
    assert_eq!(groups.len(), 2);
    assert_eq!(groups[0].count, 2);
    assert_eq!(groups[0].line, "a\n");
    assert_eq!(groups[1].count, 1);
    assert_eq!(groups[1].line, "b\n");

    // comparison ignores trailing white space; the first line is kept
    let lines = vec!["a  \n".to_string(), "a\n".to_string(), "a\t\n".to_string()];
    let groups = read_file(lines);
    assert_eq!(groups.len(), 1);
    assert_eq!(groups[0].count, 3);
    assert_eq!(groups[0].line, "a  \n");

    // separated equals do not merge
    let lines = vec!["a\n".to_string(), "b\n".to_string(), "a\n".to_string()];
    let groups = read_file(lines);
    assert_eq!(groups.len(), 3);
    assert_eq!(groups[1].count, 1);
}

#[test]
fn format_count_line_pads_to_seven() {
    assert_eq!(format_count_line(3, "x\n", true), "      3 x\n");
    assert_eq!(format_count_line(1234567890, "y\n", true), "1234567890 y\n");
    assert_eq!(format_count_line(3, "x\n", false), "x\n");
}

#[test]
fn number_line_matches_the_gutter_format() {
    assert_eq!(number_line("hello", true, false, 1), ("       1  hello".to_string(), 2));
    assert_eq!(number_line("hello", false, false, 1), ("hello".to_string(), 2));
    // non-blank numbering: a blank line gets a blank gutter and no step
    assert_eq!(number_line("", false, true, 5), ("          ".to_string(), 5));
    assert_eq!(number_line("x", false, true, 5), ("       5  x".to_string(), 6));
    // a blank line at count zero is still numbered, as the original did
    assert_eq!(number_line("", false, true, 0), ("       0  ".to_string(), 1));
}

#[test]
fn join_words_with_single_spaces() {
    assert_eq!(join_words(&vec!["this".to_string(), "is".to_string(), "good".to_string()]), "this is good");
    assert_eq!(join_words(&vec!["one".to_string()]), "one");
    assert_eq!(join_words(&Vec::new()), "");
}

#[test]
fn type_filter_decisions() {
    assert!(matches_type(&Vec::new(), false, false, false));
    assert!(matches_type(&vec![FindType::Dir], true, false, false));
    assert!(!matches_type(&vec![FindType::Dir], false, true, false));
    assert!(matches_type(&vec![FindType::Dir, FindType::Link], false, false, true));
    assert!(!matches_type(&vec![FindType::File], false, false, true));
}

#[test]
fn name_filter_decisions() {
    assert!(matches_name(&Vec::new(), "anything"));
    let pats = vec![regex::Regex::new(".*[.]csv").unwrap()];
    assert!(matches_name(&pats, "table.csv"));
    assert!(!matches_name(&pats, "table.mp3"));
}

#[test]
fn wc_report_line_layout() {
    let info = FileInfo { line_count: 1, word_count: 10, char_count: 48, byte_count: 48 };
    let cfg = get_args(ArgConfig {
        files: Vec::new(),
        lines: false,
        chars: false,
        bytes: false,
        words: false,
    });
    let pad = get_pad(info.byte_count);
    assert_eq!(pad, 3);
    let line = textutils::wc::format_fileinfo(&info, "in.txt", &cfg, pad);
    assert_eq!(line, " 1 10 48 in.txt");
    let line = textutils::wc::format_fileinfo(&info, "-", &cfg, pad);
    assert_eq!(line, " 1 10 48");
}
