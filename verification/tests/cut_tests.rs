use textutils::extract::{extract_bytes, extract_chars, extract_fields, extract_line, ExtractCount, LineOut};
use textutils::poslist::{get_positions, parse_index, ParseError};

#[test]
fn get_ranges_test() {
    // The empty string is an error
    assert!(get_positions("").is_err());
    // Zero is an error
    let res = get_positions("0");
    assert!(res.is_err());
    assert_eq!(res.unwrap_err().message(), "illegal list value: \"0\"",);
    let res = get_positions("0-1");
    assert!(res.is_err());
    assert_eq!(res.unwrap_err().message(), "illegal list value: \"0\"",);
    // A leading "+" is an error
    let res = get_positions("+1");
    assert!(res.is_err());
    assert_eq!(res.unwrap_err().message(), "illegal list value: \"+1\"",);
    let res = get_positions("+1-2");
    assert!(res.is_err());
    assert_eq!(res.unwrap_err().message(), "illegal list value: \"+1-2\"",);
    let res = get_positions("1-+2");
    assert!(res.is_err());
    assert_eq!(res.unwrap_err().message(), "illegal list value: \"1-+2\"",);
    // Any non-number is an error
    let res = get_positions("a");
    assert!(res.is_err());
    assert_eq!(res.unwrap_err().message(), "illegal list value: \"a\"",);
    let res = get_positions("1,a");
    assert!(res.is_err());
    assert_eq!(res.unwrap_err().message(), "illegal list value: \"a\"",);
    let res = get_positions("1-a");
    assert!(res.is_err());
    assert_eq!(res.unwrap_err().message(), "illegal list value: \"1-a\"",);
    let res = get_positions("a-1");
    assert!(res.is_err());
    assert_eq!(res.unwrap_err().message(), "illegal list value: \"a-1\"",);
    // Wonky ranges
    let res = get_positions("-");
    assert!(res.is_err());
    let res = get_positions(",");
    assert!(res.is_err());
    let res = get_positions("1,");
    assert!(res.is_err());
    let res = get_positions("1-");
    assert!(res.is_err());
    assert!(res.is_err());
    let res = get_positions("1-1-1");
    assert!(res.is_err());
    let res = get_positions("1-1-a");
    assert!(res.is_err());
    // first number must be less than second
    let res = get_positions("1-1");
    assert!(res.is_err());
    assert_eq!(
        res.unwrap_err().message(),
        "first number in range (1) must be lower than second number (1)"
    );
    let res = get_positions("2-1");
    assert!(res.is_err());
    assert_eq!(
        res.unwrap_err().message(),
        "first number in range (2) must be lower than second number (1)"
    );
    // All the following are acceptable
    let res = get_positions("1");
    assert!(res.is_ok());
    assert_eq!(res.unwrap(), vec![0..1]);
    let res = get_positions("01");
    assert!(res.is_ok());
    assert_eq!(res.unwrap(), vec![0..1]);
    let res = get_positions("1,3");
    assert!(res.is_ok());
    assert_eq!(res.unwrap(), vec![0..1, 2..3]);
    let res = get_positions("001,0003");
    assert!(res.is_ok());
    assert_eq!(res.unwrap(), vec![0..1, 2..3]);
    let res = get_positions("1-3");
    assert!(res.is_ok());
    assert_eq!(res.unwrap(), vec![0..3]);
    let res = get_positions("0001-03");
    assert!(res.is_ok());
    assert_eq!(res.unwrap(), vec![0..3]);
    let res = get_positions("1,7,3-5");
    assert!(res.is_ok());
    let res = get_positions("1,7,3-5");
    assert!(res.is_ok());
    assert_eq!(res.unwrap(), vec![0..1, 6..7, 2..5]);
    let res = get_positions("15,19-20");
    assert!(res.is_ok());
    assert_eq!(res.unwrap(), vec![14..15, 18..20]);
}

#[test]
fn test_extract_chars() {
    assert_eq!(extract_chars("", &[0..1]), "".to_string());
    assert_eq!(extract_chars("ábc", &[0..1]), "á".to_string());
    assert_eq!(extract_chars("ábc", &[0..1, 2..3]), "ác".to_string());
    assert_eq!(extract_chars("ábc", &[0..3]), "ábc".to_string());
    assert_eq!(extract_chars("ábc", &[2..3, 1..2]), "cb".to_string());
    assert_eq!(extract_chars("ábc", &[0..1, 1..2, 4..5]), "áb".to_string());
}

#[test]
fn parse_index_accepts_positions() {
    assert_eq!(parse_index("1"), Ok(0));
    assert_eq!(parse_index("5"), Ok(4));
    assert_eq!(parse_index("007"), Ok(6));
}

#[test]
fn parse_index_rejects_bad_tokens() {
    assert_eq!(parse_index(""), Err("illegal list value: \"\"".to_string()));
    assert_eq!(parse_index("0"), Err("illegal list value: \"0\"".to_string()));
    assert_eq!(parse_index("+1"), Err("illegal list value: \"+1\"".to_string()));
    assert_eq!(parse_index("a"), Err("illegal list value: \"a\"".to_string()));
    // far past the machine word
    assert_eq!(
        parse_index("99999999999999999999999999"),
        Err("illegal list value: \"99999999999999999999999999\"".to_string())
    );
}

#[test]
fn oversized_bounds_are_illegal() {
    // within the machine word: the largest usable position
    let max = usize::MAX.to_string();
    let res = get_positions(&max).unwrap();
    assert_eq!(res, vec![usize::MAX - 1..usize::MAX]);
    // one past it fails as a plain token
    let over = "18446744073709551616";
    let err = get_positions(over).unwrap_err();
    assert_eq!(err.message(), format!("illegal list value: \"{}\"", over));
    // and as the side of a pair, that side alone is named
    let err = get_positions("1-18446744073709551616").unwrap_err();
    assert_eq!(
        err.message(),
        "illegal list value: \"18446744073709551616\""
    );
}

#[test]
fn empty_list_token_is_illegal() {
    let res = get_positions("");
    let err = res.unwrap_err();
    assert!(matches!(err, ParseError::IllegalListValue(ref t) if t == ""));
    assert_eq!(err.message(), "illegal list value: \"\"");
}

#[test]
fn range_order_carries_both_bounds() {
    let err = get_positions("1-1").unwrap_err();
    assert!(matches!(err, ParseError::RangeOrder(1, 1)));
    let err = get_positions("2-1").unwrap_err();
    assert!(matches!(err, ParseError::RangeOrder(2, 1)));
    let err = get_positions("3,9-4").unwrap_err();
    assert!(matches!(err, ParseError::RangeOrder(9, 4)));
}

#[test]
fn first_bad_token_wins() {
    let err = get_positions("1,0,2-1").unwrap_err();
    assert!(matches!(err, ParseError::IllegalListValue(ref t) if t == "0"));
    let err = get_positions("1,2-1,0").unwrap_err();
    assert!(matches!(err, ParseError::RangeOrder(2, 1)));
}

#[test]
fn parsing_twice_gives_identical_lists() {
    let a = get_positions("1,7,3-5").unwrap();
    let b = get_positions("1,7,3-5").unwrap();
    assert_eq!(a, b);
    let e1 = get_positions("2-1").unwrap_err().message();
    let e2 = get_positions("2-1").unwrap_err().message();
    assert_eq!(e1, e2);
}

#[test]
fn extract_bytes_may_split_characters() {
    // "á" is two bytes in UTF-8; taking the first alone is not valid text,
    // and that is the intended behaviour.
    let line = "á".as_bytes();
    assert_eq!(line.len(), 2);
    assert_eq!(extract_bytes(line, &[0..1]), vec![line[0]]);
    assert_eq!(extract_bytes(line, &[0..2]), line.to_vec());
    assert_eq!(extract_bytes(b"abcdef", &[1..3, 0..1]), b"bca".to_vec());
    assert_eq!(extract_bytes(b"ab", &[1..5]), b"b".to_vec());
    assert_eq!(extract_bytes(b"ab", &[4..5]), Vec::<u8>::new());
}

#[test]
fn extract_fields_joins_with_delimiter() {
    let line = b"one\ttwo\tthree";
    assert_eq!(extract_fields(line, b'\t', &[0..1]), b"one".to_vec());
    assert_eq!(extract_fields(line, b'\t', &[0..2]), b"one\ttwo".to_vec());
    assert_eq!(extract_fields(line, b'\t', &[0..1, 2..3]), b"one\tthree".to_vec());
    assert_eq!(extract_fields(line, b'\t', &[2..3, 0..1]), b"three\tone".to_vec());
    assert_eq!(extract_fields(line, b'\t', &[1..9]), b"two\tthree".to_vec());
    assert_eq!(extract_fields(line, b'\t', &[5..9]), Vec::<u8>::new());
    // empty fields are kept, not merged
    assert_eq!(extract_fields(b"a,,b", b',', &[1..2]), b"".to_vec());
    assert_eq!(extract_fields(b"a,,b", b',', &[0..3]), b"a,,b".to_vec());
}

#[test]
fn empty_line_yields_empty_output_in_all_modes() {
    let ranges = vec![0..1, 0..2, 3..7];
    assert_eq!(extract_chars("", &ranges), "".to_string());
    assert_eq!(extract_bytes(b"", &ranges), Vec::<u8>::new());
    assert_eq!(extract_fields(b"", b'\t', &ranges), Vec::<u8>::new());
}

#[test]
fn extract_line_dispatches_by_mode() {
    let chars = ExtractCount::Char(vec![0..1, 2..3]);
    assert_eq!(extract_line("ábc", &chars, b'\t'), LineOut::Text("ác".to_string()));
    let bytes = ExtractCount::Byte(vec![0..1]);
    assert_eq!(extract_line("á", &bytes, b'\t'), LineOut::Raw(vec![0xc3]));
    let fields = ExtractCount::Fields(vec![1..2]);
    assert_eq!(
        extract_line("one\ttwo\tthree", &fields, b'\t'),
        LineOut::Raw(b"two".to_vec())
    );
}
