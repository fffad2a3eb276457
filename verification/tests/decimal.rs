use data_structures::decimal::i64_list_to_text;
use data_structures::decimal::i64_pair_to_text;
use data_structures::decimal::i64_to_text;
use data_structures::decimal::parse_i64;
use data_structures::decimal::parse_i64_list;
use data_structures::decimal::ParseError;
use data_structures::linked_list::LinkedList;

#[test]
fn renders_integers() {
    assert_eq!(i64_to_text(0), "0");
    assert_eq!(i64_to_text(7), "7");
    assert_eq!(i64_to_text(-1), "-1");
    assert_eq!(i64_to_text(1337), "1337");
    assert_eq!(i64_to_text(-3005), "-3005");
    assert_eq!(i64_to_text(i64::MAX), "9223372036854775807");
    assert_eq!(i64_to_text(i64::MIN), "-9223372036854775808");
}

#[test]
fn parses_integers() {
    assert_eq!(parse_i64("0"), Ok(0));
    assert_eq!(parse_i64("42"), Ok(42));
    assert_eq!(parse_i64("+42"), Ok(42));
    assert_eq!(parse_i64("-42"), Ok(-42));
    assert_eq!(parse_i64("007"), Ok(7));
    assert_eq!(parse_i64("9223372036854775807"), Ok(i64::MAX));
    assert_eq!(parse_i64("-9223372036854775808"), Ok(i64::MIN));
}

#[test]
fn rejects_bad_integers() {
    assert_eq!(parse_i64(""), Err(ParseError));
    assert_eq!(parse_i64("-"), Err(ParseError));
    assert_eq!(parse_i64("+"), Err(ParseError));
    assert_eq!(parse_i64("12a"), Err(ParseError));
    assert_eq!(parse_i64("a12"), Err(ParseError));
    assert_eq!(parse_i64("1 2"), Err(ParseError));
    assert_eq!(parse_i64("--4"), Err(ParseError));
    assert_eq!(parse_i64("9223372036854775808"), Err(ParseError));
    assert_eq!(parse_i64("-9223372036854775809"), Err(ParseError));
    assert_eq!(parse_i64("99999999999999999999999999"), Err(ParseError));
}

#[test]
fn parses_lists() {
    assert_eq!(parse_i64_list("5 4 3 2 1"), Ok(vec![5, 4, 3, 2, 1]));
    assert_eq!(parse_i64_list("12"), Ok(vec![12]));
    assert_eq!(parse_i64_list("-3 +4 0"), Ok(vec![-3, 4, 0]));
}

#[test]
fn rejects_bad_lists() {
    assert_eq!(parse_i64_list(""), Err(ParseError));
    assert_eq!(parse_i64_list("1  2"), Err(ParseError));
    assert_eq!(parse_i64_list("1 x 2"), Err(ParseError));
    assert_eq!(parse_i64_list("1 2 "), Err(ParseError));
    assert_eq!(parse_i64_list(" 1 2"), Err(ParseError));
}

#[test]
fn from_text_rejects_bad_lists() {
    assert!(LinkedList::from_text("5 4 x").is_err());
    assert!(LinkedList::from_text("").is_err());
}

#[test]
fn renders_lists_and_pairs() {
    assert_eq!(i64_list_to_text(&vec![]), "[]");
    assert_eq!(i64_list_to_text(&vec![5]), "[5]");
    assert_eq!(i64_list_to_text(&vec![-1, 0, 25]), "[-1, 0, 25]");
    assert_eq!(i64_pair_to_text(-7, 19), "(-7: 19)");
}

#[test]
fn render_parse_round_trip() {
    for x in [0i64, 1, -1, 99, -100, 4096, i64::MAX, i64::MIN] {
        let text = i64_to_text(x);
        assert_eq!(parse_i64(text.as_str()), Ok(x));
    }
}
