use search::text::{
    is_decimal_number, is_faceted_by, parse_usize, same_text, split_last_colon, write_usize,
};

#[test]
fn equal_texts_have_the_same_characters() {
    assert!(same_text("", ""));
    assert!(same_text("crème", "crème"));
    assert!(!same_text("a", "ab"));
    assert!(!same_text("ab", "a"));
    assert!(!same_text("ab", "ac"));
}

#[test]
fn a_field_is_faceted_by_itself_and_by_what_it_lies_under() {
    assert!(is_faceted_by("doggo", "doggo"));
    assert!(is_faceted_by("doggo.name", "doggo"));
    assert!(is_faceted_by("doggo.name.first", "doggo.name"));
    assert!(!is_faceted_by("doggos", "doggo"));
    assert!(!is_faceted_by("doggo", "doggo.name"));
    assert!(!is_faceted_by("cat", "doggo"));
    assert!(is_faceted_by(".x", ""));
    assert!(is_faceted_by("", ""));
    assert!(!is_faceted_by("x", ""));
}

#[test]
fn numbers_are_read_as_the_standard_library_reads_them() {
    let greatest = usize::MAX.to_string();
    let beyond = format!("{}0", usize::MAX);
    for text in [
        "0",
        "10",
        "007",
        "+5",
        "+",
        "-1",
        "",
        " 1",
        "1 ",
        "1a",
        "++1",
        "\u{661}",
        greatest.as_str(),
        beyond.as_str(),
        "18446744073709551616",
    ] {
        assert_eq!(parse_usize(text), text.parse::<usize>().ok(), "{:?}", text);
    }
}

#[test]
fn numbers_are_written_in_decimal() {
    for number in [0, 9, 10, 1234567890, usize::MAX] {
        assert_eq!(write_usize(number), number.to_string());
        assert_eq!(parse_usize(&write_usize(number)), Some(number));
    }
}

#[test]
fn decimal_numbers_can_be_parsed() {
    for text in ["1", "-1", "1.5", "1.", ".5", "-.5", "00.10"] {
        assert!(is_decimal_number(text), "{}", text);
        assert!(text.parse::<f64>().is_ok(), "{}", text);
    }
    for text in ["", "-", ".", "-.", "1.2.3", "1-2", "--1", "1-", ".."] {
        assert!(!is_decimal_number(text), "{}", text);
        assert!(text.parse::<f64>().is_err(), "{}", text);
    }
}

#[test]
fn a_text_is_split_at_its_last_colon() {
    assert_eq!(split_last_colon("name:5"), Some(("name", "5")));
    assert_eq!(split_last_colon("a:b:c"), Some(("a:b", "c")));
    assert_eq!(split_last_colon("a:"), Some(("a", "")));
    assert_eq!(split_last_colon(":"), Some(("", "")));
    assert_eq!(split_last_colon("é:ü"), Some(("é", "ü")));
    assert_eq!(split_last_colon("name"), None);
    assert_eq!(split_last_colon(""), None);
}
