use search::json::{Document, Number, Value};
use search::matcher::{format_value, MatchBounds, Matcher};
use search::options::FormatOptions;

/// Finds the letter `x`, marks it, and notes how a text was to be cropped.
struct Letter;

impl Matcher for Letter {
    fn matches(&self, text: &str) -> Vec<MatchBounds> {
        text.match_indices('x').map(|(start, _)| MatchBounds { start, length: 1 }).collect()
    }

    fn format(&self, text: &str, options: FormatOptions) -> String {
        let text = if options.highlight { text.replace('x', "<x>") } else { text.to_string() };
        match options.crop {
            Some(length) => format!("{}|{}", text, length),
            None => text,
        }
    }
}

const BOTH: FormatOptions = FormatOptions { highlight: true, crop: Some(3) };

fn text(s: &str) -> Value {
    Value::String(s.to_string())
}

fn number(s: &str) -> Value {
    Value::Number(Number { text: s.to_string() })
}

fn at(start: usize) -> MatchBounds {
    MatchBounds { start, length: 1 }
}

fn nested() -> Value {
    let mut object = Document::new();
    object.insert("k".to_string(), text("x"));
    object.insert("n".to_string(), number("7"));
    Value::Array(vec![text("axx"), Value::Object(object), Value::Null, Value::Bool(true)])
}

#[test]
fn a_text_is_formatted() {
    let mut infos = vec![at(9)];
    assert_eq!(format_value(text("axb"), &Letter, Some(BOTH), &mut infos, true), text("a<x>b|3"));
    assert_eq!(infos, vec![at(9), at(1)]);
}

#[test]
fn a_text_without_a_format_stays() {
    let mut infos = Vec::new();
    assert_eq!(format_value(text("axb"), &Letter, None, &mut infos, true), text("axb"));
    assert_eq!(infos, vec![at(1)]);
}

#[test]
fn no_places_are_noted_unless_they_are_asked_for() {
    let mut infos = vec![at(9)];
    format_value(nested(), &Letter, Some(BOTH), &mut infos, false);
    assert_eq!(infos, vec![at(9)]);
}

#[test]
fn a_number_becomes_a_text() {
    let mut infos = Vec::new();
    assert_eq!(format_value(number("1.5"), &Letter, Some(BOTH), &mut infos, true), text("1.5|3"));
    assert_eq!(format_value(number("1.5"), &Letter, None, &mut infos, true), text("1.5"));
}

#[test]
fn what_is_nested_is_not_cropped() {
    let mut infos = Vec::new();
    let mut object = Document::new();
    object.insert("k".to_string(), text("<x>"));
    object.insert("n".to_string(), text("7"));
    assert_eq!(
        format_value(nested(), &Letter, Some(BOTH), &mut infos, true),
        Value::Array(vec![
            text("a<x><x>"),
            Value::Object(object),
            Value::Null,
            Value::Bool(true)
        ])
    );
    assert_eq!(infos, vec![at(1), at(2), at(0)]);
}

#[test]
fn without_a_format_only_numbers_change() {
    let mut infos = Vec::new();
    let mut object = Document::new();
    object.insert("k".to_string(), text("x"));
    object.insert("n".to_string(), text("7"));
    assert_eq!(
        format_value(nested(), &Letter, None, &mut infos, false),
        Value::Array(vec![text("axx"), Value::Object(object), Value::Null, Value::Bool(true)])
    );
}

#[test]
fn noting_places_changes_no_value() {
    for options in [None, Some(BOTH)] {
        let (mut plain, mut noted) = (vec![at(9)], vec![at(9)]);
        assert_eq!(
            format_value(nested(), &Letter, options, &mut plain, false),
            format_value(nested(), &Letter, options, &mut noted, true)
        );
        assert_eq!(plain, vec![at(9)]);
        assert_eq!(noted, vec![at(9), at(1), at(2), at(0)]);
    }
}
