use std::collections::{BTreeMap, BTreeSet};

use search::fields::{FieldId, FieldsIdsMap};
use search::formatted::{format_fields, format_for, formatting_fields_options};
use search::json::{Document, Value};
use search::matcher::{MatchBounds, Matcher};
use search::options::FormatOptions;
use search::selector::Selector;

/// Finds the letter `x`, and writes down what it is asked to do with a text.
struct Letter;

impl Matcher for Letter {
    fn matches(&self, text: &str) -> Vec<MatchBounds> {
        text.match_indices('x').map(|(start, _)| MatchBounds { start, length: 1 }).collect()
    }

    fn format(&self, text: &str, options: FormatOptions) -> String {
        let text = if options.highlight { text.replace('x', "<x>") } else { text.to_string() };
        match options.crop {
            Some(length) => format!("{}|{}", text, length),
            None => text,
        }
    }
}

/// Selects fields of objects by dotted names.
struct Dots;

fn under(name: &str, key: &str) -> bool {
    name == key || name.starts_with(&format!("{}.", key))
}

fn visit(
    document: &mut Document,
    base: &str,
    names: &Vec<String>,
    f: &mut dyn FnMut(&str, &mut Value),
) {
    for (key, value) in document.entries.iter_mut() {
        let key = if base.is_empty() { key.clone() } else { format!("{}.{}", base, key) };
        if names.iter().any(|name| under(name, &key) || under(&key, name)) {
            match value {
                Value::Object(inner) => visit(inner, &key, names, f),
                value => f(&key, value),
            }
        }
    }
}

impl Selector for Dots {
    fn select_values(&self, document: &Document, names: &Vec<String>) -> Document {
        let kept = document
            .entries
            .iter()
            .filter(|(key, _)| names.iter().any(|name| under(name, key)));
        Document { entries: kept.cloned().collect() }
    }

    fn leaf_values(&self, document: &Document, names: &Vec<String>) -> Vec<(String, Value)> {
        let mut leaves = Vec::new();
        visit(&mut document.clone(), "", names, &mut |key, value| {
            leaves.push((key.to_string(), value.clone()))
        });
        leaves
    }

    fn replace_leaves(
        &self,
        document: Document,
        names: &Vec<String>,
        values: Vec<Value>,
    ) -> Document {
        let mut document = document;
        let mut values = values.into_iter();
        visit(&mut document, "", names, &mut |_, value| *value = values.next().unwrap());
        document
    }
}

const PLAIN: FormatOptions = FormatOptions { highlight: false, crop: None };
const HIGHLIGHT: FormatOptions = FormatOptions { highlight: true, crop: None };
const CROP: FormatOptions = FormatOptions { highlight: false, crop: Some(2) };

fn text(s: &str) -> Value {
    Value::String(s.to_string())
}

fn object(fields: &[(&str, Value)]) -> Document {
    Document { entries: fields.iter().map(|(k, v)| (k.to_string(), v.clone())).collect() }
}

fn map() -> FieldsIdsMap {
    let mut map = FieldsIdsMap::new();
    for (id, name) in ["doggo", "doggo.name", "id", "hidden"].iter().enumerate() {
        assert!(map.add(id as FieldId, name.to_string()));
    }
    map
}

fn set(ids: &[FieldId]) -> BTreeSet<FieldId> {
    ids.iter().copied().collect()
}

fn options(entries: &[(FieldId, FormatOptions)]) -> BTreeMap<FieldId, FormatOptions> {
    entries.iter().copied().collect()
}

fn doggo() -> Document {
    object(&[
        ("id", text("x1")),
        ("doggo", Value::Object(object(&[("name", text("rex")), ("age", text("xx"))]))),
    ])
}

#[test]
fn fields_with_nothing_to_format_are_left_out() {
    let formatted = options(&[(2, PLAIN), (1, CROP), (0, HIGHLIGHT)]);
    assert_eq!(
        formatting_fields_options(&formatted, &map()),
        vec![("doggo".to_string(), HIGHLIGHT), ("doggo.name".to_string(), CROP)]
    );
}

#[test]
fn the_formats_of_all_fields_that_concern_a_key_are_put_together() {
    let formatting = vec![("doggo".to_string(), HIGHLIGHT), ("doggo.name".to_string(), CROP)];
    let both = FormatOptions { highlight: true, crop: Some(2) };
    assert_eq!(format_for(&formatting, "doggo.name"), Some(both));
    assert_eq!(format_for(&formatting, "doggo.name.first"), Some(both));
    assert_eq!(format_for(&formatting, "doggo.age"), Some(HIGHLIGHT));
    assert_eq!(format_for(&formatting, "doggo"), Some(both));
    assert_eq!(format_for(&formatting, "doggos"), None);
    let crops = vec![
        ("a".to_string(), FormatOptions { highlight: false, crop: Some(9) }),
        ("a.b".to_string(), CROP),
    ];
    assert_eq!(format_for(&crops, "a.b").unwrap().crop, Some(9));
}

#[test]
fn a_document_is_formatted() {
    let formatted = options(&[(0, HIGHLIGHT), (1, CROP), (2, PLAIN)]);
    let (places, copy) =
        format_fields(&doggo(), &map(), &Letter, &Dots, &formatted, true, &set(&[0, 1, 2]));
    assert_eq!(
        copy,
        object(&[
            ("id", text("x1")),
            (
                "doggo",
                Value::Object(object(&[("name", text("re<x>|2")), ("age", text("<x><x>"))]))
            ),
        ])
    );
    let places = places.unwrap();
    let at = |start| MatchBounds { start, length: 1 };
    assert_eq!(places.get("id"), Some(&vec![at(0)]));
    assert_eq!(places.get("doggo.name"), Some(&vec![at(2)]));
    assert_eq!(places.get("doggo.age"), Some(&vec![at(0), at(1)]));
    assert_eq!(places.into_entries().len(), 3);
}

#[test]
fn no_copy_and_no_places_where_none_are_asked_for() {
    let (places, copy) =
        format_fields(&doggo(), &map(), &Letter, &Dots, &options(&[]), false, &set(&[0, 2]));
    assert!(places.is_none());
    assert_eq!(copy, Document::new());
}

#[test]
fn a_leaf_without_a_match_is_not_noted() {
    let document = object(&[("id", text("none")), ("doggo", text("x"))]);
    let (places, _) =
        format_fields(&document, &map(), &Letter, &Dots, &options(&[]), true, &set(&[0, 2]));
    let places = places.unwrap();
    assert_eq!(places.get("id"), None);
    assert_eq!(places.get("doggo"), Some(&vec![MatchBounds { start: 0, length: 1 }]));
}

#[test]
fn of_two_leaves_with_one_name_the_later_match_is_noted() {
    let document = Document {
        entries: vec![
            ("id".to_string(), text("x")),
            ("id".to_string(), text("ax")),
            ("id".to_string(), text("none")),
        ],
    };
    let (places, _) =
        format_fields(&document, &map(), &Letter, &Dots, &options(&[]), true, &set(&[2]));
    assert_eq!(places.unwrap().get("id"), Some(&vec![MatchBounds { start: 1, length: 1 }]));
}
