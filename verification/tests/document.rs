use std::collections::BTreeSet;

use search::document::{document_of_entries, make_document, Reader};
use search::error::{Fallible, SearchError};
use search::fields::{FieldId, FieldsIdsMap};
use search::json::{Document, Value};
use search::selector::Selector;

/// Reads values as texts, unless they start with an exclamation mark, and keeps whole fields.
struct Store;

impl Fallible for Store {
    type Error = String;
}

impl Reader for Store {
    fn parse(&self, bytes: &Vec<u8>) -> Result<Value, String> {
        let text = String::from_utf8(bytes.clone()).unwrap();
        if text.starts_with('!') {
            Err(text)
        } else {
            Ok(Value::String(text))
        }
    }
}

impl Selector for Store {
    fn select_values(&self, document: &Document, names: &Vec<String>) -> Document {
        let kept = document.entries.iter().filter(|(key, _)| names.contains(key));
        Document { entries: kept.cloned().collect() }
    }

    fn leaf_values(&self, _document: &Document, _names: &Vec<String>) -> Vec<(String, Value)> {
        unreachable!()
    }

    fn replace_leaves(
        &self,
        _document: Document,
        _names: &Vec<String>,
        _values: Vec<Value>,
    ) -> Document {
        unreachable!()
    }
}

fn map() -> FieldsIdsMap {
    let mut map = FieldsIdsMap::new();
    assert!(map.add(1, "id".to_string()));
    assert!(map.add(2, "title".to_string()));
    assert!(map.add(300, "secret".to_string()));
    map
}

fn set(ids: &[FieldId]) -> BTreeSet<FieldId> {
    ids.iter().copied().collect()
}

fn stored(entries: &[(u16, &str)]) -> Vec<u8> {
    let mut writer = obkv::KvWriterU16::memory();
    for (key, value) in entries {
        writer.insert(*key, value.as_bytes()).unwrap();
    }
    writer.into_inner().unwrap()
}

fn document(fields: &[(&str, &str)]) -> Document {
    let entries = fields.iter().map(|(k, v)| (k.to_string(), Value::String(v.to_string())));
    Document { entries: entries.collect() }
}

#[test]
fn a_stored_document_shows_its_displayed_fields() {
    let long = "x".repeat(1000);
    let bytes = stored(&[(1, "7"), (2, long.as_str()), (300, "s")]);
    assert_eq!(
        make_document(&set(&[1, 2]), &map(), &bytes, &Store),
        Ok(document(&[("id", "7"), ("title", long.as_str())]))
    );
    assert_eq!(
        make_document(&set(&[1, 2, 300]), &map(), &bytes, &Store),
        Ok(document(&[("id", "7"), ("title", long.as_str()), ("secret", "s")]))
    );
    assert_eq!(make_document(&set(&[]), &map(), &bytes, &Store), Ok(document(&[])));
    assert_eq!(make_document(&set(&[1]), &map(), &[], &Store), Ok(document(&[])));
}

#[test]
fn an_entry_that_is_cut_short_is_not_read() {
    let mut bytes = stored(&[(1, "7"), (2, "title")]);
    bytes.pop();
    assert_eq!(
        make_document(&set(&[1, 2]), &map(), &bytes, &Store),
        Ok(document(&[("id", "7")]))
    );
}

#[test]
fn the_first_fault_of_a_stored_document_is_reported() {
    let all = set(&[1, 2]);
    let failed = |entries: &[(u16, &str)]| {
        make_document(&all, &map(), &stored(entries), &Store).unwrap_err()
    };
    assert_eq!(failed(&[(1, "7"), (2, "!bad")]), SearchError::Engine("!bad".to_string()));
    assert_eq!(failed(&[(1, "7"), (9, "x")]), SearchError::MissingFieldName(9));
    assert_eq!(failed(&[(1, "!a"), (9, "x")]), SearchError::Engine("!a".to_string()));
    assert_eq!(failed(&[(9, "x"), (10, "!a")]), SearchError::MissingFieldName(9));
    // A value that cannot be read comes before a field that is not known.
    assert_eq!(failed(&[(9, "!x")]), SearchError::Engine("!x".to_string()));
}

#[test]
fn an_unknown_displayed_field_is_reported_last() {
    let displayed = set(&[1, 40, 50]);
    let made = |entries: &[(u16, &str)]| {
        make_document(&displayed, &map(), &stored(entries), &Store).unwrap_err()
    };
    assert_eq!(made(&[(1, "7")]), SearchError::MissingFieldName(40));
    assert_eq!(made(&[(1, "!7")]), SearchError::Engine("!7".to_string()));
}

#[test]
fn entries_give_each_value_under_its_name() {
    let entries = vec![(2, b"t".to_vec()), (1, b"i".to_vec()), (2, b"u".to_vec())];
    assert_eq!(
        document_of_entries(&set(&[1, 2]), &map(), &entries, &Store),
        Ok(document(&[("title", "u"), ("id", "i")]))
    );
}

#[test]
fn a_refused_value_counts_though_it_is_not_displayed() {
    let bytes = stored(&[(1, "7"), (300, "!s")]);
    assert_eq!(
        make_document(&set(&[1]), &map(), &bytes, &Store),
        Err(SearchError::Engine("!s".to_string()))
    );
}
