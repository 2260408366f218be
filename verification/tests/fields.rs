use std::collections::BTreeSet;

use search::fields::{
    attribute_ids, displayed_ids, field_names, to_retrieve_ids, unknown_field, FieldId,
    FieldsIdsMap,
};
use search::query::NameSet;

fn map(names: &[(FieldId, &str)]) -> FieldsIdsMap {
    let mut map = FieldsIdsMap::new();
    for (id, name) in names {
        assert!(map.add(*id, name.to_string()));
    }
    map
}

fn set(ids: &[FieldId]) -> BTreeSet<FieldId> {
    ids.iter().copied().collect()
}

fn names(names: &[&str]) -> NameSet {
    NameSet { names: texts(names) }
}

fn texts(names: &[&str]) -> Vec<String> {
    names.iter().map(|s| s.to_string()).collect()
}

#[test]
fn fields_have_numbers_and_names() {
    let mut map = map(&[(1, "a"), (3, "b")]);
    assert!(!map.add(1, "c".to_string()));
    assert!(!map.add(4, "b".to_string()));
    assert_eq!(map.name(1).map(String::as_str), Some("a"));
    assert_eq!(map.name(4), None);
    assert_eq!(map.id("b"), Some(3));
    assert_eq!(map.id("c"), None);
    assert_eq!(map.ids(), set(&[1, 3]));
}

#[test]
fn names_come_in_the_order_of_the_numbers() {
    let map = map(&[(5, "a"), (2, "c"), (9, "b")]);
    assert_eq!(field_names(&set(&[9, 5, 2]), &map), texts(&["c", "a", "b"]));
    assert_eq!(unknown_field(&set(&[2, 9]), &map), None);
    assert_eq!(unknown_field(&set(&[2, 8, 3]), &map), Some(3));
}

#[test]
fn documents_show_what_is_listed_or_all() {
    let map = map(&[(0, "a"), (1, "b")]);
    assert_eq!(displayed_ids(None, &map), set(&[0, 1]));
    assert_eq!(displayed_ids(Some(vec![1, 7, 1]), &map), set(&[1, 7]));
    assert_eq!(displayed_ids(Some(vec![]), &map), set(&[]));
}

#[test]
fn attributes_stand_for_fields() {
    let map = map(&[(0, "a"), (1, "b"), (2, "c")]);
    let displayed = set(&[0, 1]);
    assert_eq!(attribute_ids(&names(&["c", "x", "a"]), &map, &displayed), set(&[0, 2]));
    assert_eq!(attribute_ids(&names(&["c", "*"]), &map, &displayed), displayed);
    assert_eq!(attribute_ids(&names(&[]), &map, &displayed), set(&[]));
}

#[test]
fn the_order_and_repetition_of_attributes_do_not_matter() {
    let map = map(&[(0, "a"), (1, "b"), (2, "c")]);
    let displayed = set(&[0, 1]);
    assert_eq!(
        attribute_ids(&names(&["b", "a", "b"]), &map, &displayed),
        attribute_ids(&names(&["a", "b"]), &map, &displayed)
    );
    assert_eq!(
        attribute_ids(&names(&["*", "c"]), &map, &displayed),
        attribute_ids(&names(&["c", "*"]), &map, &displayed)
    );
}

#[test]
fn only_what_documents_show_is_retrieved() {
    let map = map(&[(0, "a"), (1, "b"), (2, "c")]);
    let displayed = set(&[0, 1]);
    assert_eq!(to_retrieve_ids(&None, &map, &displayed), displayed);
    assert_eq!(to_retrieve_ids(&Some(names(&["b", "c", "x"])), &map, &displayed), set(&[1]));
    assert_eq!(to_retrieve_ids(&Some(names(&["c", "*"])), &map, &displayed), displayed);
    assert_eq!(to_retrieve_ids(&Some(names(&[])), &map, &displayed), set(&[]));
}
