use std::collections::{BTreeMap, BTreeSet};

use search::fields::{FieldId, FieldsIdsMap};
use search::options::{
    add_crop_to_formatted_options, add_highlight_to_formatted_options,
    add_non_formatted_ids_to_formatted_options, compute_formatted_options, FormatOptions,
};
use search::query::NameSet;

const PLAIN: FormatOptions = FormatOptions { highlight: false, crop: None };
const HIGHLIGHT: FormatOptions = FormatOptions { highlight: true, crop: None };

fn crop(length: usize) -> FormatOptions {
    FormatOptions { highlight: false, crop: Some(length) }
}

fn both(length: usize) -> FormatOptions {
    FormatOptions { highlight: true, crop: Some(length) }
}

/// The fields `a`, `b` and `c`, and one with a colon in its name.
fn map() -> FieldsIdsMap {
    let mut map = FieldsIdsMap::new();
    for (id, name) in ["a", "b", "c", "d:e"].iter().enumerate() {
        assert!(map.add(id as FieldId, name.to_string()));
    }
    map
}

fn set(ids: &[FieldId]) -> BTreeSet<FieldId> {
    ids.iter().copied().collect()
}

fn names(names: &[&str]) -> NameSet {
    NameSet { names: texts(names) }
}

fn texts(names: &[&str]) -> Vec<String> {
    names.iter().map(|s| s.to_string()).collect()
}

fn options(entries: &[(FieldId, FormatOptions)]) -> BTreeMap<FieldId, FormatOptions> {
    entries.iter().copied().collect()
}

#[test]
fn formats_are_put_together() {
    assert_eq!(HIGHLIGHT.merge(crop(3)), both(3));
    assert_eq!(crop(2).merge(both(3)), both(2));
    assert_eq!(PLAIN.merge(crop(1)), crop(1));
    assert_eq!(HIGHLIGHT.merge(PLAIN), HIGHLIGHT);
    assert_eq!(
        crop(1).merge(crop(2)).merge(HIGHLIGHT),
        crop(1).merge(crop(2).merge(HIGHLIGHT))
    );
    assert!(!PLAIN.should_format());
    assert!(HIGHLIGHT.should_format() && crop(0).should_format());
}

#[test]
fn attributes_are_highlighted() {
    let mut formatted = options(&[(1, crop(4)), (2, PLAIN)]);
    add_highlight_to_formatted_options(
        &mut formatted,
        &names(&["b", "x", "c"]),
        &map(),
        &set(&[0, 1]),
    );
    assert_eq!(formatted, options(&[(1, HIGHLIGHT), (2, PLAIN)]));
    add_highlight_to_formatted_options(&mut formatted, &names(&["*"]), &map(), &set(&[0, 1]));
    assert_eq!(formatted, options(&[(0, HIGHLIGHT), (1, HIGHLIGHT), (2, PLAIN)]));
}

#[test]
fn attributes_are_cropped() {
    let mut formatted = options(&[(1, HIGHLIGHT)]);
    add_crop_to_formatted_options(
        &mut formatted,
        &texts(&["a", "b:5", "c:7", "x:1"]),
        10,
        &map(),
        &set(&[0, 1]),
    );
    assert_eq!(formatted, options(&[(0, crop(10)), (1, both(5))]));
}

#[test]
fn the_last_crop_attribute_about_a_field_counts() {
    let mut formatted = options(&[]);
    add_crop_to_formatted_options(
        &mut formatted,
        &texts(&["a:1", "*:2", "b:3"]),
        10,
        &map(),
        &set(&[0, 1, 2]),
    );
    assert_eq!(formatted, options(&[(0, crop(2)), (1, crop(3)), (2, crop(2))]));
}

#[test]
fn a_crop_length_stands_behind_the_last_colon() {
    let all = set(&[0, 1, 2, 3]);
    let cropped = |attribute: &str| {
        let mut formatted = options(&[]);
        add_crop_to_formatted_options(&mut formatted, &texts(&[attribute]), 10, &map(), &all);
        formatted
    };
    assert_eq!(cropped("a:+5"), options(&[(0, crop(5))]));
    assert_eq!(cropped("a:"), options(&[(0, crop(10))]));
    assert_eq!(cropped("a:-5"), options(&[(0, crop(10))]));
    assert_eq!(cropped("a:five"), options(&[(0, crop(10))]));
    assert_eq!(cropped("a:0"), options(&[(0, crop(0))]));
    assert_eq!(cropped("d:e:4"), options(&[(3, crop(4))]));
    // Without a second colon, what looks like the end of the name is taken for the length.
    assert_eq!(cropped("d:e"), options(&[]));
}

#[test]
fn retrieved_fields_are_added_plain() {
    let mut formatted = options(&[(1, both(2))]);
    add_non_formatted_ids_to_formatted_options(&mut formatted, &set(&[0, 1]));
    assert_eq!(formatted, options(&[(0, PLAIN), (1, both(2))]));
}

#[test]
fn there_is_no_formatted_copy_without_a_marked_field() {
    let computed = |highlight: &[&str], crop: &[&str], retrieve: &[FieldId]| {
        compute_formatted_options(
            &names(highlight),
            &texts(crop),
            10,
            &set(retrieve),
            &map(),
            &set(&[0, 1, 2]),
        )
    };
    assert_eq!(computed(&[], &[], &[0, 1]), options(&[]));
    assert_eq!(computed(&["x", "d:e"], &["y:3"], &[0, 1]), options(&[]));
    assert_eq!(computed(&["a"], &[], &[0, 1]), options(&[(0, HIGHLIGHT), (1, PLAIN)]));
    assert_eq!(computed(&["a"], &["a:3"], &[]), options(&[(0, both(3))]));
    assert_eq!(
        computed(&["*"], &["b"], &[2]),
        options(&[(0, HIGHLIGHT), (1, both(10)), (2, HIGHLIGHT)])
    );
}
