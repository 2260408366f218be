use search::matcher::MatchBounds;
use search::positions::MatchesPosition;

fn bounds(start: usize) -> Vec<MatchBounds> {
    vec![MatchBounds { start, length: 1 }]
}

#[test]
fn places_are_noted_by_field() {
    let mut positions = MatchesPosition::new();
    assert_eq!(positions.get("a"), None);
    positions.insert("a".to_string(), bounds(1));
    positions.insert("b".to_string(), bounds(2));
    positions.insert("a".to_string(), bounds(3));
    assert_eq!(positions.get("a"), Some(&bounds(3)));
    assert_eq!(positions.get("b"), Some(&bounds(2)));
    assert_eq!(positions.get("c"), None);
    let mut entries = positions.into_entries();
    entries.sort_by(|left, right| left.0.cmp(&right.0));
    assert_eq!(entries, vec![("a".to_string(), bounds(3)), ("b".to_string(), bounds(2))]);
}

#[test]
fn places_are_equal_whatever_the_order_they_were_noted_in() {
    let noted = |fields: &[(&str, usize)]| {
        let mut positions = MatchesPosition::new();
        for (field, start) in fields {
            positions.insert(field.to_string(), bounds(*start));
        }
        positions
    };
    assert_eq!(noted(&[("a", 1), ("b", 2)]), noted(&[("b", 2), ("a", 1)]));
    assert_ne!(noted(&[("a", 1), ("b", 2)]), noted(&[("a", 1)]));
    assert_ne!(noted(&[("a", 1)]), noted(&[("a", 1), ("b", 2)]));
    assert_ne!(noted(&[("a", 1)]), noted(&[("a", 2)]));
    assert_ne!(noted(&[("a", 1)]), noted(&[("b", 1)]));
    let positions = noted(&[("a", 1), ("b", 2)]);
    assert_eq!(positions.clone(), positions);
}
