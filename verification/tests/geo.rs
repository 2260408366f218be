use search::geo::{
    document_geo_point, find_geo_point, insert_geo_distance, is_sortable, note_distance, GeoPoint,
    Metric,
};
use search::json::{Document, Number, Value};

/// The great-circle distance on a sphere.
struct Earth;

fn radians(text: &str) -> f64 {
    text.parse::<f64>().unwrap().to_radians()
}

impl Metric for Earth {
    fn distance_between_two_points(&self, from: &GeoPoint, to: &GeoPoint) -> usize {
        let (lat1, lng1) = (radians(&from.lat), radians(&from.lng));
        let (lat2, lng2) = (radians(&to.lat), radians(&to.lng));
        let half = |d: f64| (d / 2.0).sin().powi(2);
        let h = half(lat2 - lat1) + lat1.cos() * lat2.cos() * half(lng2 - lng1);
        (2.0 * 6_371_000.0 * h.sqrt().asin()).round() as usize
    }
}

fn value_of(value: serde_json::Value) -> Value {
    match value {
        serde_json::Value::Null => Value::Null,
        serde_json::Value::Bool(b) => Value::Bool(b),
        serde_json::Value::Number(n) => number(&n.to_string()),
        serde_json::Value::String(s) => Value::String(s),
        serde_json::Value::Array(values) => {
            Value::Array(values.into_iter().map(value_of).collect())
        }
        serde_json::Value::Object(map) => Value::Object(document_of(map)),
    }
}

fn document_of(map: serde_json::Map<String, serde_json::Value>) -> Document {
    Document { entries: map.into_iter().map(|(k, v)| (k, value_of(v))).collect() }
}

fn number(text: &str) -> Value {
    Value::Number(Number { text: text.to_string() })
}

fn read(text: &str) -> Document {
    document_of(serde_json::from_str(text).unwrap())
}

fn owned(sorts: &[&str]) -> Vec<String> {
    sorts.iter().map(|s| s.to_string()).collect()
}

fn point(lat: &str, lng: &str) -> Option<GeoPoint> {
    Some(GeoPoint { lat: lat.to_string(), lng: lng.to_string() })
}

#[test]
fn test_insert_geo_distance() {
    let value: Document = read(
        r#"{
              "_geo": {
                "lat": 50.629973371633746,
                "lng": 3.0569447399419567
              },
              "city": "Lille",
              "id": "1"
            }"#,
    );

    let sorters = &owned(&["_geoPoint(50.629973371633746,3.0569447399419567):desc"]);
    let mut document = value.clone();
    insert_geo_distance(sorters, &mut document, &Earth);
    assert_eq!(document.get("_geoDistance"), Some(&number("0")));

    let sorters = &owned(&["_geoPoint(50.629973371633746, 3.0569447399419567):asc"]);
    let mut document = value.clone();
    insert_geo_distance(sorters, &mut document, &Earth);
    assert_eq!(document.get("_geoDistance"), Some(&number("0")));

    let sorters = &owned(&["_geoPoint(   50.629973371633746   ,  3.0569447399419567   ):desc"]);
    let mut document = value.clone();
    insert_geo_distance(sorters, &mut document, &Earth);
    assert_eq!(document.get("_geoDistance"), Some(&number("0")));

    let sorters = &owned(&[
        "prix:asc",
        "villeneuve:desc",
        "_geoPoint(50.629973371633746, 3.0569447399419567):asc",
        "ubu:asc",
    ]);
    let mut document = value.clone();
    insert_geo_distance(sorters, &mut document, &Earth);
    assert_eq!(document.get("_geoDistance"), Some(&number("0")));

    // only the first geoPoint is used to compute the distance
    let sorters = &owned(&[
        "chien:desc",
        "_geoPoint(50.629973371633746, 3.0569447399419567):asc",
        "pangolin:desc",
        "_geoPoint(100.0, -80.0):asc",
        "chat:asc",
    ]);
    let mut document = value.clone();
    insert_geo_distance(sorters, &mut document, &Earth);
    assert_eq!(document.get("_geoDistance"), Some(&number("0")));

    // there was no _geoPoint so nothing is inserted in the document
    let sorters = &owned(&["chien:asc"]);
    let mut document = value;
    insert_geo_distance(sorters, &mut document, &Earth);
    assert_eq!(document.get("_geoDistance"), None);
}

#[test]
fn a_distance_is_measured_in_metres() {
    let mut document = read(r#"{"_geo": {"lat": 1, "lng": 0.0}}"#);
    insert_geo_distance(&owned(&["_geoPoint(0,0):asc"]), &mut document, &Earth);
    // One degree of a great circle.
    assert_eq!(document.get("_geoDistance"), Some(&number("111195")));
}

#[test]
fn noting_a_distance_changes_nothing_else() {
    let mut document = read(r#"{"a": 1, "_geoDistance": "far", "_geo": {"lat": 0, "lng": 0}}"#);
    insert_geo_distance(&owned(&["_geoPoint(0,0):asc"]), &mut document, &Earth);
    let keys: Vec<&str> = document.entries.iter().map(|(k, _)| k.as_str()).collect();
    assert_eq!(keys, ["a", "_geoDistance", "_geo"]);
    assert_eq!(document.get("a"), Some(&number("1")));
    assert_eq!(document.get("_geoDistance"), Some(&number("0")));
}

#[test]
fn nothing_is_noted_without_coordinates() {
    for text in [
        r#"{"id": 1}"#,
        r#"{"_geo": null}"#,
        r#"{"_geo": [1, 2]}"#,
        r#"{"_geo": {"lat": 1}}"#,
        r#"{"_geo": {"lat": "1", "lng": 2}}"#,
        r#"{"_geo": {"lat": 1, "lng": null}}"#,
    ] {
        let before = read(text);
        let mut document = before.clone();
        insert_geo_distance(&owned(&["_geoPoint(0,0):asc"]), &mut document, &Earth);
        assert_eq!(document, before);
        assert_eq!(document_geo_point(&document), None);
    }
}

#[test]
fn the_first_point_of_the_first_criterion_counts() {
    assert_eq!(find_geo_point(&owned(&["_geoPoint(1,2) _geoPoint(3,4)"])), point("1", "2"));
    assert_eq!(
        find_geo_point(&owned(&["a:asc", "_geoPoint(1,2):asc", "_geoPoint(3,4):asc"])),
        point("1", "2")
    );
    assert_eq!(find_geo_point(&owned(&["x_geoPoint(_geoPoint(-1.5,.2):asc"])), point("-1.5", ".2"));
    assert_eq!(find_geo_point(&owned(&["_geoPoint(1,_geoPoint(3,4)"])), point("3", "4"));
}

#[test]
fn white_space_may_stand_between_the_parts_of_a_point() {
    assert_eq!(
        find_geo_point(&owned(&["_geoPoint(\t1\n\u{a0},\u{3000}2\u{2009} ):asc"])),
        point("1", "2")
    );
    assert_eq!(find_geo_point(&owned(&["_geoPoint (1,2)"])), None);
    assert_eq!(find_geo_point(&owned(&["_geoPoint(1 0,2)"])), None);
}

#[test]
fn other_texts_are_no_points() {
    for text in [
        "",
        "_geoPoint",
        "_geoPoint()",
        "_geoPoint(1)",
        "_geoPoint(1,)",
        "_geoPoint(,2)",
        "_geoPoint(1;2)",
        "_geoPoint(1,2",
        "_geopoint(1,2)",
        "_geoPoint(a,b)",
        "_geoPoint(+1,2)",
        "_geoPoint(\u{661},\u{662})",
    ] {
        assert_eq!(find_geo_point(&owned(&[text])), None, "{}", text);
    }
    assert_eq!(find_geo_point(&Vec::new()), None);
}

#[test]
fn a_point_can_be_sorted_by_where_its_coordinates_are_numbers() {
    assert!(is_sortable(&None));
    assert!(is_sortable(&find_geo_point(&owned(&["_geoPoint(-12.5,3.)"]))));
    assert!(!is_sortable(&find_geo_point(&owned(&["_geoPoint(1.2.3,4)"]))));
    assert!(!is_sortable(&find_geo_point(&owned(&["_geoPoint(1,-)"]))));
}

#[test]
fn a_distance_is_noted_from_a_given_point() {
    let mut document = read(r#"{"_geo": {"lat": 0, "lng": 2}}"#);
    note_distance(&None, &mut document, &Earth);
    assert_eq!(document.get("_geoDistance"), None);
    note_distance(&point("0", "0"), &mut document, &Earth);
    assert_eq!(document.get("_geoDistance"), Some(&number("222390")));
}

#[test]
fn the_same_point_leaves_the_same_document() {
    let before = read(r#"{"id": 1, "_geo": {"lat": 2, "lng": 3}}"#);
    let noted = |sorts: &[&str]| {
        let mut document = before.clone();
        insert_geo_distance(&owned(sorts), &mut document, &Earth);
        document
    };
    let once = noted(&["_geoPoint(1.5,-2):asc"]);
    assert_eq!(once, noted(&["a:asc", "_geoPoint( 1.50 , -02.0 ):desc", "_geoPoint(9,9):asc"]));
    let mut twice = once.clone();
    insert_geo_distance(&owned(&["_geoPoint(1.5,-2):asc"]), &mut twice, &Earth);
    assert_eq!(twice, once);
}
