use search::json::{Document, Number, Value};

fn text(s: &str) -> Value {
    Value::String(s.to_string())
}

#[test]
fn what_was_inserted_is_found() {
    let mut document = Document::new();
    assert_eq!(document.get("a"), None);
    document.insert("a".to_string(), text("1"));
    document.insert("b".to_string(), text("2"));
    assert_eq!(document.get("a"), Some(&text("1")));
    assert_eq!(document.get("b"), Some(&text("2")));
    assert_eq!(document.get("c"), None);
}

#[test]
fn a_value_is_replaced_in_its_place() {
    let mut document = Document::new();
    for key in ["a", "b", "c"] {
        document.insert(key.to_string(), Value::Null);
    }
    document.insert("b".to_string(), text("new"));
    let keys: Vec<&str> = document.entries.iter().map(|(k, _)| k.as_str()).collect();
    assert_eq!(keys, ["a", "b", "c"]);
    assert_eq!(document.get("b"), Some(&text("new")));
    assert_eq!(document.get("a"), Some(&Value::Null));
}

#[test]
fn a_copy_is_equal() {
    let mut inner = Document::new();
    inner.insert("x".to_string(), Value::Bool(false));
    let value = Value::Array(vec![
        Value::Null,
        Value::Number(Number { text: "1.5".to_string() }),
        Value::Object(inner),
        Value::Array(vec![text("t")]),
    ]);
    assert_eq!(value.clone(), value);
}

fn object(fields: &[(&str, Value)]) -> Document {
    Document { entries: fields.iter().map(|(k, v)| (k.to_string(), v.clone())).collect() }
}

fn number(text: &str) -> Value {
    Value::Number(Number { text: text.to_string() })
}

#[test]
fn objects_are_equal_whatever_the_order_of_their_entries() {
    let inner = |left: &str, right: &str| {
        Value::Object(object(&[(left, text(left)), (right, text(right))]))
    };
    assert_eq!(
        object(&[("a", inner("x", "y")), ("b", Value::Null)]),
        object(&[("b", Value::Null), ("a", inner("y", "x"))])
    );
    assert_ne!(object(&[("a", Value::Null)]), object(&[("b", Value::Null)]));
    assert_ne!(object(&[("a", Value::Null)]), object(&[("a", Value::Bool(true))]));
    assert_ne!(object(&[("a", Value::Null)]), object(&[("a", Value::Null), ("b", Value::Null)]));
    assert_ne!(
        Value::Array(vec![text("a"), text("b")]),
        Value::Array(vec![text("b"), text("a")])
    );
}

#[test]
fn values_are_equal_as_those_of_serde_are() {
    let texts = [
        "null", "true", "false", "0", "1", "-1", "0.0", "-0.0", "1.0", "\"1\"", "[]", "[1]",
        "[1,2]", "[2,1]", "{}", "{\"a\":1,\"b\":[0.0]}", "{\"b\":[-0.0],\"a\":1}",
    ];
    for left in texts {
        for right in texts {
            let read = |text: &str| serde_json::from_str::<serde_json::Value>(text).unwrap();
            let (left, right) = (read(left), read(right));
            let equal = value_of(&left) == value_of(&right);
            assert_eq!(equal, left == right, "{} {}", left, right);
        }
    }
}

fn value_of(value: &serde_json::Value) -> Value {
    match value {
        serde_json::Value::Null => Value::Null,
        serde_json::Value::Bool(b) => Value::Bool(*b),
        serde_json::Value::Number(n) => number(&n.to_string()),
        serde_json::Value::String(s) => text(s),
        serde_json::Value::Array(values) => Value::Array(values.iter().map(value_of).collect()),
        serde_json::Value::Object(map) => Value::Object(Document {
            entries: map.iter().map(|(key, value)| (key.clone(), value_of(value))).collect(),
        }),
    }
}
