use search::error::{Fallible, SearchError};
use search::filter::{
    add_search_rules, filter_terms, parse_filter, parse_filter_array, FilterParser, FilterTerm,
    IndexSearchRules, InvalidExpression,
};
use search::json::{Document, Number, Value};
use search::query::SearchQuery;

/// Writes down what it reads. Nothing is read from blank texts, and question marks are refused.
struct Scribe;

impl Fallible for Scribe {
    type Error = String;
}

impl Scribe {
    fn read(&self, text: String) -> Result<Option<String>, String> {
        if text.contains('?') {
            Err(text)
        } else {
            Ok(Some(text).filter(|text| !text.trim().is_empty()))
        }
    }
}

impl FilterParser for Scribe {
    type Filter = String;

    fn filter_from_str(&self, expression: &str) -> Result<Option<String>, String> {
        self.read(expression.to_string())
    }

    fn filter_from_array(&self, terms: &Vec<FilterTerm>) -> Result<Option<String>, String> {
        let terms: Vec<String> = terms
            .iter()
            .map(|term| match term {
                FilterTerm::One(expression) => expression.clone(),
                FilterTerm::AnyOf(expressions) => format!("({})", expressions.join(" or ")),
            })
            .collect();
        self.read(terms.join(" and "))
    }
}

fn parsed(filter: &Value) -> Result<Option<String>, SearchError<String>> {
    parse_filter(filter, &Scribe)
}

fn read_as(text: &str) -> Result<Option<String>, SearchError<String>> {
    Ok(Some(text.to_string()))
}

fn refusal(filter: &Value) -> InvalidExpression {
    match parsed(filter) {
        Err(SearchError::InvalidExpression(error)) => error,
        other => panic!("{:?}", other),
    }
}

fn text(s: &str) -> Value {
    Value::String(s.to_string())
}

fn number(s: &str) -> Value {
    Value::Number(Number { text: s.to_string() })
}

fn array(values: &[Value]) -> Value {
    Value::Array(values.to_vec())
}

fn one(s: &str) -> FilterTerm {
    FilterTerm::One(s.to_string())
}

fn any_of(texts: &[&str]) -> FilterTerm {
    FilterTerm::AnyOf(texts.iter().map(|s| s.to_string()).collect())
}

fn joined(filter: Option<Value>, rules_filter: Option<Value>) -> Option<Value> {
    let mut query = SearchQuery { filter, limit: 3, ..SearchQuery::default() };
    add_search_rules(&mut query, IndexSearchRules { filter: rules_filter });
    let rest = SearchQuery { filter: None, ..query.clone() };
    assert_eq!(rest, SearchQuery { limit: 3, ..SearchQuery::default() });
    query.filter
}

#[test]
fn one_filter_alone_is_kept() {
    assert_eq!(joined(None, None), None);
    assert_eq!(joined(None, Some(text("a"))), Some(text("a")));
    assert_eq!(joined(Some(text("a")), None), Some(text("a")));
    assert_eq!(joined(Some(number("1")), None), Some(number("1")));
}

#[test]
fn two_filters_are_joined() {
    assert_eq!(joined(Some(text("a")), Some(text("b"))), Some(array(&[text("a"), text("b")])));
    assert_eq!(
        joined(Some(array(&[text("a"), array(&[text("b"), text("c")])])), Some(text("d"))),
        Some(array(&[text("a"), array(&[text("b"), text("c")]), text("d")]))
    );
    assert_eq!(
        joined(Some(text("a")), Some(array(&[text("b"), text("c")]))),
        Some(array(&[text("a"), text("b"), text("c")]))
    );
    assert_eq!(joined(Some(array(&[])), Some(array(&[]))), Some(array(&[])));
}

#[test]
fn a_joined_filter_has_the_terms_of_both() {
    let both = joined(Some(text("a")), Some(array(&[array(&[text("b"), text("c")])])));
    assert_eq!(parsed(&both.unwrap()), read_as("a and (b or c)"));
    let spoilt = joined(Some(number("1")), Some(text("b"))).unwrap();
    assert_eq!(refusal(&spoilt).found, number("1"));
}

#[test]
fn a_text_is_an_expression() {
    assert_eq!(parsed(&text("a = 1")), read_as("a = 1"));
    assert_eq!(parsed(&text(" ")), Ok(None));
}

#[test]
fn an_array_is_made_of_terms() {
    assert_eq!(parsed(&array(&[])), Ok(None));
    assert_eq!(
        parsed(&array(&[text("a"), array(&[text("b"), text("c")]), array(&[])])),
        read_as("a and (b or c) and ()")
    );
    assert_eq!(parse_filter_array(&vec![text("a")], &Scribe), read_as("a"));
    assert_eq!(
        filter_terms(&vec![text("a"), array(&[text("b"), text("c")])]),
        Ok(vec![one("a"), any_of(&["b", "c"])])
    );
}

#[test]
fn the_error_of_the_parser_is_passed_on() {
    assert_eq!(parsed(&text("a ?")), Err(SearchError::Engine("a ?".to_string())));
    assert_eq!(
        parsed(&array(&[text("a"), array(&[text("b?")])])),
        Err(SearchError::Engine("a and (b?)".to_string()))
    );
    // A wrong kind of value comes before what the parser refuses.
    assert_eq!(refusal(&array(&[text("?"), number("1")])).found, number("1"));
}

#[test]
fn other_values_are_refused_with_what_was_expected() {
    for value in [Value::Null, Value::Bool(true), number("1"), Value::Object(Document::new())] {
        let error = refusal(&value);
        assert_eq!(error.expected, &["String", "Array"][..]);
        assert_eq!(error.found, value);

        let error = refusal(&array(&[text("a"), value.clone()]));
        assert_eq!(error.expected, &["String", "[String]"][..]);
        assert_eq!(error.found, value);

        let error = refusal(&array(&[array(&[text("a"), value.clone()])]));
        assert_eq!(error.expected, &["String"][..]);
        assert_eq!(error.found, value);
    }
    let deep = array(&[array(&[array(&[text("a")])])]);
    let error = refusal(&deep);
    assert_eq!(error.expected, &["String"][..]);
    assert_eq!(error.found, array(&[text("a")]));
}

#[test]
fn the_first_fault_is_reported() {
    let filter = array(&[array(&[text("a"), number("1")]), number("2")]);
    assert_eq!(refusal(&filter).found, number("1"));
}
