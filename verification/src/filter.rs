//! Filters: joining those of a query with those of the search rules, and parsing them.
use vstd::prelude::*;

use crate::error;
use crate::error::{Fallible, SearchError};
use crate::json;
use crate::json::{Json, Value};
use crate::query::SearchQuery;
use crate::text;

verus! {

/// What the search rules of an index add to every query on it.
#[derive(Debug, Clone, PartialEq)]
pub struct IndexSearchRules {
    pub filter: Option<Value>,
}

/// What an optional value is.
pub open spec fn json_of(value: Option<Value>) -> Option<Json> {
    match value {
        Some(value) => Some(value@),
        None => None,
    }
}

/// The conditions of a filter: those of an array, or the one that is not an array.
pub open spec fn conditions(filter: Json) -> Seq<Json> {
    match filter {
        Json::Array(filters) => filters,
        filter => seq![filter],
    }
}

/// The filter under which all conditions of two filters have to hold.
pub open spec fn joined(filter: Option<Json>, rules_filter: Option<Json>) -> Option<Json> {
    match (filter, rules_filter) {
        (None, rules_filter) => rules_filter,
        (filter, None) => filter,
        (Some(filter), Some(rules_filter)) => Some(
            Json::Array(conditions(filter) + conditions(rules_filter)),
        ),
    }
}

/// The conditions of a filter, as a list.
fn into_conditions(filter: Value) -> (list: Vec<Value>)
    ensures
        list@.map_values(|v: Value| v@) == conditions(filter@),
{
    broadcast use json::lemma_value_view;

    match filter {
        Value::Array(filters) => filters,
        filter => {
            let mut list: Vec<Value> = Vec::new();
            list.push(filter);
            assert(list@.map_values(|v: Value| v@) =~= conditions(filter@));
            list
        },
    }
}

/// Incorporate search rules in search query
pub fn add_search_rules(query: &mut SearchQuery, rules: IndexSearchRules)
    ensures
        json_of(final(query).filter) == joined(json_of(old(query).filter), json_of(rules.filter)),
        *final(query) == (SearchQuery { filter: final(query).filter, ..*old(query) }),
{
    broadcast use json::lemma_value_view;

    let filter = query.filter.take();
    query.filter = match (filter, rules.filter) {
        (None, rules_filter) => rules_filter,
        (Some(filter), None) => Some(filter),
        (Some(filter), Some(rules_filter)) => {
            let ghost both = conditions(filter@) + conditions(rules_filter@);
            let mut filters = into_conditions(filter);
            let mut rules_filters = into_conditions(rules_filter);
            filters.append(&mut rules_filters);
            assert(filters@.map_values(|v: Value| v@) =~= both);
            Some(Value::Array(filters))
        },
    };
}

/// A condition of a filter, or several of which one has to hold; each is the text of an
/// expression.
#[derive(Debug, Clone, PartialEq, Eq)]
pub enum FilterTerm {
    One(String),
    AnyOf(Vec<String>),
}

/// The error of a filter that holds something else than texts in the right places: what could
/// have stood there, and what did.
#[derive(Debug, Clone, PartialEq)]
pub struct InvalidExpression {
    pub expected: &'static [&'static str],
    pub found: Value,
}

/// What a term is, apart from how it is stored.
pub enum Term {
    One(Seq<char>),
    AnyOf(Seq<Seq<char>>),
}

impl View for FilterTerm {
    type V = Term;

    open spec fn view(&self) -> Term {
        match *self {
            FilterTerm::One(expression) => Term::One(expression@),
            FilterTerm::AnyOf(expressions) => Term::AnyOf(text::texts(expressions@)),
        }
    }
}

/// Why a filter is refused.
pub struct Refusal {
    pub expected: Seq<Seq<char>>,
    pub found: Json,
}

impl View for InvalidExpression {
    type V = Refusal;

    open spec fn view(&self) -> Refusal {
        Refusal { expected: self.expected@.map_values(|s: &str| s@), found: self.found@ }
    }
}

/// Why a list of alternatives is refused: its first item that is not a text.
pub open spec fn refused_alternatives(items: Seq<Json>) -> Option<Refusal>
    decreases items.len(),
{
    if items.len() == 0 {
        None
    } else {
        match (refused_alternatives(items.drop_last()), items.last()) {
            (Some(refusal), _) => Some(refusal),
            (None, Json::String(_)) => None,
            (None, found) => Some(Refusal { expected: seq!["String"@], found }),
        }
    }
}

/// Why an item of a filter array is refused.
pub open spec fn refused_item(item: Json) -> Option<Refusal> {
    match item {
        Json::String(_) => None,
        Json::Array(items) => refused_alternatives(items),
        found => Some(Refusal { expected: seq!["String"@, "[String]"@], found }),
    }
}

/// Why a filter array is refused: its first item that is.
pub open spec fn refused_array(items: Seq<Json>) -> Option<Refusal>
    decreases items.len(),
{
    if items.len() == 0 {
        None
    } else {
        match refused_array(items.drop_last()) {
            Some(refusal) => Some(refusal),
            None => refused_item(items.last()),
        }
    }
}

/// The text of a JSON string.
pub open spec fn text_of(item: Json) -> Seq<char> {
    item->String_0
}

/// The term that an item of a filter array is.
pub open spec fn term_of(item: Json) -> Term {
    match item {
        Json::Array(items) => Term::AnyOf(items.map_values(|item: Json| text_of(item))),
        item => Term::One(text_of(item)),
    }
}

/// Reads the alternatives in a filter array.
fn parse_alternatives(items: &Vec<Value>) -> (result: Result<Vec<String>, InvalidExpression>)
    ensures
        ({
            let model = items@.map_values(|v: Value| v@);
            match result {
                Ok(ors) => refused_alternatives(model) is None && text::texts(ors@)
                    == model.map_values(|item: Json| text_of(item)),
                Err(error) => refused_alternatives(model) == Some(error@),
            }
        }),
{
    let ghost model = items@.map_values(|v: Value| v@);
    let mut ors: Vec<String> = Vec::new();
    let mut i: usize = 0;
    while i < items.len()
        invariant
            i <= items.len(),
            model == items@.map_values(|v: Value| v@),
            refused_alternatives(model.take(i as int)) is None,
            ors@.len() == i,
            forall|k: int| 0 <= k < i ==> #[trigger] ors@[k]@ == text_of(model[k]),
        decreases items.len() - i,
    {
        let ghost seen = model.take(i + 1);
        assert(seen.drop_last() == model.take(i as int));
        assert(seen.last() == items@[i as int]@);
        match &items[i] {
            Value::String(s) => {
                ors.push(s.clone());
            },
            v => {
                proof {
                    lemma_alternatives_stay_refused(model, i + 1);
                }
                let error = InvalidExpression { expected: &["String"], found: v.clone() };
                assert(error@.expected =~= seq!["String"@]);
                return Err(error);
            },
        }
        i += 1;
    }
    assert(model.take(i as int) == model);
    assert(text::texts(ors@) =~= model.map_values(|item: Json| text_of(item)));
    Ok(ors)
}

/// A refusal stands whatever comes behind it.
proof fn lemma_alternatives_stay_refused(items: Seq<Json>, len: int)
    requires
        0 <= len <= items.len(),
        refused_alternatives(items.take(len)) is Some,
    ensures
        refused_alternatives(items) == refused_alternatives(items.take(len)),
    decreases items.len() - len,
{
    if len == items.len() {
        assert(items.take(len) == items);
    } else {
        assert(items.take(len + 1).drop_last() == items.take(len));
        lemma_alternatives_stay_refused(items, len + 1);
    }
}

/// A refusal stands whatever comes behind it.
proof fn lemma_array_stays_refused(items: Seq<Json>, len: int)
    requires
        0 <= len <= items.len(),
        refused_array(items.take(len)) is Some,
    ensures
        refused_array(items) == refused_array(items.take(len)),
    decreases items.len() - len,
{
    if len == items.len() {
        assert(items.take(len) == items);
    } else {
        assert(items.take(len + 1).drop_last() == items.take(len));
        lemma_array_stays_refused(items, len + 1);
    }
}

/// Reads the terms of a filter array, which all have to hold.
pub fn filter_terms(arr: &Vec<Value>) -> (result: Result<Vec<FilterTerm>, InvalidExpression>)
    ensures
        ({
            let model = arr@.map_values(|v: Value| v@);
            match result {
                Ok(ands) => refused_array(model) is None && ands@.map_values(|t: FilterTerm| t@)
                    == model.map_values(|item: Json| term_of(item)),
                Err(error) => refused_array(model) == Some(error@),
            }
        }),
{
    broadcast use json::lemma_value_view;

    let ghost model = arr@.map_values(|v: Value| v@);
    let mut ands: Vec<FilterTerm> = Vec::new();
    let mut i: usize = 0;
    while i < arr.len()
        invariant
            i <= arr.len(),
            model == arr@.map_values(|v: Value| v@),
            refused_array(model.take(i as int)) is None,
            ands@.len() == i,
            forall|k: int| 0 <= k < i ==> #[trigger] ands@[k]@ == term_of(model[k]),
        decreases arr.len() - i,
    {
        broadcast use json::lemma_value_view;

        let ghost seen = model.take(i + 1);
        assert(seen.drop_last() == model.take(i as int));
        assert(seen.last() == arr@[i as int]@);
        match &arr[i] {
            Value::String(s) => {
                ands.push(FilterTerm::One(s.clone()));
            },
            Value::Array(items) => match parse_alternatives(items) {
                Ok(ors) => {
                    ands.push(FilterTerm::AnyOf(ors));
                },
                Err(error) => {
                    proof {
                        lemma_array_stays_refused(model, i + 1);
                    }
                    return Err(error);
                },
            },
            v => {
                let error = InvalidExpression {
                    expected: &["String", "[String]"],
                    found: v.clone(),
                };
                proof {
                    assert(error@.expected =~= seq!["String"@, "[String]"@]);
                    lemma_array_stays_refused(model, i + 1);
                }
                return Err(error);
            },
        }
        i += 1;
    }
    assert(model.take(i as int) == model);
    assert(ands@.map_values(|t: FilterTerm| t@) =~= model.map_values(|item: Json| term_of(item)));
    Ok(ands)
}

/// Why a filter is refused.
pub open spec fn refused_filter(filter: Json) -> Option<Refusal> {
    match filter {
        Json::String(_) => None,
        Json::Array(items) => refused_array(items),
        found => Some(Refusal { expected: seq!["String"@, "Array"@], found }),
    }
}

/// What reads the expressions of filters. Nothing is assumed of what it returns.
pub trait FilterParser: Fallible {
    type Filter;

    /// The filter that the text of one expression stands for, unless it is blank.
    fn filter_from_str(&self, expression: &str) -> Result<Option<Self::Filter>, Self::Error>;

    /// The filter under which all of a list of terms have to hold, unless there is none.
    fn filter_from_array(&self, terms: &Vec<FilterTerm>) -> Result<
        Option<Self::Filter>,
        Self::Error,
    >;
}

/// Whether the text of an expression can be read so.
pub open spec fn expression_read<T: FilterParser>(
    parser: T,
    text: Seq<char>,
    answer: Result<Option<T::Filter>, T::Error>,
) -> bool {
    exists|read: &str| #[trigger]
        call_ensures(T::filter_from_str, (&parser, read), answer) && read@ == text
}

/// Whether a list of terms can be read so.
pub open spec fn terms_read<T: FilterParser>(
    parser: T,
    terms: Seq<Term>,
    answer: Result<Option<T::Filter>, T::Error>,
) -> bool {
    exists|read: &Vec<FilterTerm>| #[trigger]
        call_ensures(T::filter_from_array, (&parser, read), answer) && read@.map_values(
            |t: FilterTerm| t@,
        ) == terms
}

/// Whether a filter array can be parsed so: with the first thing in it that is refused, or else as
/// its terms, all of them and in their order, are read.
pub open spec fn array_parses<T: FilterParser>(
    parser: T,
    items: Seq<Json>,
    result: Result<Option<T::Filter>, SearchError<T::Error>>,
) -> bool {
    let terms = items.map_values(|item: Json| term_of(item));
    match result {
        Ok(filter) => refused_array(items) is None && terms_read(parser, terms, Ok(filter)),
        Err(SearchError::InvalidExpression(error)) => refused_array(items) == Some(error@),
        Err(SearchError::Engine(error)) => refused_array(items) is None && terms_read(
            parser,
            terms,
            Err(error),
        ),
        Err(_) => false,
    }
}

/// Whether a filter can be parsed so: a text as its expression is read, an array as its terms are,
/// and nothing else.
pub open spec fn filter_parses<T: FilterParser>(
    parser: T,
    filter: Json,
    result: Result<Option<T::Filter>, SearchError<T::Error>>,
) -> bool {
    match filter {
        Json::String(text) => match result {
            Ok(parsed) => expression_read(parser, text, Ok(parsed)),
            Err(SearchError::Engine(error)) => expression_read(parser, text, Err(error)),
            Err(_) => false,
        },
        Json::Array(items) => array_parses(parser, items, result),
        _ => match result {
            Err(SearchError::InvalidExpression(error)) => refused_filter(filter) == Some(error@),
            _ => false,
        },
    }
}

/// Parses a filter array.
pub fn parse_filter_array<T: FilterParser>(arr: &Vec<Value>, parser: &T) -> (result: Result<
    Option<T::Filter>,
    SearchError<T::Error>,
>)
    ensures
        array_parses(*parser, arr@.map_values(|v: Value| v@), result),
{
    let ghost items = arr@.map_values(|v: Value| v@);
    let terms = match filter_terms(arr) {
        Ok(terms) => terms,
        Err(error) => {
            return Err(SearchError::InvalidExpression(error));
        },
    };
    let ghost listed = items.map_values(|item: Json| term_of(item));
    match parser.filter_from_array(&terms) {
        Ok(filter) => {
            assert(terms_read(*parser, listed, Ok(filter)));
            Ok(filter)
        },
        Err(error) => {
            assert(terms_read(*parser, listed, Err(error)));
            Err(SearchError::Engine(error))
        },
    }
}

/// Parses a filter.
pub fn parse_filter<T: FilterParser>(facets: &Value, parser: &T) -> (result: Result<
    Option<T::Filter>,
    SearchError<T::Error>,
>)
    ensures
        filter_parses(*parser, facets@, result),
{
    broadcast use json::lemma_value_view;

    match facets {
        Value::String(expr) => match parser.filter_from_str(expr.as_str()) {
            Ok(condition) => {
                assert(expression_read(*parser, expr@, Ok(condition)));
                Ok(condition)
            },
            Err(error) => {
                assert(expression_read(*parser, expr@, Err(error)));
                Err(SearchError::Engine(error))
            },
        },
        Value::Array(arr) => parse_filter_array(arr, parser),
        v => {
            let error = InvalidExpression { expected: &["String", "Array"], found: v.clone() };
            assert(error@.expected =~= seq!["String"@, "Array"@]);
            Err(SearchError::InvalidExpression(error))
        },
    }
}

/// The terms of a filter: those of an array, or the one that is not an array.
pub open spec fn terms_of(filter: Json) -> Seq<Term> {
    conditions(filter).map_values(|item: Json| term_of(item))
}

/// The conditions of the search rules stand in every filter that they are joined with, and so do
/// those of the query.
pub proof fn law_rules_are_kept(filter: Option<Json>, rules_filter: Option<Json>)
    ensures
        rules_filter is Some ==> joined(filter, rules_filter) is Some && conditions(
            rules_filter->0,
        ).is_suffix_of(conditions(joined(filter, rules_filter)->0)),
        filter is Some ==> joined(filter, rules_filter) is Some && conditions(
            filter->0,
        ).is_prefix_of(conditions(joined(filter, rules_filter)->0)),
        filter is None && rules_filter is None ==> joined(filter, rules_filter) is None,
{
}

/// What is refused in the first part of an array is refused in the whole, and otherwise the second
/// part decides.
proof fn lemma_refused_sum(left: Seq<Json>, right: Seq<Json>)
    ensures
        refused_array(left + right) == match refused_array(left) {
            Some(refusal) => Some(refusal),
            None => refused_array(right),
        },
    decreases right.len(),
{
    if right.len() == 0 {
        assert(left + right == left);
    } else {
        lemma_refused_sum(left, right.drop_last());
        assert((left + right).drop_last() == left + right.drop_last());
        assert((left + right).last() == right.last());
    }
}

/// A filter is refused just where the array of its conditions is.
proof fn lemma_refused_conditions(filter: Json)
    ensures
        refused_filter(filter) is None <==> refused_array(conditions(filter)) is None,
{
    if !(filter is Array) {
        let alone = conditions(filter);
        assert(alone.drop_last() == Seq::<Json>::empty());
        assert(refused_array(alone.drop_last()) is None);
        assert(alone.last() == filter);
    }
}

/// The filter of a query, joined with that of the search rules, is refused just where one of the
/// two is; otherwise it has the terms of both.
pub proof fn law_joined_terms(filter: Json, rules_filter: Json)
    ensures
        ({
            let both = joined(Some(filter), Some(rules_filter))->0;
            &&& refused_filter(both) is None <==> refused_filter(filter) is None && refused_filter(
                rules_filter,
            ) is None
            &&& terms_of(both) == terms_of(filter) + terms_of(rules_filter)
        }),
{
    lemma_refused_sum(conditions(filter), conditions(rules_filter));
    lemma_refused_conditions(filter);
    lemma_refused_conditions(rules_filter);
    let both = joined(Some(filter), Some(rules_filter))->0;
    assert(terms_of(both) =~= terms_of(filter) + terms_of(rules_filter));
}

/// Whether a parser fails alike each time it is given the same expression or the same terms.
pub open spec fn filters_fail_alike<T: FilterParser>(parser: T) -> bool {
    &&& forall|
        text: Seq<char>,
        left: Result<Option<T::Filter>, T::Error>,
        right: Result<Option<T::Filter>, T::Error>,
    |
        #[trigger] expression_read(parser, text, left) && #[trigger] expression_read(
            parser,
            text,
            right,
        ) ==> error::fail_alike(left, right)
    &&& forall|
        terms: Seq<Term>,
        left: Result<Option<T::Filter>, T::Error>,
        right: Result<Option<T::Filter>, T::Error>,
    |
        #[trigger] terms_read(parser, terms, left) && #[trigger] terms_read(parser, terms, right)
            ==> error::fail_alike(left, right)
}

/// With a parser that fails alike, a filter is parsed each time, or refused each time for the same
/// reason.
pub proof fn law_filter_fails_alike<T: FilterParser>(
    parser: T,
    filter: Json,
    left: Result<Option<T::Filter>, SearchError<T::Error>>,
    right: Result<Option<T::Filter>, SearchError<T::Error>>,
)
    requires
        filters_fail_alike(parser),
        filter_parses(parser, filter, left),
        filter_parses(parser, filter, right),
    ensures
        left is Ok <==> right is Ok,
        left is Err ==> error::same_error(left->Err_0, right->Err_0),
{
    let read_left: Result<Option<T::Filter>, T::Error> = match left {
        Ok(filter) => Ok(filter),
        Err(error) => Err(error->Engine_0),
    };
    let read_right: Result<Option<T::Filter>, T::Error> = match right {
        Ok(filter) => Ok(filter),
        Err(error) => Err(error->Engine_0),
    };
    match filter {
        Json::String(text) => {
            assert(expression_read(parser, text, read_left));
            assert(expression_read(parser, text, read_right));
        },
        Json::Array(items) => {
            if refused_array(items) is None {
                let terms = items.map_values(|item: Json| term_of(item));
                assert(terms_read(parser, terms, read_left));
                assert(terms_read(parser, terms, read_right));
            }
        },
        _ => {},
    }
}

/// The filter of a query with search rules has the conditions of its own filter first and those of
/// the rules next, each of the two being one condition where it is no array. With one of the two
/// alone, it is that one. Nothing else of the query changes.
pub proof fn law_rules_are_joined(query: &mut SearchQuery, rules: IndexSearchRules, done: ())
    requires
        call_ensures(add_search_rules, (query, rules), done),
    ensures
        old(query).filter is None && rules.filter is None ==> final(query).filter is None,
        old(query).filter is None && rules.filter is Some ==> final(query).filter is Some
            && final(query).filter->0@ == rules.filter->0@,
        old(query).filter is Some && rules.filter is None ==> final(query).filter is Some
            && final(query).filter->0@ == old(query).filter->0@,
        old(query).filter is Some && rules.filter is Some ==> {
            let own = old(query).filter->0@;
            let added = rules.filter->0@;
            &&& final(query).filter is Some && final(query).filter->0@ is Array
            &&& final(query).filter->0@->Array_0 == (if own is Array {
                own->Array_0
            } else {
                seq![own]
            }) + (if added is Array {
                added->Array_0
            } else {
                seq![added]
            })
        },
        *final(query) == (SearchQuery { filter: final(query).filter, ..*old(query) }),
{
}

/// Whether a term says what an item of a filter array says: the same text, or the same texts in
/// their order.
pub open spec fn says(term: FilterTerm, item: Value) -> bool {
    match (term, item) {
        (FilterTerm::One(expression), Value::String(text)) => expression@ == text@,
        (FilterTerm::AnyOf(expressions), Value::Array(items)) => {
            &&& expressions@.len() == items@.len()
            &&& forall|j: int|
                0 <= j < items@.len() ==> (#[trigger] items@[j]) is String && expressions@[j]@
                    == items@[j]->String_0@
        },
        _ => false,
    }
}

/// Whether an item of a filter array is a text, or an array of texts.
pub open spec fn well_placed(item: Value) -> bool {
    item is String || item is Array && forall|j: int|
        0 <= j < item->Array_0@.len() ==> (#[trigger] item->Array_0@[j]) is String
}

/// Texts alone are not refused as alternatives; otherwise the first that is none is.
proof fn lemma_first_alternative(items: Seq<Json>, at: int)
    requires
        0 <= at <= items.len(),
        forall|i: int| 0 <= i < at ==> (#[trigger] items[i]) is String,
    ensures
        refused_alternatives(items.take(at)) is None,
        at == items.len() ==> refused_alternatives(items) is None,
        at < items.len() && items[at] !is String ==> refused_alternatives(items) == Some(
            Refusal { expected: seq!["String"@], found: items[at] },
        ),
    decreases at,
{
    if at > 0 {
        lemma_first_alternative(items, at - 1);
        assert(items.take(at).drop_last() == items.take(at - 1));
        assert(items.take(at).last() == items[at - 1]);
    }
    if at == items.len() {
        assert(items.take(at) == items);
    } else if items[at] !is String {
        assert(items.take(at + 1).drop_last() == items.take(at));
        assert(items.take(at + 1).last() == items[at]);
        lemma_alternatives_stay_refused(items, at + 1);
    }
}

/// The first item of an array that is refused decides.
proof fn lemma_first_refused(items: Seq<Json>, at: int)
    requires
        0 <= at <= items.len(),
        forall|i: int| 0 <= i < at ==> refused_item(#[trigger] items[i]) is None,
    ensures
        refused_array(items.take(at)) is None,
        at == items.len() ==> refused_array(items) is None,
        at < items.len() && refused_item(items[at]) is Some ==> refused_array(items)
            == refused_item(items[at]),
    decreases at,
{
    if at > 0 {
        lemma_first_refused(items, at - 1);
        assert(items.take(at).drop_last() == items.take(at - 1));
        assert(items.take(at).last() == items[at - 1]);
    }
    if at == items.len() {
        assert(items.take(at) == items);
    } else if refused_item(items[at]) is Some {
        assert(items.take(at + 1).drop_last() == items.take(at));
        assert(items.take(at + 1).last() == items[at]);
        lemma_array_stays_refused(items, at + 1);
    }
}

/// What is well placed is not refused.
proof fn lemma_well_placed(item: Value)
    requires
        well_placed(item),
    ensures
        refused_item(item@) is None,
{
    broadcast use json::lemma_value_view;

    if item is Array {
        let items = item@->Array_0;
        assert forall|i: int| 0 <= i < items.len() implies (#[trigger] items[i]) is String by {
            assert(item->Array_0@[i] is String);
        }
        lemma_first_alternative(items, items.len() as int);
    }
}

/// A filter that is a text is parsed as the parser reads that text: what the parser returns is
/// returned, and its error is handed on.
pub proof fn law_text_filter<T: FilterParser>(
    facets: Value,
    parser: T,
    result: Result<Option<T::Filter>, SearchError<T::Error>>,
)
    requires
        call_ensures(parse_filter::<T>, (&facets, &parser), result),
        facets is String,
    ensures
        exists|read: &str, answer: Result<Option<T::Filter>, T::Error>|
            {
                &&& read@ == facets->String_0@
                &&& #[trigger] call_ensures(T::filter_from_str, (&parser, read), answer)
                &&& result is Ok <==> answer is Ok
                &&& result is Ok ==> result->Ok_0 == answer->Ok_0
                &&& result is Err ==> result->Err_0 == SearchError::Engine(answer->Err_0)
            },
{
    let answer: Result<Option<T::Filter>, T::Error> = match result {
        Ok(filter) => Ok(filter),
        Err(error) => Err(error->Engine_0),
    };
    assert(expression_read(parser, facets@->String_0, answer));
}

/// A filter that is an array of texts, and of arrays of texts, is parsed as the parser reads its
/// terms: one for each item, in their order, with the same texts. What the parser returns is
/// returned, and its error is handed on.
pub proof fn law_array_filter<T: FilterParser>(
    facets: Value,
    parser: T,
    result: Result<Option<T::Filter>, SearchError<T::Error>>,
)
    requires
        call_ensures(parse_filter::<T>, (&facets, &parser), result),
        facets is Array,
        forall|i: int|
            0 <= i < facets->Array_0@.len() ==> well_placed(#[trigger] facets->Array_0@[i]),
    ensures
        exists|read: &Vec<FilterTerm>, answer: Result<Option<T::Filter>, T::Error>|
            {
                &&& #[trigger] call_ensures(T::filter_from_array, (&parser, read), answer)
                &&& read@.len() == facets->Array_0@.len()
                &&& forall|i: int|
                    0 <= i < read@.len() ==> says(#[trigger] read@[i], facets->Array_0@[i])
                &&& result is Ok <==> answer is Ok
                &&& result is Ok ==> result->Ok_0 == answer->Ok_0
                &&& result is Err ==> result->Err_0 == SearchError::Engine(answer->Err_0)
            },
{
    broadcast use json::lemma_value_view;

    let held = facets->Array_0@;
    let items = held.map_values(|v: Value| v@);
    assert forall|i: int| 0 <= i < items.len() implies refused_item(
        #[trigger] items[i],
    ) is None by {
        assert(well_placed(held[i]));
        lemma_well_placed(held[i]);
    }
    lemma_first_refused(items, items.len() as int);
    let terms = items.map_values(|item: Json| term_of(item));
    let answer: Result<Option<T::Filter>, T::Error> = match result {
        Ok(filter) => Ok(filter),
        Err(error) => Err(error->Engine_0),
    };
    assert(terms_read(parser, terms, answer));
    let read = choose|read: &Vec<FilterTerm>| #[trigger]
        call_ensures(T::filter_from_array, (&parser, read), answer) && read@.map_values(
            |t: FilterTerm| t@,
        ) == terms;
    let views = read@.map_values(|t: FilterTerm| t@);
    assert(views.len() == read@.len() && terms.len() == held.len());
    assert forall|i: int| 0 <= i < read@.len() implies says(#[trigger] read@[i], held[i]) by {
        assert(well_placed(held[i]));
        assert(views[i] == read@[i]@ && terms[i] == term_of(held[i]@));
        match held[i] {
            Value::Array(inner) => {
                let listed = held[i]@->Array_0;
                let expected = listed.map_values(|item: Json| text_of(item));
                assert(read@[i]@ == Term::AnyOf(expected));
                assert(read@[i] is AnyOf);
                let expressions = read@[i]->AnyOf_0;
                assert(text::texts(expressions@) == expected);
                assert(expressions@.len() == text::texts(expressions@).len());
                assert forall|j: int| 0 <= j < inner@.len() implies (#[trigger] inner@[j]) is String
                    && expressions@[j]@ == inner@[j]->String_0@ by {
                    assert(held[i]->Array_0@[j] is String);
                    assert(text::texts(expressions@)[j] == expressions@[j]@);
                    assert(expected[j] == text_of(listed[j]));
                    assert(listed[j] == inner@[j]@);
                }
            },
            _ => {},
        }
    }
}

/// A filter is refused for what is neither a text nor an array, with that very value and what could
/// have stood there; an array is refused for its first item that is neither a text nor an array of
/// texts, and an array in it for the first of its items that is no text.
pub proof fn law_refused_filters<T: FilterParser>(
    facets: Value,
    parser: T,
    result: Result<Option<T::Filter>, SearchError<T::Error>>,
    at: int,
    k: int,
)
    requires
        call_ensures(parse_filter::<T>, (&facets, &parser), result),
    ensures
        facets !is String && facets !is Array ==> {
            &&& result matches Err(SearchError::InvalidExpression(error))
            &&& error.found@ == facets@
            &&& error@.expected == seq!["String"@, "Array"@]
        },
        facets is Array && 0 <= at < facets->Array_0@.len() && (forall|i: int|
            0 <= i < at ==> well_placed(#[trigger] facets->Array_0@[i])) ==> {
            let item = facets->Array_0@[at];
            &&& item !is String && item !is Array ==> {
                &&& result matches Err(SearchError::InvalidExpression(error))
                &&& error.found@ == item@
                &&& error@.expected == seq!["String"@, "[String]"@]
            }
            &&& item is Array && 0 <= k < item->Array_0@.len() && item->Array_0@[k] !is String && (
            forall|j: int| 0 <= j < k ==> (#[trigger] item->Array_0@[j]) is String) ==> {
                &&& result matches Err(SearchError::InvalidExpression(error))
                &&& error.found@ == item->Array_0@[k]@
                &&& error@.expected == seq!["String"@]
            }
        },
{
    broadcast use json::lemma_value_view;

    if facets is Array && 0 <= at < facets->Array_0@.len() && (forall|i: int|
        0 <= i < at ==> well_placed(#[trigger] facets->Array_0@[i])) {
        let held = facets->Array_0@;
        let items = held.map_values(|v: Value| v@);
        let item = held[at];
        assert forall|i: int| 0 <= i < at implies refused_item(#[trigger] items[i]) is None by {
            assert(well_placed(held[i]));
            lemma_well_placed(held[i]);
        }
        assert(items[at] == item@);
        if item is Array && 0 <= k < item->Array_0@.len() && item->Array_0@[k] !is String && (
        forall|j: int| 0 <= j < k ==> (#[trigger] item->Array_0@[j]) is String) {
            let inner = item@->Array_0;
            assert forall|j: int| 0 <= j < k implies (#[trigger] inner[j]) is String by {
                assert(item->Array_0@[j] is String);
            }
            assert(inner[k] == item->Array_0@[k]@);
            lemma_first_alternative(inner, k);
        }
        lemma_first_refused(items, at);
    }
}

} // verus!
