use search::error::{Fallible, SearchError};
use search::filter::{FilterParser, FilterTerm};
use search::float::Single;
use search::json::Value;
use search::prepare::{
    is_admitted, parse_sorts, prepare_search, DistributionShift, Execution, PreparedSearch,
    RoFeatures, ScoringStrategy, SortParser, TimeBudget,
};
use search::query::{
    HybridQuery, MatchingStrategy, SearchQuery, SemanticRatio, TermsMatchingStrategy,
};

/// Takes every filter and every sort criterion that holds no question mark.
struct Scribe;

impl Fallible for Scribe {
    type Error = String;
}

fn read(text: &str) -> Result<String, String> {
    if text.contains('?') {
        Err(text.to_string())
    } else {
        Ok(text.to_uppercase())
    }
}

impl FilterParser for Scribe {
    type Filter = String;

    fn filter_from_str(&self, expression: &str) -> Result<Option<String>, String> {
        read(expression).map(|filter| Some(filter).filter(|filter| !filter.is_empty()))
    }

    fn filter_from_array(&self, terms: &Vec<FilterTerm>) -> Result<Option<String>, String> {
        Ok(Some(terms.len().to_string()))
    }
}

impl SortParser for Scribe {
    type Sort = String;

    fn parse_sort(&self, criterion: &str) -> Result<String, String> {
        read(criterion)
    }
}

type Prepared = PreparedSearch<String, String>;

const ON: RoFeatures = RoFeatures { vector_store: true };
const OFF: RoFeatures = RoFeatures { vector_store: false };

fn single(number: f32) -> Single {
    Single { bits: number.to_bits() }
}

fn hybrid(ratio: f32) -> Option<HybridQuery> {
    Some(HybridQuery {
        semantic_ratio: SemanticRatio::try_from(single(ratio)).unwrap(),
        embedder: Some("e".to_string()),
    })
}

fn prepare(
    query: &SearchQuery,
    features: RoFeatures,
    setting: Result<Option<u64>, &'static str>,
) -> Result<Prepared, SearchError<String>> {
    let setting = setting.map_err(str::to_string);
    prepare_search(&Scribe, query, features, None, TimeBudget::Standard, setting)
}

fn prepared(query: &SearchQuery) -> Prepared {
    prepare(query, ON, Ok(None)).unwrap()
}

fn words_and_vector(ratio: f32) -> SearchQuery {
    SearchQuery {
        q: Some("q".to_string()),
        vector: Some(vec![single(0.25)]),
        hybrid: hybrid(ratio),
        ..SearchQuery::default()
    }
}

#[test]
fn what_needs_the_vector_store_is_refused_without_it() {
    let vector = SearchQuery { vector: Some(vec![]), ..SearchQuery::default() };
    assert_eq!(
        prepare(&vector, OFF, Ok(None)),
        Err(SearchError::FeatureNotEnabled("Passing `vector` as a query parameter"))
    );
    assert!(prepare(&vector, ON, Ok(None)).is_ok());
    let hybrid = SearchQuery { hybrid: hybrid(0.5), ..SearchQuery::default() };
    assert_eq!(
        prepare(&hybrid, OFF, Ok(None)),
        Err(SearchError::FeatureNotEnabled("Passing `hybrid` as a query parameter"))
    );
    assert!(prepare(&hybrid, ON, Ok(None)).is_ok());
    assert!(prepare(&SearchQuery::default(), OFF, Ok(None)).is_ok());
    assert_eq!(
        prepare(&words_and_vector(0.5), OFF, Err("unread")),
        Err(SearchError::FeatureNotEnabled("Passing `vector` as a query parameter"))
    );
}

#[test]
fn words_and_a_vector_need_a_ratio() {
    let query = SearchQuery { hybrid: None, ..words_and_vector(0.5) };
    assert_eq!(prepare(&query, ON, Err("unread")), Err(SearchError::MissingSearchHybrid));
    let vector = SearchQuery { q: None, ..query };
    assert!(prepare(&vector, ON, Ok(None)).is_ok());
}

#[test]
fn a_setting_that_cannot_be_read_comes_before_the_filter() {
    let query = SearchQuery { filter: Some(Value::Null), ..SearchQuery::default() };
    assert_eq!(prepare(&query, ON, Err("unread")), Err(SearchError::Engine("unread".to_string())));
    match prepare(&query, ON, Ok(None)) {
        Err(SearchError::InvalidExpression(error)) => assert_eq!(error.found, Value::Null),
        other => panic!("{:?}", other),
    }
}

#[test]
fn the_ratio_decides_what_counts() {
    let both = prepared(&words_and_vector(0.5));
    assert_eq!(both.query.as_deref(), Some("q"));
    assert_eq!(both.vector, Some(vec![single(0.25)]));
    assert_eq!(both.execution, Execution::Hybrid(single(0.5)));
    assert_eq!(both.embedder_name.as_deref(), Some("e"));

    for zero in [0.0, -0.0] {
        let words = prepared(&words_and_vector(zero));
        assert_eq!(words.query.as_deref(), Some("q"));
        assert_eq!(words.vector, None);
        assert_eq!(words.execution, Execution::Single);
    }

    let vector = prepared(&words_and_vector(1.0));
    assert_eq!(vector.query, None);
    assert_eq!(vector.vector, Some(vec![single(0.25)]));
    assert_eq!(vector.execution, Execution::Single);
}

#[test]
fn the_rest_of_a_query_is_handed_on() {
    let texts = |text: &str| Some(vec![text.to_string()]);
    let query = SearchQuery {
        q: Some("q".to_string()),
        attributes_to_search_on: texts("title"),
        matching_strategy: MatchingStrategy::All,
        sort: texts("price:asc"),
        filter: Some(Value::String("a = 1".to_string())),
        offset: 990,
        limit: 20,
        show_ranking_score: true,
        ..SearchQuery::default()
    };
    let shift = DistributionShift { current_mean: single(0.5), current_sigma: single(0.1) };
    let budget = TimeBudget::Milliseconds(150);
    let prepared = prepare_search(&Scribe, &query, OFF, Some(shift), budget, Ok(None)).unwrap();
    assert_eq!(
        prepared,
        PreparedSearch {
            time_budget: budget,
            distribution_shift: Some(shift),
            query: Some("q".to_string()),
            vector: None,
            embedder_name: None,
            searchable_attributes: texts("title"),
            terms_matching_strategy: TermsMatchingStrategy::All,
            exhaustive_number_hits: false,
            scoring_strategy: ScoringStrategy::Detailed,
            offset: 990,
            limit: 10,
            filter: Some("A = 1".to_string()),
            sort_criteria: texts("PRICE:ASC"),
            execution: Execution::Single,
            is_finite_pagination: false,
            max_total_hits: 1000,
        }
    );
}

#[test]
fn the_setting_limits_what_is_reached() {
    let query = SearchQuery { page: Some(2), hits_per_page: Some(4), ..SearchQuery::default() };
    let prepared = prepare(&query, OFF, Ok(Some(6))).unwrap();
    assert_eq!((prepared.offset, prepared.limit, prepared.max_total_hits), (4, 2, 6));
    assert!(prepared.is_finite_pagination && prepared.exhaustive_number_hits);
    assert_eq!(prepared.scoring_strategy, ScoringStrategy::Skip);
    let details = SearchQuery { show_ranking_score_details: true, ..query };
    let prepared = prepare(&details, OFF, Ok(None)).unwrap();
    assert_eq!(prepared.scoring_strategy, ScoringStrategy::Detailed);
    assert_eq!((prepared.offset, prepared.limit, prepared.max_total_hits), (4, 4, 1000));
}

#[test]
fn a_filter_that_cannot_be_parsed_is_refused() {
    let query = SearchQuery {
        filter: Some(Value::String("a ?".to_string())),
        sort: Some(vec!["b?".to_string()]),
        ..SearchQuery::default()
    };
    assert_eq!(prepare(&query, OFF, Ok(None)), Err(SearchError::Engine("a ?".to_string())));
    assert_eq!(
        prepare(&query, OFF, Err("unread")),
        Err(SearchError::Engine("unread".to_string()))
    );
    let blank = SearchQuery {
        filter: Some(Value::String(String::new())),
        ..SearchQuery::default()
    };
    assert_eq!(prepared(&blank).filter, None);
}

#[test]
fn the_first_sort_criterion_that_cannot_be_parsed_is_refused() {
    let sorts = |texts: &[&str]| Some(texts.iter().map(|s| s.to_string()).collect::<Vec<_>>());
    let query = SearchQuery { sort: sorts(&["a", "b?", "c?"]), ..SearchQuery::default() };
    assert_eq!(prepare(&query, OFF, Ok(None)), Err(SearchError::Engine("b?".to_string())));
    let query = SearchQuery { sort: sorts(&["b", "a", "b"]), ..SearchQuery::default() };
    assert_eq!(prepared(&query).sort_criteria, sorts(&["B", "A", "B"]));
    let query = SearchQuery { sort: sorts(&[]), ..SearchQuery::default() };
    assert_eq!(prepared(&query).sort_criteria, sorts(&[]));
    assert_eq!(prepared(&SearchQuery::default()).sort_criteria, None);
    assert_eq!(parse_sorts(&vec!["?".to_string()], &Scribe), Err("?".to_string()));
}

#[test]
fn what_is_refused_first_does_not_depend_on_the_page() {
    let query = SearchQuery {
        page: Some(usize::MAX),
        hits_per_page: Some(usize::MAX),
        hybrid: None,
        ..words_and_vector(0.5)
    };
    assert!(!is_admitted(&query, ON) && !is_admitted(&query, OFF));
    assert_eq!(prepare(&query, ON, Ok(None)), Err(SearchError::MissingSearchHybrid));
    let plain = SearchQuery { vector: None, ..query };
    assert!(is_admitted(&plain, OFF));
    assert_eq!(
        prepare(&plain, OFF, Err("unread")),
        Err(SearchError::Engine("unread".to_string()))
    );
}

#[test]
fn a_page_is_prepared_as_its_window() {
    let page = SearchQuery { page: Some(3), hits_per_page: Some(4), ..SearchQuery::default() };
    let window = SearchQuery { offset: 8, limit: 4, ..SearchQuery::default() };
    for setting in [None, Some(10), Some(2)] {
        let page = prepare(&page, OFF, Ok(setting)).unwrap();
        let window = prepare(&window, OFF, Ok(setting)).unwrap();
        assert_eq!((page.offset, page.limit), (window.offset, window.limit));
        assert_eq!(page.max_total_hits, window.max_total_hits);
        assert!(page.is_finite_pagination && !window.is_finite_pagination);
    }
}
