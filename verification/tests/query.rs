use search::float::Single;
use search::json::Value;
use search::query::{
    default_crop_marker, default_highlight_post_tag, default_highlight_pre_tag,
    default_semantic_ratio, FacetValuesSort, HybridQuery, IndexUid, InvalidSearchSemanticRatio,
    MatchingStrategy, NameSet, OrderBy, SearchQuery, SearchQueryWithIndex, SemanticRatio,
    TermsMatchingStrategy, DEFAULT_CROP_LENGTH, DEFAULT_SEARCH_LIMIT, DEFAULT_SEARCH_OFFSET,
};

fn single(number: f32) -> Single {
    Single { bits: number.to_bits() }
}

fn names(names: &[&str]) -> Option<NameSet> {
    Some(NameSet { names: names.iter().map(|s| s.to_string()).collect() })
}

#[test]
fn the_defaults() {
    assert_eq!(DEFAULT_SEARCH_OFFSET, 0);
    assert_eq!(DEFAULT_SEARCH_LIMIT, 20);
    assert_eq!(DEFAULT_CROP_LENGTH, 10);
    assert_eq!(default_crop_marker(), "…");
    assert_eq!(default_highlight_pre_tag(), "<em>");
    assert_eq!(default_highlight_post_tag(), "</em>");
    assert_eq!(*default_semantic_ratio(), single(0.5));
    assert_eq!(*SemanticRatio::default(), single(0.5));
    assert_eq!(MatchingStrategy::default(), MatchingStrategy::Last);
    assert_eq!(FacetValuesSort::default(), FacetValuesSort::Alpha);
    assert_eq!(OrderBy::default(), OrderBy::Lexicographic);
    let hybrid = HybridQuery::default();
    assert_eq!(*hybrid.semantic_ratio, single(0.5));
    assert_eq!(hybrid.embedder, None);
    let query = SearchQuery::default();
    assert_eq!((query.offset, query.limit, query.crop_length), (0, 0, 0));
    assert_eq!((query.q, query.page, query.hits_per_page), (None, None, None));
}

#[test]
fn a_semantic_ratio_lies_between_zero_and_one() {
    for number in [0.0, -0.0, 0.25, 1.0] {
        assert_eq!(*SemanticRatio::try_from(single(number)).unwrap(), single(number));
    }
    for number in [-0.1, 1.1, f32::INFINITY, f32::NEG_INFINITY, -f32::from_bits(1)] {
        assert_eq!(SemanticRatio::try_from(single(number)), Err(InvalidSearchSemanticRatio));
    }
    // What is no number does not lie between zero and one.
    for number in [f32::NAN, -f32::NAN, f32::from_bits(0x7f80_0001)] {
        assert_eq!(SemanticRatio::try_from(single(number)), Err(InvalidSearchSemanticRatio));
    }
}

#[test]
fn pagination_is_finite_where_a_page_or_its_size_is_asked_for() {
    let mut query = SearchQuery::default();
    assert!(!query.is_finite_pagination());
    query.page = Some(0);
    assert!(query.is_finite_pagination());
    query.hits_per_page = Some(3);
    assert!(query.is_finite_pagination());
    query.page = None;
    assert!(query.is_finite_pagination());
}

#[test]
fn an_index_query_keeps_every_field() {
    let texts = |text: &str| Some(vec![text.to_string()]);
    let query = SearchQueryWithIndex {
        index_uid: IndexUid { uid: "movies".to_string() },
        q: Some("q".to_string()),
        vector: Some(vec![single(1.0)]),
        hybrid: Some(HybridQuery::default()),
        offset: 1,
        limit: 2,
        page: Some(3),
        hits_per_page: Some(4),
        attributes_to_retrieve: names(&["r"]),
        attributes_to_crop: texts("c"),
        crop_length: 5,
        attributes_to_highlight: names(&["h"]),
        show_matches_position: true,
        show_ranking_score: false,
        show_ranking_score_details: true,
        filter: Some(Value::Bool(true)),
        sort: texts("s"),
        facets: texts("f"),
        highlight_pre_tag: "<".to_string(),
        highlight_post_tag: ">".to_string(),
        crop_marker: "-".to_string(),
        matching_strategy: MatchingStrategy::All,
        attributes_to_search_on: texts("o"),
    };
    let (uid, parted) = query.into_index_query();
    assert_eq!(uid.uid, "movies");
    let expected = SearchQuery {
        q: Some("q".to_string()),
        vector: Some(vec![single(1.0)]),
        hybrid: Some(HybridQuery::default()),
        offset: 1,
        limit: 2,
        page: Some(3),
        hits_per_page: Some(4),
        attributes_to_retrieve: names(&["r"]),
        attributes_to_crop: texts("c"),
        crop_length: 5,
        attributes_to_highlight: names(&["h"]),
        show_matches_position: true,
        show_ranking_score: false,
        show_ranking_score_details: true,
        filter: Some(Value::Bool(true)),
        sort: texts("s"),
        facets: texts("f"),
        highlight_pre_tag: "<".to_string(),
        highlight_post_tag: ">".to_string(),
        crop_marker: "-".to_string(),
        matching_strategy: MatchingStrategy::All,
        attributes_to_search_on: texts("o"),
    };
    assert_eq!(parted, expected);
}

#[test]
fn strategies_and_orders_are_those_of_the_engine() {
    assert_eq!(TermsMatchingStrategy::from(MatchingStrategy::Last), TermsMatchingStrategy::Last);
    assert_eq!(TermsMatchingStrategy::from(MatchingStrategy::All), TermsMatchingStrategy::All);
    assert_eq!(OrderBy::from(FacetValuesSort::Alpha), OrderBy::Lexicographic);
    assert_eq!(OrderBy::from(FacetValuesSort::Count), OrderBy::Count);
}

#[test]
fn queries_are_equal_where_they_ask_for_the_same() {
    let query = |retrieve: &[&str], highlight: &[&str]| SearchQuery {
        attributes_to_retrieve: names(retrieve),
        attributes_to_highlight: names(highlight),
        ..SearchQuery::default()
    };
    assert_eq!(query(&["a", "b"], &["c"]), query(&["b", "a", "b"], &["c", "c"]));
    assert_ne!(query(&["a", "b"], &["c"]), query(&["a"], &["c"]));
    assert_ne!(query(&["a"], &["c"]), query(&["a", "b"], &["c"]));
    assert_eq!(names(&[]), Some(NameSet::new()));
    let ratio = |number: f32| SearchQuery {
        vector: Some(vec![single(number)]),
        ..SearchQuery::default()
    };
    assert_eq!(ratio(0.0), ratio(-0.0));
    assert_ne!(ratio(f32::NAN), ratio(f32::NAN));
}
