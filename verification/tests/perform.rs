use search::document::Reader;
use search::error::{Fallible, SearchError};
use search::facets::{perform_facet_search, plan_facets, FacetPlan, FacetSearch};
use search::fields::{FieldId, FieldsIdsMap};
use search::filter::{FilterParser, FilterTerm};
use search::float::{Double, Single};
use search::geo::{GeoPoint, Metric};
use search::hits::semantic_score;
use search::index::{DocumentId, Executed, Index, Markup, ScoreDetails, TokenizerSettings};
use search::json::{Document, Number, Value};
use search::matcher::{MatchBounds, Matcher};
use search::options::FormatOptions;
use search::pagination::HitsInfo;
use search::perform::{name_stats, perform_search, tokenizer_settings};
use search::prepare::{Execution, PreparedSearch, RoFeatures, SortParser, TimeBudget};
use search::query::{NameSet, OrderBy, SearchQuery};
use search::result::{FacetDistribution, FacetStats, FacetValueHit, Named, SearchResult};
use search::selector::Selector;

const OFF: RoFeatures = RoFeatures { vector_store: false };

/// An index of two documents. `broken` names the step at which it fails.
struct Library {
    broken: &'static str,
    documents: Vec<Vec<u8>>,
    displayed: Option<Vec<FieldId>>,
    cutoff: Option<u64>,
    max_total_hits: Option<u64>,
    max_values: Option<u64>,
    scripts: Vec<(String, Vec<String>)>,
}

fn stored(entries: &[(u16, &str)]) -> Vec<u8> {
    let mut writer = obkv::KvWriterU16::memory();
    for (key, value) in entries {
        writer.insert(*key, value.as_bytes()).unwrap();
    }
    writer.into_inner().unwrap()
}

fn library() -> Library {
    Library {
        broken: "",
        documents: vec![
            stored(&[(0, "1"), (1, "the cat"), (2, "geo")]),
            stored(&[(0, "2"), (1, "a cat cat")]),
        ],
        displayed: None,
        cutoff: None,
        max_total_hits: None,
        max_values: None,
        scripts: Vec::new(),
    }
}

impl Library {
    fn step<T>(&self, name: &'static str, value: T) -> Result<T, String> {
        if self.broken == name {
            Err(name.to_string())
        } else {
            Ok(value)
        }
    }
}

/// Finds one word, and marks it as it is told to.
struct Word {
    word: String,
    markup: Markup,
    tokenizer: TokenizerSettings,
}

impl Matcher for Word {
    fn matches(&self, text: &str) -> Vec<MatchBounds> {
        let length = self.word.len();
        text.match_indices(&self.word).map(|(start, _)| MatchBounds { start, length }).collect()
    }

    fn format(&self, text: &str, options: FormatOptions) -> String {
        let mut text = text.to_string();
        if options.highlight {
            let marked = format!(
                "{}{}{}",
                self.markup.highlight_prefix, self.word, self.markup.highlight_suffix
            );
            text = text.replace(&self.word, &marked);
        }
        if options.crop.is_some() {
            text.push_str(&self.markup.crop_marker);
        }
        if let Some(scripts) = &self.tokenizer.allow_list {
            text.push_str(&scripts[0].0);
        }
        text
    }
}

impl Fallible for Library {
    type Error = String;
}

impl FilterParser for Library {
    type Filter = String;

    fn filter_from_str(&self, expression: &str) -> Result<Option<String>, String> {
        self.step("filter", Some(expression.to_string()))
    }

    fn filter_from_array(&self, terms: &Vec<FilterTerm>) -> Result<Option<String>, String> {
        self.step("filter", Some(terms.len().to_string()))
    }
}

impl SortParser for Library {
    type Sort = String;

    fn parse_sort(&self, criterion: &str) -> Result<String, String> {
        self.step("sort", criterion.to_string())
    }
}

impl Reader for Library {
    fn parse(&self, bytes: &Vec<u8>) -> Result<Value, String> {
        let text = String::from_utf8(bytes.clone()).unwrap();
        if text == "geo" {
            let point = |text: &str| Value::Number(Number { text: text.to_string() });
            let entries = vec![("lat".to_string(), point("3")), ("lng".to_string(), point("4"))];
            return Ok(Value::Object(Document { entries }));
        }
        self.step("parse", Value::String(text))
    }
}

impl Selector for Library {
    fn select_values(&self, document: &Document, names: &Vec<String>) -> Document {
        let kept = document.entries.iter().filter(|(key, _)| names.contains(key));
        Document { entries: kept.cloned().collect() }
    }

    fn leaf_values(&self, document: &Document, names: &Vec<String>) -> Vec<(String, Value)> {
        self.select_values(document, names).entries
    }

    fn replace_leaves(
        &self,
        document: Document,
        names: &Vec<String>,
        values: Vec<Value>,
    ) -> Document {
        let mut document = document;
        let mut values = values.into_iter();
        for (key, value) in document.entries.iter_mut() {
            if names.contains(key) {
                *value = values.next().unwrap();
            }
        }
        document
    }
}

impl Metric for Library {
    fn distance_between_two_points(&self, from: &GeoPoint, to: &GeoPoint) -> usize {
        let number = |text: &String| text.parse::<f64>().unwrap();
        let lat = number(&from.lat) - number(&to.lat);
        let lng = number(&from.lng) - number(&to.lng);
        (lat * lat + lng * lng).sqrt().round() as usize
    }
}

fn scores(similarity: Option<f32>) -> Vec<ScoreDetails<u8>> {
    let similarity = similarity.map(|number| Single { bits: number.to_bits() });
    vec![
        ScoreDetails { similarity: None, detail: 1 },
        ScoreDetails { similarity, detail: 2 },
        ScoreDetails { similarity: Some(Single { bits: 0 }), detail: 3 },
    ]
}

impl Index for Library {
    type Words = String;
    type Candidates = u64;
    type Detail = u8;
    type Builder = Word;

    fn search_cutoff(&self) -> Result<Option<u64>, String> {
        self.step("cutoff", self.cutoff)
    }

    fn pagination_max_total_hits(&self) -> Result<Option<u64>, String> {
        self.step("total", self.max_total_hits)
    }

    fn execute(
        &self,
        search: &PreparedSearch<String, String>,
    ) -> Result<Executed<String, u64, u8>, String> {
        let budget = match self.cutoff {
            Some(cutoff) => TimeBudget::Milliseconds(cutoff),
            None => TimeBudget::Standard,
        };
        assert_eq!(search.time_budget, budget);
        assert_eq!(search.execution, Execution::Single);
        let ids = 0..self.documents.len() as DocumentId;
        let executed = Executed {
            documents_ids: ids.skip(search.offset).take(search.limit).collect(),
            matching_words: search.query.clone().unwrap_or_default(),
            candidates: 2,
            candidates_len: 2,
            document_scores: vec![scores(Some(0.5)), scores(None)],
            degraded: true,
        };
        self.step("execute", executed)
    }

    fn fields_ids_map(&self) -> FieldsIdsMap {
        let mut map = FieldsIdsMap::new();
        for (id, name) in ["id", "title", "_geo"].iter().enumerate() {
            assert!(map.add(id as FieldId, name.to_string()));
        }
        map
    }

    fn displayed_fields_ids(&self) -> Result<Option<Vec<FieldId>>, String> {
        self.step("displayed", self.displayed.clone())
    }

    fn script_language(&self) -> Result<Vec<(String, Vec<String>)>, String> {
        self.step("script", self.scripts.clone())
    }

    fn allowed_separators(&self) -> Result<Option<Vec<String>>, String> {
        self.step("separators", None)
    }

    fn dictionary(&self) -> Result<Option<Vec<String>>, String> {
        self.step("dictionary", None)
    }

    fn matcher(
        &self,
        matching_words: String,
        tokenizer: TokenizerSettings,
        markup: Markup,
    ) -> Word {
        Word { word: matching_words, markup, tokenizer }
    }

    fn documents(&self, ids: Vec<DocumentId>) -> Result<Vec<(DocumentId, Vec<u8>)>, String> {
        let found = ids.iter().map(|id| (*id, self.documents[*id as usize].clone())).collect();
        self.step("documents", found)
    }

    fn global_score(&self, score: &Vec<ScoreDetails<u8>>) -> Double {
        let sum: u8 = score.iter().map(|part| part.detail).sum();
        Double { bits: f64::from(sum).to_bits() }
    }

    fn score_details(&self, score: &Vec<ScoreDetails<u8>>) -> Document {
        let entries = score.iter().map(|part| (part.detail.to_string(), Value::Null));
        Document { entries: entries.collect() }
    }

    fn max_values_per_facet(&self) -> Result<Option<u64>, String> {
        self.step("values", self.max_values)
    }

    fn sort_facet_values_by(&self) -> Result<Vec<(String, OrderBy)>, String> {
        self.step("orders", vec![("title".to_string(), OrderBy::Count)])
    }

    fn facet_distribution(
        &self,
        candidates: &u64,
        plan: &FacetPlan,
    ) -> Result<FacetDistribution, String> {
        assert_eq!(*candidates, 2);
        let facets = plan.facets.clone().unwrap();
        let list = facets.into_iter().map(|(name, _)| (name, named(&[("cat", 2)])));
        self.step("distribution", Named { entries: list.collect() })
    }

    fn facet_stats(
        &self,
        _candidates: &u64,
        _plan: &FacetPlan,
    ) -> Result<Vec<(String, (Double, Double))>, String> {
        let (min, max) = (Double { bits: 1 }, Double { bits: 2 });
        self.step("stats", vec![("id".to_string(), (min, max))])
    }

    fn search_for_facet_values(
        &self,
        search: &FacetSearch<String, String>,
    ) -> Result<Vec<FacetValueHit>, String> {
        assert_eq!(search.search.time_budget, TimeBudget::Milliseconds(150));
        assert_eq!(search.search.distribution_shift, None);
        let value = format!(
            "{} {:?} {} {:?}",
            search.facet, search.query, search.is_hybrid, search.max_values
        );
        self.step("facet values", vec![FacetValueHit { value, count: 1 }])
    }

    fn elapsed_ms(&self) -> u128 {
        12
    }
}

fn text(s: &str) -> Value {
    Value::String(s.to_string())
}

fn texts(names: &[&str]) -> Option<Vec<String>> {
    Some(names.iter().map(|s| s.to_string()).collect())
}

fn names(names: &[&str]) -> Option<NameSet> {
    texts(names).map(|names| NameSet { names })
}

fn named<V: Clone>(entries: &[(&str, V)]) -> Named<V> {
    Named { entries: entries.iter().map(|(k, v)| (k.to_string(), v.clone())).collect() }
}

fn object(fields: &[(&str, Value)]) -> Document {
    Document { entries: fields.iter().map(|(k, v)| (k.to_string(), v.clone())).collect() }
}

fn cats() -> SearchQuery {
    SearchQuery {
        q: Some("cat".to_string()),
        limit: 20,
        attributes_to_retrieve: names(&["id", "title"]),
        ..SearchQuery::default()
    }
}

fn perform(library: &Library, query: SearchQuery) -> SearchResult {
    perform_search(library, query, OFF, None).unwrap()
}

#[test]
fn a_search_finds_documents() {
    let result = perform(&library(), cats());
    assert_eq!(result.hits.len(), 2);
    assert_eq!(result.hits[0].document, object(&[("id", text("1")), ("title", text("the cat"))]));
    assert_eq!(result.hits[1].document, object(&[("id", text("2")), ("title", text("a cat cat"))]));
    for hit in &result.hits {
        assert_eq!(hit.formatted, Document::new());
        assert!(hit.matches_position.is_none());
        assert_eq!(hit.ranking_score, None);
        assert_eq!(hit.ranking_score_details, None);
    }
    assert_eq!(result.query, "cat");
    assert_eq!(result.vector, None);
    assert_eq!(result.processing_time_ms, 12);
    assert_eq!(
        result.hits_info,
        HitsInfo::OffsetLimit { limit: 20, offset: 0, estimated_total_hits: 2 }
    );
    assert_eq!(result.facet_distribution, None);
    assert_eq!(result.facet_stats, None);
    assert!(result.degraded);
}

#[test]
fn a_search_without_words_has_an_empty_query() {
    assert_eq!(perform(&library(), SearchQuery { q: None, ..cats() }).query, "");
}

#[test]
fn hits_are_formatted_as_the_query_asks() {
    let query = SearchQuery {
        attributes_to_highlight: names(&["title"]),
        attributes_to_crop: texts(&["id:3"]),
        highlight_pre_tag: "<".to_string(),
        highlight_post_tag: ">".to_string(),
        crop_marker: "~".to_string(),
        show_matches_position: true,
        ..cats()
    };
    let result = perform(&library(), query.clone());
    assert_eq!(
        result.hits[1].formatted,
        object(&[("id", text("2~")), ("title", text("a <cat> <cat>"))])
    );
    let places = result.hits[1].matches_position.as_ref().unwrap();
    assert_eq!(
        places.get("title"),
        Some(&vec![MatchBounds { start: 2, length: 3 }, MatchBounds { start: 6, length: 3 }])
    );
    assert_eq!(places.get("id"), None);

    let scripts = vec![("Latin".to_string(), vec!["Eng".to_string()])];
    let result = perform(&Library { scripts, ..library() }, query);
    assert_eq!(result.hits[0].formatted.get("id"), Some(&text("1~Latin")));
}

#[test]
fn a_field_that_is_not_displayed_is_not_shown() {
    let library = Library { displayed: Some(vec![1]), ..library() };
    let query = SearchQuery { attributes_to_highlight: names(&["*"]), ..cats() };
    let result = perform(&library, query);
    assert_eq!(result.hits[0].document, object(&[("title", text("the cat"))]));
    assert_eq!(result.hits[0].formatted, object(&[("title", text("the cat"))]));
}

#[test]
fn scores_are_shown_where_they_are_asked_for() {
    let query =
        SearchQuery { show_ranking_score: true, show_ranking_score_details: true, ..cats() };
    let result = perform(&library(), query);
    assert_eq!(result.hits[0].ranking_score, Some(Double { bits: 6.0f64.to_bits() }));
    let details = result.hits[0].ranking_score_details.as_ref().unwrap();
    assert_eq!(details.entries.len(), 3);
}

#[test]
fn the_first_similarity_is_the_semantic_score() {
    let result = perform(&library(), cats());
    assert_eq!(result.hits[0].semantic_score, Some(Single { bits: 0.5f32.to_bits() }));
    assert_eq!(result.hits[1].semantic_score, Some(Single { bits: 0 }));
    let none: Vec<ScoreDetails<u8>> = vec![ScoreDetails { similarity: None, detail: 0 }];
    assert_eq!(semantic_score(&none), None);
}

#[test]
fn the_distance_is_noted_where_the_query_sorts_by_a_point() {
    let query = SearchQuery {
        sort: texts(&["price:asc", "_geoPoint(0, 0):asc"]),
        attributes_to_retrieve: None,
        ..cats()
    };
    let result = perform(&library(), query.clone());
    let distance = Value::Number(Number { text: "5".to_string() });
    assert_eq!(result.hits[0].document.get("_geoDistance"), Some(&distance));
    assert_eq!(result.hits[1].document.get("_geoDistance"), None);

    let unsorted = SearchQuery { sort: None, ..query.clone() };
    assert_eq!(perform(&library(), unsorted).hits[0].document.get("_geoDistance"), None);

    let hidden = SearchQuery { attributes_to_retrieve: names(&["id"]), ..query };
    assert_eq!(perform(&library(), hidden).hits[0].document.get("_geoDistance"), None);
}

#[test]
fn a_point_that_cannot_be_measured_from_is_an_error_once_there_is_a_hit() {
    let query = SearchQuery { sort: texts(&["_geoPoint(1-2, 0):asc"]), ..cats() };
    assert_eq!(
        perform_search(&library(), query.clone(), OFF, None).unwrap_err(),
        SearchError::UnmeasurablePoint
    );
    let empty = SearchQuery { limit: 0, ..query };
    assert_eq!(perform(&library(), empty).hits.len(), 0);
}

#[test]
fn facets_are_listed_where_they_are_asked_for() {
    let query = SearchQuery { facets: texts(&["title"]), ..cats() };
    let result = perform(&library(), query);
    assert_eq!(
        result.facet_distribution,
        Some(named(&[("title", named(&[("cat", 2)]))]))
    );
    let stats = FacetStats { min: Double { bits: 1 }, max: Double { bits: 2 } };
    assert_eq!(result.facet_stats, Some(named(&[("id", stats)])));
}

#[test]
fn pages_are_counted() {
    let query = SearchQuery { page: Some(2), hits_per_page: Some(1), ..cats() };
    let result = perform(&library(), query);
    assert_eq!(result.hits.len(), 1);
    assert_eq!(result.hits[0].document.get("id"), Some(&text("2")));
    assert_eq!(
        result.hits_info,
        HitsInfo::Pagination { hits_per_page: 1, page: 2, total_pages: 2, total_hits: 2 }
    );
    let huge = SearchQuery { hits_per_page: Some(usize::MAX), ..cats() };
    assert_eq!(
        perform_search(&library(), huge, OFF, None).unwrap_err(),
        SearchError::UncountablePages
    );
}

#[test]
fn the_limit_of_the_index_holds() {
    let library = Library { max_total_hits: Some(1), cutoff: Some(7), ..library() };
    let result = perform(&library, cats());
    assert_eq!(result.hits.len(), 1);
    assert_eq!(
        result.hits_info,
        HitsInfo::OffsetLimit { limit: 20, offset: 0, estimated_total_hits: 1 }
    );
}

#[test]
fn a_failing_step_is_reported() {
    let query = SearchQuery {
        facets: texts(&["title"]),
        filter: Some(text("a = 1")),
        sort: texts(&["a:asc"]),
        ..cats()
    };
    for broken in [
        "cutoff",
        "total",
        "filter",
        "sort",
        "execute",
        "displayed",
        "script",
        "separators",
        "dictionary",
        "documents",
        "parse",
        "values",
        "orders",
        "distribution",
        "stats",
    ] {
        let library = Library { broken, ..library() };
        assert_eq!(
            perform_search(&library, query.clone(), OFF, None).unwrap_err(),
            SearchError::Engine(broken.to_string())
        );
    }
    let unasked = Library { broken: "distribution", ..library() };
    assert_eq!(perform(&unasked, cats()).hits.len(), 2);
}

#[test]
fn unknown_fields_are_reported() {
    let stray = Library { documents: vec![stored(&[(9, "x")])], ..library() };
    assert_eq!(
        perform_search(&stray, cats(), OFF, None).unwrap_err(),
        SearchError::MissingFieldName(9)
    );
    let shown = Library { displayed: Some(vec![0, 8]), ..library() };
    assert_eq!(
        perform_search(&shown, cats(), OFF, None).unwrap_err(),
        SearchError::MissingFieldName(8)
    );
}

#[test]
fn a_refused_query_reaches_nothing() {
    let query = SearchQuery { vector: Some(vec![]), ..cats() };
    let library = Library { broken: "execute", ..library() };
    assert_eq!(
        perform_search(&library, query, OFF, None).unwrap_err(),
        SearchError::FeatureNotEnabled("Passing `vector` as a query parameter")
    );
}

#[test]
fn facet_values_are_searched_for() {
    let library = Library { max_values: Some(3), ..library() };
    let result = perform_facet_search(
        &library,
        cats(),
        Some("act".to_string()),
        "genre".to_string(),
        OFF,
    )
    .unwrap();
    assert_eq!(
        result.facet_hits,
        vec![FacetValueHit { value: r#"genre Some("act") false Some(3)"#.to_string(), count: 1 }]
    );
    assert_eq!(result.facet_query.as_deref(), Some("act"));
    assert_eq!(result.processing_time_ms, 12);
}

#[test]
fn a_failing_facet_search_is_reported() {
    let parsed = SearchQuery { filter: Some(text("a = 1")), sort: texts(&["a:asc"]), ..cats() };
    for broken in ["total", "filter", "sort", "values", "facet values"] {
        let library = Library { broken, ..library() };
        assert_eq!(
            perform_facet_search(&library, parsed.clone(), None, "genre".to_string(), OFF)
                .unwrap_err(),
            SearchError::Engine(broken.to_string())
        );
    }
    let query = SearchQuery { vector: Some(vec![]), ..cats() };
    assert_eq!(
        perform_facet_search(&library(), query, None, "genre".to_string(), OFF).unwrap_err(),
        SearchError::FeatureNotEnabled("Passing `vector` as a query parameter")
    );
}

#[test]
fn facets_are_planned_by_the_settings() {
    let orders = vec![("*".to_string(), OrderBy::Count), ("a".to_string(), OrderBy::Lexicographic)];
    let plan = plan_facets(&texts(&["a", "b"]).unwrap(), Some(5), &orders);
    assert_eq!(
        plan,
        FacetPlan {
            max_values_per_facet: 5,
            default_order_by: OrderBy::Count,
            facets: Some(vec![
                ("a".to_string(), OrderBy::Lexicographic),
                ("b".to_string(), OrderBy::Count),
            ]),
        }
    );
    let all = plan_facets(&texts(&["a", "*"]).unwrap(), None, &Vec::new());
    assert_eq!(
        all,
        FacetPlan {
            max_values_per_facet: 100,
            default_order_by: OrderBy::Lexicographic,
            facets: None,
        }
    );
}

#[test]
fn the_two_numbers_of_a_facet_are_named() {
    let (min, max) = (Double { bits: 3 }, Double { bits: 4 });
    assert_eq!(
        name_stats(vec![("a".to_string(), (min, max))]),
        named(&[("a", FacetStats { min, max })])
    );
}

#[test]
fn an_empty_list_of_languages_allows_any() {
    let settings = tokenizer_settings(Vec::new(), texts(&["&"]), None);
    assert!(settings.create_char_map);
    assert_eq!(settings.allow_list, None);
    assert_eq!(settings.separators, texts(&["&"]));
    assert_eq!(settings.words_dict, None);
    let scripts = vec![("Latin".to_string(), vec!["Eng".to_string()])];
    let settings = tokenizer_settings(scripts.clone(), None, texts(&["J. R. R."]));
    assert_eq!(settings.allow_list, Some(scripts));
    assert_eq!(settings.separators, None);
    assert_eq!(settings.words_dict, texts(&["J. R. R."]));
}

#[test]
fn a_facet_search_fails_as_a_search_for_documents_does() {
    for query in [
        SearchQuery { filter: Some(Value::Null), ..cats() },
        SearchQuery { filter: Some(text("a = 1")), ..cats() },
        SearchQuery { sort: texts(&["a:asc"]), ..cats() },
        SearchQuery { vector: Some(vec![]), ..cats() },
    ] {
        for broken in ["filter", "sort"] {
            let library = Library { broken, ..library() };
            let found = perform_search(&library, query.clone(), OFF, None).err();
            let values =
                perform_facet_search(&library, query.clone(), None, "genre".to_string(), OFF);
            assert_eq!(values.err(), found);
        }
    }
}

#[test]
fn facets_are_equal_whatever_their_order() {
    let left = named(&[("a", named(&[("x", 1), ("y", 2)])), ("b", named(&[]))]);
    let right = named(&[("b", named(&[])), ("a", named(&[("y", 2), ("x", 1)]))]);
    assert_eq!(left, right);
    assert_eq!(left.get("a").unwrap().get("y"), Some(&2));
    assert_eq!(left.get("c"), None);
    assert_ne!(left, named(&[("a", named(&[("x", 1), ("y", 3)])), ("b", named(&[]))]));
    assert_ne!(left, named(&[("a", named(&[("x", 1), ("y", 2)]))]));
    assert_ne!(named(&[("a", 1)]), named(&[("b", 1)]));
}

#[test]
fn a_page_is_a_window_of_results() {
    let page = SearchQuery { page: Some(2), hits_per_page: Some(1), ..cats() };
    let window = SearchQuery { offset: 1, limit: 1, ..cats() };
    assert_eq!(perform(&library(), page).hits, perform(&library(), window).hits);
}

#[test]
fn a_refused_query_may_ask_for_any_page() {
    let query = SearchQuery {
        vector: Some(vec![]),
        page: Some(usize::MAX),
        hits_per_page: Some(usize::MAX),
        ..cats()
    };
    let refused = SearchError::FeatureNotEnabled("Passing `vector` as a query parameter");
    assert_eq!(perform_search(&library(), query.clone(), OFF, None).unwrap_err(), refused);
    assert_eq!(
        perform_facet_search(&library(), query, None, "genre".to_string(), OFF).unwrap_err(),
        refused
    );
}
