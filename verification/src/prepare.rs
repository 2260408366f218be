//! Preparing a search: what a query asks of the engine, once it has been checked.
use vstd::prelude::*;

use crate::error;
use crate::error::{Fallible, SearchError};
use crate::filter;
use crate::filter::{parse_filter, FilterParser};
use crate::float;
use crate::float::Single;
use crate::index::Index;
use crate::pagination;
use crate::pagination::{search_window, DEFAULT_PAGINATION_MAX_TOTAL_HITS};
use crate::query;
use crate::query::{SearchQuery, TermsMatchingStrategy};
use crate::text;

verus! {

/// The features that can be switched on, as far as a search depends on them.
#[derive(Debug, Clone, Copy, PartialEq, Eq, Structural)]
pub struct RoFeatures {
    pub vector_store: bool,
}

impl RoFeatures {
    /// Refuses an action that needs the vector store where that is not enabled.
    pub fn check_vector<E>(&self, disabled_action: &'static str) -> (result: Result<
        (),
        SearchError<E>,
    >)
        ensures
            match result {
                Ok(_) => self.vector_store,
                Err(error) => !self.vector_store && error == SearchError::<E>::FeatureNotEnabled(
                    disabled_action,
                ),
            },
    {
        if self.vector_store {
            Ok(())
        } else {
            Err(SearchError::FeatureNotEnabled(disabled_action))
        }
    }
}

/// Whether the engine keeps the details of the scores.
#[derive(Debug, Clone, Copy, PartialEq, Eq, Structural)]
pub enum ScoringStrategy {
    Skip,
    Detailed,
}

/// How the engine runs a search.
#[derive(Debug, Clone, Copy, PartialEq)]
pub enum Execution {
    /// One search, by words or by the vector.
    Single,
    /// A search by words and a semantic one, put together in this ratio.
    Hybrid(Single),
}

/// How long a search may take.
#[derive(Debug, Clone, Copy, PartialEq, Eq, Structural)]
pub enum TimeBudget {
    /// As long as the engine lets it by default.
    Standard,
    /// This many milliseconds.
    Milliseconds(u64),
}

/// How the scores of an embedder are spread.
#[derive(Debug, Clone, Copy, PartialEq)]
pub struct DistributionShift {
    pub current_mean: Single,
    pub current_sigma: Single,
}

/// What is asked of the engine for a query, with its filter and its sort criteria parsed.
#[derive(Debug, Clone, PartialEq)]
pub struct PreparedSearch<F, S> {
    pub time_budget: TimeBudget,
    pub distribution_shift: Option<DistributionShift>,
    pub query: Option<String>,
    pub vector: Option<Vec<Single>>,
    pub embedder_name: Option<String>,
    pub searchable_attributes: Option<Vec<String>>,
    pub terms_matching_strategy: TermsMatchingStrategy,
    pub exhaustive_number_hits: bool,
    pub scoring_strategy: ScoringStrategy,
    pub offset: usize,
    pub limit: usize,
    pub filter: Option<F>,
    pub sort_criteria: Option<Vec<S>>,
    pub execution: Execution,
    /// Whether the results come in numbered pages.
    pub is_finite_pagination: bool,
    /// The number of results that can be reached.
    pub max_total_hits: usize,
}

/// What reads sort criteria. Nothing is assumed of what it returns.
pub trait SortParser: Fallible {
    type Sort;

    /// The criterion that a text stands for.
    fn parse_sort(&self, criterion: &str) -> Result<Self::Sort, Self::Error>;
}

/// Whether the text of a sort criterion can be read so.
pub open spec fn sort_read<T: SortParser>(
    parser: T,
    text: Seq<char>,
    answer: Result<T::Sort, T::Error>,
) -> bool {
    exists|read: &str| #[trigger]
        call_ensures(T::parse_sort, (&parser, read), answer) && read@ == text
}

/// Whether sort criteria can be parsed so: all of them, in their order.
pub open spec fn sorts_parse<T: SortParser>(
    parser: T,
    sorts: Seq<Seq<char>>,
    parsed: Seq<T::Sort>,
) -> bool {
    &&& parsed.len() == sorts.len()
    &&& forall|i: int|
        0 <= i < sorts.len() ==> sort_read(parser, #[trigger] sorts[i], Ok(parsed[i]))
}

/// Whether this can be why sort criteria are refused: the first one that cannot be read.
pub open spec fn sorts_fail<T: SortParser>(
    parser: T,
    sorts: Seq<Seq<char>>,
    error: T::Error,
) -> bool {
    exists|at: int, parsed: Seq<T::Sort>|
        #![trigger sorts_parse(parser, sorts.take(at), parsed)]
        0 <= at < sorts.len() && sorts_parse(parser, sorts.take(at), parsed) && sort_read(
            parser,
            sorts[at],
            Err(error),
        )
}

/// Parses sort criteria.
pub fn parse_sorts<T: SortParser>(sorts: &Vec<String>, parser: &T) -> (result: Result<
    Vec<T::Sort>,
    T::Error,
>)
    ensures
        match result {
            Ok(parsed) => sorts_parse(*parser, text::texts(sorts@), parsed@),
            Err(error) => sorts_fail(*parser, text::texts(sorts@), error),
        },
{
    let ghost criteria = text::texts(sorts@);
    let mut parsed: Vec<T::Sort> = Vec::new();
    let mut i: usize = 0;
    while i < sorts.len()
        invariant
            i <= sorts.len(),
            criteria == text::texts(sorts@),
            sorts_parse(*parser, criteria.take(i as int), parsed@),
        decreases sorts.len() - i,
    {
        let ghost earlier = criteria.take(i as int);
        let ghost later = criteria.take(i + 1);
        assert(criteria[i as int] == sorts@[i as int]@);
        match parser.parse_sort(sorts[i].as_str()) {
            Ok(sort) => {
                assert(sort_read(*parser, criteria[i as int], Ok(sort)));
                let ghost before = parsed@;
                parsed.push(sort);
                assert forall|k: int| 0 <= k < later.len() implies sort_read(
                    *parser,
                    #[trigger] later[k],
                    Ok(parsed@[k]),
                ) by {
                    if k < i {
                        assert(earlier[k] == later[k]);
                        assert(parsed@[k] == before[k]);
                    }
                }
            },
            Err(error) => {
                assert(sort_read(*parser, criteria[i as int], Err(error)));
                assert(sorts_fail(*parser, criteria, error));
                return Err(error);
            },
        }
        i += 1;
    }
    assert(criteria.take(i as int) == criteria);
    Ok(parsed)
}

/// The elements of an optional list.
pub open spec fn elements<T>(list: Option<Vec<T>>) -> Option<Seq<T>> {
    match list {
        Some(list) => Some(list@),
        None => None,
    }
}

/// The action for which a query is refused where the vector store is not enabled.
pub open spec fn disabled_action(query: SearchQuery, features: RoFeatures) -> Option<&'static str> {
    if features.vector_store {
        None
    } else if query.vector is Some {
        Some("Passing `vector` as a query parameter")
    } else if query.hybrid is Some {
        Some("Passing `hybrid` as a query parameter")
    } else {
        None
    }
}

/// Whether a query has a text and a vector, and does not say how to put them together.
pub open spec fn lacks_hybrid(query: SearchQuery) -> bool {
    query.hybrid is None && query.q is Some && query.vector is Some
}

/// The number of results that can be reached, by the setting of the index.
pub open spec fn total_hits_limit(setting: Option<u64>) -> usize {
    match setting {
        Some(limit) => limit as usize,
        None => DEFAULT_PAGINATION_MAX_TOTAL_HITS,
    }
}

/// Whether the ranking of a query leaves the vector out: the semantic ratio is zero.
pub open spec fn skips_vector(query: SearchQuery) -> bool {
    query.hybrid matches Some(hybrid) && hybrid.semantic_ratio@.equals_zero()
}

/// Whether the ranking of a query leaves the words out: the semantic ratio is one.
pub open spec fn skips_words(query: SearchQuery) -> bool {
    query.hybrid matches Some(hybrid) && hybrid.semantic_ratio@.equals_one()
}

/// How the engine runs a query: in two searches where neither leaves the other out.
pub open spec fn execution(query: SearchQuery) -> Execution {
    match query.hybrid {
        Some(hybrid) => if skips_vector(query) || skips_words(query) {
            Execution::Single
        } else {
            Execution::Hybrid(hybrid.semantic_ratio@)
        },
        None => Execution::Single,
    }
}

/// Whether this is what a query asks of the engine, apart from its filter and its sort criteria,
/// where `max_total_hits` results can be reached.
pub open spec fn prepared_for<F, S>(
    prepared: PreparedSearch<F, S>,
    query: SearchQuery,
    distribution: Option<DistributionShift>,
    time_budget: TimeBudget,
    max_total_hits: usize,
) -> bool {
    &&& prepared.time_budget == time_budget
    &&& prepared.distribution_shift == distribution
    &&& prepared.query == if skips_words(query) {
        None
    } else {
        query.q
    }
    &&& elements(prepared.vector) == if skips_vector(query) {
        None
    } else {
        elements(query.vector)
    }
    &&& prepared.embedder_name == match query.hybrid {
        Some(hybrid) => hybrid.embedder,
        None => None,
    }
    &&& elements(prepared.searchable_attributes) == elements(query.attributes_to_search_on)
    &&& prepared.terms_matching_strategy == query::terms_strategy(query.matching_strategy)
    &&& prepared.exhaustive_number_hits == query.finite_pagination()
    &&& prepared.scoring_strategy == if query.show_ranking_score
        || query.show_ranking_score_details {
        ScoringStrategy::Detailed
    } else {
        ScoringStrategy::Skip
    }
    &&& prepared.offset == pagination::window(query, max_total_hits).offset
    &&& prepared.limit == pagination::window(query, max_total_hits).limit
    &&& prepared.execution == execution(query)
    &&& prepared.is_finite_pagination == query.finite_pagination()
    &&& prepared.max_total_hits == max_total_hits
}

/// Whether a query gets past the checks that come before its pagination.
pub open spec fn admitted(query: SearchQuery, features: RoFeatures) -> bool {
    disabled_action(query, features) is None && !lacks_hybrid(query)
}

/// Tells whether a query gets past the checks that come before its pagination.
pub fn is_admitted(query: &SearchQuery, features: RoFeatures) -> (answer: bool)
    ensures
        answer == admitted(*query, features),
{
    let enabled = features.vector_store || query.vector.is_none() && query.hybrid.is_none();
    let complete = query.hybrid.is_some() || query.q.is_none() || query.vector.is_none();
    enabled && complete
}

/// Whether the filter of a query can be parsed so.
pub open spec fn query_filter_parses<T: FilterParser>(
    parser: T,
    query: SearchQuery,
    result: Result<Option<T::Filter>, SearchError<T::Error>>,
) -> bool {
    match query.filter {
        Some(filter) => filter::filter_parses(parser, filter@, result),
        None => result matches Ok(parsed) && parsed is None,
    }
}

/// Whether the sort criteria of a query can be parsed so.
pub open spec fn query_sorts_parse<T: SortParser>(
    parser: T,
    query: SearchQuery,
    parsed: Option<Vec<T::Sort>>,
) -> bool {
    match query.sort {
        Some(sort) => parsed is Some && sorts_parse(parser, text::texts(sort@), parsed->0@),
        None => parsed is None,
    }
}

/// Whether this can be why the sort criteria of a query are refused.
pub open spec fn query_sorts_fail<T: SortParser>(
    parser: T,
    query: SearchQuery,
    error: T::Error,
) -> bool {
    query.sort matches Some(sort) && sorts_fail(parser, text::texts(sort@), error)
}

/// Whether the filter of a query can be parsed.
pub open spec fn query_filter_accepted<T: FilterParser>(parser: T, query: SearchQuery) -> bool {
    exists|filter: Option<T::Filter>| #[trigger] query_filter_parses(parser, query, Ok(filter))
}

/// A copy of an optional list of texts.
fn copy_texts(list: &Option<Vec<String>>) -> (copy: Option<Vec<String>>)
    ensures
        elements(copy) == elements(*list),
{
    match list {
        Some(list) => {
            let copy = list.clone();
            assert(copy@ =~= list@);
            Some(copy)
        },
        None => None,
    }
}

/// How the engine runs a query.
fn choose_execution(query: &SearchQuery) -> (chosen: Execution)
    ensures
        chosen == execution(*query),
{
    match &query.hybrid {
        Some(hybrid) => {
            let ratio: Single = *hybrid.semantic_ratio;
            if ratio.is_zero() || ratio.is_one() {
                Execution::Single
            } else {
                Execution::Hybrid(ratio)
            }
        },
        None => Execution::Single,
    }
}

/// Whether the preparation of a query can end so, where `pagination_max_total_hits` is what came of
/// reading the setting of the index. What is not enabled comes first, then what is missing, the
/// setting, the filter, and the sort criteria.
pub open spec fn prepares<T: FilterParser + SortParser>(
    parser: T,
    query: SearchQuery,
    features: RoFeatures,
    distribution: Option<DistributionShift>,
    time_budget: TimeBudget,
    pagination_max_total_hits: Result<Option<u64>, T::Error>,
    result: Result<PreparedSearch<T::Filter, T::Sort>, SearchError<T::Error>>,
) -> bool {
    match result {
        Ok(prepared) => {
            &&& admitted(query, features)
            &&& pagination_max_total_hits matches Ok(setting)
            &&& query_filter_parses(parser, query, Ok(prepared.filter))
            &&& query_sorts_parse(parser, query, prepared.sort_criteria)
            &&& prepared_for(
                prepared,
                query,
                distribution,
                time_budget,
                total_hits_limit(setting),
            )
        },
        Err(SearchError::FeatureNotEnabled(action)) => disabled_action(query, features) == Some(
            action,
        ),
        Err(SearchError::MissingSearchHybrid) => {
            &&& disabled_action(query, features) is None
            &&& lacks_hybrid(query)
        },
        Err(SearchError::Engine(error)) => {
            &&& admitted(query, features)
            &&& match pagination_max_total_hits {
                Err(unread) => error == unread,
                Ok(_) => {
                    ||| query_filter_parses(parser, query, Err(SearchError::Engine(error)))
                    ||| query_filter_accepted(parser, query) && query_sorts_fail(
                        parser,
                        query,
                        error,
                    )
                },
            }
        },
        Err(SearchError::InvalidExpression(error)) => {
            &&& admitted(query, features)
            &&& pagination_max_total_hits is Ok
            &&& query_filter_parses(parser, query, Err(SearchError::InvalidExpression(error)))
        },
        Err(_) => false,
    }
}

/// Checks a query, parses its filter and its sort criteria, and says what it asks of the engine.
/// `pagination_max_total_hits` is what came of reading the setting of the index.
pub fn prepare_search<T: FilterParser + SortParser>(
    parser: &T,
    query: &SearchQuery,
    features: RoFeatures,
    distribution: Option<DistributionShift>,
    time_budget: TimeBudget,
    pagination_max_total_hits: Result<Option<u64>, T::Error>,
) -> (result: Result<PreparedSearch<T::Filter, T::Sort>, SearchError<T::Error>>)
    requires
        admitted(*query, features) && pagination_max_total_hits is Ok ==> pagination::page_in_range(
            *query,
        ),
    ensures
        prepares(
            *parser,
            *query,
            features,
            distribution,
            time_budget,
            pagination_max_total_hits,
            result,
        ),
{
    if query.vector.is_some() {
        features.check_vector("Passing `vector` as a query parameter")?;
    }
    if query.hybrid.is_some() {
        features.check_vector("Passing `hybrid` as a query parameter")?;
    }
    if query.hybrid.is_none() && query.q.is_some() && query.vector.is_some() {
        return Err(SearchError::MissingSearchHybrid);
    }
    let vector = match &query.vector {
        Some(vector) => match &query.hybrid {
            // If semantic ratio is 0.0, only the query search will impact the search results,
            // skip the vector
            Some(hybrid) if hybrid.semantic_ratio.is_zero() => None,
            _ => {
                let copy = vector.clone();
                assert(copy@ =~= vector@);
                Some(copy)
            },
        },
        None => None,
    };
    let words = match &query.q {
        Some(q) => match &query.hybrid {
            // If semantic ratio is 1.0, only the vector search will impact the search results,
            // skip the query
            Some(hybrid) if hybrid.semantic_ratio.is_one() => None,
            _ => Some(q.clone()),
        },
        None => None,
    };
    let is_finite_pagination = query.is_finite_pagination();
    let max_total_hits = match pagination_max_total_hits {
        Ok(Some(limit)) => limit as usize,
        Ok(None) => DEFAULT_PAGINATION_MAX_TOTAL_HITS,
        Err(error) => {
            return Err(SearchError::Engine(error));
        },
    };
    let scoring_strategy = if query.show_ranking_score || query.show_ranking_score_details {
        ScoringStrategy::Detailed
    } else {
        ScoringStrategy::Skip
    };
    let embedder_name = match &query.hybrid {
        Some(hybrid) => hybrid.embedder.clone(),
        None => None,
    };
    let (offset, limit) = search_window(query, max_total_hits);
    let filter = match &query.filter {
        Some(filter) => match parse_filter(filter, parser) {
            Ok(filter) => filter,
            Err(error) => {
                assert(query_filter_parses(*parser, *query, Err(error)));
                return Err(error);
            },
        },
        None => None,
    };
    assert(query_filter_parses(*parser, *query, Ok(filter)));
    let sort_criteria = match &query.sort {
        Some(sort) => match parse_sorts(sort, parser) {
            Ok(sorts) => Some(sorts),
            Err(error) => {
                assert(query_sorts_fail(*parser, *query, error));
                assert(query_filter_accepted(*parser, *query));
                return Err(SearchError::Engine(error));
            },
        },
        None => None,
    };
    Ok(
        PreparedSearch {
            time_budget,
            distribution_shift: distribution,
            query: words,
            vector,
            embedder_name,
            searchable_attributes: copy_texts(&query.attributes_to_search_on),
            terms_matching_strategy: TermsMatchingStrategy::from(query.matching_strategy),
            exhaustive_number_hits: is_finite_pagination,
            scoring_strategy,
            offset,
            limit,
            filter,
            sort_criteria,
            execution: choose_execution(query),
            is_finite_pagination,
            max_total_hits,
        },
    )
}

/// A query is run in two searches only where both the words and the vector count, and only then is
/// neither of them left out for its ratio.
pub proof fn law_hybrid_counts_both(query: SearchQuery)
    ensures
        execution(query) is Hybrid <==> query.hybrid is Some && !skips_vector(query)
            && !skips_words(query),
        !(skips_vector(query) && skips_words(query)),
{
    if query.hybrid is Some {
        float::lemma_order_by_bits(query.hybrid->0.semantic_ratio@);
    }
}

/// Whether a parser fails alike each time it is given the same criterion.
pub open spec fn sorts_fail_alike<T: SortParser>(parser: T) -> bool {
    forall|text: Seq<char>, left: Result<T::Sort, T::Error>, right: Result<T::Sort, T::Error>|
        #[trigger] sort_read(parser, text, left) && #[trigger] sort_read(parser, text, right)
            ==> error::fail_alike(left, right)
}

/// With a parser that fails alike, sort criteria that can be refused are always refused for the
/// same reason.
proof fn lemma_sorts_fail_alike<T: SortParser>(parser: T, sorts: Seq<Seq<char>>, error: T::Error)
    requires
        sorts_fail_alike(parser),
        sorts_fail(parser, sorts, error),
    ensures
        forall|parsed: Seq<T::Sort>| !#[trigger] sorts_parse(parser, sorts, parsed),
        forall|other: T::Error| #[trigger] sorts_fail(parser, sorts, other) ==> other == error,
{
    let (at, before) = choose|at: int, parsed: Seq<T::Sort>|
        #![trigger sorts_parse(parser, sorts.take(at), parsed)]
        0 <= at < sorts.len() && sorts_parse(parser, sorts.take(at), parsed) && sort_read(
            parser,
            sorts[at],
            Err(error),
        );
    let failed: Result<T::Sort, T::Error> = Err(error);
    assert(sort_read(parser, sorts[at], failed));
    assert forall|parsed: Seq<T::Sort>| !#[trigger] sorts_parse(parser, sorts, parsed) by {
        if sorts_parse(parser, sorts, parsed) {
            let read: Result<T::Sort, T::Error> = Ok(parsed[at]);
            assert(sort_read(parser, sorts[at], read));
        }
    }
    assert forall|other: T::Error| #[trigger] sorts_fail(parser, sorts, other) implies other
        == error by {
        let (other_at, other_before) = choose|at: int, parsed: Seq<T::Sort>|
            #![trigger sorts_parse(parser, sorts.take(at), parsed)]
            0 <= at < sorts.len() && sorts_parse(parser, sorts.take(at), parsed) && sort_read(
                parser,
                sorts[at],
                Err(other),
            );
        let other_failed: Result<T::Sort, T::Error> = Err(other);
        assert(sort_read(parser, sorts[other_at], other_failed));
        if at < other_at {
            let read: Result<T::Sort, T::Error> = Ok(other_before[at]);
            assert(sort_read(parser, sorts.take(other_at)[at], read));
        } else if other_at < at {
            let read: Result<T::Sort, T::Error> = Ok(before[other_at]);
            assert(sort_read(parser, sorts.take(at)[other_at], read));
        }
    }
}

/// With parsers that fail alike, the preparation of a query succeeds each time, or fails each time
/// for the same reason, whatever the time budget and the distribution.
pub proof fn law_preparation_fails_alike<T: FilterParser + SortParser>(
    parser: T,
    query: SearchQuery,
    features: RoFeatures,
    setting: Result<Option<u64>, T::Error>,
    distribution: Option<DistributionShift>,
    time_budget: TimeBudget,
    result: Result<PreparedSearch<T::Filter, T::Sort>, SearchError<T::Error>>,
    other_distribution: Option<DistributionShift>,
    other_time_budget: TimeBudget,
    other_result: Result<PreparedSearch<T::Filter, T::Sort>, SearchError<T::Error>>,
)
    requires
        filter::filters_fail_alike(parser),
        sorts_fail_alike(parser),
        prepares(parser, query, features, distribution, time_budget, setting, result),
        prepares(
            parser,
            query,
            features,
            other_distribution,
            other_time_budget,
            setting,
            other_result,
        ),
    ensures
        result is Ok <==> other_result is Ok,
        result is Err ==> error::same_error(result->Err_0, other_result->Err_0),
{
    assert forall|
        left: Result<Option<T::Filter>, SearchError<T::Error>>,
        right: Result<Option<T::Filter>, SearchError<T::Error>>,
    |
        #[trigger] query_filter_parses(parser, query, left) && #[trigger] query_filter_parses(
            parser,
            query,
            right,
        ) implies (left is Ok <==> right is Ok) && (left is Err ==> error::same_error(
        left->Err_0,
        right->Err_0,
    )) by {
        if query.filter is Some {
            filter::law_filter_fails_alike(parser, query.filter->0@, left, right);
        }
    }
    assert forall|error: T::Error| #[trigger]
        query_sorts_fail(parser, query, error) implies (forall|parsed: Option<Vec<T::Sort>>|
        !#[trigger] query_sorts_parse(parser, query, parsed)) && (forall|other: T::Error|
        #[trigger] query_sorts_fail(parser, query, other) ==> other == error) by {
        lemma_sorts_fail_alike(parser, text::texts(query.sort->0@), error);
    }
    if query_filter_accepted(parser, query) {
        let filter = choose|filter: Option<T::Filter>| #[trigger]
            query_filter_parses(parser, query, Ok(filter));
        assert(query_filter_parses(parser, query, Ok(filter)));
    }
}

/// Whether an index answers alike as far as the preparation of a query goes: the number of results
/// that can be reached is always read so, and its parsers fail alike.
pub open spec fn prepares_alike<T: Index>(
    index: T,
    setting: Result<Option<u64>, T::Error>,
) -> bool {
    &&& forall|read: Result<Option<u64>, T::Error>| #[trigger]
        call_ensures(T::pagination_max_total_hits, (&index,), read) ==> read == setting
    &&& filter::filters_fail_alike(index)
    &&& sorts_fail_alike(index)
}

/// With parsers that fail alike, a query for a page and one for the window of that page are
/// prepared alike: where the one succeeds, so does the other, with the same offset, limit and
/// number of results that can be reached; where the one fails, so does the other, for the same
/// reason. Only the first counts its results in pages.
pub proof fn law_page_prepares_as_window<T: FilterParser + SortParser>(
    parser: T,
    query: SearchQuery,
    page_query: SearchQuery,
    features: RoFeatures,
    distribution: Option<DistributionShift>,
    time_budget: TimeBudget,
    setting: Result<Option<u64>, T::Error>,
    result: Result<PreparedSearch<T::Filter, T::Sort>, SearchError<T::Error>>,
    page_result: Result<PreparedSearch<T::Filter, T::Sort>, SearchError<T::Error>>,
)
    requires
        pagination::asks_for_page_as_window(query, page_query),
        filter::filters_fail_alike(parser),
        sorts_fail_alike(parser),
        prepares(parser, query, features, distribution, time_budget, setting, result),
        prepares(parser, page_query, features, distribution, time_budget, setting, page_result),
    ensures
        result is Ok <==> page_result is Ok,
        result is Err ==> error::same_error(result->Err_0, page_result->Err_0),
        result is Ok ==> {
            let prepared = result->Ok_0;
            let page_prepared = page_result->Ok_0;
            &&& prepared.offset == page_prepared.offset
            &&& prepared.limit == page_prepared.limit
            &&& prepared.max_total_hits == page_prepared.max_total_hits
            &&& !prepared.is_finite_pagination && page_prepared.is_finite_pagination
        },
{
    assert(page_query.q == query.q && page_query.vector == query.vector);
    assert(page_query.hybrid == query.hybrid);
    assert(page_query.filter == query.filter && page_query.sort == query.sort);
    assert(query_filter_accepted(parser, query) <==> query_filter_accepted(parser, page_query))
        by {
        assert forall|answer: Option<T::Filter>| #[trigger]
            query_filter_parses(parser, query, Ok(answer)) <==> query_filter_parses(
                parser,
                page_query,
                Ok(answer),
            ) by {}
        if query_filter_accepted(parser, query) {
            let answer = choose|answer: Option<T::Filter>| #[trigger]
                query_filter_parses(parser, query, Ok(answer));
            assert(query_filter_parses(parser, page_query, Ok(answer)));
        }
        if query_filter_accepted(parser, page_query) {
            let answer = choose|answer: Option<T::Filter>| #[trigger]
                query_filter_parses(parser, page_query, Ok(answer));
            assert(query_filter_parses(parser, query, Ok(answer)));
        }
    }
    if result is Err {
        // Why a query is refused does not depend on its pagination.
        assert(prepares(
            parser,
            page_query,
            features,
            distribution,
            time_budget,
            setting,
            result,
        ));
        law_preparation_fails_alike(
            parser,
            page_query,
            features,
            setting,
            distribution,
            time_budget,
            result,
            distribution,
            time_budget,
            page_result,
        );
    } else if page_result is Err {
        assert(prepares(
            parser,
            query,
            features,
            distribution,
            time_budget,
            setting,
            page_result,
        ));
        law_preparation_fails_alike(
            parser,
            query,
            features,
            setting,
            distribution,
            time_budget,
            result,
            distribution,
            time_budget,
            page_result,
        );
    } else {
        pagination::law_page_is_window(query, page_query, result->Ok_0.max_total_hits);
    }
}

/// A prepared search matches the words of its query in the way that the query asks for, and so two
/// queries that ask for different ways are never prepared alike.
pub proof fn law_matching_strategy_is_kept<T: FilterParser + SortParser>(
    parser: T,
    query: SearchQuery,
    features: RoFeatures,
    distribution: Option<DistributionShift>,
    time_budget: TimeBudget,
    setting: Result<Option<u64>, T::Error>,
    prepared: PreparedSearch<T::Filter, T::Sort>,
    other_query: SearchQuery,
    other_prepared: PreparedSearch<T::Filter, T::Sort>,
)
    requires
        call_ensures(
            prepare_search::<T>,
            (&parser, &query, features, distribution, time_budget, setting),
            Ok(prepared),
        ),
        call_ensures(
            prepare_search::<T>,
            (&parser, &other_query, features, distribution, time_budget, setting),
            Ok(other_prepared),
        ),
    ensures
        prepared.terms_matching_strategy is Last <==> query.matching_strategy is Last,
        prepared.terms_matching_strategy is All <==> query.matching_strategy is All,
        query.matching_strategy != other_query.matching_strategy
            ==> prepared.terms_matching_strategy != other_prepared.terms_matching_strategy
            && prepared != other_prepared,
{
}

/// A query is run in two searches just where it has a semantic ratio other than zero and one, and
/// the two are put together in that very ratio. So two queries with different ratios between zero
/// and one are run differently.
pub proof fn law_hybrid_ratio_is_kept<T: FilterParser + SortParser>(
    parser: T,
    query: SearchQuery,
    features: RoFeatures,
    distribution: Option<DistributionShift>,
    time_budget: TimeBudget,
    setting: Result<Option<u64>, T::Error>,
    prepared: PreparedSearch<T::Filter, T::Sort>,
    other_query: SearchQuery,
    other_prepared: PreparedSearch<T::Filter, T::Sort>,
)
    requires
        call_ensures(
            prepare_search::<T>,
            (&parser, &query, features, distribution, time_budget, setting),
            Ok(prepared),
        ),
        call_ensures(
            prepare_search::<T>,
            (&parser, &other_query, features, distribution, time_budget, setting),
            Ok(other_prepared),
        ),
    ensures
        prepared.execution is Hybrid <==> query.hybrid is Some && {
            let bits = query.hybrid->0.semantic_ratio@.bits;
            bits != 0 && bits != 0x8000_0000 && bits != 0x3f80_0000
        },
        prepared.execution is Hybrid ==> prepared.execution->Hybrid_0.bits
            == query.hybrid->0.semantic_ratio@.bits,
        prepared.execution is Hybrid && other_prepared.execution is Hybrid
            && query.hybrid->0.semantic_ratio@.bits != other_query.hybrid->0.semantic_ratio@.bits
            ==> prepared.execution != other_prepared.execution,
{
    if query.hybrid is Some {
        float::lemma_order_by_bits(query.hybrid->0.semantic_ratio@);
    }
}

/// The words of a query are searched for as they are, unless its semantic ratio is one; its vector
/// is searched for as it is, unless that ratio is zero; and the embedder is the one that the query
/// names.
pub proof fn law_words_and_vector_are_kept<T: FilterParser + SortParser>(
    parser: T,
    query: SearchQuery,
    features: RoFeatures,
    distribution: Option<DistributionShift>,
    time_budget: TimeBudget,
    setting: Result<Option<u64>, T::Error>,
    prepared: PreparedSearch<T::Filter, T::Sort>,
)
    requires
        call_ensures(
            prepare_search::<T>,
            (&parser, &query, features, distribution, time_budget, setting),
            Ok(prepared),
        ),
    ensures
        query.q is None ==> prepared.query is None,
        query.vector is None ==> prepared.vector is None,
        query.hybrid is None ==> {
            &&& prepared.query == query.q
            &&& query.vector is Some ==> prepared.vector is Some && prepared.vector->0@
                == query.vector->0@
            &&& prepared.embedder_name is None
        },
        query.hybrid matches Some(hybrid) ==> {
            let bits = hybrid.semantic_ratio@.bits;
            &&& bits == 0x3f80_0000 ==> prepared.query is None
            &&& bits != 0x3f80_0000 ==> prepared.query == query.q
            &&& bits == 0 || bits == 0x8000_0000 ==> prepared.vector is None
            &&& bits != 0 && bits != 0x8000_0000 && query.vector is Some ==> prepared.vector is Some
                && prepared.vector->0@ == query.vector->0@
            &&& prepared.embedder_name == hybrid.embedder
        },
{
    if query.hybrid is Some {
        float::lemma_order_by_bits(query.hybrid->0.semantic_ratio@);
    }
}

/// What a prepared search says of the fields that are searched, of the counting and scoring of the
/// results, of the time and of the distribution is what was given.
pub proof fn law_search_settings_are_kept<T: FilterParser + SortParser>(
    parser: T,
    query: SearchQuery,
    features: RoFeatures,
    distribution: Option<DistributionShift>,
    time_budget: TimeBudget,
    setting: Result<Option<u64>, T::Error>,
    prepared: PreparedSearch<T::Filter, T::Sort>,
)
    requires
        call_ensures(
            prepare_search::<T>,
            (&parser, &query, features, distribution, time_budget, setting),
            Ok(prepared),
        ),
    ensures
        prepared.time_budget == time_budget,
        prepared.distribution_shift == distribution,
        query.attributes_to_search_on is None ==> prepared.searchable_attributes is None,
        query.attributes_to_search_on matches Some(attributes) ==> {
            &&& prepared.searchable_attributes is Some
            &&& prepared.searchable_attributes->0@ == attributes@
        },
        prepared.exhaustive_number_hits <==> query.page is Some || query.hits_per_page is Some,
        prepared.is_finite_pagination <==> query.page is Some || query.hits_per_page is Some,
        prepared.scoring_strategy is Detailed <==> query.show_ranking_score
            || query.show_ranking_score_details,
        setting is Ok,
        setting matches Ok(None) ==> prepared.max_total_hits == 1000,
        setting matches Ok(Some(limit)) ==> prepared.max_total_hits == limit as usize,
{
}

/// The results that a search is prepared for are those that its query asks for, as far as they can
/// be reached: from the offset on, or those of the page, twenty on a page unless the query says
/// otherwise. On page zero there are none.
pub proof fn law_window_is_kept<T: FilterParser + SortParser>(
    parser: T,
    query: SearchQuery,
    features: RoFeatures,
    distribution: Option<DistributionShift>,
    time_budget: TimeBudget,
    setting: Result<Option<u64>, T::Error>,
    prepared: PreparedSearch<T::Filter, T::Sort>,
    rank: int,
)
    requires
        call_ensures(
            prepare_search::<T>,
            (&parser, &query, features, distribution, time_budget, setting),
            Ok(prepared),
        ),
        0 <= rank < prepared.max_total_hits,
    ensures
        query.page is None && query.hits_per_page is None ==> (prepared.offset <= rank
            < prepared.offset + prepared.limit <==> query.offset <= rank < query.offset
            + query.limit),
        query.page is Some || query.hits_per_page is Some ==> {
            let size: int = if query.hits_per_page is Some {
                query.hits_per_page->0 as int
            } else {
                20
            };
            let page: int = if query.page is Some {
                query.page->0 as int
            } else {
                1
            };
            &&& page == 0 ==> prepared.limit == 0
            &&& page > 0 ==> (prepared.offset <= rank < prepared.offset + prepared.limit <==> size
                * (page - 1) <= rank < size * (page - 1) + size)
        },
{
    pagination::law_window_of_ranks(query, prepared.max_total_hits, rank);
}

/// The filter of a prepared search is what the parser makes of the filter of its query, and there
/// is none without one; so are the sort criteria, one for each of those of the query, and the
/// `i`th of the one is what the parser makes of the `i`th of the other.
pub proof fn law_filter_and_sort_are_kept<T: FilterParser + SortParser>(
    parser: T,
    query: SearchQuery,
    features: RoFeatures,
    distribution: Option<DistributionShift>,
    time_budget: TimeBudget,
    setting: Result<Option<u64>, T::Error>,
    prepared: PreparedSearch<T::Filter, T::Sort>,
    i: int,
)
    requires
        call_ensures(
            prepare_search::<T>,
            (&parser, &query, features, distribution, time_budget, setting),
            Ok(prepared),
        ),
    ensures
        query.filter is None ==> prepared.filter is None,
        query.filter matches Some(filter) ==> filter::filter_parses(
            parser,
            filter@,
            Ok(prepared.filter),
        ),
        query.sort is None <==> prepared.sort_criteria is None,
        query.sort is Some ==> prepared.sort_criteria->0@.len() == query.sort->0@.len(),
        query.sort is Some && 0 <= i < query.sort->0@.len() ==> exists|read: &str|
            read@ == query.sort->0@[i]@ && #[trigger] call_ensures(
                T::parse_sort,
                (&parser, read),
                Ok(prepared.sort_criteria->0@[i]),
            ),
{
    if query.sort is Some && 0 <= i < query.sort->0@.len() {
        let sort = query.sort->0@;
        assert(text::texts(sort)[i] == sort[i]@);
        assert(sort_read(parser, text::texts(sort)[i], Ok(prepared.sort_criteria->0@[i])));
    }
}

/// Where the parser can make only one thing of the filter of a query, that is the filter of the
/// prepared search.
pub proof fn law_sole_filter_is_kept<T: FilterParser + SortParser>(
    parser: T,
    query: SearchQuery,
    features: RoFeatures,
    distribution: Option<DistributionShift>,
    time_budget: TimeBudget,
    setting: Result<Option<u64>, T::Error>,
    prepared: PreparedSearch<T::Filter, T::Sort>,
    parsed: Option<T::Filter>,
)
    requires
        call_ensures(
            prepare_search::<T>,
            (&parser, &query, features, distribution, time_budget, setting),
            Ok(prepared),
        ),
        query.filter is Some,
        forall|filter: Option<T::Filter>| #[trigger]
            filter::filter_parses(parser, query.filter->0@, Ok(filter)) ==> filter == parsed,
    ensures
        prepared.filter == parsed,
{
}

/// Without the vector store, a query is refused for its vector first and for its ratio next, with
/// a message that names which of the two it is, and for neither with it. A query that is not
/// refused so needs a ratio where it has both words and a vector, and is refused for that alone.
pub proof fn law_refused_before_the_index<T: FilterParser + SortParser>(
    parser: T,
    query: SearchQuery,
    features: RoFeatures,
    distribution: Option<DistributionShift>,
    time_budget: TimeBudget,
    setting: Result<Option<u64>, T::Error>,
    result: Result<PreparedSearch<T::Filter, T::Sort>, SearchError<T::Error>>,
)
    requires
        call_ensures(
            prepare_search::<T>,
            (&parser, &query, features, distribution, time_budget, setting),
            result,
        ),
    ensures
        result matches Err(SearchError::FeatureNotEnabled(_)) <==> !features.vector_store && (
        query.vector is Some || query.hybrid is Some),
        result matches Err(SearchError::FeatureNotEnabled(action)) ==> {
            &&& query.vector is Some ==> action == "Passing `vector` as a query parameter"
            &&& query.vector is None ==> action == "Passing `hybrid` as a query parameter"
        },
        result matches Err(SearchError::MissingSearchHybrid) <==> features.vector_store
            && query.hybrid is None && query.q is Some && query.vector is Some,
        (features.vector_store || query.vector is None && query.hybrid is None) && (query.hybrid
            is Some || query.q is None || query.vector is None) && setting is Err ==> result
            == Err::<PreparedSearch<T::Filter, T::Sort>, SearchError<T::Error>>(
            SearchError::Engine(setting->Err_0),
        ),
{
}

/// A query that is admitted and whose setting can be read is refused only for its filter, where
/// the parser refuses that, or else, where the parser takes that, for the first of its sort
/// criteria that the parser refuses.
pub proof fn law_refused_for_filter_or_sort<T: FilterParser + SortParser>(
    parser: T,
    query: SearchQuery,
    features: RoFeatures,
    distribution: Option<DistributionShift>,
    time_budget: TimeBudget,
    setting: Option<u64>,
    error: SearchError<T::Error>,
)
    requires
        call_ensures(
            prepare_search::<T>,
            (&parser, &query, features, distribution, time_budget, Ok(setting)),
            Err(error),
        ),
        features.vector_store || query.vector is None && query.hybrid is None,
        query.hybrid is Some || query.q is None || query.vector is None,
    ensures
        error is InvalidExpression || error is Engine,
        error is InvalidExpression ==> query.filter is Some && filter::filter_parses(
            parser,
            query.filter->0@,
            Err(error),
        ),
        error is Engine ==> query.filter is Some && filter::filter_parses(
            parser,
            query.filter->0@,
            Err(error),
        ) || (query.filter is None || exists|parsed: Option<T::Filter>| #[trigger]
            filter::filter_parses(parser, query.filter->0@, Ok(parsed))) && query.sort is Some
            && exists|at: int, read: &str, before: Seq<T::Sort>|
            {
                &&& 0 <= at < query.sort->0@.len()
                &&& read@ == query.sort->0@[at]@
                &&& #[trigger] call_ensures(
                    T::parse_sort,
                    (&parser, read),
                    Err(error->Engine_0),
                )
                &&& #[trigger] sorts_parse(
                    parser,
                    text::texts(query.sort->0@).take(at),
                    before,
                )
            },
{
    if error is Engine && !(query.filter is Some && filter::filter_parses(
        parser,
        query.filter->0@,
        Err(error),
    )) {
        if query.filter is Some {
            let parsed = choose|filter: Option<T::Filter>| #[trigger]
                query_filter_parses(parser, query, Ok(filter));
            assert(filter::filter_parses(parser, query.filter->0@, Ok(parsed)));
        }
        let sort = query.sort->0@;
        let sorts = text::texts(sort);
        let (at, before) = choose|at: int, parsed: Seq<T::Sort>|
            #![trigger sorts_parse(parser, sorts.take(at), parsed)]
            0 <= at < sorts.len() && sorts_parse(parser, sorts.take(at), parsed) && sort_read(
                parser,
                sorts[at],
                Err(error->Engine_0),
            );
        let read = choose|read: &str| #[trigger]
            call_ensures(T::parse_sort, (&parser, read), Err(error->Engine_0)) && read@
                == sorts[at];
        assert(sorts[at] == sort[at]@);
        assert(read@ == sort[at]@);
    }
}

/// A query is admitted just where the vector store is enabled or it needs none, and where it says
/// how to put its words and its vector together or does not have both.
pub proof fn law_admitted(query: SearchQuery, features: RoFeatures, answer: bool)
    requires
        call_ensures(is_admitted, (&query, features), answer),
    ensures
        answer <==> (features.vector_store || query.vector is None && query.hybrid is None) && (
        query.hybrid is Some || query.q is None || query.vector is None),
{
}

/// An action that needs the vector store is refused just where that is not enabled, by its own
/// name.
pub proof fn law_checked_vector<E>(
    features: RoFeatures,
    action: &'static str,
    result: Result<(), SearchError<E>>,
)
    requires
        call_ensures(RoFeatures::check_vector::<E>, (&features, action), result),
    ensures
        result is Ok <==> features.vector_store,
        result is Err ==> result->Err_0 == SearchError::<E>::FeatureNotEnabled(action),
{
}

/// Sort criteria are parsed each by itself, all of them and in their order.
pub proof fn law_parsed_sorts<T: SortParser>(
    sorts: Vec<String>,
    parser: T,
    parsed: Vec<T::Sort>,
    i: int,
)
    requires
        call_ensures(parse_sorts::<T>, (&sorts, &parser), Ok(parsed)),
    ensures
        parsed@.len() == sorts@.len(),
        0 <= i < sorts@.len() ==> exists|read: &str|
            read@ == sorts@[i]@ && #[trigger] call_ensures(
                T::parse_sort,
                (&parser, read),
                Ok(parsed@[i]),
            ),
{
    assert(text::texts(sorts@).len() == sorts@.len());
    if 0 <= i < sorts@.len() {
        assert(text::texts(sorts@)[i] == sorts@[i]@);
        assert(sort_read(parser, text::texts(sorts@)[i], Ok(parsed@[i])));
    }
}

} // verus!
