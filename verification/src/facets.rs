//! Facets: the values that fields take, and how often.
use vstd::prelude::*;

use crate::error;
use crate::error::SearchError;
use crate::filter;
use crate::index::Index;
use crate::pagination;
use crate::prepare;
use crate::prepare::{
    prepare_search, DistributionShift, PreparedSearch, RoFeatures, TimeBudget,
};
use crate::query::{OrderBy, SearchQuery};
use crate::result::{FacetSearchResult, FacetValueHit};
use crate::text;
use crate::text::same_text;

verus! {

/// The number of values of a facet that are listed in an index without a setting of its own.
pub const DEFAULT_VALUES_PER_FACET: usize = 100;

/// Which facets are listed, and how.
#[derive(Debug, Clone, PartialEq, Eq)]
pub struct FacetPlan {
    pub max_values_per_facet: usize,
    /// The order of the values of a facet that none is given for.
    pub default_order_by: OrderBy,
    /// The facets, each with the order of its values; all facets of the index where it is `None`.
    pub facets: Option<Vec<(String, OrderBy)>>,
}

/// A search for the values of a facet.
#[derive(Debug, Clone, PartialEq)]
pub struct FacetSearch<F, S> {
    pub facet: String,
    /// The search that the documents have to be found by.
    pub search: PreparedSearch<F, S>,
    pub is_hybrid: bool,
    /// The text that is looked for in the values; any value will do without one.
    pub query: Option<String>,
    /// The number of values to return, unless it is the default one.
    pub max_values: Option<usize>,
}

/// The order that the setting of an index gives to a name; of two entries the later one counts.
pub open spec fn set_order(orders: Seq<(String, OrderBy)>, name: Seq<char>) -> Option<OrderBy>
    decreases orders.len(),
{
    if orders.len() == 0 {
        None
    } else if orders.last().0@ == name {
        Some(orders.last().1)
    } else {
        set_order(orders.drop_last(), name)
    }
}

/// The order of the values of a facet that the setting does not name.
pub open spec fn default_order(orders: Seq<(String, OrderBy)>) -> OrderBy {
    match set_order(orders, "*"@) {
        Some(order) => order,
        None => OrderBy::Lexicographic,
    }
}

/// The order of the values of a facet.
pub open spec fn order_of(orders: Seq<(String, OrderBy)>, name: Seq<char>) -> OrderBy {
    match set_order(orders, name) {
        Some(order) => order,
        None => default_order(orders),
    }
}

/// The number of values of a facet that are listed, by the setting of the index.
pub open spec fn values_limit(setting: Option<u64>) -> usize {
    match setting {
        Some(number) => number as usize,
        None => DEFAULT_VALUES_PER_FACET,
    }
}

/// Whether this is how the facets that a query names are listed: all of them where one of the
/// names is a star.
pub open spec fn planned(
    plan: FacetPlan,
    fields: Seq<String>,
    max_values_per_facet: Option<u64>,
    orders: Seq<(String, OrderBy)>,
) -> bool {
    &&& plan.max_values_per_facet == values_limit(max_values_per_facet)
    &&& plan.default_order_by == default_order(orders)
    &&& if text::mentions(fields, "*"@) {
        plan.facets is None
    } else {
        plan.facets matches Some(facets) && facets@.map_values(
            |facet: (String, OrderBy)| (facet.0@, facet.1),
        ) == fields.map_values(|field: String| (field@, order_of(orders, field@)))
    }
}

/// The order that the setting of an index gives to a name.
fn find_order(orders: &Vec<(String, OrderBy)>, name: &str) -> (order: Option<OrderBy>)
    ensures
        order == set_order(orders@, name@),
{
    let mut order: Option<OrderBy> = None;
    let mut i: usize = 0;
    while i < orders.len()
        invariant
            i <= orders.len(),
            order == set_order(orders@.take(i as int), name@),
        decreases orders.len() - i,
    {
        assert(orders@.take(i + 1).drop_last() == orders@.take(i as int));
        if same_text(orders[i].0.as_str(), name) {
            order = Some(orders[i].1);
        }
        i += 1;
    }
    assert(orders@.take(i as int) == orders@);
    order
}

/// How the facets that a query names are listed, by the settings of the index.
pub fn plan_facets(
    fields: &Vec<String>,
    max_values_per_facet: Option<u64>,
    sort_facet_values_by: &Vec<(String, OrderBy)>,
) -> (plan: FacetPlan)
    ensures
        planned(plan, fields@, max_values_per_facet, sort_facet_values_by@),
{
    let limit = match max_values_per_facet {
        Some(number) => number as usize,
        None => DEFAULT_VALUES_PER_FACET,
    };
    let default_order_by = match find_order(sort_facet_values_by, "*") {
        Some(order) => order,
        None => OrderBy::default(),
    };
    let mut facets: Vec<(String, OrderBy)> = Vec::new();
    let mut i: usize = 0;
    while i < fields.len()
        invariant
            i <= fields.len(),
            limit == values_limit(max_values_per_facet),
            default_order_by == default_order(sort_facet_values_by@),
            forall|k: int| 0 <= k < i ==> #[trigger] fields@[k]@ != "*"@,
            facets@.len() == i,
            forall|k: int|
                0 <= k < i ==> (#[trigger] facets@[k]).0@ == fields@[k]@ && facets@[k].1
                    == order_of(sort_facet_values_by@, fields@[k]@),
        decreases fields.len() - i,
    {
        let name = &fields[i];
        if same_text(name.as_str(), "*") {
            assert(text::mentions(fields@, "*"@));
            return FacetPlan { max_values_per_facet: limit, default_order_by, facets: None };
        }
        let order = match find_order(sort_facet_values_by, name.as_str()) {
            Some(order) => order,
            None => default_order_by,
        };
        facets.push((name.clone(), order));
        i += 1;
    }
    assert(facets@.map_values(|facet: (String, OrderBy)| (facet.0@, facet.1))
        =~= fields@.map_values(
        |field: String| (field@, order_of(sort_facet_values_by@, field@)),
    ));
    FacetPlan { max_values_per_facet: limit, default_order_by, facets: Some(facets) }
}

/// The number of milliseconds that a search for the values of a facet may take.
pub const FACET_SEARCH_BUDGET: u64 = 150;

/// Whether this is the search for the values of a facet that a query asks for.
pub open spec fn facet_search_for<F, S>(
    search: FacetSearch<F, S>,
    prepared: PreparedSearch<F, S>,
    query: SearchQuery,
    facet_query: Option<String>,
    facet_name: String,
    max_values_per_facet: Option<u64>,
) -> bool {
    &&& search.facet == facet_name
    &&& search.search == prepared
    &&& search.is_hybrid == query.hybrid is Some
    &&& search.query == facet_query
    &&& search.max_values == match max_values_per_facet {
        Some(number) => Some(number as usize),
        None => None,
    }
}

/// Whether the preparation of the search behind a facet search can end so.
pub open spec fn facet_search_prepares<T: Index>(
    index: T,
    query: SearchQuery,
    features: RoFeatures,
    result: Result<PreparedSearch<T::Filter, T::Sort>, SearchError<T::Error>>,
) -> bool {
    exists|setting: Result<Option<u64>, T::Error>| #[trigger]
        call_ensures(T::pagination_max_total_hits, (&index,), setting) && prepare::prepares(
            index,
            query,
            features,
            None,
            TimeBudget::Milliseconds(FACET_SEARCH_BUDGET),
            setting,
            result,
        )
}

/// Whether the values of a facet can be found so.
pub open spec fn facet_values_found<T: Index>(
    index: T,
    query: SearchQuery,
    facet_query: Option<String>,
    facet_name: String,
    features: RoFeatures,
    hits: Result<Vec<FacetValueHit>, T::Error>,
) -> bool {
    exists|
        prepared: PreparedSearch<T::Filter, T::Sort>,
        setting: Option<u64>,
        search: FacetSearch<T::Filter, T::Sort>,
    |
        #![trigger facet_search_for(search, prepared, query, facet_query, facet_name, setting)]
        {
            &&& facet_search_prepares(index, query, features, Ok(prepared))
            &&& call_ensures(T::max_values_per_facet, (&index,), Ok(setting))
            &&& facet_search_for(search, prepared, query, facet_query, facet_name, setting)
            &&& call_ensures(T::search_for_facet_values, (&index, &search), hits)
        }
}

/// Whether the reading of how many values of a facet are listed can fail so, once the search
/// behind a facet search has been prepared.
pub open spec fn facet_limit_unread<T: Index>(
    index: T,
    query: SearchQuery,
    features: RoFeatures,
    error: T::Error,
) -> bool {
    exists|prepared: PreparedSearch<T::Filter, T::Sort>|
        #![trigger facet_search_prepares(index, query, features, Ok(prepared))]
        facet_search_prepares(index, query, features, Ok(prepared)) && call_ensures(
            T::max_values_per_facet,
            (&index,),
            Err(error),
        )
}

/// Whether a search for the values of a facet can end so.
pub open spec fn facet_search_outcome<T: Index>(
    index: T,
    query: SearchQuery,
    facet_query: Option<String>,
    facet_name: String,
    features: RoFeatures,
    result: Result<FacetSearchResult, SearchError<T::Error>>,
) -> bool {
    match result {
        Ok(found) => {
            &&& facet_values_found(
                index,
                query,
                facet_query,
                facet_name,
                features,
                Ok(found.facet_hits),
            )
            &&& found.facet_query == facet_query
            &&& call_ensures(T::elapsed_ms, (&index,), found.processing_time_ms)
        },
        Err(error) => {
            ||| facet_search_prepares(index, query, features, Err(error))
            ||| error is Engine && facet_limit_unread(index, query, features, error->Engine_0)
            ||| error is Engine && facet_values_found(
                index,
                query,
                facet_query,
                facet_name,
                features,
                Err(error->Engine_0),
            )
        },
    }
}

/// Searches for the values of a facet, among the documents that a query finds.
pub fn perform_facet_search<T: Index>(
    index: &T,
    search_query: SearchQuery,
    facet_query: Option<String>,
    facet_name: String,
    features: RoFeatures,
) -> (result: Result<FacetSearchResult, SearchError<T::Error>>)
    requires
        prepare::admitted(search_query, features) ==> pagination::page_in_range(search_query),
    ensures
        facet_search_outcome(
            *index,
            search_query,
            facet_query,
            facet_name,
            features,
            result,
        ),
{
    let setting = index.pagination_max_total_hits();
    let prepared = match prepare_search(
        index,
        &search_query,
        features,
        None,
        TimeBudget::Milliseconds(FACET_SEARCH_BUDGET),
        setting,
    ) {
        Ok(prepared) => {
            assert(facet_search_prepares(*index, search_query, features, Ok(prepared)));
            prepared
        },
        Err(error) => {
            assert(facet_search_prepares(*index, search_query, features, Err(error)));
            return Err(error);
        },
    };
    let max_values_per_facet = match index.max_values_per_facet() {
        Ok(setting) => setting,
        Err(error) => {
            assert(facet_limit_unread(*index, search_query, features, error));
            return Err(SearchError::Engine(error));
        },
    };
    let max_values = match max_values_per_facet {
        Some(number) => Some(number as usize),
        None => None,
    };
    let search = FacetSearch {
        facet: facet_name,
        search: prepared,
        is_hybrid: search_query.hybrid.is_some(),
        query: facet_query.clone(),
        max_values,
    };
    assert(facet_search_for(
        search,
        prepared,
        search_query,
        facet_query,
        facet_name,
        max_values_per_facet,
    ));
    match index.search_for_facet_values(&search) {
        Ok(facet_hits) => {
            assert(facet_values_found(
                *index,
                search_query,
                facet_query,
                facet_name,
                features,
                Ok(facet_hits),
            ));
            let processing_time_ms = index.elapsed_ms();
            Ok(FacetSearchResult { facet_hits, facet_query, processing_time_ms })
        },
        Err(error) => {
            assert(facet_values_found(
                *index,
                search_query,
                facet_query,
                facet_name,
                features,
                Err(error),
            ));
            Err(SearchError::Engine(error))
        },
    }
}

/// A search for the values of a facet that asks for something that is not enabled, or does not say
/// how to put its text and its vector together, gets the error for that, whatever is in the index.
pub proof fn law_refused_facet_search<T: Index>(
    index: T,
    query: SearchQuery,
    facet_query: Option<String>,
    facet_name: String,
    features: RoFeatures,
    result: Result<FacetSearchResult, SearchError<T::Error>>,
)
    requires
        facet_search_outcome(index, query, facet_query, facet_name, features, result),
        !prepare::admitted(query, features),
    ensures
        result is Err,
        match prepare::disabled_action(query, features) {
            Some(action) => result->Err_0 == SearchError::<T::Error>::FeatureNotEnabled(action),
            None => result->Err_0 == SearchError::<T::Error>::MissingSearchHybrid,
        },
{
    assert forall|prepared: PreparedSearch<T::Filter, T::Sort>| !#[trigger]
        facet_search_prepares(index, query, features, Ok(prepared)) by {}
    if result is Err {
        assert(facet_search_prepares(index, query, features, Err(result->Err_0)));
    }
}

/// On an index that answers alike, a search for the values of a facet fails where the preparation
/// of its query fails, and with the same error, be it in a search for documents or here. Where the
/// preparation succeeds, only the setting of how many values are listed, and the search for them,
/// can still fail. What was looked for is given back as it was.
pub proof fn law_facet_search_fails_as_prepared<T: Index>(
    index: T,
    query: SearchQuery,
    facet_query: Option<String>,
    facet_name: String,
    features: RoFeatures,
    setting: Result<Option<u64>, T::Error>,
    distribution: Option<DistributionShift>,
    time_budget: TimeBudget,
    prepared: Result<PreparedSearch<T::Filter, T::Sort>, SearchError<T::Error>>,
    result: Result<FacetSearchResult, SearchError<T::Error>>,
)
    requires
        prepare::prepares_alike(index, setting),
        prepare::prepares(
            index,
            query,
            features,
            distribution,
            time_budget,
            setting,
            prepared,
        ),
        facet_search_outcome(index, query, facet_query, facet_name, features, result),
    ensures
        prepared is Err ==> result is Err && error::same_error(result->Err_0, prepared->Err_0),
        prepared is Ok && result is Err ==> result->Err_0 is Engine && (facet_limit_unread(
            index,
            query,
            features,
            result->Err_0->Engine_0,
        ) || facet_values_found(
            index,
            query,
            facet_query,
            facet_name,
            features,
            Err(result->Err_0->Engine_0),
        )),
        result matches Ok(found) ==> found.facet_query == facet_query,
{
    assert forall|other: Result<PreparedSearch<T::Filter, T::Sort>, SearchError<T::Error>>|
        #[trigger] facet_search_prepares(index, query, features, other) implies (other is Ok
        <==> prepared is Ok) && (other is Err ==> error::same_error(
        other->Err_0,
        prepared->Err_0,
    )) by {
        let read = choose|read: Result<Option<u64>, T::Error>| #[trigger]
            call_ensures(T::pagination_max_total_hits, (&index,), read) && prepare::prepares(
                index,
                query,
                features,
                None,
                TimeBudget::Milliseconds(FACET_SEARCH_BUDGET),
                read,
                other,
            );
        prepare::law_preparation_fails_alike(
            index,
            query,
            features,
            setting,
            None,
            TimeBudget::Milliseconds(FACET_SEARCH_BUDGET),
            other,
            distribution,
            time_budget,
            prepared,
        );
    }
    if result is Err {
        let failed: Result<PreparedSearch<T::Filter, T::Sort>, SearchError<T::Error>> = Err(
            result->Err_0,
        );
        if facet_search_prepares(index, query, features, failed) {
            assert(prepared is Err);
        }
    }
}

/// The last entry of a name is the one that counts, and without an entry of that name there is
/// none.
proof fn lemma_last_entry_counts(orders: Seq<(String, OrderBy)>, name: Seq<char>, at: int)
    requires
        -1 <= at < orders.len(),
        forall|j: int| at < j < orders.len() ==> (#[trigger] orders[j]).0@ != name,
    ensures
        at >= 0 && orders[at].0@ == name ==> set_order(orders, name) == Some(orders[at].1),
        at == -1 ==> set_order(orders, name) is None,
    decreases orders.len(),
{
    if at + 1 < orders.len() {
        let fewer = orders.drop_last();
        assert forall|j: int| at < j < fewer.len() implies (#[trigger] fewer[j]).0@ != name by {
            assert(fewer[j] == orders[j]);
        }
        assert(orders.last().0@ != name);
        lemma_last_entry_counts(fewer, name, at);
    }
}

/// The facets of a plan are the fields that the query names, in their order. The values of a facet
/// come in the order that the last entry of its name sets, whichever order that is; and in the
/// order of the other facets only where no entry has its name.
pub proof fn law_set_order_is_kept(
    fields: Vec<String>,
    max_values_per_facet: Option<u64>,
    orders: Vec<(String, OrderBy)>,
    plan: FacetPlan,
    i: int,
    at: int,
)
    requires
        call_ensures(plan_facets, (&fields, max_values_per_facet, &orders), plan),
        plan.facets is Some,
        0 <= i < fields@.len(),
        -1 <= at < orders@.len(),
        forall|j: int| at < j < orders@.len() ==> (#[trigger] orders@[j]).0@ != fields@[i]@,
    ensures
        plan.facets->0@.len() == fields@.len(),
        plan.facets->0@[i].0@ == fields@[i]@,
        at >= 0 && orders@[at].0@ == fields@[i]@ ==> plan.facets->0@[i].1 == orders@[at].1,
        at == -1 ==> plan.facets->0@[i].1 == plan.default_order_by,
{
    let facets = plan.facets->0@;
    let named = facets.map_values(|facet: (String, OrderBy)| (facet.0@, facet.1));
    let expected = fields@.map_values(|field: String| (field@, order_of(orders@, field@)));
    assert(named == expected);
    assert(named.len() == facets.len() && expected.len() == fields@.len());
    assert(named[i] == (facets[i].0@, facets[i].1));
    assert(expected[i] == (fields@[i]@, order_of(orders@, fields@[i]@)));
    lemma_last_entry_counts(orders@, fields@[i]@, at);
}

/// The values of a facet that no entry names come in the order of the last star entry, and in
/// lexicographic order without one. All facets are listed just where one of the names is a star.
/// Of each facet as many values are listed as the setting says, and one hundred without one.
pub proof fn law_defaults_of_a_facet_plan(
    fields: Vec<String>,
    max_values_per_facet: Option<u64>,
    orders: Vec<(String, OrderBy)>,
    plan: FacetPlan,
    at: int,
)
    requires
        call_ensures(plan_facets, (&fields, max_values_per_facet, &orders), plan),
        -1 <= at < orders@.len(),
        forall|j: int| at < j < orders@.len() ==> (#[trigger] orders@[j]).0@ != "*"@,
    ensures
        at >= 0 && orders@[at].0@ == "*"@ ==> plan.default_order_by == orders@[at].1,
        at == -1 ==> plan.default_order_by is Lexicographic,
        plan.facets is None <==> exists|i: int|
            0 <= i < fields@.len() && #[trigger] fields@[i]@ == "*"@,
        max_values_per_facet matches Some(number) ==> plan.max_values_per_facet == number as usize,
        max_values_per_facet is None ==> plan.max_values_per_facet == 100,
{
    lemma_last_entry_counts(orders@, "*"@, at);
}

/// The values of a facet are looked for in the search that the query itself is prepared for, with
/// nothing left out of it, without a distribution and within one hundred and fifty milliseconds;
/// under the name and by the text that are asked for, and as many as the setting says. What is
/// found is given back, with the text that was looked for.
pub proof fn law_facet_search_is_of_the_query<T: Index>(
    index: T,
    query: SearchQuery,
    facet_query: Option<String>,
    facet_name: String,
    features: RoFeatures,
    found: FacetSearchResult,
)
    requires
        call_ensures(
            perform_facet_search::<T>,
            (&index, query, facet_query, facet_name, features),
            Ok(found),
        ),
    ensures
        found.facet_query == facet_query,
        call_ensures(T::elapsed_ms, (&index,), found.processing_time_ms),
        exists|
            search: FacetSearch<T::Filter, T::Sort>,
            total: Result<Option<u64>, T::Error>,
            setting: Option<u64>,
        |
            {
                &&& #[trigger] call_ensures(
                    T::search_for_facet_values,
                    (&index, &search),
                    Ok(found.facet_hits),
                )
                &&& #[trigger] call_ensures(T::pagination_max_total_hits, (&index,), total)
                &&& #[trigger] call_ensures(T::max_values_per_facet, (&index,), Ok(setting))
                &&& prepare::prepares(
                    index,
                    query,
                    features,
                    None,
                    TimeBudget::Milliseconds(150),
                    total,
                    Ok(search.search),
                )
                &&& search.facet == facet_name
                &&& search.query == facet_query
                &&& search.is_hybrid <==> query.hybrid is Some
                &&& search.max_values is Some <==> setting is Some
                &&& setting is Some ==> search.max_values->0 == setting->0 as usize
            },
{
    let (prepared, setting, search) = choose|
        prepared: PreparedSearch<T::Filter, T::Sort>,
        setting: Option<u64>,
        search: FacetSearch<T::Filter, T::Sort>,
    |
        #![trigger facet_search_for(search, prepared, query, facet_query, facet_name, setting)]
        {
            &&& facet_search_prepares(index, query, features, Ok(prepared))
            &&& call_ensures(T::max_values_per_facet, (&index,), Ok(setting))
            &&& facet_search_for(search, prepared, query, facet_query, facet_name, setting)
            &&& call_ensures(
                T::search_for_facet_values,
                (&index, &search),
                Ok(found.facet_hits),
            )
        };
    let total = choose|total: Result<Option<u64>, T::Error>| #[trigger]
        call_ensures(T::pagination_max_total_hits, (&index,), total) && prepare::prepares(
            index,
            query,
            features,
            None,
            TimeBudget::Milliseconds(FACET_SEARCH_BUDGET),
            total,
            Ok(prepared),
        );
    assert(call_ensures(T::pagination_max_total_hits, (&index,), total));
}

/// Where the filter of a query can be parsed in one way only, the values of a facet are looked for
/// among the documents that pass that filter; where it has none, among all that it finds. The
/// words are matched in the way that the query asks for.
pub proof fn law_facet_search_keeps_the_filter<T: Index>(
    index: T,
    query: SearchQuery,
    facet_query: Option<String>,
    facet_name: String,
    features: RoFeatures,
    found: FacetSearchResult,
    parsed: Option<T::Filter>,
)
    requires
        call_ensures(
            perform_facet_search::<T>,
            (&index, query, facet_query, facet_name, features),
            Ok(found),
        ),
        match query.filter {
            Some(filter) => forall|other: Option<T::Filter>| #[trigger]
                filter::filter_parses(index, filter@, Ok(other)) ==> other == parsed,
            None => parsed is None,
        },
    ensures
        exists|search: FacetSearch<T::Filter, T::Sort>|
            {
                &&& #[trigger] call_ensures(
                    T::search_for_facet_values,
                    (&index, &search),
                    Ok(found.facet_hits),
                )
                &&& search.search.filter == parsed
                &&& search.search.sort_criteria is Some <==> query.sort is Some
                &&& search.search.terms_matching_strategy is All
                    <==> query.matching_strategy is All
                &&& query.hybrid is None ==> search.search.query == query.q
                &&& query.attributes_to_search_on is Some
                    <==> search.search.searchable_attributes is Some
            },
{
    law_facet_search_is_of_the_query(index, query, facet_query, facet_name, features, found);
}

/// A search for the values of a facet that fails has one of these reasons: the preparation of its
/// query failed, with that very error; or it succeeded, and the setting of how many values are
/// listed could not be read, or the search for the values failed. An error of the index is handed
/// on as it is.
pub proof fn law_why_a_facet_search_fails<T: Index>(
    index: T,
    query: SearchQuery,
    facet_query: Option<String>,
    facet_name: String,
    features: RoFeatures,
    error: SearchError<T::Error>,
)
    requires
        call_ensures(
            perform_facet_search::<T>,
            (&index, query, facet_query, facet_name, features),
            Err(error),
        ),
    ensures
        ({
            ||| exists|total: Result<Option<u64>, T::Error>|
                {
                    &&& #[trigger] call_ensures(T::pagination_max_total_hits, (&index,), total)
                    &&& prepare::prepares(
                        index,
                        query,
                        features,
                        None,
                        TimeBudget::Milliseconds(150),
                        total,
                        Err(error),
                    )
                }
            ||| error is Engine && call_ensures(
                T::max_values_per_facet,
                (&index,),
                Err(error->Engine_0),
            ) && exists|prepared: PreparedSearch<T::Filter, T::Sort>|
                #![trigger facet_search_prepares(index, query, features, Ok(prepared))]
                facet_search_prepares(index, query, features, Ok(prepared))
            ||| error is Engine && exists|search: FacetSearch<T::Filter, T::Sort>|
                {
                    &&& #[trigger] call_ensures(
                        T::search_for_facet_values,
                        (&index, &search),
                        Err(error->Engine_0),
                    )
                    &&& search.facet == facet_name
                    &&& search.query == facet_query
                    &&& search.is_hybrid <==> query.hybrid is Some
                    &&& facet_search_prepares(index, query, features, Ok(search.search))
                }
        }),
{
    if facet_search_prepares(index, query, features, Err(error)) {
        let outcome: Result<PreparedSearch<T::Filter, T::Sort>, SearchError<T::Error>> = Err(error);
        assert(facet_search_prepares(index, query, features, outcome));
    }
}

} // verus!
