//! Performing a search, from the query to its result.
use vstd::prelude::*;

use crate::error;
use crate::error::SearchError;
use crate::facets;
use crate::facets::{plan_facets, FacetPlan};
use crate::fields::{FieldId, FieldsIdsMap};
use crate::filter;
use crate::float::{Double, Single};
use crate::hits;
use crate::hits::{make_hits, plan_hits, HitPlan};
use crate::index::{DocumentId, Executed, Index, Markup, TokenizerSettings};
use crate::pagination;
use crate::pagination::{hits_info, page_count_fits};
use crate::prepare;
use crate::prepare::{prepare_search, DistributionShift, PreparedSearch, RoFeatures, TimeBudget};
use crate::query::{OrderBy, SearchQuery};
use crate::result::{FacetDistribution, FacetStats, Named, SearchHit, SearchResult};

verus! {

/// How long a search may take, by the setting of the index.
pub open spec fn budget_of(cutoff: Option<u64>) -> TimeBudget {
    match cutoff {
        Some(cutoff) => TimeBudget::Milliseconds(cutoff),
        None => TimeBudget::Standard,
    }
}

/// Whether the preparation of a search can end so, on an index that sets this cutoff.
pub open spec fn prepares_within<T: Index>(
    index: T,
    query: SearchQuery,
    features: RoFeatures,
    distribution: Option<DistributionShift>,
    cutoff: Option<u64>,
    result: Result<PreparedSearch<T::Filter, T::Sort>, SearchError<T::Error>>,
) -> bool {
    exists|setting: Result<Option<u64>, T::Error>| #[trigger]
        call_ensures(T::pagination_max_total_hits, (&index,), setting) && prepare::prepares(
            index,
            query,
            features,
            distribution,
            budget_of(cutoff),
            setting,
            result,
        )
}

/// Whether the preparation of a search can end so.
pub open spec fn starts<T: Index>(
    index: T,
    query: SearchQuery,
    features: RoFeatures,
    distribution: Option<DistributionShift>,
    result: Result<PreparedSearch<T::Filter, T::Sort>, SearchError<T::Error>>,
) -> bool {
    ||| result is Err && result->Err_0 is Engine && call_ensures(
        T::search_cutoff,
        (&index,),
        Err(result->Err_0->Engine_0),
    )
    ||| exists|cutoff: Option<u64>|
        #![trigger prepares_within(index, query, features, distribution, cutoff, result)]
        call_ensures(T::search_cutoff, (&index,), Ok(cutoff)) && prepares_within(
            index,
            query,
            features,
            distribution,
            cutoff,
            result,
        )
}

/// Prepares a search by the settings of the index.
fn start_search<T: Index>(
    index: &T,
    query: &SearchQuery,
    features: RoFeatures,
    distribution: Option<DistributionShift>,
) -> (result: Result<PreparedSearch<T::Filter, T::Sort>, SearchError<T::Error>>)
    requires
        prepare::admitted(*query, features) ==> pagination::page_in_range(*query),
    ensures
        starts(*index, *query, features, distribution, result),
{
    let cutoff = match index.search_cutoff() {
        Ok(cutoff) => cutoff,
        Err(error) => {
            let result = Err(SearchError::Engine(error));
            assert(starts(*index, *query, features, distribution, result));
            return result;
        },
    };
    let time_budget = match cutoff {
        Some(cutoff) => TimeBudget::Milliseconds(cutoff),
        None => TimeBudget::Standard,
    };
    let setting = index.pagination_max_total_hits();
    let result = prepare_search(index, query, features, distribution, time_budget, setting);
    assert(prepares_within(*index, *query, features, distribution, cutoff, result));
    result
}

/// Whether these are the settings of how texts are split into words.
pub open spec fn tokenizer_of(
    tokenizer: TokenizerSettings,
    scripts: Vec<(String, Vec<String>)>,
    separators: Option<Vec<String>>,
    dictionary: Option<Vec<String>>,
) -> bool {
    &&& tokenizer.create_char_map
    &&& tokenizer.allow_list == if scripts@.len() == 0 {
        None
    } else {
        Some(scripts)
    }
    &&& tokenizer.separators == separators
    &&& tokenizer.words_dict == dictionary
}

/// Whether the languages of the documents can be read.
pub open spec fn scripts_readable<T: Index>(index: T) -> bool {
    exists|scripts: Vec<(String, Vec<String>)>| #[trigger]
        call_ensures(T::script_language, (&index,), Ok(scripts))
}

/// Whether the setting of what parts words can be read.
pub open spec fn separators_readable<T: Index>(index: T) -> bool {
    exists|separators: Option<Vec<String>>| #[trigger]
        call_ensures(T::allowed_separators, (&index,), Ok(separators))
}

/// Whether the settings of how texts are split into words can be read so: the languages first, then
/// what parts words, then which texts are words as a whole.
pub open spec fn tokenizer_read<T: Index>(
    index: T,
    result: Result<TokenizerSettings, T::Error>,
) -> bool {
    match result {
        Ok(tokenizer) => exists|
            scripts: Vec<(String, Vec<String>)>,
            separators: Option<Vec<String>>,
            dictionary: Option<Vec<String>>,
        |
            #![trigger tokenizer_of(tokenizer, scripts, separators, dictionary)]
            {
                &&& call_ensures(T::script_language, (&index,), Ok(scripts))
                &&& call_ensures(T::allowed_separators, (&index,), Ok(separators))
                &&& call_ensures(T::dictionary, (&index,), Ok(dictionary))
                &&& tokenizer_of(tokenizer, scripts, separators, dictionary)
            },
        Err(error) => {
            ||| call_ensures(T::script_language, (&index,), Err(error))
            ||| scripts_readable(index) && call_ensures(
                T::allowed_separators,
                (&index,),
                Err(error),
            )
            ||| scripts_readable(index) && separators_readable(index) && call_ensures(
                T::dictionary,
                (&index,),
                Err(error),
            )
        },
    }
}

/// The settings of how texts are split into words, from what the index knows.
pub fn tokenizer_settings(
    scripts: Vec<(String, Vec<String>)>,
    separators: Option<Vec<String>>,
    dictionary: Option<Vec<String>>,
) -> (tokenizer: TokenizerSettings)
    ensures
        tokenizer_of(tokenizer, scripts, separators, dictionary),
{
    let allow_list = if scripts.is_empty() {
        None
    } else {
        Some(scripts)
    };
    TokenizerSettings { create_char_map: true, allow_list, separators, words_dict: dictionary }
}

/// Reads the settings of how texts are split into words.
fn read_tokenizer<T: Index>(index: &T) -> (result: Result<TokenizerSettings, T::Error>)
    ensures
        tokenizer_read(*index, result),
{
    let scripts = match index.script_language() {
        Ok(scripts) => {
            assert(scripts_readable(*index));
            scripts
        },
        Err(error) => {
            let result = Err(error);
            assert(tokenizer_read(*index, result));
            return result;
        },
    };
    let separators = match index.allowed_separators() {
        Ok(separators) => {
            assert(separators_readable(*index));
            separators
        },
        Err(error) => {
            let result = Err(error);
            assert(tokenizer_read(*index, result));
            return result;
        },
    };
    let dictionary = match index.dictionary() {
        Ok(dictionary) => dictionary,
        Err(error) => {
            let result = Err(error);
            assert(tokenizer_read(*index, result));
            return result;
        },
    };
    let result = Ok(tokenizer_settings(scripts, separators, dictionary));
    assert(tokenizer_read(*index, result));
    result
}

/// Whether this is how a query wants its words marked.
pub open spec fn markup_of(markup: Markup, query: SearchQuery) -> bool {
    &&& markup.crop_marker == query.crop_marker
    &&& markup.highlight_prefix == query.highlight_pre_tag
    &&& markup.highlight_suffix == query.highlight_post_tag
}

/// Whether this can be the plan for the hits of a query.
pub open spec fn hits_planned<T: Index>(index: T, query: SearchQuery, plan: HitPlan) -> bool {
    exists|map: FieldsIdsMap, listed: Option<Vec<FieldId>>|
        #![trigger hits::planned(plan, query, map@, listed)]
        {
            &&& call_ensures(T::fields_ids_map, (&index,), map)
            &&& call_ensures(T::displayed_fields_ids, (&index,), Ok(listed))
            &&& hits::planned(plan, query, map@, listed)
        }
}

/// Whether this can be what finds the words of a query.
pub open spec fn matcher_built<T: Index>(
    index: T,
    query: SearchQuery,
    words: T::Words,
    builder: T::Builder,
) -> bool {
    exists|tokenizer: TokenizerSettings, markup: Markup|
        #![trigger call_ensures(T::matcher, (&index, words, tokenizer, markup), builder)]
        {
            &&& tokenizer_read(index, Ok(tokenizer))
            &&& markup_of(markup, query)
            &&& call_ensures(T::matcher, (&index, words, tokenizer, markup), builder)
        }
}

/// Whether the plan for the hits of a query can be had.
pub open spec fn hits_plannable<T: Index>(index: T, query: SearchQuery) -> bool {
    exists|plan: HitPlan| #[trigger] hits_planned(index, query, plan)
}

/// Whether what the hits of a query are made with can be had so: the plan first, then what finds
/// the words.
pub open spec fn sets_up<T: Index>(
    index: T,
    query: SearchQuery,
    words: T::Words,
    result: Result<(HitPlan, T::Builder), T::Error>,
) -> bool {
    match result {
        Ok((plan, builder)) => hits_planned(index, query, plan) && matcher_built(
            index,
            query,
            words,
            builder,
        ),
        Err(error) => {
            ||| call_ensures(T::displayed_fields_ids, (&index,), Err(error))
            ||| hits_plannable(index, query) && tokenizer_read(index, Err(error))
        },
    }
}

/// Gets what the hits of a query are made with.
fn set_up_hits<T: Index>(index: &T, query: &SearchQuery, matching_words: T::Words) -> (result:
    Result<(HitPlan, T::Builder), T::Error>)
    ensures
        sets_up(*index, *query, matching_words, result),
        result matches Ok((plan, _)) ==> plan.to_retrieve_ids@.subset_of(plan.displayed_ids@)
            && plan.formatted_options@.dom().subset_of(plan.displayed_ids@),
{
    let map = index.fields_ids_map();
    let listed = match index.displayed_fields_ids() {
        Ok(listed) => listed,
        Err(error) => {
            let result = Err(error);
            assert(sets_up(*index, *query, matching_words, result));
            return result;
        },
    };
    let plan = plan_hits(query, map, listed);
    proof {
        hits::law_nothing_hidden_is_planned(plan, *query, map@, listed);
        assert(hits_planned(*index, *query, plan));
        assert(hits_plannable(*index, *query));
    }
    let tokenizer = match read_tokenizer(index) {
        Ok(tokenizer) => tokenizer,
        Err(error) => {
            let result = Err(error);
            assert(sets_up(*index, *query, matching_words, result));
            return result;
        },
    };
    let markup = Markup {
        crop_marker: query.crop_marker.clone(),
        highlight_prefix: query.highlight_pre_tag.clone(),
        highlight_suffix: query.highlight_post_tag.clone(),
    };
    let builder = index.matcher(matching_words, tokenizer, markup);
    assert(matcher_built(*index, *query, matching_words, builder));
    let result = Ok((plan, builder));
    assert(sets_up(*index, *query, matching_words, result));
    result
}

/// The statistics of facets, each with its name.
pub open spec fn named_stats(stats: Seq<(String, (Double, Double))>) -> Seq<(String, FacetStats)> {
    stats.map_values(
        |stat: (String, (Double, Double))|
            (stat.0, FacetStats { min: stat.1.0, max: stat.1.1 }),
    )
}

/// Names the two numbers of each facet.
pub fn name_stats(stats: Vec<(String, (Double, Double))>) -> (named: Named<FacetStats>)
    ensures
        named.entries@ == named_stats(stats@),
{
    let mut named: Vec<(String, FacetStats)> = Vec::new();
    for stat in it: stats
        invariant
            it.seq() == stats@,
            named@ == named_stats(stats@.take(it.index())),
    {
        assert(stats@.take(it.index() + 1) == stats@.take(it.index()).push(stat));
        let (name, (min, max)) = stat;
        named.push((name, FacetStats { min, max }));
        assert(named@ =~= named_stats(stats@.take(it.index() + 1)));
    }
    assert(stats@.take(stats@.len() as int) == stats@);
    Named { entries: named }
}

/// Whether the setting of how many values of a facet are listed can be read.
pub open spec fn values_limit_readable<T: Index>(index: T) -> bool {
    exists|max_values: Option<u64>| #[trigger]
        call_ensures(T::max_values_per_facet, (&index,), Ok(max_values))
}

/// Whether the plan for the facets that a query names can be had so.
pub open spec fn facets_planned<T: Index>(
    index: T,
    fields: Vec<String>,
    result: Result<FacetPlan, T::Error>,
) -> bool {
    match result {
        Ok(plan) => exists|max_values: Option<u64>, orders: Vec<(String, OrderBy)>|
            #![trigger facets::planned(plan, fields@, max_values, orders@)]
            {
                &&& call_ensures(T::max_values_per_facet, (&index,), Ok(max_values))
                &&& call_ensures(T::sort_facet_values_by, (&index,), Ok(orders))
                &&& facets::planned(plan, fields@, max_values, orders@)
            },
        Err(error) => {
            ||| call_ensures(T::max_values_per_facet, (&index,), Err(error))
            ||| values_limit_readable(index) && call_ensures(
                T::sort_facet_values_by,
                (&index,),
                Err(error),
            )
        },
    }
}

/// Plans the facets that a query names, by the settings of the index.
fn read_facet_plan<T: Index>(index: &T, fields: &Vec<String>) -> (result: Result<
    FacetPlan,
    T::Error,
>)
    ensures
        facets_planned(*index, *fields, result),
{
    let max_values = match index.max_values_per_facet() {
        Ok(max_values) => {
            assert(values_limit_readable(*index));
            max_values
        },
        Err(error) => {
            let result = Err(error);
            assert(facets_planned(*index, *fields, result));
            return result;
        },
    };
    let orders = match index.sort_facet_values_by() {
        Ok(orders) => orders,
        Err(error) => {
            let result = Err(error);
            assert(facets_planned(*index, *fields, result));
            return result;
        },
    };
    let plan = plan_facets(fields, max_values, &orders);
    let result = Ok(plan);
    assert(facets_planned(*index, *fields, result));
    result
}

/// What a search tells of facets.
pub struct FacetLists {
    pub distribution: Option<FacetDistribution>,
    pub stats: Option<Named<FacetStats>>,
}

/// Whether the facets of documents can be listed by a plan.
pub open spec fn facets_distributed<T: Index>(
    index: T,
    candidates: T::Candidates,
    plan: FacetPlan,
) -> bool {
    exists|distribution: FacetDistribution| #[trigger]
        call_ensures(T::facet_distribution, (&index, &candidates, &plan), Ok(distribution))
}

/// Whether these can be the facets of documents, listed by a plan.
pub open spec fn facets_found<T: Index>(
    index: T,
    candidates: T::Candidates,
    plan: FacetPlan,
    result: Result<FacetLists, T::Error>,
) -> bool {
    match result {
        Ok(lists) => {
            &&& lists.distribution is Some && call_ensures(
                T::facet_distribution,
                (&index, &candidates, &plan),
                Ok(lists.distribution->0),
            )
            &&& lists.stats is Some && exists|stats: Vec<(String, (Double, Double))>| #[trigger]
                call_ensures(T::facet_stats, (&index, &candidates, &plan), Ok(stats))
                    && lists.stats->0.entries@ == named_stats(stats@)
        },
        Err(error) => {
            ||| call_ensures(T::facet_distribution, (&index, &candidates, &plan), Err(error))
            ||| facets_distributed(index, candidates, plan) && call_ensures(
                T::facet_stats,
                (&index, &candidates, &plan),
                Err(error),
            )
        },
    }
}

/// Whether the facets that a query asks for can be listed so; there are none where it asks for
/// none.
pub open spec fn facets_listed<T: Index>(
    index: T,
    facets: Option<Vec<String>>,
    candidates: T::Candidates,
    result: Result<FacetLists, T::Error>,
) -> bool {
    match facets {
        Some(fields) => {
            ||| result is Err && facets_planned(index, fields, Err(result->Err_0))
            ||| exists|plan: FacetPlan|
                #![trigger facets_planned(index, fields, Ok(plan))]
                facets_planned(index, fields, Ok(plan)) && facets_found(
                    index,
                    candidates,
                    plan,
                    result,
                )
        },
        None => result matches Ok(lists) && lists.distribution is None && lists.stats is None,
    }
}

/// Lists the facets that a query asks for.
fn list_facets<T: Index>(
    index: &T,
    facets: &Option<Vec<String>>,
    candidates: &T::Candidates,
) -> (result: Result<FacetLists, T::Error>)
    ensures
        facets_listed(*index, *facets, *candidates, result),
{
    let fields = match facets {
        Some(fields) => fields,
        None => {
            return Ok(FacetLists { distribution: None, stats: None });
        },
    };
    let plan = match read_facet_plan(index, fields) {
        Ok(plan) => plan,
        Err(error) => {
            let result = Err(error);
            assert(facets_planned(*index, *fields, Err(error)));
            return result;
        },
    };
    let distribution = match index.facet_distribution(candidates, &plan) {
        Ok(distribution) => {
            assert(facets_distributed(*index, *candidates, plan));
            distribution
        },
        Err(error) => {
            let result = Err(error);
            assert(facets_found(*index, *candidates, plan, result));
            return result;
        },
    };
    let stats = match index.facet_stats(candidates, &plan) {
        Ok(stats) => stats,
        Err(error) => {
            let result = Err(error);
            assert(facets_found(*index, *candidates, plan, result));
            return result;
        },
    };
    let lists = FacetLists { distribution: Some(distribution), stats: Some(name_stats(stats)) };
    let result = Ok(lists);
    assert(facets_found(*index, *candidates, plan, result));
    result
}

/// Whether a search can be prepared and run so.
pub open spec fn searched<T: Index>(
    index: T,
    query: SearchQuery,
    features: RoFeatures,
    distribution: Option<DistributionShift>,
    prepared: PreparedSearch<T::Filter, T::Sort>,
    executed: Executed<T::Words, T::Candidates, T::Detail>,
) -> bool {
    &&& starts(index, query, features, distribution, Ok(prepared))
    &&& call_ensures(T::execute, (&index, &prepared), Ok(executed))
}

/// Whether a search can be prepared, and fail so when it is run.
pub open spec fn search_failed<T: Index>(
    index: T,
    query: SearchQuery,
    features: RoFeatures,
    distribution: Option<DistributionShift>,
    error: T::Error,
) -> bool {
    exists|prepared: PreparedSearch<T::Filter, T::Sort>|
        #![trigger starts(index, query, features, distribution, Ok(prepared))]
        starts(index, query, features, distribution, Ok(prepared)) && call_ensures(
            T::execute,
            (&index, &prepared),
            Err(error),
        )
}

/// Whether the documents that a search found can give these hits.
pub open spec fn hits_gathered<T: Index>(
    index: T,
    query: SearchQuery,
    executed: Executed<T::Words, T::Candidates, T::Detail>,
    hits: Seq<SearchHit>,
) -> bool {
    exists|plan: HitPlan, builder: T::Builder, documents: Vec<(DocumentId, Vec<u8>)>|
        #![trigger hits::hits_made(
            index,
            query,
            plan,
            builder,
            documents@,
            executed.document_scores@,
            hits,
        )]
        {
            &&& sets_up(index, query, executed.matching_words, Ok((plan, builder)))
            &&& call_ensures(T::documents, (&index, executed.documents_ids), Ok(documents))
            &&& hits::hits_made(
                index,
                query,
                plan,
                builder,
                documents@,
                executed.document_scores@,
                hits,
            )
        }
}

/// Whether this can be why one of the documents that a search found gives no hit.
pub open spec fn hits_spoilt<T: Index>(
    index: T,
    query: SearchQuery,
    executed: Executed<T::Words, T::Candidates, T::Detail>,
    error: SearchError<T::Error>,
) -> bool {
    exists|plan: HitPlan, builder: T::Builder, documents: Vec<(DocumentId, Vec<u8>)>|
        #![trigger hits::hits_failed(
            index,
            query,
            plan,
            builder,
            documents@,
            executed.document_scores@,
            error,
        )]
        {
            &&& sets_up(index, query, executed.matching_words, Ok((plan, builder)))
            &&& call_ensures(T::documents, (&index, executed.documents_ids), Ok(documents))
            &&& hits::hits_failed(
                index,
                query,
                plan,
                builder,
                documents@,
                executed.document_scores@,
                error,
            )
        }
}

/// Whether what the hits of a query are made with can be had.
pub open spec fn hits_set_up<T: Index>(index: T, query: SearchQuery, words: T::Words) -> bool {
    exists|plan: HitPlan, builder: T::Builder|
        #![trigger sets_up(index, query, words, Ok((plan, builder)))]
        sets_up(index, query, words, Ok((plan, builder)))
}

/// Whether this can be why the documents that a search found give no hits.
pub open spec fn hits_ungathered<T: Index>(
    index: T,
    query: SearchQuery,
    executed: Executed<T::Words, T::Candidates, T::Detail>,
    error: SearchError<T::Error>,
) -> bool {
    ||| error is Engine && sets_up(
        index,
        query,
        executed.matching_words,
        Err(error->Engine_0),
    )
    ||| error is Engine && hits_set_up(index, query, executed.matching_words) && call_ensures(
        T::documents,
        (&index, executed.documents_ids),
        Err(error->Engine_0),
    )
    ||| hits_spoilt(index, query, executed, error)
}

/// Gathers the hits of a search.
fn gather_hits<T: Index>(
    index: &T,
    query: &SearchQuery,
    executed: Executed<T::Words, T::Candidates, T::Detail>,
) -> (result: Result<(Vec<SearchHit>, T::Candidates), SearchError<T::Error>>)
    ensures
        match result {
            Ok((found, candidates)) => hits_gathered(*index, *query, executed, found@)
                && candidates == executed.candidates,
            Err(error) => hits_ungathered(*index, *query, executed, error),
        },
{
    let Executed { documents_ids, matching_words, candidates, document_scores, .. } = executed;
    let (plan, builder) = match set_up_hits(index, query, matching_words) {
        Ok(parts) => parts,
        Err(error) => {
            let error = SearchError::Engine(error);
            assert(hits_ungathered(*index, *query, executed, error));
            return Err(error);
        },
    };
    assert(sets_up(*index, *query, matching_words, Ok((plan, builder))));
    assert(hits_set_up(*index, *query, matching_words));
    let documents = match index.documents(documents_ids) {
        Ok(documents) => documents,
        Err(error) => {
            let error = SearchError::Engine(error);
            assert(hits_ungathered(*index, *query, executed, error));
            return Err(error);
        },
    };
    match make_hits(index, query, &plan, &builder, &documents, &document_scores) {
        Ok(found) => {
            assert(hits_gathered(*index, *query, executed, found@));
            Ok((found, candidates))
        },
        Err(error) => {
            assert(hits_spoilt(*index, *query, executed, error));
            assert(hits_ungathered(*index, *query, executed, error));
            Err(error)
        },
    }
}

/// Whether this can be the result of a query, from a search that was prepared and run so.
pub open spec fn result_of<T: Index>(
    index: T,
    query: SearchQuery,
    prepared: PreparedSearch<T::Filter, T::Sort>,
    executed: Executed<T::Words, T::Candidates, T::Detail>,
    result: SearchResult,
) -> bool {
    &&& hits_gathered(index, query, executed, result.hits@)
    &&& pagination::page_count_in_range(query, executed.candidates_len, prepared.max_total_hits)
    &&& result.hits_info == pagination::told(
        query,
        prepared.offset,
        executed.candidates_len,
        prepared.max_total_hits,
    )
    &&& facets_listed(
        index,
        query.facets,
        executed.candidates,
        Ok(FacetLists { distribution: result.facet_distribution, stats: result.facet_stats }),
    )
    &&& result.query@ == match query.q {
        Some(q) => q@,
        None => Seq::empty(),
    }
    &&& result.vector == query.vector
    &&& result.degraded == executed.degraded
    &&& call_ensures(T::elapsed_ms, (&index,), result.processing_time_ms)
}

/// Whether the documents that a search found can give hits.
pub open spec fn hits_gatherable<T: Index>(
    index: T,
    query: SearchQuery,
    executed: Executed<T::Words, T::Candidates, T::Detail>,
) -> bool {
    exists|hits: Seq<SearchHit>| #[trigger] hits_gathered(index, query, executed, hits)
}

/// Whether this can be why a query has no result, after a search that was prepared and run so: its
/// hits come first, then the number of pages, then the facets.
pub open spec fn no_result_of<T: Index>(
    index: T,
    query: SearchQuery,
    prepared: PreparedSearch<T::Filter, T::Sort>,
    executed: Executed<T::Words, T::Candidates, T::Detail>,
    error: SearchError<T::Error>,
) -> bool {
    ||| hits_ungathered(index, query, executed, error)
    ||| error is UncountablePages && hits_gatherable(index, query, executed)
        && !pagination::page_count_in_range(
        query,
        executed.candidates_len,
        prepared.max_total_hits,
    )
    ||| error is Engine && hits_gatherable(index, query, executed)
        && pagination::page_count_in_range(
        query,
        executed.candidates_len,
        prepared.max_total_hits,
    ) && facets_listed(index, query.facets, executed.candidates, Err(error->Engine_0))
}

/// Whether a query can have this result.
pub open spec fn performs<T: Index>(
    index: T,
    query: SearchQuery,
    features: RoFeatures,
    distribution: Option<DistributionShift>,
    result: SearchResult,
) -> bool {
    exists|
        prepared: PreparedSearch<T::Filter, T::Sort>,
        executed: Executed<T::Words, T::Candidates, T::Detail>,
    |
        #![trigger searched(index, query, features, distribution, prepared, executed)]
        searched(index, query, features, distribution, prepared, executed) && result_of(
            index,
            query,
            prepared,
            executed,
            result,
        )
}

/// Whether this can be why a query has no result, after its search was run.
pub open spec fn performs_not<T: Index>(
    index: T,
    query: SearchQuery,
    features: RoFeatures,
    distribution: Option<DistributionShift>,
    error: SearchError<T::Error>,
) -> bool {
    exists|
        prepared: PreparedSearch<T::Filter, T::Sort>,
        executed: Executed<T::Words, T::Candidates, T::Detail>,
    |
        #![trigger searched(index, query, features, distribution, prepared, executed)]
        searched(index, query, features, distribution, prepared, executed) && no_result_of(
            index,
            query,
            prepared,
            executed,
            error,
        )
}

/// Whether a search can end so.
pub open spec fn search_outcome<T: Index>(
    index: T,
    query: SearchQuery,
    features: RoFeatures,
    distribution: Option<DistributionShift>,
    result: Result<SearchResult, SearchError<T::Error>>,
) -> bool {
    match result {
        Ok(found) => performs(index, query, features, distribution, found),
        Err(error) => {
            ||| starts(index, query, features, distribution, Err(error))
            ||| error is Engine && search_failed(
                index,
                query,
                features,
                distribution,
                error->Engine_0,
            )
            ||| performs_not(index, query, features, distribution, error)
        },
    }
}

/// Performs a search on an index.
pub fn perform_search<T: Index>(
    index: &T,
    query: SearchQuery,
    features: RoFeatures,
    distribution: Option<DistributionShift>,
) -> (result: Result<SearchResult, SearchError<T::Error>>)
    requires
        prepare::admitted(query, features) ==> pagination::page_in_range(query),
    ensures
        search_outcome(*index, query, features, distribution, result),
{
    let prepared = match start_search(index, &query, features, distribution) {
        Ok(prepared) => prepared,
        Err(error) => {
            assert(starts(*index, query, features, distribution, Err(error)));
            return Err(error);
        },
    };
    let executed = match index.execute(&prepared) {
        Ok(executed) => executed,
        Err(error) => {
            assert(search_failed(*index, query, features, distribution, error));
            return Err(SearchError::Engine(error));
        },
    };
    let candidates_len = executed.candidates_len;
    let degraded = executed.degraded;
    let ghost found = executed;
    assert(searched(*index, query, features, distribution, prepared, found));
    let (hits, candidates) = match gather_hits(index, &query, executed) {
        Ok(gathered) => gathered,
        Err(error) => {
            assert(no_result_of(*index, query, prepared, found, error));
            assert(performs_not(*index, query, features, distribution, error));
            return Err(error);
        },
    };
    assert(hits_gathered(*index, query, found, hits@));
    assert(hits_gatherable(*index, query, found));
    if !page_count_fits(&query, candidates_len, prepared.max_total_hits) {
        let error = SearchError::UncountablePages;
        assert(no_result_of(*index, query, prepared, found, error));
        assert(performs_not(*index, query, features, distribution, error));
        return Err(error);
    }
    let hits_info = hits_info(&query, prepared.offset, candidates_len, prepared.max_total_hits);
    let lists = match list_facets(index, &query.facets, &candidates) {
        Ok(lists) => lists,
        Err(error) => {
            assert(facets_listed(*index, query.facets, found.candidates, Err(error)));
            let error = SearchError::Engine(error);
            assert(no_result_of(*index, query, prepared, found, error));
            assert(performs_not(*index, query, features, distribution, error));
            return Err(error);
        },
    };
    let words = match &query.q {
        Some(q) => q.clone(),
        None => String::new(),
    };
    let result = SearchResult {
        hits,
        hits_info,
        query: words,
        vector: query.vector,
        processing_time_ms: index.elapsed_ms(),
        facet_distribution: lists.distribution,
        facet_stats: lists.stats,
        degraded,
    };
    proof {
        assert(facets_listed(*index, query.facets, found.candidates, Ok(lists)));
        assert(lists == FacetLists {
            distribution: result.facet_distribution,
            stats: result.facet_stats,
        });
        assert(result_of(*index, query, prepared, found, result));
        assert(performs(*index, query, features, distribution, result));
    }
    Ok(result)
}

/// A query that asks for something that is not enabled, or does not say how to put its text and its
/// vector together, gets the error for that, whatever is in the index; only the reading of the
/// cutoff can fail before it.
pub proof fn law_refused_query<T: Index>(
    index: T,
    query: SearchQuery,
    features: RoFeatures,
    distribution: Option<DistributionShift>,
    result: Result<SearchResult, SearchError<T::Error>>,
)
    requires
        search_outcome(index, query, features, distribution, result),
        !prepare::admitted(query, features),
    ensures
        result is Err,
        ({
            let error = result->Err_0;
            ||| error is Engine && call_ensures(
                T::search_cutoff,
                (&index,),
                Err(error->Engine_0),
            )
            ||| match prepare::disabled_action(query, features) {
                Some(action) => error == SearchError::<T::Error>::FeatureNotEnabled(action),
                None => error == SearchError::<T::Error>::MissingSearchHybrid,
            }
        }),
{
    assert forall|prepared: PreparedSearch<T::Filter, T::Sort>| !#[trigger]
        starts(index, query, features, distribution, Ok(prepared)) by {
        let outcome: Result<PreparedSearch<T::Filter, T::Sort>, SearchError<T::Error>> = Ok(
            prepared,
        );
        assert forall|cutoff: Option<u64>| !#[trigger]
            prepares_within(index, query, features, distribution, cutoff, outcome) by {}
    }
    if result is Err {
        let error = result->Err_0;
        assert(starts(index, query, features, distribution, Err(error)));
        let outcome: Result<PreparedSearch<T::Filter, T::Sort>, SearchError<T::Error>> = Err(error);
        if exists|cutoff: Option<u64>| #[trigger]
            prepares_within(index, query, features, distribution, cutoff, outcome) {
            let cutoff = choose|cutoff: Option<u64>| #[trigger]
                prepares_within(index, query, features, distribution, cutoff, outcome);
            let setting = choose|setting: Result<Option<u64>, T::Error>| #[trigger]
                call_ensures(T::pagination_max_total_hits, (&index,), setting)
                    && prepare::prepares(
                    index,
                    query,
                    features,
                    distribution,
                    budget_of(cutoff),
                    setting,
                    outcome,
                );
            assert(prepare::prepares(
                index,
                query,
                features,
                distribution,
                budget_of(cutoff),
                setting,
                outcome,
            ));
        }
    }
}

/// A result has facets, places, scores and pages just where the query asks for them.
pub proof fn law_result_has_what_was_asked<T: Index>(
    index: T,
    query: SearchQuery,
    features: RoFeatures,
    distribution: Option<DistributionShift>,
    result: SearchResult,
)
    requires
        search_outcome(index, query, features, distribution, Ok(result)),
    ensures
        result.facet_distribution is Some <==> query.facets is Some,
        result.facet_stats is Some <==> query.facets is Some,
        result.hits_info is Pagination <==> query.finite_pagination(),
        result.vector == query.vector,
        forall|i: int|
            0 <= i < result.hits@.len() ==> {
                let hit = #[trigger] result.hits@[i];
                &&& hit.matches_position is Some <==> query.show_matches_position
                &&& hit.ranking_score is Some <==> query.show_ranking_score
                &&& hit.ranking_score_details is Some <==> query.show_ranking_score_details
            },
{
    let (prepared, executed) = choose|
        prepared: PreparedSearch<T::Filter, T::Sort>,
        executed: Executed<T::Words, T::Candidates, T::Detail>,
    |
        #![trigger searched(index, query, features, distribution, prepared, executed)]
        searched(index, query, features, distribution, prepared, executed) && result_of(
            index,
            query,
            prepared,
            executed,
            result,
        );
    assert(result_of(index, query, prepared, executed, result));
    let (plan, builder, documents) = choose|
        plan: HitPlan,
        builder: T::Builder,
        documents: Vec<(DocumentId, Vec<u8>)>,
    |
        #![trigger hits::hits_made(
            index,
            query,
            plan,
            builder,
            documents@,
            executed.document_scores@,
            result.hits@,
        )]
        {
            &&& sets_up(index, query, executed.matching_words, Ok((plan, builder)))
            &&& call_ensures(T::documents, (&index, executed.documents_ids), Ok(documents))
            &&& hits::hits_made(
                index,
                query,
                plan,
                builder,
                documents@,
                executed.document_scores@,
                result.hits@,
            )
        };
    assert(hits::hits_made(
        index,
        query,
        plan,
        builder,
        documents@,
        executed.document_scores@,
        result.hits@,
    ));
}

/// On an index that answers alike, a search fails where the preparation of its query fails, and
/// with the same error; only the reading of the cutoff can fail before it.
pub proof fn law_search_fails_as_prepared<T: Index>(
    index: T,
    query: SearchQuery,
    features: RoFeatures,
    distribution: Option<DistributionShift>,
    setting: Result<Option<u64>, T::Error>,
    time_budget: TimeBudget,
    error: SearchError<T::Error>,
    result: Result<SearchResult, SearchError<T::Error>>,
)
    requires
        prepare::prepares_alike(index, setting),
        prepare::prepares(
            index,
            query,
            features,
            distribution,
            time_budget,
            setting,
            Err(error),
        ),
        search_outcome(index, query, features, distribution, result),
    ensures
        result is Err,
        ({
            ||| result->Err_0 is Engine && call_ensures(
                T::search_cutoff,
                (&index,),
                Err(result->Err_0->Engine_0),
            )
            ||| error::same_error(result->Err_0, error)
        }),
{
    let prepared: Result<PreparedSearch<T::Filter, T::Sort>, SearchError<T::Error>> = Err(error);
    assert forall|
        cutoff: Option<u64>,
        other: Result<PreparedSearch<T::Filter, T::Sort>, SearchError<T::Error>>,
    | #[trigger]
        prepares_within(index, query, features, distribution, cutoff, other) implies other is Err
        && error::same_error(other->Err_0, error) by {
        let read = choose|read: Result<Option<u64>, T::Error>| #[trigger]
            call_ensures(T::pagination_max_total_hits, (&index,), read) && prepare::prepares(
                index,
                query,
                features,
                distribution,
                budget_of(cutoff),
                read,
                other,
            );
        prepare::law_preparation_fails_alike(
            index,
            query,
            features,
            setting,
            distribution,
            budget_of(cutoff),
            other,
            distribution,
            time_budget,
            prepared,
        );
    }
    assert forall|found: PreparedSearch<T::Filter, T::Sort>| !#[trigger]
        starts(index, query, features, distribution, Ok(found)) by {
        let other: Result<PreparedSearch<T::Filter, T::Sort>, SearchError<T::Error>> = Ok(found);
        assert forall|cutoff: Option<u64>| !#[trigger]
            prepares_within(index, query, features, distribution, cutoff, other) by {}
    }
    if result is Err {
        let failed: Result<PreparedSearch<T::Filter, T::Sort>, SearchError<T::Error>> = Err(
            result->Err_0,
        );
        assert(starts(index, query, features, distribution, failed));
        if exists|cutoff: Option<u64>| #[trigger]
            prepares_within(index, query, features, distribution, cutoff, failed) {
            let cutoff = choose|cutoff: Option<u64>| #[trigger]
                prepares_within(index, query, features, distribution, cutoff, failed);
            assert(error::same_error(failed->Err_0, error));
        }
    }
}

/// The engine runs the search that the query is prepared for, by the settings of the index and
/// within its cutoff, and with the distribution that is given. The result tells of that search:
/// its hits and facets, the number of its results, and whether it was cut off; with the words and
/// the vector of the query as they were given.
pub proof fn law_result_is_of_the_query<T: Index>(
    index: T,
    query: SearchQuery,
    features: RoFeatures,
    distribution: Option<DistributionShift>,
    result: SearchResult,
)
    requires
        call_ensures(
            perform_search::<T>,
            (&index, query, features, distribution),
            Ok(result),
        ),
    ensures
        query.q matches Some(q) ==> result.query@ == q@,
        query.q is None ==> result.query@.len() == 0,
        result.vector == query.vector,
        call_ensures(T::elapsed_ms, (&index,), result.processing_time_ms),
        exists|
            prepared: PreparedSearch<T::Filter, T::Sort>,
            executed: Executed<T::Words, T::Candidates, T::Detail>,
            total: Result<Option<u64>, T::Error>,
            cutoff: Option<u64>,
        |
            {
                &&& #[trigger] call_ensures(T::search_cutoff, (&index,), Ok(cutoff))
                &&& #[trigger] call_ensures(T::pagination_max_total_hits, (&index,), total)
                &&& #[trigger] call_ensures(T::execute, (&index, &prepared), Ok(executed))
                &&& prepare::prepares(
                    index,
                    query,
                    features,
                    distribution,
                    if cutoff is Some {
                        TimeBudget::Milliseconds(cutoff->0)
                    } else {
                        TimeBudget::Standard
                    },
                    total,
                    Ok(prepared),
                )
                &&& result.degraded == executed.degraded
                &&& result.hits_info == pagination::told(
                    query,
                    prepared.offset,
                    executed.candidates_len,
                    prepared.max_total_hits,
                )
                &&& hits_gathered(index, query, executed, result.hits@)
                &&& facets_listed(
                    index,
                    query.facets,
                    executed.candidates,
                    Ok(
                        FacetLists {
                            distribution: result.facet_distribution,
                            stats: result.facet_stats,
                        },
                    ),
                )
            },
{
    let (prepared, executed) = choose|
        prepared: PreparedSearch<T::Filter, T::Sort>,
        executed: Executed<T::Words, T::Candidates, T::Detail>,
    |
        #![trigger searched(index, query, features, distribution, prepared, executed)]
        searched(index, query, features, distribution, prepared, executed) && result_of(
            index,
            query,
            prepared,
            executed,
            result,
        );
    let outcome: Result<PreparedSearch<T::Filter, T::Sort>, SearchError<T::Error>> = Ok(prepared);
    let cutoff = choose|cutoff: Option<u64>|
        #![trigger prepares_within(index, query, features, distribution, cutoff, outcome)]
        call_ensures(T::search_cutoff, (&index,), Ok(cutoff)) && prepares_within(
            index,
            query,
            features,
            distribution,
            cutoff,
            outcome,
        );
    let total = choose|setting: Result<Option<u64>, T::Error>| #[trigger]
        call_ensures(T::pagination_max_total_hits, (&index,), setting) && prepare::prepares(
            index,
            query,
            features,
            distribution,
            budget_of(cutoff),
            setting,
            outcome,
        );
    assert(call_ensures(T::search_cutoff, (&index,), Ok(cutoff)));
    assert(call_ensures(T::pagination_max_total_hits, (&index,), total));
    assert(call_ensures(T::execute, (&index, &prepared), Ok(executed)));
}

/// Where the filter of a query can be parsed in one way only, the engine runs a search with that
/// filter, and without one where the query has none; with the strategy and, where the query is run
/// in two searches, in the ratio that the query asks for.
pub proof fn law_search_keeps_the_filter<T: Index>(
    index: T,
    query: SearchQuery,
    features: RoFeatures,
    distribution: Option<DistributionShift>,
    result: SearchResult,
    parsed: Option<T::Filter>,
)
    requires
        call_ensures(
            perform_search::<T>,
            (&index, query, features, distribution),
            Ok(result),
        ),
        match query.filter {
            Some(filter) => forall|other: Option<T::Filter>| #[trigger]
                filter::filter_parses(index, filter@, Ok(other)) ==> other == parsed,
            None => parsed is None,
        },
    ensures
        exists|
            prepared: PreparedSearch<T::Filter, T::Sort>,
            executed: Executed<T::Words, T::Candidates, T::Detail>,
        |
            {
                &&& #[trigger] call_ensures(T::execute, (&index, &prepared), Ok(executed))
                &&& prepared.filter == parsed
                &&& prepared.terms_matching_strategy is All <==> query.matching_strategy is All
                &&& prepared.execution is Hybrid ==> query.hybrid is Some
                    && prepared.execution->Hybrid_0.bits == query.hybrid->0.semantic_ratio@.bits
                &&& prepared.sort_criteria is Some <==> query.sort is Some
                &&& prepared.distribution_shift == distribution
                &&& result.degraded == executed.degraded
            },
{
    law_result_is_of_the_query(index, query, features, distribution, result);
}

/// The texts of documents are split into words by all that the index knows: its languages, if there
/// are any, its separators and its dictionary; and it is always kept where characters stood.
pub proof fn law_tokenizer_settings(
    scripts: Vec<(String, Vec<String>)>,
    separators: Option<Vec<String>>,
    dictionary: Option<Vec<String>>,
    tokenizer: TokenizerSettings,
)
    requires
        call_ensures(tokenizer_settings, (scripts, separators, dictionary), tokenizer),
    ensures
        tokenizer.create_char_map,
        scripts@.len() == 0 ==> tokenizer.allow_list is None,
        scripts@.len() > 0 ==> tokenizer.allow_list == Some(scripts),
        tokenizer.separators == separators,
        tokenizer.words_dict == dictionary,
{
}

/// The hits of a search are those of the documents that were found, in their order and with their
/// scores, by the plan for the query on this index. Their words are marked by a matcher of the
/// words that were found, with the settings of the index, and with the tags and the crop marker of
/// the query.
pub proof fn law_hits_are_of_the_search<T: Index>(
    index: T,
    query: SearchQuery,
    executed: Executed<T::Words, T::Candidates, T::Detail>,
    hits: Seq<SearchHit>,
)
    requires
        hits_gathered(index, query, executed, hits),
    ensures
        exists|
            plan: HitPlan,
            builder: T::Builder,
            documents: Vec<(DocumentId, Vec<u8>)>,
            map: FieldsIdsMap,
            listed: Option<Vec<FieldId>>,
            tokenizer: TokenizerSettings,
            markup: Markup,
        |
            {
                &&& #[trigger] call_ensures(
                    T::documents,
                    (&index, executed.documents_ids),
                    Ok(documents),
                )
                &&& call_ensures(T::fields_ids_map, (&index,), map)
                &&& call_ensures(T::displayed_fields_ids, (&index,), Ok(listed))
                &&& #[trigger] hits::planned(plan, query, map@, listed)
                &&& #[trigger] call_ensures(
                    T::matcher,
                    (&index, executed.matching_words, tokenizer, markup),
                    builder,
                )
                &&& markup.crop_marker == query.crop_marker
                &&& markup.highlight_prefix == query.highlight_pre_tag
                &&& markup.highlight_suffix == query.highlight_post_tag
                &&& tokenizer_read(index, Ok(tokenizer))
                &&& hits.len() <= documents@.len()
                &&& hits.len() <= executed.document_scores@.len()
                &&& hits.len() == documents@.len() || hits.len() == executed.document_scores@.len()
                &&& forall|i: int|
                    0 <= i < hits.len() ==> hits::hit_made(
                        index,
                        query,
                        plan,
                        builder,
                        documents@[i].1@,
                        executed.document_scores@[i],
                        #[trigger] hits[i],
                    )
            },
{
    let (plan, builder, documents) = choose|
        plan: HitPlan,
        builder: T::Builder,
        documents: Vec<(DocumentId, Vec<u8>)>,
    |
        #![trigger hits::hits_made(
            index,
            query,
            plan,
            builder,
            documents@,
            executed.document_scores@,
            hits,
        )]
        {
            &&& sets_up(index, query, executed.matching_words, Ok((plan, builder)))
            &&& call_ensures(T::documents, (&index, executed.documents_ids), Ok(documents))
            &&& hits::hits_made(
                index,
                query,
                plan,
                builder,
                documents@,
                executed.document_scores@,
                hits,
            )
        };
    assert(hits_planned(index, query, plan));
    let (map, listed) = choose|map: FieldsIdsMap, listed: Option<Vec<FieldId>>|
        #![trigger hits::planned(plan, query, map@, listed)]
        {
            &&& call_ensures(T::fields_ids_map, (&index,), map)
            &&& call_ensures(T::displayed_fields_ids, (&index,), Ok(listed))
            &&& hits::planned(plan, query, map@, listed)
        };
    assert(matcher_built(index, query, executed.matching_words, builder));
    let (tokenizer, markup) = choose|tokenizer: TokenizerSettings, markup: Markup|
        #![trigger call_ensures(
            T::matcher,
            (&index, executed.matching_words, tokenizer, markup),
            builder,
        )]
        {
            &&& tokenizer_read(index, Ok(tokenizer))
            &&& markup_of(markup, query)
            &&& call_ensures(
                T::matcher,
                (&index, executed.matching_words, tokenizer, markup),
                builder,
            )
        };
    assert(hits::planned(plan, query, map@, listed));
    assert(call_ensures(T::documents, (&index, executed.documents_ids), Ok(documents)));
}

/// The settings of how texts are split into words are those that the index gives: its languages,
/// unless there are none, its separators and its dictionary.
pub proof fn law_tokenizer_is_of_the_index<T: Index>(index: T, tokenizer: TokenizerSettings)
    requires
        tokenizer_read(index, Ok(tokenizer)),
    ensures
        tokenizer.create_char_map,
        call_ensures(T::allowed_separators, (&index,), Ok(tokenizer.separators)),
        call_ensures(T::dictionary, (&index,), Ok(tokenizer.words_dict)),
        tokenizer.allow_list matches Some(scripts) ==> scripts@.len() > 0 && call_ensures(
            T::script_language,
            (&index,),
            Ok(scripts),
        ),
        tokenizer.allow_list is None ==> exists|scripts: Vec<(String, Vec<String>)>|
            scripts@.len() == 0 && #[trigger] call_ensures(
                T::script_language,
                (&index,),
                Ok(scripts),
            ),
{
    let (scripts, separators, dictionary) = choose|
        scripts: Vec<(String, Vec<String>)>,
        separators: Option<Vec<String>>,
        dictionary: Option<Vec<String>>,
    |
        #![trigger tokenizer_of(tokenizer, scripts, separators, dictionary)]
        {
            &&& call_ensures(T::script_language, (&index,), Ok(scripts))
            &&& call_ensures(T::allowed_separators, (&index,), Ok(separators))
            &&& call_ensures(T::dictionary, (&index,), Ok(dictionary))
            &&& tokenizer_of(tokenizer, scripts, separators, dictionary)
        };
    assert(call_ensures(T::script_language, (&index,), Ok(scripts)));
}

/// The statistics of facets keep their order and their names, with the first number as the least
/// and the second as the greatest.
pub proof fn law_named_stats(
    stats: Vec<(String, (Double, Double))>,
    named: Named<FacetStats>,
    i: int,
)
    requires
        call_ensures(name_stats, (stats,), named),
    ensures
        named.entries@.len() == stats@.len(),
        0 <= i < stats@.len() ==> named.entries@[i].0 == stats@[i].0 && {
            let (least, greatest) = stats@[i].1;
            named.entries@[i].1.min == least && named.entries@[i].1.max == greatest
        },
{
}

/// The facets that a query names are listed for the documents that match, by one plan that is made
/// of its names and the settings of the index: the distribution as the index gives it, and the
/// least and greatest numbers under the names that they come with. Nothing is listed for a query
/// that names none.
pub proof fn law_facets_are_of_the_candidates<T: Index>(
    index: T,
    facets: Option<Vec<String>>,
    candidates: T::Candidates,
    lists: FacetLists,
)
    requires
        facets_listed(index, facets, candidates, Ok(lists)),
    ensures
        facets is None ==> lists.distribution is None && lists.stats is None,
        facets is Some ==> exists|
            plan: FacetPlan,
            max_values: Option<u64>,
            orders: Vec<(String, OrderBy)>,
            stats: Vec<(String, (Double, Double))>,
        |
            {
                &&& call_ensures(T::max_values_per_facet, (&index,), Ok(max_values))
                &&& call_ensures(T::sort_facet_values_by, (&index,), Ok(orders))
                &&& #[trigger] facets::planned(plan, facets->0@, max_values, orders@)
                &&& lists.distribution is Some && call_ensures(
                    T::facet_distribution,
                    (&index, &candidates, &plan),
                    Ok(lists.distribution->0),
                )
                &&& #[trigger] call_ensures(
                    T::facet_stats,
                    (&index, &candidates, &plan),
                    Ok(stats),
                )
                &&& lists.stats is Some && lists.stats->0.entries@.len() == stats@.len()
                &&& forall|i: int|
                    0 <= i < stats@.len() ==> {
                        let entry = #[trigger] lists.stats->0.entries@[i];
                        let (least, greatest) = stats@[i].1;
                        entry.0 == stats@[i].0 && entry.1.min == least && entry.1.max == greatest
                    }
            },
{
    if facets is Some {
        let fields = facets->0;
        let outcome: Result<FacetLists, T::Error> = Ok(lists);
        let plan = choose|plan: FacetPlan|
            #![trigger facets_planned(index, fields, Ok(plan))]
            facets_planned(index, fields, Ok(plan)) && facets_found(
                index,
                candidates,
                plan,
                outcome,
            );
        assert(facets_planned(index, fields, Ok(plan)));
        let (max_values, orders) = choose|max_values: Option<u64>, orders: Vec<(String, OrderBy)>|
            #![trigger facets::planned(plan, fields@, max_values, orders@)]
            {
                &&& call_ensures(T::max_values_per_facet, (&index,), Ok(max_values))
                &&& call_ensures(T::sort_facet_values_by, (&index,), Ok(orders))
                &&& facets::planned(plan, fields@, max_values, orders@)
            };
        let stats = choose|stats: Vec<(String, (Double, Double))>| #[trigger]
            call_ensures(T::facet_stats, (&index, &candidates, &plan), Ok(stats))
                && lists.stats->0.entries@ == named_stats(stats@);
        assert(facets::planned(plan, fields@, max_values, orders@));
        assert(call_ensures(T::facet_stats, (&index, &candidates, &plan), Ok(stats)));
    }
}

/// Whether the engine can have run a search so.
pub open spec fn ran<T: Index>(
    index: T,
    prepared: PreparedSearch<T::Filter, T::Sort>,
    executed: Executed<T::Words, T::Candidates, T::Detail>,
) -> bool {
    call_ensures(T::execute, (&index, &prepared), Ok(executed))
}

/// A search that fails has one of these reasons, each where all before it did not fail: its
/// preparation failed, with that very error; the engine failed in running it; the index failed to
/// give what its hits are made with, or the documents; a document gave no hit, with that very
/// error; its pages cannot be counted; or the index failed to list its facets. An error of the
/// index is handed on as it is.
pub proof fn law_why_a_search_fails<T: Index>(
    index: T,
    query: SearchQuery,
    features: RoFeatures,
    distribution: Option<DistributionShift>,
    error: SearchError<T::Error>,
)
    requires
        call_ensures(
            perform_search::<T>,
            (&index, query, features, distribution),
            Err(error),
        ),
    ensures
        ({
            ||| error is Engine && call_ensures(
                T::search_cutoff,
                (&index,),
                Err(error->Engine_0),
            )
            ||| exists|cutoff: Option<u64>, total: Result<Option<u64>, T::Error>|
                {
                    &&& #[trigger] call_ensures(T::search_cutoff, (&index,), Ok(cutoff))
                    &&& #[trigger] call_ensures(T::pagination_max_total_hits, (&index,), total)
                    &&& prepare::prepares(
                        index,
                        query,
                        features,
                        distribution,
                        if cutoff is Some {
                            TimeBudget::Milliseconds(cutoff->0)
                        } else {
                            TimeBudget::Standard
                        },
                        total,
                        Err(error),
                    )
                }
            ||| error is Engine && exists|prepared: PreparedSearch<T::Filter, T::Sort>|
                starts(index, query, features, distribution, Ok(prepared))
                    && #[trigger] call_ensures(
                    T::execute,
                    (&index, &prepared),
                    Err(error->Engine_0),
                )
            ||| exists|
                prepared: PreparedSearch<T::Filter, T::Sort>,
                executed: Executed<T::Words, T::Candidates, T::Detail>,
            |
                {
                    &&& #[trigger] ran(index, prepared, executed)
                    &&& starts(index, query, features, distribution, Ok(prepared))
                    &&& {
                        ||| error is Engine && setting_up_fails(index, error->Engine_0)
                        ||| error is Engine && hits_set_up(index, query, executed.matching_words)
                            && call_ensures(
                            T::documents,
                            (&index, executed.documents_ids),
                            Err(error->Engine_0),
                        )
                        ||| hits_spoilt(index, query, executed, error)
                        ||| error is UncountablePages && hits_gatherable(index, query, executed)
                            && !pagination::page_count_in_range(
                            query,
                            executed.candidates_len,
                            prepared.max_total_hits,
                        )
                        ||| error is Engine && hits_gatherable(index, query, executed)
                            && query.facets is Some && listing_fails(
                            index,
                            query.facets->0,
                            executed.candidates,
                            error->Engine_0,
                        )
                    }
                }
        }),
{
    if starts(index, query, features, distribution, Err(error)) {
        let outcome: Result<PreparedSearch<T::Filter, T::Sort>, SearchError<T::Error>> = Err(error);
        assert(starts(index, query, features, distribution, outcome));
        if exists|cutoff: Option<u64>|
            #![trigger prepares_within(index, query, features, distribution, cutoff, outcome)]
            call_ensures(T::search_cutoff, (&index,), Ok(cutoff)) && prepares_within(
                index,
                query,
                features,
                distribution,
                cutoff,
                outcome,
            ) {
            let cutoff = choose|cutoff: Option<u64>|
                #![trigger prepares_within(index, query, features, distribution, cutoff, outcome)]
                call_ensures(T::search_cutoff, (&index,), Ok(cutoff)) && prepares_within(
                    index,
                    query,
                    features,
                    distribution,
                    cutoff,
                    outcome,
                );
            let total = choose|setting: Result<Option<u64>, T::Error>| #[trigger]
                call_ensures(T::pagination_max_total_hits, (&index,), setting) && prepare::prepares(
                    index,
                    query,
                    features,
                    distribution,
                    budget_of(cutoff),
                    setting,
                    outcome,
                );
            assert(call_ensures(T::search_cutoff, (&index,), Ok(cutoff)));
            assert(call_ensures(T::pagination_max_total_hits, (&index,), total));
        }
    } else if error is Engine && search_failed(
        index,
        query,
        features,
        distribution,
        error->Engine_0,
    ) {
        let prepared = choose|prepared: PreparedSearch<T::Filter, T::Sort>|
            #![trigger starts(index, query, features, distribution, Ok(prepared))]
            starts(index, query, features, distribution, Ok(prepared)) && call_ensures(
                T::execute,
                (&index, &prepared),
                Err(error->Engine_0),
            );
        assert(call_ensures(T::execute, (&index, &prepared), Err(error->Engine_0)));
    } else {
        let (prepared, executed) = choose|
            prepared: PreparedSearch<T::Filter, T::Sort>,
            executed: Executed<T::Words, T::Candidates, T::Detail>,
        |
            #![trigger searched(index, query, features, distribution, prepared, executed)]
            searched(index, query, features, distribution, prepared, executed) && no_result_of(
                index,
                query,
                prepared,
                executed,
                error,
            );
        assert(ran(index, prepared, executed));
        if error is Engine && sets_up(
            index,
            query,
            executed.matching_words,
            Err(error->Engine_0),
        ) {
            lemma_setting_up_fails(index, query, executed.matching_words, error->Engine_0);
        }
    }
}

/// Whether the index can fail so to give what hits are made with: the fields that documents show
/// first, then the languages, the separators and the dictionary, each where those before it can be
/// read.
pub open spec fn setting_up_fails<T: Index>(index: T, error: T::Error) -> bool {
    ||| call_ensures(T::displayed_fields_ids, (&index,), Err(error))
    ||| (exists|listed: Option<Vec<FieldId>>| #[trigger]
        call_ensures(T::displayed_fields_ids, (&index,), Ok(listed))) && {
        ||| call_ensures(T::script_language, (&index,), Err(error))
        ||| (exists|scripts: Vec<(String, Vec<String>)>| #[trigger]
            call_ensures(T::script_language, (&index,), Ok(scripts))) && {
            ||| call_ensures(T::allowed_separators, (&index,), Err(error))
            ||| (exists|separators: Option<Vec<String>>| #[trigger]
                call_ensures(T::allowed_separators, (&index,), Ok(separators))) && call_ensures(
                T::dictionary,
                (&index,),
                Err(error),
            )
        }
    }
}

/// Whether the index can fail so to list facets: the number of values first, then their order, the
/// distribution and the statistics, each where those before it can be had.
pub open spec fn listing_fails<T: Index>(
    index: T,
    fields: Vec<String>,
    candidates: T::Candidates,
    error: T::Error,
) -> bool {
    ||| call_ensures(T::max_values_per_facet, (&index,), Err(error))
    ||| (exists|max_values: Option<u64>| #[trigger]
        call_ensures(T::max_values_per_facet, (&index,), Ok(max_values))) && call_ensures(
        T::sort_facet_values_by,
        (&index,),
        Err(error),
    )
    ||| exists|plan: FacetPlan|
        #![trigger facets_planned(index, fields, Ok(plan))]
        {
            &&& facets_planned(index, fields, Ok(plan))
            &&& {
                ||| call_ensures(
                    T::facet_distribution,
                    (&index, &candidates, &plan),
                    Err(error),
                )
                ||| (exists|distribution: FacetDistribution| #[trigger]
                    call_ensures(
                        T::facet_distribution,
                        (&index, &candidates, &plan),
                        Ok(distribution),
                    )) && call_ensures(T::facet_stats, (&index, &candidates, &plan), Err(error))
            }
        }
}

/// What hits are made with cannot be had only where the index fails to give it.
proof fn lemma_setting_up_fails<T: Index>(
    index: T,
    query: SearchQuery,
    words: T::Words,
    error: T::Error,
)
    requires
        sets_up(index, query, words, Err(error)),
    ensures
        setting_up_fails(index, error),
{
    if hits_plannable(index, query) {
        let plan = choose|plan: HitPlan| #[trigger] hits_planned(index, query, plan);
        let (map, listed) = choose|map: FieldsIdsMap, listed: Option<Vec<FieldId>>|
            #![trigger hits::planned(plan, query, map@, listed)]
            {
                &&& call_ensures(T::fields_ids_map, (&index,), map)
                &&& call_ensures(T::displayed_fields_ids, (&index,), Ok(listed))
                &&& hits::planned(plan, query, map@, listed)
            };
        assert(call_ensures(T::displayed_fields_ids, (&index,), Ok(listed)));
    }
    if scripts_readable(index) {
        let scripts = choose|scripts: Vec<(String, Vec<String>)>| #[trigger]
            call_ensures(T::script_language, (&index,), Ok(scripts));
        assert(call_ensures(T::script_language, (&index,), Ok(scripts)));
    }
}

} // verus!
