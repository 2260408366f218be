//! Search queries: what a user can ask of an index.
use vstd::prelude::*;

use crate::float;
use crate::float::Single;
use crate::json::Value;
use crate::text;
use crate::text::holds;

verus! {

/// The number of results that are skipped by default.
pub const DEFAULT_SEARCH_OFFSET: usize = 0;

/// The number of results on a page, and the number that are returned, by default.
pub const DEFAULT_SEARCH_LIMIT: usize = 20;

/// The number of words that a cropped text keeps by default.
pub const DEFAULT_CROP_LENGTH: usize = 10;

/// The mark that stands by default where a text was cropped.
pub fn default_crop_marker() -> (marker: String)
    ensures
        marker@ == "…"@,
{
    "…".to_owned()
}

/// The tag that stands by default before a highlighted word.
pub fn default_highlight_pre_tag() -> (tag: String)
    ensures
        tag@ == "<em>"@,
{
    "<em>".to_owned()
}

/// The tag that stands by default behind a highlighted word.
pub fn default_highlight_post_tag() -> (tag: String)
    ensures
        tag@ == "</em>"@,
{
    "</em>".to_owned()
}

/// The part that the semantic search has in the ranking by default: one half.
pub fn default_semantic_ratio() -> (ratio: SemanticRatio)
    ensures
        ratio@ == (Single { bits: 0x3f00_0000 }),
{
    let half = Single { bits: 0x3f00_0000 };
    proof {
        float::lemma_order_by_bits(half);
    }
    SemanticRatio { ratio: half }
}

/// The error of a semantic ratio that does not lie between zero and one.
#[derive(Debug, Clone, Copy, PartialEq, Eq, Structural)]
pub struct InvalidSearchSemanticRatio;

/// The part that the semantic search has in the ranking, from zero (keywords alone) to one
/// (vectors alone).
#[derive(Debug, Clone, Copy, PartialEq)]
pub struct SemanticRatio {
    ratio: Single,
}

impl View for SemanticRatio {
    type V = Single;

    closed spec fn view(&self) -> Single {
        self.ratio
    }
}

impl SemanticRatio {
    #[verifier::type_invariant]
    spec fn within_bounds(self) -> bool {
        !self.ratio.is_nan() && !self.ratio.above_one() && !self.ratio.below_zero()
    }

    /// Takes a ratio that lies between zero and one; what is no number does not.
    pub fn try_from(ratio: Single) -> (result: Result<SemanticRatio, InvalidSearchSemanticRatio>)
        ensures
            match result {
                Ok(taken) => !ratio.is_nan() && !ratio.above_one() && !ratio.below_zero() && taken@
                    == ratio,
                Err(_) => ratio.is_nan() || ratio.above_one() || ratio.below_zero(),
            },
    {
        if !ratio.is_number() || ratio.is_above_one() || ratio.is_below_zero() {
            Err(InvalidSearchSemanticRatio)
        } else {
            Ok(SemanticRatio { ratio })
        }
    }
}

impl std::ops::Deref for SemanticRatio {
    type Target = Single;

    fn deref(&self) -> (ratio: &Single)
        ensures
            *ratio == self@,
            !ratio.is_nan(),
            !ratio.above_one(),
            !ratio.below_zero(),
    {
        proof {
            use_type_invariant(self);
        }
        &self.ratio
    }
}

impl Default for SemanticRatio {
    fn default() -> (ratio: SemanticRatio)
        ensures
            ratio@ == (Single { bits: 0x3f00_0000 }),
    {
        default_semantic_ratio()
    }
}

/// How the semantic search takes part in a search.
#[derive(Debug, Clone, PartialEq)]
pub struct HybridQuery {
    pub semantic_ratio: SemanticRatio,
    pub embedder: Option<String>,
}

impl Default for HybridQuery {
    fn default() -> (hybrid: HybridQuery)
        ensures
            hybrid.semantic_ratio@ == (Single { bits: 0x3f00_0000 }),
            hybrid.embedder is None,
    {
        HybridQuery { semantic_ratio: default_semantic_ratio(), embedder: None }
    }
}

/// A set of names. Their order and repetitions have no meaning.
#[derive(Debug, Clone)]
pub struct NameSet {
    pub names: Vec<String>,
}

impl View for NameSet {
    type V = Set<Seq<char>>;

    open spec fn view(&self) -> Set<Seq<char>> {
        Set::new(|name: Seq<char>| text::mentions(self.names@, name))
    }
}

impl NameSet {
    /// A set without names.
    pub fn new() -> (set: NameSet)
        ensures
            set@ == Set::<Seq<char>>::empty(),
    {
        let set = NameSet { names: Vec::new() };
        assert(set@ =~= Set::<Seq<char>>::empty());
        set
    }

    /// Whether all names of this set are in another.
    fn is_within(&self, other: &NameSet) -> (within: bool)
        ensures
            within == self@.subset_of(other@),
    {
        let mut i: usize = 0;
        while i < self.names.len()
            invariant
                i <= self.names.len(),
                forall|k: int| 0 <= k < i ==> other@.contains(#[trigger] self.names@[k]@),
            decreases self.names.len() - i,
        {
            if !holds(&other.names, self.names[i].as_str()) {
                assert(self@.contains(self.names@[i as int]@));
                return false;
            }
            i += 1;
        }
        true
    }
}

/// Two are equal where they have the same names.
impl PartialEq for NameSet {
    fn eq(&self, other: &NameSet) -> (equal: bool) {
        let equal = self.is_within(other) && other.is_within(self);
        proof {
            if equal {
                assert(self@ =~= other@);
            }
        }
        equal
    }
}

impl vstd::std_specs::cmp::PartialEqSpecImpl for NameSet {
    open spec fn obeys_eq_spec() -> bool {
        true
    }

    open spec fn eq_spec(&self, other: &NameSet) -> bool {
        self@ == other@
    }
}

/// What an optional set of names is.
pub open spec fn names_of(set: Option<NameSet>) -> Option<Set<Seq<char>>> {
    match set {
        Some(set) => Some(set@),
        None => None,
    }
}

/// A search query.
#[derive(Debug, Clone, PartialEq)]
pub struct SearchQuery {
    pub q: Option<String>,
    pub vector: Option<Vec<Single>>,
    pub hybrid: Option<HybridQuery>,
    pub offset: usize,
    pub limit: usize,
    pub page: Option<usize>,
    pub hits_per_page: Option<usize>,
    pub attributes_to_retrieve: Option<NameSet>,
    pub attributes_to_crop: Option<Vec<String>>,
    pub crop_length: usize,
    pub attributes_to_highlight: Option<NameSet>,
    pub show_matches_position: bool,
    pub show_ranking_score: bool,
    pub show_ranking_score_details: bool,
    pub filter: Option<Value>,
    pub sort: Option<Vec<String>>,
    pub facets: Option<Vec<String>>,
    pub highlight_pre_tag: String,
    pub highlight_post_tag: String,
    pub crop_marker: String,
    pub matching_strategy: MatchingStrategy,
    pub attributes_to_search_on: Option<Vec<String>>,
}

impl Default for SearchQuery {
    /// The query with every field empty, zero or off.
    fn default() -> (query: SearchQuery)
        ensures
            query.q is None,
            query.vector is None,
            query.hybrid is None,
            query.offset == 0,
            query.limit == 0,
            query.page is None,
            query.hits_per_page is None,
            query.attributes_to_retrieve is None,
            query.attributes_to_crop is None,
            query.crop_length == 0,
            query.attributes_to_highlight is None,
            !query.show_matches_position,
            !query.show_ranking_score,
            !query.show_ranking_score_details,
            query.filter is None,
            query.sort is None,
            query.facets is None,
            query.highlight_pre_tag@.len() == 0,
            query.highlight_post_tag@.len() == 0,
            query.crop_marker@.len() == 0,
            query.matching_strategy == MatchingStrategy::Last,
            query.attributes_to_search_on is None,
    {
        SearchQuery {
            q: None,
            vector: None,
            hybrid: None,
            offset: 0,
            limit: 0,
            page: None,
            hits_per_page: None,
            attributes_to_retrieve: None,
            attributes_to_crop: None,
            crop_length: 0,
            attributes_to_highlight: None,
            show_matches_position: false,
            show_ranking_score: false,
            show_ranking_score_details: false,
            filter: None,
            sort: None,
            facets: None,
            highlight_pre_tag: String::new(),
            highlight_post_tag: String::new(),
            crop_marker: String::new(),
            matching_strategy: MatchingStrategy::Last,
            attributes_to_search_on: None,
        }
    }
}

impl SearchQuery {
    /// Whether the results come in numbered pages: a page or a page size is asked for.
    pub open spec fn finite_pagination(self) -> bool {
        self.page is Some || self.hits_per_page is Some
    }

    /// Tells whether the results come in numbered pages.
    pub fn is_finite_pagination(&self) -> (finite: bool)
        ensures
            finite == self.finite_pagination(),
    {
        self.page.is_some() || self.hits_per_page.is_some()
    }
}

/// The name of an index.
#[derive(Debug, Clone, PartialEq, Eq)]
pub struct IndexUid {
    pub uid: String,
}

/// A search query and the index that it is for, with the fields of the query inline.
#[derive(Debug, Clone, PartialEq)]
pub struct SearchQueryWithIndex {
    pub index_uid: IndexUid,
    pub q: Option<String>,
    pub vector: Option<Vec<Single>>,
    pub hybrid: Option<HybridQuery>,
    pub offset: usize,
    pub limit: usize,
    pub page: Option<usize>,
    pub hits_per_page: Option<usize>,
    pub attributes_to_retrieve: Option<NameSet>,
    pub attributes_to_crop: Option<Vec<String>>,
    pub crop_length: usize,
    pub attributes_to_highlight: Option<NameSet>,
    pub show_matches_position: bool,
    pub show_ranking_score: bool,
    pub show_ranking_score_details: bool,
    pub filter: Option<Value>,
    pub sort: Option<Vec<String>>,
    pub facets: Option<Vec<String>>,
    pub highlight_pre_tag: String,
    pub highlight_post_tag: String,
    pub crop_marker: String,
    pub matching_strategy: MatchingStrategy,
    pub attributes_to_search_on: Option<Vec<String>>,
}

impl SearchQueryWithIndex {
    /// Parts the index from the query.
    pub fn into_index_query(self) -> (parts: (IndexUid, SearchQuery))
        ensures
            parts.0 == self.index_uid,
            parts.1.q == self.q,
            parts.1.vector == self.vector,
            parts.1.hybrid == self.hybrid,
            parts.1.offset == self.offset,
            parts.1.limit == self.limit,
            parts.1.page == self.page,
            parts.1.hits_per_page == self.hits_per_page,
            parts.1.attributes_to_retrieve == self.attributes_to_retrieve,
            parts.1.attributes_to_crop == self.attributes_to_crop,
            parts.1.crop_length == self.crop_length,
            parts.1.attributes_to_highlight == self.attributes_to_highlight,
            parts.1.show_matches_position == self.show_matches_position,
            parts.1.show_ranking_score == self.show_ranking_score,
            parts.1.show_ranking_score_details == self.show_ranking_score_details,
            parts.1.filter == self.filter,
            parts.1.sort == self.sort,
            parts.1.facets == self.facets,
            parts.1.highlight_pre_tag == self.highlight_pre_tag,
            parts.1.highlight_post_tag == self.highlight_post_tag,
            parts.1.crop_marker == self.crop_marker,
            parts.1.matching_strategy == self.matching_strategy,
            parts.1.attributes_to_search_on == self.attributes_to_search_on,
    {
        let SearchQueryWithIndex {
            index_uid,
            q,
            vector,
            hybrid,
            offset,
            limit,
            page,
            hits_per_page,
            attributes_to_retrieve,
            attributes_to_crop,
            crop_length,
            attributes_to_highlight,
            show_matches_position,
            show_ranking_score,
            show_ranking_score_details,
            filter,
            sort,
            facets,
            highlight_pre_tag,
            highlight_post_tag,
            crop_marker,
            matching_strategy,
            attributes_to_search_on,
        } = self;
        (
            index_uid,
            SearchQuery {
                q,
                vector,
                hybrid,
                offset,
                limit,
                page,
                hits_per_page,
                attributes_to_retrieve,
                attributes_to_crop,
                crop_length,
                attributes_to_highlight,
                show_matches_position,
                show_ranking_score,
                show_ranking_score_details,
                filter,
                sort,
                facets,
                highlight_pre_tag,
                highlight_post_tag,
                crop_marker,
                matching_strategy,
                attributes_to_search_on,
            },
        )
    }
}

/// Which of the words of a query have to be found.
#[derive(Debug, Copy, Clone, PartialEq, Eq, Structural)]
pub enum MatchingStrategy {
    /// Remove query words from last to first
    Last,
    /// All query words are mandatory
    All,
}

impl Default for MatchingStrategy {
    fn default() -> (strategy: MatchingStrategy)
        ensures
            strategy == MatchingStrategy::Last,
    {
        MatchingStrategy::Last
    }
}

/// Which of the words of a query the engine insists on.
#[derive(Debug, Copy, Clone, PartialEq, Eq, Structural)]
pub enum TermsMatchingStrategy {
    Last,
    All,
}

/// The strategy of the engine for a strategy of a query.
pub open spec fn terms_strategy(strategy: MatchingStrategy) -> TermsMatchingStrategy {
    match strategy {
        MatchingStrategy::Last => TermsMatchingStrategy::Last,
        MatchingStrategy::All => TermsMatchingStrategy::All,
    }
}

impl From<MatchingStrategy> for TermsMatchingStrategy {
    fn from(other: MatchingStrategy) -> (strategy: TermsMatchingStrategy) {
        match other {
            MatchingStrategy::Last => TermsMatchingStrategy::Last,
            MatchingStrategy::All => TermsMatchingStrategy::All,
        }
    }
}

impl vstd::std_specs::convert::FromSpecImpl<MatchingStrategy> for TermsMatchingStrategy {
    open spec fn obeys_from_spec() -> bool {
        true
    }

    open spec fn from_spec(other: MatchingStrategy) -> TermsMatchingStrategy {
        terms_strategy(other)
    }
}

/// The order in which the values of a facet come.
#[derive(Debug, Copy, Clone, PartialEq, Eq, Structural)]
pub enum FacetValuesSort {
    /// Facet values are sorted in alphabetical order, ascending from A to Z.
    Alpha,
    /// Facet values are sorted by decreasing count.
    /// The count is the number of records containing this facet value in the results of the query.
    Count,
}

impl Default for FacetValuesSort {
    fn default() -> (sort: FacetValuesSort)
        ensures
            sort == FacetValuesSort::Alpha,
    {
        FacetValuesSort::Alpha
    }
}

/// The order in which the engine lists the values of a facet.
#[derive(Debug, Copy, Clone, PartialEq, Eq, Structural)]
pub enum OrderBy {
    Lexicographic,
    Count,
}

impl Default for OrderBy {
    fn default() -> (order: OrderBy)
        ensures
            order == OrderBy::Lexicographic,
    {
        OrderBy::Lexicographic
    }
}

/// The order of the engine for an order of a setting.
pub open spec fn facet_order(sort: FacetValuesSort) -> OrderBy {
    match sort {
        FacetValuesSort::Alpha => OrderBy::Lexicographic,
        FacetValuesSort::Count => OrderBy::Count,
    }
}

impl From<FacetValuesSort> for OrderBy {
    fn from(val: FacetValuesSort) -> (order: OrderBy) {
        match val {
            FacetValuesSort::Alpha => OrderBy::Lexicographic,
            FacetValuesSort::Count => OrderBy::Count,
        }
    }
}

impl vstd::std_specs::convert::FromSpecImpl<FacetValuesSort> for OrderBy {
    open spec fn obeys_from_spec() -> bool {
        true
    }

    open spec fn from_spec(val: FacetValuesSort) -> OrderBy {
        facet_order(val)
    }
}

/// A semantic ratio is taken just where it is a number from zero to one, and is then kept as it is.
pub proof fn law_ratio_is_kept(
    ratio: Single,
    result: Result<SemanticRatio, InvalidSearchSemanticRatio>,
)
    requires
        call_ensures(SemanticRatio::try_from, (ratio,), result),
    ensures
        result is Ok <==> ratio.bits <= 0x3f80_0000 || ratio.bits == 0x8000_0000,
        result matches Ok(taken) ==> taken@.bits == ratio.bits,
{
    float::lemma_order_by_bits(ratio);
}

/// Nothing of a query is lost, added or moved when the index is parted from it: put together
/// again, the parts are what they were taken from.
pub proof fn law_parts_of_a_query(whole: SearchQueryWithIndex, parts: (IndexUid, SearchQuery))
    requires
        call_ensures(SearchQueryWithIndex::into_index_query, (whole,), parts),
    ensures
        whole == (SearchQueryWithIndex {
            index_uid: parts.0,
            q: parts.1.q,
            vector: parts.1.vector,
            hybrid: parts.1.hybrid,
            offset: parts.1.offset,
            limit: parts.1.limit,
            page: parts.1.page,
            hits_per_page: parts.1.hits_per_page,
            attributes_to_retrieve: parts.1.attributes_to_retrieve,
            attributes_to_crop: parts.1.attributes_to_crop,
            crop_length: parts.1.crop_length,
            attributes_to_highlight: parts.1.attributes_to_highlight,
            show_matches_position: parts.1.show_matches_position,
            show_ranking_score: parts.1.show_ranking_score,
            show_ranking_score_details: parts.1.show_ranking_score_details,
            filter: parts.1.filter,
            sort: parts.1.sort,
            facets: parts.1.facets,
            highlight_pre_tag: parts.1.highlight_pre_tag,
            highlight_post_tag: parts.1.highlight_post_tag,
            crop_marker: parts.1.crop_marker,
            matching_strategy: parts.1.matching_strategy,
            attributes_to_search_on: parts.1.attributes_to_search_on,
        }),
{
}

/// The strategies of a query and those of the engine go together one by one, by their names.
pub proof fn law_strategies_go_together(
    strategy: MatchingStrategy,
    terms_strategy: TermsMatchingStrategy,
)
    requires
        call_ensures(
            <TermsMatchingStrategy as From<MatchingStrategy>>::from,
            (strategy,),
            terms_strategy,
        ),
    ensures
        terms_strategy is Last <==> strategy is Last,
        terms_strategy is All <==> strategy is All,
{
}

/// The orders of a setting and those of the engine go together one by one: alphabetical with
/// lexicographic, and count with count.
pub proof fn law_orders_go_together(sort: FacetValuesSort, order: OrderBy)
    requires
        call_ensures(<OrderBy as From<FacetValuesSort>>::from, (sort,), order),
    ensures
        order is Lexicographic <==> sort is Alpha,
        order is Count <==> sort is Count,
{
}

/// Two sets of names are equal just where each name of the one is a name of the other, in whatever
/// order and however often.
pub proof fn law_equal_name_sets(left: NameSet, right: NameSet, equal: bool)
    requires
        call_ensures(<NameSet as PartialEq>::eq, (&left, &right), equal),
    ensures
        equal <==> {
            &&& forall|i: int|
                0 <= i < left.names@.len() ==> text::mentions(
                    right.names@,
                    #[trigger] left.names@[i]@,
                )
            &&& forall|i: int|
                0 <= i < right.names@.len() ==> text::mentions(
                    left.names@,
                    #[trigger] right.names@[i]@,
                )
        },
{
    assert forall|i: int| 0 <= i < left.names@.len() implies left@.contains(
        #[trigger] left.names@[i]@,
    ) by {}
    assert forall|i: int| 0 <= i < right.names@.len() implies right@.contains(
        #[trigger] right.names@[i]@,
    ) by {}
    if !equal {
        if left@.subset_of(right@) && right@.subset_of(left@) {
            assert(left@ =~= right@);
        }
    }
}

/// Results come in numbered pages just where a query asks for a page or for a page size.
pub proof fn law_pages_are_asked_for(query: SearchQuery, finite: bool)
    requires
        call_ensures(SearchQuery::is_finite_pagination, (&query,), finite),
    ensures
        finite <==> query.page is Some || query.hits_per_page is Some,
{
}

/// A query that says nothing is for nothing: no words and no vector, no results from the first on,
/// nothing retrieved by name, cropped, highlighted, filtered, sorted, counted or shown besides, and
/// its words matched from the last to the first.
pub proof fn law_empty_query(query: SearchQuery)
    requires
        call_ensures(<SearchQuery as Default>::default, (), query),
    ensures
        query.q is None && query.vector is None && query.hybrid is None,
        query.offset == 0 && query.limit == 0,
        query.page is None && query.hits_per_page is None,
        query.attributes_to_retrieve is None && query.attributes_to_search_on is None,
        query.attributes_to_crop is None && query.crop_length == 0,
        query.attributes_to_highlight is None,
        !query.show_matches_position && !query.show_ranking_score
            && !query.show_ranking_score_details,
        query.filter is None && query.sort is None && query.facets is None,
        query.highlight_pre_tag@.len() == 0 && query.highlight_post_tag@.len() == 0,
        query.crop_marker@.len() == 0,
        query.matching_strategy is Last,
{
}

/// What stands for what is not said: twenty results from the first on, ten words of a cropped text
/// with an ellipsis beside them, `em` tags round the words that match, the two searches in equal
/// parts, words left out from the last to the first, and facet values from A to Z.
pub proof fn law_defaults(
    crop_marker: String,
    pre_tag: String,
    post_tag: String,
    ratio: SemanticRatio,
    hybrid: HybridQuery,
    strategy: MatchingStrategy,
    sort: FacetValuesSort,
    order: OrderBy,
)
    requires
        call_ensures(default_crop_marker, (), crop_marker),
        call_ensures(default_highlight_pre_tag, (), pre_tag),
        call_ensures(default_highlight_post_tag, (), post_tag),
        call_ensures(<SemanticRatio as Default>::default, (), ratio),
        call_ensures(<HybridQuery as Default>::default, (), hybrid),
        call_ensures(<MatchingStrategy as Default>::default, (), strategy),
        call_ensures(<FacetValuesSort as Default>::default, (), sort),
        call_ensures(<OrderBy as Default>::default, (), order),
    ensures
        DEFAULT_SEARCH_OFFSET == 0 && DEFAULT_SEARCH_LIMIT == 20 && DEFAULT_CROP_LENGTH == 10,
        crop_marker@ == "…"@,
        pre_tag@ == "<em>"@ && post_tag@ == "</em>"@,
        ratio@.bits == 0x3f00_0000,
        hybrid.semantic_ratio@ == ratio@ && hybrid.embedder is None,
        strategy is Last,
        sort is Alpha,
        order is Lexicographic,
{
}

} // verus!
