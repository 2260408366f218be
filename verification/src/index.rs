//! What a search asks of the index that holds the documents.
use vstd::prelude::*;

use crate::document::Reader;
use crate::facets::{FacetPlan, FacetSearch};
use crate::fields::{FieldId, FieldsIdsMap};
use crate::filter::FilterParser;
use crate::float::{Double, Single};
use crate::geo::Metric;
use crate::json::Document;
use crate::matcher::Matcher;
use crate::prepare::{PreparedSearch, SortParser};
use crate::query::OrderBy;
use crate::result::{FacetDistribution, FacetValueHit};
use crate::selector::Selector;

verus! {

/// The number of a document.
pub type DocumentId = u32;

/// One part of the score of a document.
#[derive(Debug, Clone, PartialEq)]
pub struct ScoreDetails<D> {
    /// How close the vector of the query comes to one of the document, where this part is about
    /// vectors and the document has one.
    pub similarity: Option<Single>,
    /// What else the engine knows of this part.
    pub detail: D,
}

/// What the engine found.
pub struct Executed<W, C, D> {
    pub documents_ids: Vec<DocumentId>,
    /// The words of the query, in the forms in which they can be found.
    pub matching_words: W,
    /// The documents that match, whether or not they are returned.
    pub candidates: C,
    /// The number of candidates.
    pub candidates_len: u64,
    pub document_scores: Vec<Vec<ScoreDetails<D>>>,
    /// Whether the search was cut off before its end.
    pub degraded: bool,
}

/// How texts are split into words.
#[derive(Debug, Clone, PartialEq, Eq)]
pub struct TokenizerSettings {
    /// Whether it is kept where each character of a word stood before it was normalised.
    pub create_char_map: bool,
    /// The languages to expect in each script, if any are known.
    pub allow_list: Option<Vec<(String, Vec<String>)>>,
    pub separators: Option<Vec<String>>,
    pub words_dict: Option<Vec<String>>,
}

/// How the words that match are marked.
#[derive(Debug, Clone, PartialEq, Eq)]
pub struct Markup {
    pub crop_marker: String,
    pub highlight_prefix: String,
    pub highlight_suffix: String,
}

/// An index, as it stands while a search goes on. Nothing is assumed of what it answers.
pub trait Index: Reader + Selector + Metric + FilterParser + SortParser {
    type Words;

    type Candidates;

    type Detail;

    type Builder: Matcher;

    /// The setting of how many milliseconds a search may take.
    fn search_cutoff(&self) -> Result<Option<u64>, Self::Error>;

    /// The setting of how many results can be reached.
    fn pagination_max_total_hits(&self) -> Result<Option<u64>, Self::Error>;

    /// Runs a search.
    fn execute(&self, search: &PreparedSearch<Self::Filter, Self::Sort>) -> Result<
        Executed<Self::Words, Self::Candidates, Self::Detail>,
        Self::Error,
    >;

    /// The fields of the documents.
    fn fields_ids_map(&self) -> FieldsIdsMap;

    /// The setting of which fields documents show.
    fn displayed_fields_ids(&self) -> Result<Option<Vec<FieldId>>, Self::Error>;

    /// The languages of the documents, by their scripts.
    fn script_language(&self) -> Result<Vec<(String, Vec<String>)>, Self::Error>;

    /// The setting of what parts words.
    fn allowed_separators(&self) -> Result<Option<Vec<String>>, Self::Error>;

    /// The setting of which texts are words as a whole.
    fn dictionary(&self) -> Result<Option<Vec<String>>, Self::Error>;

    /// What finds the words of a query in texts.
    fn matcher(
        &self,
        matching_words: Self::Words,
        tokenizer: TokenizerSettings,
        markup: Markup,
    ) -> Self::Builder;

    /// The stored bytes of documents.
    fn documents(&self, ids: Vec<DocumentId>) -> Result<Vec<(DocumentId, Vec<u8>)>, Self::Error>;

    /// The parts of a score put together.
    fn global_score(&self, score: &Vec<ScoreDetails<Self::Detail>>) -> Double;

    /// The parts of a score, in words.
    fn score_details(&self, score: &Vec<ScoreDetails<Self::Detail>>) -> Document;

    /// The setting of how many values of a facet are listed.
    fn max_values_per_facet(&self) -> Result<Option<u64>, Self::Error>;

    /// The setting of the order in which the values of facets come, by the names of the facets; a
    /// star stands for those that are not named.
    fn sort_facet_values_by(&self) -> Result<Vec<(String, OrderBy)>, Self::Error>;

    /// The facets of documents.
    fn facet_distribution(
        &self,
        candidates: &Self::Candidates,
        plan: &FacetPlan,
    ) -> Result<FacetDistribution, Self::Error>;

    /// The least and the greatest number that each facet of documents takes.
    fn facet_stats(&self, candidates: &Self::Candidates, plan: &FacetPlan) -> Result<
        Vec<(String, (Double, Double))>,
        Self::Error,
    >;

    /// Searches for the values of a facet.
    fn search_for_facet_values(&self, search: &FacetSearch<Self::Filter, Self::Sort>) -> Result<
        Vec<FacetValueHit>,
        Self::Error,
    >;

    /// How many milliseconds the search has taken so far.
    fn elapsed_ms(&self) -> u128;
}

} // verus!
