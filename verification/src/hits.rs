//! Hits: what a query gets back of each document that was found.
use std::collections::{BTreeMap, BTreeSet};

use vstd::prelude::*;

use crate::document;
use crate::document::make_document;
use crate::error::SearchError;
use crate::fields;
use crate::fields::{displayed_ids, field_names, to_retrieve_ids, FieldId, FieldsIdsMap};
use crate::float::Single;
use crate::formatted;
use crate::formatted::format_fields;
use crate::geo;
use crate::geo::{find_geo_point, is_sortable, note_distance, GeoPoint, Point};
use crate::index::{DocumentId, Index, ScoreDetails};
use crate::json::Field;
use crate::options;
use crate::options::{compute_formatted_options, FormatOptions};
use crate::prepare;
use crate::query;
use crate::query::{NameSet, SearchQuery};
use crate::result::SearchHit;
use crate::selector;
use crate::text;

verus! {

/// What is the same for all hits of a query.
pub struct HitPlan {
    pub fields_ids_map: FieldsIdsMap,
    /// The fields that documents show.
    pub displayed_ids: BTreeSet<FieldId>,
    /// The fields that the query gets back.
    pub to_retrieve_ids: BTreeSet<FieldId>,
    /// The fields of the formatted copies, and how each is formatted.
    pub formatted_options: BTreeMap<FieldId, FormatOptions>,
    /// The point that distances are measured from.
    pub base: Option<GeoPoint>,
}

/// The elements of a list, or none where there is no list.
pub open spec fn elements_or_none(list: Option<Vec<String>>) -> Seq<String> {
    match list {
        Some(list) => list@,
        None => Seq::empty(),
    }
}

/// The names of a set, or none where there is no set.
pub open spec fn names_or_none(set: Option<NameSet>) -> Set<Seq<char>> {
    match set {
        Some(set) => set@,
        None => Set::empty(),
    }
}

/// The point that a query sorts by.
pub open spec fn query_point(query: SearchQuery) -> Option<Point> {
    match query.sort {
        Some(sort) => geo::the_sort_point(text::texts(sort@)),
        None => None,
    }
}

/// Whether this is the plan for the hits of a query, on an index with these fields, of which
/// documents show those that are listed.
pub open spec fn planned(
    plan: HitPlan,
    query: SearchQuery,
    names: Map<FieldId, Seq<char>>,
    listed: Option<Vec<FieldId>>,
) -> bool {
    let displayed = fields::displayed_fields(prepare::elements(listed), names);
    let to_retrieve = fields::retrieved_fields(
        query::names_of(query.attributes_to_retrieve),
        names,
        displayed,
    );
    &&& plan.fields_ids_map@ == names
    &&& plan.displayed_ids@ == displayed
    &&& plan.to_retrieve_ids@ == to_retrieve
    &&& plan.formatted_options@ == options::formatted_fields(
        names_or_none(query.attributes_to_highlight),
        elements_or_none(query.attributes_to_crop),
        query.crop_length,
        to_retrieve,
        names,
        displayed,
    )
    &&& geo::point_of(plan.base) == query_point(query)
}

/// A list, or an empty one where there is none.
fn list_or_none(list: &Option<Vec<String>>) -> (elements: Vec<String>)
    ensures
        elements@ == elements_or_none(*list),
{
    match list {
        Some(list) => {
            let copy = list.clone();
            assert(copy@ =~= list@);
            copy
        },
        None => Vec::new(),
    }
}

/// A set of names, or an empty one where there is none.
fn set_or_none(set: &Option<NameSet>) -> (names: NameSet)
    ensures
        names@ == names_or_none(*set),
{
    match set {
        Some(set) => {
            let names = set.names.clone();
            assert(names@ =~= set.names@);
            NameSet { names }
        },
        None => NameSet::new(),
    }
}

/// The plan for the hits of a query, from the fields of the index and the list of those that
/// documents show, if there is one.
pub fn plan_hits(
    query: &SearchQuery,
    fields_ids_map: FieldsIdsMap,
    listed: Option<Vec<FieldId>>,
) -> (plan: HitPlan)
    ensures
        planned(plan, *query, fields_ids_map@, listed),
{
    let displayed_ids = displayed_ids(listed, &fields_ids_map);
    let to_retrieve_ids = to_retrieve_ids(
        &query.attributes_to_retrieve,
        &fields_ids_map,
        &displayed_ids,
    );
    let attr_to_highlight = set_or_none(&query.attributes_to_highlight);
    let attr_to_crop = list_or_none(&query.attributes_to_crop);
    let formatted_options = compute_formatted_options(
        &attr_to_highlight,
        &attr_to_crop,
        query.crop_length,
        &to_retrieve_ids,
        &fields_ids_map,
        &displayed_ids,
    );
    let base = match &query.sort {
        Some(sort) => find_geo_point(sort),
        None => None,
    };
    HitPlan { fields_ids_map, displayed_ids, to_retrieve_ids, formatted_options, base }
}

/// The similarity of a document: the first one that its score has.
pub open spec fn first_similarity<D>(score: Seq<ScoreDetails<D>>) -> Option<Single>
    decreases score.len(),
{
    if score.len() == 0 {
        None
    } else {
        match first_similarity(score.drop_last()) {
            Some(similarity) => Some(similarity),
            None => score.last().similarity,
        }
    }
}

/// A similarity that was found stands, whatever comes behind it.
proof fn lemma_similarity_stays<D>(score: Seq<ScoreDetails<D>>, len: int)
    requires
        0 <= len <= score.len(),
        first_similarity(score.take(len)) is Some,
    ensures
        first_similarity(score) == first_similarity(score.take(len)),
    decreases score.len() - len,
{
    if len == score.len() {
        assert(score.take(len) == score);
    } else {
        assert(score.take(len + 1).drop_last() == score.take(len));
        lemma_similarity_stays(score, len + 1);
    }
}

/// The similarity of a document.
pub fn semantic_score<D>(score: &Vec<ScoreDetails<D>>) -> (similarity: Option<Single>)
    ensures
        similarity == first_similarity(score@),
{
    let mut i: usize = 0;
    while i < score.len()
        invariant
            i <= score.len(),
            first_similarity(score@.take(i as int)) is None,
        decreases score.len() - i,
    {
        assert(score@.take(i + 1).drop_last() == score@.take(i as int));
        if score[i].similarity.is_some() {
            proof {
                lemma_similarity_stays(score@, i + 1);
            }
            return score[i].similarity;
        }
        i += 1;
    }
    assert(score@.take(i as int) == score@);
    None
}

/// Whether a hit has of its score what the query asks for.
pub open spec fn scored<T: Index>(
    index: T,
    query: SearchQuery,
    score: Vec<ScoreDetails<T::Detail>>,
    hit: SearchHit,
) -> bool {
    &&& hit.semantic_score == first_similarity(score@)
    &&& if query.show_ranking_score {
        hit.ranking_score is Some && call_ensures(
            T::global_score,
            (&index, &score),
            hit.ranking_score->0,
        )
    } else {
        hit.ranking_score is None
    }
    &&& if query.show_ranking_score_details {
        hit.ranking_score_details is Some && call_ensures(
            T::score_details,
            (&index, &score),
            hit.ranking_score_details->0,
        )
    } else {
        hit.ranking_score_details is None
    }
}

/// Whether a document that shows these fields can give this hit.
pub open spec fn hit_of<T: Index>(
    index: T,
    query: SearchQuery,
    plan: HitPlan,
    builder: T::Builder,
    shown: Seq<Field>,
    hit: SearchHit,
) -> bool {
    exists|retrieved: Seq<Field>|
        #![trigger geo::distance_noted(
            index,
            geo::point_of(plan.base),
            retrieved,
            hit.document@,
        )]
        {
            &&& selector::selects(
                index,
                shown,
                fields::names_in_order(plan.to_retrieve_ids@, plan.fields_ids_map@),
                retrieved,
            )
            &&& geo::distance_noted(index, geo::point_of(plan.base), retrieved, hit.document@)
            &&& formatted::formats_to(
                builder,
                index,
                shown,
                plan.fields_ids_map@,
                plan.formatted_options@,
                query.show_matches_position,
                plan.displayed_ids@,
                formatted::places_of(hit.matches_position),
                hit.formatted@,
            )
        }
}

/// Whether stored bytes with a score can give this hit.
pub open spec fn hit_made<T: Index>(
    index: T,
    query: SearchQuery,
    plan: HitPlan,
    builder: T::Builder,
    bytes: Seq<u8>,
    score: Vec<ScoreDetails<T::Detail>>,
    hit: SearchHit,
) -> bool {
    &&& geo::sortable(geo::point_of(plan.base))
    &&& scored(index, query, score, hit)
    &&& exists|shown: Seq<Field>| #[trigger]
        document::shows(
            index,
            plan.displayed_ids@,
            plan.fields_ids_map@,
            document::stored_entries(bytes),
            shown,
        ) && hit_of(index, query, plan, builder, shown, hit)
}

/// Whether this can be why stored bytes give no hit.
pub open spec fn hit_failed<T: Index>(
    index: T,
    plan: HitPlan,
    bytes: Seq<u8>,
    error: SearchError<T::Error>,
) -> bool {
    ||| document::shows_not(
        index,
        plan.displayed_ids@,
        plan.fields_ids_map@,
        document::stored_entries(bytes),
        error,
    )
    ||| error is UnmeasurablePoint && !geo::sortable(geo::point_of(plan.base)) && exists|
        shown: Seq<Field>,
    | #[trigger]
        document::shows(
            index,
            plan.displayed_ids@,
            plan.fields_ids_map@,
            document::stored_entries(bytes),
            shown,
        )
}

/// Makes the hit of stored bytes with a score.
pub fn make_hit<T: Index>(
    index: &T,
    query: &SearchQuery,
    plan: &HitPlan,
    builder: &T::Builder,
    bytes: &[u8],
    score: &Vec<ScoreDetails<T::Detail>>,
) -> (result: Result<SearchHit, SearchError<T::Error>>)
    requires
        plan.to_retrieve_ids@.subset_of(plan.displayed_ids@),
        plan.formatted_options@.dom().subset_of(plan.displayed_ids@),
    ensures
        match result {
            Ok(hit) => hit_made(*index, *query, *plan, *builder, bytes@, *score, hit),
            Err(error) => hit_failed(*index, *plan, bytes@, error),
        },
{
    // First generate a document with all the displayed fields
    let displayed_document = make_document(
        &plan.displayed_ids,
        &plan.fields_ids_map,
        bytes,
        index,
    )?;
    // select the attributes to retrieve
    let attributes_to_retrieve = field_names(&plan.to_retrieve_ids, &plan.fields_ids_map);
    let mut document = index.select_values(&displayed_document, &attributes_to_retrieve);
    let ghost retrieved = document@;
    assert(selector::selects(
        *index,
        displayed_document@,
        text::texts(attributes_to_retrieve@),
        retrieved,
    ));
    let (matches_position, formatted) = format_fields(
        &displayed_document,
        &plan.fields_ids_map,
        builder,
        index,
        &plan.formatted_options,
        query.show_matches_position,
        &plan.displayed_ids,
    );
    if !is_sortable(&plan.base) {
        return Err(SearchError::UnmeasurablePoint);
    }
    note_distance(&plan.base, &mut document, index);
    let semantic_score = semantic_score(score);
    let ranking_score = if query.show_ranking_score {
        Some(index.global_score(score))
    } else {
        None
    };
    let ranking_score_details = if query.show_ranking_score_details {
        Some(index.score_details(score))
    } else {
        None
    };
    let hit = SearchHit {
        document,
        formatted,
        matches_position,
        ranking_score,
        ranking_score_details,
        semantic_score,
    };
    proof {
        assert(scored(*index, *query, *score, hit));
        assert(geo::distance_noted(*index, geo::point_of(plan.base), retrieved, hit.document@));
        assert(formatted::formats_to(
            *builder,
            *index,
            displayed_document@,
            plan.fields_ids_map@,
            plan.formatted_options@,
            query.show_matches_position,
            plan.displayed_ids@,
            formatted::places_of(hit.matches_position),
            hit.formatted@,
        ));
        assert(hit_of(*index, *query, *plan, *builder, displayed_document@, hit));
        assert(hit_made(*index, *query, *plan, *builder, bytes@, *score, hit));
    }
    Ok(hit)
}

/// The number of hits: documents and scores go together, as many as there are of both.
pub open spec fn hit_count(documents: nat, scores: nat) -> nat {
    if documents <= scores {
        documents
    } else {
        scores
    }
}

/// Whether documents with their scores can give these hits.
pub open spec fn hits_made<T: Index>(
    index: T,
    query: SearchQuery,
    plan: HitPlan,
    builder: T::Builder,
    documents: Seq<(DocumentId, Vec<u8>)>,
    scores: Seq<Vec<ScoreDetails<T::Detail>>>,
    hits: Seq<SearchHit>,
) -> bool {
    &&& hits.len() == hit_count(documents.len(), scores.len())
    &&& forall|i: int|
        0 <= i < hits.len() ==> hit_made(
            index,
            query,
            plan,
            builder,
            documents[i].1@,
            scores[i],
            #[trigger] hits[i],
        )
}

/// Whether this can be why documents with their scores give no hits: the first one that gives none.
pub open spec fn hits_failed<T: Index>(
    index: T,
    query: SearchQuery,
    plan: HitPlan,
    builder: T::Builder,
    documents: Seq<(DocumentId, Vec<u8>)>,
    scores: Seq<Vec<ScoreDetails<T::Detail>>>,
    error: SearchError<T::Error>,
) -> bool {
    exists|at: int, hits: Seq<SearchHit>|
        #![trigger hits_made(
            index,
            query,
            plan,
            builder,
            documents.take(at),
            scores,
            hits,
        )]
        {
            &&& 0 <= at < hit_count(documents.len(), scores.len())
            &&& hits_made(index, query, plan, builder, documents.take(at), scores, hits)
            &&& hit_failed(index, plan, documents[at].1@, error)
        }
}

/// Makes the hits of documents with their scores.
pub fn make_hits<T: Index>(
    index: &T,
    query: &SearchQuery,
    plan: &HitPlan,
    builder: &T::Builder,
    documents: &Vec<(DocumentId, Vec<u8>)>,
    document_scores: &Vec<Vec<ScoreDetails<T::Detail>>>,
) -> (result: Result<Vec<SearchHit>, SearchError<T::Error>>)
    requires
        plan.to_retrieve_ids@.subset_of(plan.displayed_ids@),
        plan.formatted_options@.dom().subset_of(plan.displayed_ids@),
    ensures
        match result {
            Ok(hits) => hits_made(
                *index,
                *query,
                *plan,
                *builder,
                documents@,
                document_scores@,
                hits@,
            ),
            Err(error) => hits_failed(
                *index,
                *query,
                *plan,
                *builder,
                documents@,
                document_scores@,
                error,
            ),
        },
{
    let mut hits: Vec<SearchHit> = Vec::new();
    let mut i: usize = 0;
    while i < documents.len() && i < document_scores.len()
        invariant
            i <= documents.len(),
            i <= document_scores.len(),
            plan.to_retrieve_ids@.subset_of(plan.displayed_ids@),
            plan.formatted_options@.dom().subset_of(plan.displayed_ids@),
            hits@.len() == i,
            forall|k: int|
                0 <= k < hits@.len() ==> hit_made(
                    *index,
                    *query,
                    *plan,
                    *builder,
                    documents@[k].1@,
                    document_scores@[k],
                    #[trigger] hits@[k],
                ),
        decreases documents.len() - i,
    {
        match make_hit(
            index,
            query,
            plan,
            builder,
            documents[i].1.as_slice(),
            &document_scores[i],
        ) {
            Ok(hit) => {
                hits.push(hit);
            },
            Err(error) => {
                proof {
                    let before = documents@.take(i as int);
                    assert forall|k: int| 0 <= k < hits@.len() implies hit_made(
                        *index,
                        *query,
                        *plan,
                        *builder,
                        before[k].1@,
                        document_scores@[k],
                        #[trigger] hits@[k],
                    ) by {
                        assert(before[k] == documents@[k]);
                    }
                    assert(hits_made(
                        *index,
                        *query,
                        *plan,
                        *builder,
                        before,
                        document_scores@,
                        hits@,
                    ));
                }
                return Err(error);
            },
        }
        i += 1;
    }
    Ok(hits)
}

/// In a plan, what a query gets back and what is formatted is all among what documents show.
pub proof fn law_nothing_hidden_is_planned(
    plan: HitPlan,
    query: SearchQuery,
    names: Map<FieldId, Seq<char>>,
    listed: Option<Vec<FieldId>>,
)
    requires
        planned(plan, query, names, listed),
    ensures
        plan.to_retrieve_ids@.subset_of(plan.displayed_ids@),
        plan.formatted_options@.dom().subset_of(plan.displayed_ids@),
{
}

/// The plan for the hits of a query has the fields of the index; the fields that documents show,
/// which are those that are listed, or else all; and of these the ones that the query gets back,
/// which are all, or those that it names.
pub proof fn law_planned_fields(
    query: SearchQuery,
    map: FieldsIdsMap,
    listed: Option<Vec<FieldId>>,
    plan: HitPlan,
    id: FieldId,
)
    requires
        call_ensures(plan_hits, (&query, map, listed), plan),
    ensures
        plan.fields_ids_map@ == map@,
        listed is None ==> (plan.displayed_ids@.contains(id) <==> map@.contains_key(id)),
        listed is Some ==> (plan.displayed_ids@.contains(id) <==> exists|i: int|
            0 <= i < listed->0@.len() && #[trigger] listed->0@[i] == id),
        query.attributes_to_retrieve is None ==> (plan.to_retrieve_ids@.contains(id)
            <==> plan.displayed_ids@.contains(id)),
        query.attributes_to_retrieve is Some ==> (plan.to_retrieve_ids@.contains(id)
            <==> plan.displayed_ids@.contains(id) && (text::mentions(
            query.attributes_to_retrieve->0.names@,
            "*"@,
        ) || map@.contains_key(id) && text::mentions(
            query.attributes_to_retrieve->0.names@,
            map@[id],
        ))),
{
    if query.attributes_to_retrieve is Some {
        let set = query.attributes_to_retrieve->0;
        assert(set@.contains("*"@) <==> text::mentions(set.names@, "*"@));
        if map@.contains_key(id) {
            assert(set@.contains(map@[id]) <==> text::mentions(set.names@, map@[id]));
        }
    }
}

/// In the plan for the hits of a query, a field that documents show is highlighted just where the
/// query names it, or a star, among the attributes to highlight; and it is cropped just where an
/// attribute to crop is about it, as the last of those says, which has the crop length of the query
/// where it gives none itself. Any other field is left as it is, if it is there at all; and where
/// any field is there, all that are retrieved are.
pub proof fn law_planned_formats(
    query: SearchQuery,
    map: FieldsIdsMap,
    listed: Option<Vec<FieldId>>,
    plan: HitPlan,
    crops: Seq<String>,
    id: FieldId,
    at: int,
    other: FieldId,
)
    requires
        call_ensures(plan_hits, (&query, map, listed), plan),
        query.attributes_to_crop is None ==> crops.len() == 0,
        query.attributes_to_crop is Some ==> crops == query.attributes_to_crop->0@,
        -1 <= at < crops.len(),
        at >= 0 ==> options::crop_name(crops[at]@) == "*"@ || map@.contains_key(id)
            && options::crop_name(crops[at]@) == map@[id],
        forall|j: int|
            at < j < crops.len() ==> options::crop_name((#[trigger] crops[j])@) != "*"@ && !(
            map@.contains_key(id) && options::crop_name(crops[j]@) == map@[id]),
    ensures
        ({
            let formats = plan.formatted_options@;
            let asked = query.attributes_to_highlight is Some && (text::mentions(
                query.attributes_to_highlight->0.names@,
                "*"@,
            ) || map@.contains_key(id) && text::mentions(
                query.attributes_to_highlight->0.names@,
                map@[id],
            ));
            let marked = plan.displayed_ids@.contains(id) && (asked || at >= 0);
            &&& marked ==> {
                &&& formats.contains_key(id)
                &&& formats[id].highlight <==> asked
                &&& at >= 0 ==> formats[id].crop == Some(
                    options::crop_length_of(crops[at]@, query.crop_length),
                )
                &&& at == -1 ==> formats[id].crop is None
            }
            &&& !marked && formats.contains_key(id) ==> {
                &&& plan.to_retrieve_ids@.contains(id)
                &&& !formats[id].highlight && formats[id].crop is None
            }
            &&& formats.contains_key(other) && plan.to_retrieve_ids@.contains(id)
                ==> formats.contains_key(id)
        }),
{
    assert(elements_or_none(query.attributes_to_crop) =~= crops);
    let highlights = names_or_none(query.attributes_to_highlight);
    if query.attributes_to_highlight is Some {
        let set = query.attributes_to_highlight->0;
        assert(set@.contains("*"@) <==> text::mentions(set.names@, "*"@));
        if map@.contains_key(id) {
            assert(set@.contains(map@[id]) <==> text::mentions(set.names@, map@[id]));
        }
    }
    options::law_format_of_a_field(
        highlights,
        crops,
        query.crop_length,
        plan.to_retrieve_ids@,
        map@,
        plan.displayed_ids@,
        id,
        at,
        other,
    );
}

/// The point that distances are measured from is the first one that the first sort criterion of the
/// query with one writes; there is none without such a criterion.
pub proof fn law_planned_point(
    query: SearchQuery,
    map: FieldsIdsMap,
    listed: Option<Vec<FieldId>>,
    plan: HitPlan,
    sorts: Seq<String>,
    at: int,
    point: Point,
)
    requires
        call_ensures(plan_hits, (&query, map, listed), plan),
        query.sort is None ==> sorts.len() == 0,
        query.sort is Some ==> sorts == query.sort->0@,
        0 <= at <= sorts.len(),
        forall|j: int| 0 <= j < at ==> geo::no_point((#[trigger] sorts[j])@),
        at < sorts.len() ==> geo::first_point(sorts[at]@, point),
    ensures
        at < sorts.len() ==> plan.base is Some && plan.base->0.lat@ == point.lat
            && plan.base->0.lng@ == point.lng,
        at == sorts.len() ==> plan.base is None,
{
    if query.sort is Some {
        let criteria = text::texts(sorts);
        assert forall|j: int| 0 <= j < at implies geo::no_point(#[trigger] criteria[j]) by {
            assert(criteria[j] == sorts[j]@);
        }
        let expected: Option<Point> = if at < sorts.len() {
            assert(criteria[at] == sorts[at]@);
            Some(point)
        } else {
            None
        };
        assert(geo::sort_point(criteria, expected));
        geo::law_one_sort_point(criteria, expected, geo::the_sort_point(criteria));
    }
}

/// The similarity of a document is that of the first part of its score that has one.
pub proof fn law_first_similarity<D>(
    score: Vec<ScoreDetails<D>>,
    similarity: Option<Single>,
    at: int,
)
    requires
        call_ensures(semantic_score::<D>, (&score,), similarity),
        0 <= at <= score@.len(),
        forall|i: int| 0 <= i < at ==> (#[trigger] score@[i]).similarity is None,
    ensures
        at < score@.len() && score@[at].similarity is Some ==> similarity
            == score@[at].similarity,
        at == score@.len() ==> similarity is None,
{
    lemma_first_similarity(score@, at);
}

/// Parts of a score without a similarity do not count.
proof fn lemma_first_similarity<D>(score: Seq<ScoreDetails<D>>, at: int)
    requires
        0 <= at <= score.len(),
        forall|i: int| 0 <= i < at ==> (#[trigger] score[i]).similarity is None,
    ensures
        first_similarity(score.take(at)) is None,
        at < score.len() && score[at].similarity is Some ==> first_similarity(score)
            == score[at].similarity,
        at == score.len() ==> first_similarity(score) is None,
    decreases at,
{
    if at > 0 {
        lemma_first_similarity(score, at - 1);
        assert(score.take(at).drop_last() == score.take(at - 1));
        assert(score.take(at).last() == score[at - 1]);
    }
    if at == score.len() {
        assert(score.take(at) == score);
    } else if score[at].similarity is Some {
        assert(score.take(at + 1).drop_last() == score.take(at));
        assert(score.take(at + 1).last() == score[at]);
        lemma_similarity_stays(score, at + 1);
    }
}

/// A hit has the similarity of its own score, and its ranking score and the details of it just
/// where the query asks for them, as the index makes them of that very score.
pub proof fn law_hit_has_its_score<T: Index>(
    index: T,
    query: SearchQuery,
    plan: HitPlan,
    builder: T::Builder,
    bytes: &[u8],
    score: Vec<ScoreDetails<T::Detail>>,
    hit: SearchHit,
    at: int,
)
    requires
        call_ensures(
            make_hit::<T>,
            (&index, &query, &plan, &builder, bytes, &score),
            Ok(hit),
        ),
        0 <= at <= score@.len(),
        forall|i: int| 0 <= i < at ==> (#[trigger] score@[i]).similarity is None,
    ensures
        at < score@.len() && score@[at].similarity is Some ==> hit.semantic_score
            == score@[at].similarity,
        at == score@.len() ==> hit.semantic_score is None,
        hit.ranking_score is Some <==> query.show_ranking_score,
        hit.ranking_score matches Some(ranking_score) ==> call_ensures(
            T::global_score,
            (&index, &score),
            ranking_score,
        ),
        hit.ranking_score_details is Some <==> query.show_ranking_score_details,
        hit.ranking_score_details matches Some(details) ==> call_ensures(
            T::score_details,
            (&index, &score),
            details,
        ),
        hit.matches_position is Some <==> query.show_matches_position,
{
    lemma_first_similarity(score@, at);
}

/// The document of a hit is the part of the shown document that the retrieved fields select, by
/// ascending number, with its distance from the point of the plan; and its formatted copy is made
/// of the shown document, by the formats of the plan.
pub proof fn law_hit_is_of_its_document<T: Index>(
    index: T,
    query: SearchQuery,
    plan: HitPlan,
    builder: T::Builder,
    bytes: &[u8],
    score: Vec<ScoreDetails<T::Detail>>,
    hit: SearchHit,
    order: Seq<FieldId>,
    names: Seq<Seq<char>>,
)
    requires
        call_ensures(
            make_hit::<T>,
            (&index, &query, &plan, &builder, bytes, &score),
            Ok(hit),
        ),
        forall|a: int, b: int| 0 <= a < b < order.len() ==> order[a] < order[b],
        forall|id: FieldId| #[trigger] plan.to_retrieve_ids@.contains(id) <==> order.contains(id),
        names.len() == order.len(),
        forall|i: int|
            0 <= i < order.len() ==> #[trigger] names[i] == plan.fields_ids_map@[order[i]],
    ensures
        plan.base matches Some(base) ==> text::decimal_number(base.lat@) && text::decimal_number(
            base.lng@,
        ),
        exists|shown: Seq<Field>, retrieved: Seq<Field>|
            {
                &&& document::shows(
                    index,
                    plan.displayed_ids@,
                    plan.fields_ids_map@,
                    document::stored_entries(bytes@),
                    shown,
                )
                &&& #[trigger] selector::selects(index, shown, names, retrieved)
                &&& geo::distance_noted(
                    index,
                    match plan.base {
                        Some(base) => Some(Point { lat: base.lat@, lng: base.lng@ }),
                        None => None,
                    },
                    retrieved,
                    hit.document@,
                )
                &&& formatted::formats_to(
                    builder,
                    index,
                    shown,
                    plan.fields_ids_map@,
                    plan.formatted_options@,
                    query.show_matches_position,
                    plan.displayed_ids@,
                    match hit.matches_position {
                        Some(places) => Some(places@),
                        None => None,
                    },
                    hit.formatted@,
                )
            },
{
    assert forall|i: int| 0 <= i < order.len() implies fields::names_in_order(
        plan.to_retrieve_ids@,
        plan.fields_ids_map@,
    )[i] == #[trigger] names[i] by {
        fields::law_names_by_number(plan.to_retrieve_ids@, plan.fields_ids_map@, order, i);
    }
    fields::law_names_by_number(plan.to_retrieve_ids@, plan.fields_ids_map@, order, 0);
    assert(fields::names_in_order(plan.to_retrieve_ids@, plan.fields_ids_map@) =~= names);
    let shown = choose|shown: Seq<Field>| #[trigger]
        document::shows(
            index,
            plan.displayed_ids@,
            plan.fields_ids_map@,
            document::stored_entries(bytes@),
            shown,
        ) && hit_of(index, query, plan, builder, shown, hit);
    let retrieved = choose|retrieved: Seq<Field>|
        #![trigger geo::distance_noted(
            index,
            geo::point_of(plan.base),
            retrieved,
            hit.document@,
        )]
        {
            &&& selector::selects(index, shown, names, retrieved)
            &&& geo::distance_noted(index, geo::point_of(plan.base), retrieved, hit.document@)
            &&& formatted::formats_to(
                builder,
                index,
                shown,
                plan.fields_ids_map@,
                plan.formatted_options@,
                query.show_matches_position,
                plan.displayed_ids@,
                formatted::places_of(hit.matches_position),
                hit.formatted@,
            )
        };
    assert(selector::selects(index, shown, names, retrieved));
}

/// A document gives no hit only where it cannot be shown, and for that reason, or where it can be
/// and the point of the plan has a coordinate that is no number.
pub proof fn law_why_no_hit<T: Index>(
    index: T,
    query: SearchQuery,
    plan: HitPlan,
    builder: T::Builder,
    bytes: &[u8],
    score: Vec<ScoreDetails<T::Detail>>,
    error: SearchError<T::Error>,
)
    requires
        call_ensures(
            make_hit::<T>,
            (&index, &query, &plan, &builder, bytes, &score),
            Err(error),
        ),
    ensures
        error is UnmeasurablePoint <==> !document::shows_not(
            index,
            plan.displayed_ids@,
            plan.fields_ids_map@,
            document::stored_entries(bytes@),
            error,
        ),
        error is UnmeasurablePoint ==> plan.base is Some && !(text::decimal_number(
            plan.base->0.lat@,
        ) && text::decimal_number(plan.base->0.lng@)),
        error is UnmeasurablePoint ==> exists|shown: Seq<Field>| #[trigger]
            document::shows(
                index,
                plan.displayed_ids@,
                plan.fields_ids_map@,
                document::stored_entries(bytes@),
                shown,
            ),
{
}

/// There are as many hits as there are documents and scores, whichever are fewer; and each hit is
/// that of the document and the score in its place.
pub proof fn law_hits_in_order<T: Index>(
    index: T,
    query: SearchQuery,
    plan: HitPlan,
    builder: T::Builder,
    documents: Vec<(DocumentId, Vec<u8>)>,
    scores: Vec<Vec<ScoreDetails<T::Detail>>>,
    hits: Vec<SearchHit>,
    i: int,
)
    requires
        call_ensures(
            make_hits::<T>,
            (&index, &query, &plan, &builder, &documents, &scores),
            Ok(hits),
        ),
    ensures
        hits@.len() <= documents@.len() && hits@.len() <= scores@.len(),
        hits@.len() == documents@.len() || hits@.len() == scores@.len(),
        0 <= i < hits@.len() ==> hit_made(
            index,
            query,
            plan,
            builder,
            documents@[i].1@,
            scores@[i],
            hits@[i],
        ),
{
}

/// No hits are made only where one of the documents that has a score gives none, and for the reason
/// of the first that gives none.
pub proof fn law_why_no_hits<T: Index>(
    index: T,
    query: SearchQuery,
    plan: HitPlan,
    builder: T::Builder,
    documents: Vec<(DocumentId, Vec<u8>)>,
    scores: Vec<Vec<ScoreDetails<T::Detail>>>,
    error: SearchError<T::Error>,
)
    requires
        call_ensures(
            make_hits::<T>,
            (&index, &query, &plan, &builder, &documents, &scores),
            Err(error),
        ),
    ensures
        exists|at: int, hits: Seq<SearchHit>|
            {
                &&& 0 <= at < documents@.len() && at < scores@.len()
                &&& hit_failed(index, plan, (#[trigger] documents@[at]).1@, error)
                &&& #[trigger] hits.len() == at
                &&& forall|i: int|
                    0 <= i < at ==> hit_made(
                        index,
                        query,
                        plan,
                        builder,
                        documents@[i].1@,
                        scores@[i],
                        #[trigger] hits[i],
                    )
            },
{
    let (at, hits) = choose|at: int, hits: Seq<SearchHit>|
        #![trigger hits_made(
            index,
            query,
            plan,
            builder,
            documents@.take(at),
            scores@,
            hits,
        )]
        {
            &&& 0 <= at < hit_count(documents@.len(), scores@.len())
            &&& hits_made(index, query, plan, builder, documents@.take(at), scores@, hits)
            &&& hit_failed(index, plan, documents@[at].1@, error)
        };
    assert(hits.len() == at);
    assert forall|i: int| 0 <= i < at implies hit_made(
        index,
        query,
        plan,
        builder,
        documents@[i].1@,
        scores@[i],
        #[trigger] hits[i],
    ) by {
        assert(documents@.take(at)[i] == documents@[i]);
    }
}

} // verus!
