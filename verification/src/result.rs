//! What a search gives back.
use vstd::prelude::*;
use vstd::std_specs::cmp::PartialEqSpec;

use crate::float::{Double, Single};
use crate::json::Document;
use crate::pagination::HitsInfo;
use crate::positions::MatchesPosition;
use crate::text::same_text;

verus! {

/// A document that was found.
#[derive(Debug, Clone, PartialEq)]
pub struct SearchHit {
    /// The fields that the query gets back.
    pub document: Document,
    /// The formatted copy; empty where nothing is formatted.
    pub formatted: Document,
    /// Where the words of the query stand, if that was asked for.
    pub matches_position: Option<MatchesPosition>,
    pub ranking_score: Option<Double>,
    pub ranking_score_details: Option<Document>,
    pub semantic_score: Option<Single>,
}

/// Values under names, of which none occurs twice. Their order has no meaning.
#[derive(Debug, Clone)]
pub struct Named<V> {
    pub entries: Vec<(String, V)>,
}

/// The value under a name.
pub open spec fn value_under<V>(entries: Seq<(String, V)>, name: Seq<char>) -> Option<V>
    decreases entries.len(),
{
    if entries.len() == 0 {
        None
    } else if entries.first().0@ == name {
        Some(entries.first().1)
    } else {
        value_under(entries.drop_first(), name)
    }
}

/// Whether there are as many values on both sides, and each of the one has its equal under the same
/// name in the other.
pub open spec fn same_named<V: PartialEq>(
    left: Seq<(String, V)>,
    right: Seq<(String, V)>,
) -> bool {
    &&& right.len() == left.len()
    &&& forall|i: int|
        0 <= i < left.len() ==> {
            let found = value_under(right, (#[trigger] left[i]).0@);
            found is Some && left[i].1.eq_spec(&found->0)
        }
}

impl<V> Named<V> {
    /// The value under a name.
    pub fn get(&self, name: &str) -> (value: Option<&V>)
        ensures
            match value {
                Some(value) => value_under(self.entries@, name@) == Some(*value),
                None => value_under(self.entries@, name@) is None,
            },
    {
        let mut i: usize = 0;
        assert(self.entries@.skip(0) == self.entries@);
        while i < self.entries.len()
            invariant
                i <= self.entries.len(),
                value_under(self.entries@, name@) == value_under(
                    self.entries@.skip(i as int),
                    name@,
                ),
            decreases self.entries.len() - i,
        {
            let ghost rest = self.entries@.skip(i as int);
            assert(rest.first() == self.entries@[i as int]);
            if same_text(self.entries[i].0.as_str(), name) {
                return Some(&self.entries[i].1);
            }
            assert(rest.drop_first() == self.entries@.skip(i + 1));
            i += 1;
        }
        None
    }
}

/// Two are equal where they have equal values under the same names.
impl<V: PartialEq> PartialEq for Named<V> {
    fn eq(&self, other: &Named<V>) -> (equal: bool) {
        if self.entries.len() != other.entries.len() {
            return false;
        }
        let mut i: usize = 0;
        while i < self.entries.len()
            invariant
                i <= self.entries.len(),
                V::obeys_eq_spec() ==> forall|k: int|
                    0 <= k < i ==> {
                        let found = value_under(other.entries@, (#[trigger] self.entries@[k]).0@);
                        found is Some && self.entries@[k].1.eq_spec(&found->0)
                    },
            decreases self.entries.len() - i,
        {
            let entry = &self.entries[i];
            let same = match other.get(entry.0.as_str()) {
                Some(value) => entry.1 == *value,
                None => false,
            };
            if !same {
                return false;
            }
            i += 1;
        }
        true
    }
}

impl<V: PartialEq> vstd::std_specs::cmp::PartialEqSpecImpl for Named<V> {
    open spec fn obeys_eq_spec() -> bool {
        V::obeys_eq_spec()
    }

    open spec fn eq_spec(&self, other: &Named<V>) -> bool {
        same_named(self.entries@, other.entries@)
    }
}

/// The least and the greatest number that a facet takes.
#[derive(Debug, Clone, Copy, PartialEq)]
pub struct FacetStats {
    pub min: Double,
    pub max: Double,
}

/// The facets of the documents that were found: under each name its values, and how often each
/// occurs.
pub type FacetDistribution = Named<Named<u64>>;

/// The result of a search.
#[derive(Debug, Clone, PartialEq)]
pub struct SearchResult {
    pub hits: Vec<SearchHit>,
    pub query: String,
    pub vector: Option<Vec<Single>>,
    pub processing_time_ms: u128,
    pub hits_info: HitsInfo,
    pub facet_distribution: Option<FacetDistribution>,
    pub facet_stats: Option<Named<FacetStats>>,
    /// Whether the search was cut off before its end.
    pub degraded: bool,
}

/// The result of a search, and the index it is about.
#[derive(Debug, Clone, PartialEq)]
pub struct SearchResultWithIndex {
    pub index_uid: String,
    pub result: SearchResult,
}

/// A value of a facet, and the number of documents that have it.
#[derive(Debug, Clone, PartialEq, Eq)]
pub struct FacetValueHit {
    pub value: String,
    pub count: u64,
}

/// The result of a search for the values of a facet.
#[derive(Debug, Clone, PartialEq, Eq)]
pub struct FacetSearchResult {
    pub facet_hits: Vec<FacetValueHit>,
    pub facet_query: Option<String>,
    pub processing_time_ms: u128,
}

/// The value under a name is that of the first entry of that name, and there is none where no
/// entry has it.
pub proof fn law_value_under<V>(entries: Seq<(String, V)>, name: Seq<char>, at: int)
    requires
        0 <= at <= entries.len(),
        forall|i: int| 0 <= i < at ==> (#[trigger] entries[i]).0@ != name,
    ensures
        at < entries.len() && entries[at].0@ == name ==> value_under(entries, name) == Some(
            entries[at].1,
        ),
        at == entries.len() ==> value_under(entries, name) is None,
    decreases entries.len(),
{
    if at > 0 {
        assert forall|i: int| 0 <= i < at - 1 implies (#[trigger] entries.drop_first()[i]).0@
            != name by {
            assert(entries.drop_first()[i] == entries[i + 1]);
        }
        law_value_under(entries.drop_first(), name, at - 1);
    }
}

/// Where no name occurs twice, two lists of values under names are equal just where they are as
/// long as each other, and each entry of the one has an equal of the same name in the other.
pub proof fn law_equal_named<V: PartialEq>(left: Named<V>, right: Named<V>, equal: bool)
    requires
        V::obeys_eq_spec(),
        call_ensures(<Named<V> as PartialEq>::eq, (&left, &right), equal),
        forall|i: int, j: int|
            0 <= i < j < right.entries@.len() ==> (#[trigger] right.entries@[i]).0@ != (
            #[trigger] right.entries@[j]).0@,
    ensures
        equal <==> {
            &&& left.entries@.len() == right.entries@.len()
            &&& forall|i: int|
                0 <= i < left.entries@.len() ==> has_equal(
                    #[trigger] left.entries@[i],
                    right.entries@,
                )
        },
{
    assert forall|i: int| 0 <= i < left.entries@.len() implies has_equal(
        #[trigger] left.entries@[i],
        right.entries@,
    ) == {
        let found = value_under(right.entries@, left.entries@[i].0@);
        found is Some && left.entries@[i].1.eq_spec(&found->0)
    } by {
        let name = left.entries@[i].0@;
        if exists|j: int| 0 <= j < right.entries@.len() && #[trigger] right.entries@[j].0@ == name {
            let j = choose|j: int|
                0 <= j < right.entries@.len() && #[trigger] right.entries@[j].0@ == name;
            law_value_under(right.entries@, name, j);
        } else {
            law_value_under(right.entries@, name, right.entries@.len() as int);
        }
    }
}

/// Whether an entry has an equal of the same name among others.
pub open spec fn has_equal<V: PartialEq>(entry: (String, V), others: Seq<(String, V)>) -> bool {
    exists|j: int|
        0 <= j < others.len() && (#[trigger] others[j]).0@ == entry.0@ && entry.1.eq_spec(
            &others[j].1,
        )
}

/// What is got under a name is the value of the first entry of that name, or nothing where no entry
/// has it.
pub proof fn law_got_under<V>(named: Named<V>, name: &str, value: Option<&V>, at: int)
    requires
        call_ensures(Named::<V>::get, (&named, name), value),
        0 <= at <= named.entries@.len(),
        forall|i: int| 0 <= i < at ==> (#[trigger] named.entries@[i]).0@ != name@,
    ensures
        at < named.entries@.len() && named.entries@[at].0@ == name@ ==> value is Some && *value->0
            == named.entries@[at].1,
        at == named.entries@.len() ==> value is None,
{
    law_value_under(named.entries@, name@, at);
}

} // verus!
