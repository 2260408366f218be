//! Where the words of a query stand in the fields of a document.
use vstd::prelude::*;

use crate::json::Field;
use crate::matcher::MatchBounds;
use crate::text::same_text;

verus! {

/// The places of the words of a query, by the name of the field they stand in.
#[derive(Debug)]
pub struct MatchesPosition {
    entries: Vec<(String, Vec<MatchBounds>)>,
}

/// The places that a list of entries gives; of two entries for one field the later one counts.
spec fn places(entries: Seq<(String, Vec<MatchBounds>)>) -> Map<Seq<char>, Seq<MatchBounds>>
    decreases entries.len(),
{
    if entries.len() == 0 {
        Map::empty()
    } else {
        places(entries.drop_last()).insert(entries.last().0@, entries.last().1@)
    }
}

impl View for MatchesPosition {
    type V = Map<Seq<char>, Seq<MatchBounds>>;

    closed spec fn view(&self) -> Map<Seq<char>, Seq<MatchBounds>> {
        places(self.entries@)
    }
}

/// A field has places just where it has an entry.
proof fn lemma_places(entries: Seq<(String, Vec<MatchBounds>)>, field: Seq<char>)
    requires
        forall|i: int, j: int|
            0 <= i < j < entries.len() ==> (#[trigger] entries[i]).0@ != (#[trigger] entries[j]).0@,
    ensures
        places(entries).contains_key(field) <==> exists|i: int|
            0 <= i < entries.len() && (#[trigger] entries[i]).0@ == field,
        forall|i: int|
            0 <= i < entries.len() ==> places(entries)[(#[trigger] entries[i]).0@]
                == entries[i].1@,
    decreases entries.len(),
{
    if entries.len() > 0 {
        let fewer = entries.drop_last();
        assert forall|i: int, j: int| 0 <= i < j < fewer.len() implies (#[trigger] fewer[i]).0@ != (
        #[trigger] fewer[j]).0@ by {
            assert(entries[i].0@ != entries[j].0@);
        }
        lemma_places(fewer, field);
        if places(fewer).contains_key(field) {
            let i = choose|i: int| 0 <= i < fewer.len() && (#[trigger] fewer[i]).0@ == field;
            assert(entries[i].0@ == field);
        }
        if exists|i: int| 0 <= i < entries.len() && (#[trigger] entries[i]).0@ == field {
            let i = choose|i: int| 0 <= i < entries.len() && (#[trigger] entries[i]).0@ == field;
            if i < fewer.len() {
                assert(fewer[i].0@ == field);
            }
        }
        assert forall|i: int| 0 <= i < entries.len() implies places(entries)[(
        #[trigger] entries[i]).0@] == entries[i].1@ by {
            if i < fewer.len() {
                assert(fewer[i] == entries[i]);
                assert(entries[i].0@ != entries[entries.len() - 1].0@);
            }
        }
    }
}

/// As many fields have places as there are entries.
proof fn lemma_places_count(entries: Seq<(String, Vec<MatchBounds>)>)
    requires
        forall|i: int, j: int|
            0 <= i < j < entries.len() ==> (#[trigger] entries[i]).0@ != (#[trigger] entries[j]).0@,
    ensures
        places(entries).dom().finite(),
        places(entries).dom().len() == entries.len(),
    decreases entries.len(),
{
    if entries.len() > 0 {
        let fewer = entries.drop_last();
        let last = entries.last().0@;
        assert forall|i: int, j: int| 0 <= i < j < fewer.len() implies (#[trigger] fewer[i]).0@ != (
        #[trigger] fewer[j]).0@ by {
            assert(entries[i].0@ != entries[j].0@);
        }
        lemma_places_count(fewer);
        lemma_places(fewer, last);
        if places(fewer).contains_key(last) {
            let i = choose|i: int| 0 <= i < fewer.len() && (#[trigger] fewer[i]).0@ == last;
            assert(entries[i].0@ != entries[entries.len() - 1].0@);
        }
        assert(places(entries).dom() =~= places(fewer).dom().insert(last));
    } else {
        assert(places(entries).dom() =~= Set::<Seq<char>>::empty());
    }
}

impl MatchesPosition {
    #[verifier::type_invariant]
    spec fn well_formed(self) -> bool {
        forall|i: int, j: int|
            0 <= i < j < self.entries@.len() ==> (#[trigger] self.entries@[i]).0@ != (
            #[trigger] self.entries@[j]).0@
    }

    /// No place at all.
    pub fn new() -> (positions: MatchesPosition)
        ensures
            positions@ == Map::<Seq<char>, Seq<MatchBounds>>::empty(),
    {
        MatchesPosition { entries: Vec::new() }
    }

    /// Notes the places in a field, in the stead of those that were noted for it.
    pub fn insert(&mut self, field: String, bounds: Vec<MatchBounds>)
        ensures
            final(self)@ == old(self)@.insert(field@, bounds@),
    {
        proof {
            use_type_invariant(&*self);
        }
        let ghost before = self@;
        let ghost name = field@;
        let ghost held = bounds@;
        let mut entries: Vec<(String, Vec<MatchBounds>)> = Vec::new();
        std::mem::swap(&mut entries, &mut self.entries);
        let ghost earlier = entries@;
        let mut at: usize = entries.len();
        let mut i: usize = 0;
        while i < entries.len()
            invariant
                i <= entries.len(),
                at <= entries.len(),
                forall|k: int|
                    0 <= k < i ==> ((#[trigger] entries@[k]).0@ == field@ ==> k == at),
                at < entries.len() ==> entries@[at as int].0@ == field@,
                forall|i: int, j: int|
                    0 <= i < j < entries@.len() ==> (#[trigger] entries@[i]).0@ != (
                    #[trigger] entries@[j]).0@,
            decreases entries.len() - i,
        {
            if same_text(entries[i].0.as_str(), field.as_str()) {
                at = i;
            }
            i += 1;
        }
        if at < entries.len() {
            entries.set(at, (field, bounds));
        } else {
            entries.push((field, bounds));
        }
        proof {
            let after = before.insert(name, held);
            assert forall|key: Seq<char>| #[trigger]
                places(entries@).contains_key(key) <==> after.contains_key(key) by {
                lemma_places(earlier, key);
                lemma_places(entries@, key);
                if before.contains_key(key) {
                    let k = choose|k: int|
                        0 <= k < earlier.len() && (#[trigger] earlier[k]).0@ == key;
                    assert(entries@[k].0@ == key);
                }
                if key == name {
                    assert(entries@[at as int].0@ == key);
                }
                if places(entries@).contains_key(key) {
                    let k = choose|k: int|
                        0 <= k < entries@.len() && (#[trigger] entries@[k]).0@ == key;
                    if k != at {
                        assert(earlier[k].0@ == key);
                    }
                }
            }
            assert forall|key: Seq<char>| #[trigger]
                places(entries@).contains_key(key) implies places(entries@)[key] == after[key] by {
                lemma_places(earlier, key);
                lemma_places(entries@, key);
                let k = choose|k: int|
                    0 <= k < entries@.len() && (#[trigger] entries@[k]).0@ == key;
                if k != at {
                    assert(earlier[k] == entries@[k]);
                }
            }
            assert(places(entries@) =~= after);
        }
        self.entries = entries;
    }

    /// The places in a field.
    pub fn get(&self, field: &str) -> (bounds: Option<&Vec<MatchBounds>>)
        ensures
            match bounds {
                Some(bounds) => self@.contains_key(field@) && self@[field@] == bounds@,
                None => !self@.contains_key(field@),
            },
    {
        proof {
            use_type_invariant(self);
            lemma_places(self.entries@, field@);
        }
        let mut i: usize = 0;
        while i < self.entries.len()
            invariant
                i <= self.entries.len(),
                forall|k: int| 0 <= k < i ==> (#[trigger] self.entries@[k]).0@ != field@,
                forall|k: int|
                    0 <= k < self.entries@.len() ==> self@[(#[trigger] self.entries@[k]).0@]
                        == self.entries@[k].1@,
                self@.contains_key(field@) <==> exists|k: int|
                    0 <= k < self.entries@.len() && (#[trigger] self.entries@[k]).0@ == field@,
            decreases self.entries.len() - i,
        {
            if same_text(self.entries[i].0.as_str(), field) {
                return Some(&self.entries[i].1);
            }
            i += 1;
        }
        None
    }

    /// The fields that have places, each once, with their places.
    pub fn into_entries(self) -> (entries: Vec<(String, Vec<MatchBounds>)>)
        ensures
            self@.dom().finite() && self@.dom().len() == entries@.len(),
            forall|field: Seq<char>| #[trigger]
                self@.contains_key(field) <==> exists|i: int|
                    0 <= i < entries@.len() && (#[trigger] entries@[i]).0@ == field,
            forall|i: int|
                0 <= i < entries@.len() ==> self@[(#[trigger] entries@[i]).0@]
                    == entries@[i].1@,
            forall|i: int, j: int|
                0 <= i < j < entries@.len() ==> (#[trigger] entries@[i]).0@ != (
                #[trigger] entries@[j]).0@,
    {
        proof {
            use_type_invariant(&self);
            assert forall|field: Seq<char>| #[trigger]
                self@.contains_key(field) <==> exists|i: int|
                    0 <= i < self.entries@.len() && (#[trigger] self.entries@[i]).0@ == field by {
                lemma_places(self.entries@, field);
            }
            lemma_places(self.entries@, Seq::empty());
            lemma_places_count(self.entries@);
        }
        self.entries
    }
}

/// Whether two lists of places are the same.
fn same_bounds(left: &Vec<MatchBounds>, right: &Vec<MatchBounds>) -> (same: bool)
    ensures
        same == (left@ == right@),
{
    if left.len() != right.len() {
        return false;
    }
    let mut i: usize = 0;
    while i < left.len()
        invariant
            i <= left.len(),
            left.len() == right.len(),
            forall|k: int| 0 <= k < i ==> left@[k] == right@[k],
        decreases left.len() - i,
    {
        if left[i] != right[i] {
            return false;
        }
        i += 1;
    }
    assert(left@ =~= right@);
    true
}

impl MatchesPosition {
    /// Whether `other` has all places that are noted here.
    fn is_within(&self, other: &MatchesPosition) -> (within: bool)
        ensures
            within == (forall|field: Seq<char>| #[trigger]
                self@.contains_key(field) ==> other@.contains_key(field) && other@[field]
                    == self@[field]),
    {
        proof {
            use_type_invariant(self);
            assert forall|field: Seq<char>| #[trigger]
                self@.contains_key(field) <==> exists|k: int|
                    0 <= k < self.entries@.len() && (#[trigger] self.entries@[k]).0@ == field by {
                lemma_places(self.entries@, field);
            }
            lemma_places(self.entries@, Seq::empty());
        }
        let mut i: usize = 0;
        while i < self.entries.len()
            invariant
                i <= self.entries.len(),
                forall|field: Seq<char>| #[trigger]
                    self@.contains_key(field) <==> exists|k: int|
                        0 <= k < self.entries@.len() && (#[trigger] self.entries@[k]).0@ == field,
                forall|k: int|
                    0 <= k < self.entries@.len() ==> self@[(#[trigger] self.entries@[k]).0@]
                        == self.entries@[k].1@,
                forall|k: int|
                    0 <= k < i ==> other@.contains_key((#[trigger] self.entries@[k]).0@)
                        && other@[self.entries@[k].0@] == self.entries@[k].1@,
            decreases self.entries.len() - i,
        {
            let entry = &self.entries[i];
            let ghost field = self.entries@[i as int].0@;
            assert(self@.contains_key(field));
            let same = match other.get(entry.0.as_str()) {
                Some(bounds) => same_bounds(bounds, &entry.1),
                None => false,
            };
            if !same {
                assert(!(other@.contains_key(field) && other@[field] == self@[field]));
                return false;
            }
            i += 1;
        }
        true
    }
}

/// Two are equal where they note the same places for the same fields.
impl PartialEq for MatchesPosition {
    fn eq(&self, other: &MatchesPosition) -> (equal: bool) {
        let equal = self.is_within(other) && other.is_within(self);
        proof {
            if equal {
                assert(self@ =~= other@);
            }
        }
        equal
    }
}

impl vstd::std_specs::cmp::PartialEqSpecImpl for MatchesPosition {
    open spec fn obeys_eq_spec() -> bool {
        true
    }

    open spec fn eq_spec(&self, other: &MatchesPosition) -> bool {
        self@ == other@
    }
}

impl Clone for MatchesPosition {
    fn clone(&self) -> (copy: MatchesPosition)
        ensures
            copy@ == self@,
    {
        let mut copy = MatchesPosition::new();
        let mut i: usize = 0;
        assert(self.entries@.take(0) == Seq::<(String, Vec<MatchBounds>)>::empty());
        while i < self.entries.len()
            invariant
                i <= self.entries.len(),
                copy@ == places(self.entries@.take(i as int)),
            decreases self.entries.len() - i,
        {
            let entry = &self.entries[i];
            assert(self.entries@.take(i + 1).drop_last() == self.entries@.take(i as int));
            let bounds = entry.1.clone();
            assert(bounds@ =~= entry.1@);
            copy.insert(entry.0.clone(), bounds);
            i += 1;
        }
        assert(self.entries@.take(i as int) == self.entries@);
        copy
    }
}

/// The places that are noted for the leaves of a document: for each name, those of the last leaf
/// under it that has any.
pub open spec fn noted_places(
    leaves: Seq<Field>,
    found: Seq<Seq<MatchBounds>>,
) -> Map<Seq<char>, Seq<MatchBounds>>
    recommends
        leaves.len() == found.len(),
    decreases leaves.len(),
{
    if leaves.len() == 0 {
        Map::empty()
    } else {
        let earlier = noted_places(leaves.drop_last(), found.drop_last());
        if found.last().len() == 0 {
            earlier
        } else {
            earlier.insert(leaves.last().key, found.last())
        }
    }
}

/// Places are noted for the leaves that have any, and for nothing else: no field is noted with an
/// empty list.
pub proof fn law_noted_places(
    leaves: Seq<Field>,
    found: Seq<Seq<MatchBounds>>,
    field: Seq<char>,
)
    requires
        leaves.len() == found.len(),
    ensures
        noted_places(leaves, found).contains_key(field) <==> exists|i: int|
            0 <= i < leaves.len() && (#[trigger] leaves[i]).key == field && found[i].len() > 0,
        noted_places(leaves, found).contains_key(field) ==> noted_places(leaves, found)[field].len()
            > 0,
    decreases leaves.len(),
{
    if leaves.len() > 0 {
        let fewer = leaves.drop_last();
        let fewer_found = found.drop_last();
        law_noted_places(fewer, fewer_found, field);
        if noted_places(fewer, fewer_found).contains_key(field) {
            let i = choose|i: int|
                0 <= i < fewer.len() && (#[trigger] fewer[i]).key == field && fewer_found[i].len()
                    > 0;
            assert(leaves[i].key == field && found[i].len() > 0);
        }
        if exists|i: int|
            0 <= i < leaves.len() && (#[trigger] leaves[i]).key == field && found[i].len() > 0 {
            let i = choose|i: int|
                0 <= i < leaves.len() && (#[trigger] leaves[i]).key == field && found[i].len() > 0;
            if i < fewer.len() {
                assert(fewer[i].key == field && fewer_found[i].len() > 0);
            }
        }
    }
}

/// The places that are noted for a field are those of the last leaf under its name that has any.
pub proof fn law_last_places_are_noted(
    leaves: Seq<Field>,
    found: Seq<Seq<MatchBounds>>,
    at: int,
)
    requires
        leaves.len() == found.len(),
        0 <= at < leaves.len(),
        found[at].len() > 0,
        forall|j: int|
            at < j < leaves.len() && (#[trigger] leaves[j]).key == leaves[at].key ==> found[j].len()
                == 0,
    ensures
        noted_places(leaves, found).contains_key(leaves[at].key),
        noted_places(leaves, found)[leaves[at].key] == found[at],
    decreases leaves.len(),
{
    if at + 1 < leaves.len() {
        let fewer = leaves.drop_last();
        let fewer_found = found.drop_last();
        assert forall|j: int|
            at < j < fewer.len() && (#[trigger] fewer[j]).key
                == fewer[at].key implies fewer_found[j].len() == 0 by {
            assert(leaves[j].key == leaves[at].key);
        }
        law_last_places_are_noted(fewer, fewer_found, at);
        assert(leaves[leaves.len() - 1].key == leaves[at].key ==> found[leaves.len() - 1].len()
            == 0);
    }
}

/// The places that were noted last for a field are found there, and those of other fields stay as
/// they were.
pub proof fn law_noted_then_found(
    positions: &mut MatchesPosition,
    field: String,
    bounds: Vec<MatchBounds>,
    done: (),
    other: Seq<char>,
)
    requires
        call_ensures(MatchesPosition::insert, (positions, field, bounds), done),
    ensures
        final(positions)@.contains_key(field@) && final(positions)@[field@] == bounds@,
        other != field@ ==> (final(positions)@.contains_key(other)
            <==> old(positions)@.contains_key(other)),
        other != field@ && old(positions)@.contains_key(other) ==> final(positions)@[other]
            == old(positions)@[other],
{
}

/// What is listed for a field is found under it; a field is listed once only, and as many are
/// listed as have places.
pub proof fn law_listed_is_found(
    positions: MatchesPosition,
    field: &str,
    bounds: Option<&Vec<MatchBounds>>,
    entries: Vec<(String, Vec<MatchBounds>)>,
    i: int,
    j: int,
)
    requires
        call_ensures(MatchesPosition::get, (&positions, field), bounds),
        call_ensures(MatchesPosition::into_entries, (positions,), entries),
    ensures
        0 <= i < entries@.len() && entries@[i].0@ == field@ ==> bounds is Some && bounds->0@
            == entries@[i].1@,
        0 <= i < j < entries@.len() ==> entries@[i].0@ != entries@[j].0@,
        entries@.len() == positions@.dom().len(),
{
    if 0 <= i < entries@.len() {
        assert(positions@.contains_key(entries@[i].0@));
    }
}

/// Two lists of places are equal just where they note the same places for the same fields.
pub proof fn law_equal_positions(
    left: MatchesPosition,
    right: MatchesPosition,
    equal: bool,
    field: Seq<char>,
)
    requires
        call_ensures(<MatchesPosition as PartialEq>::eq, (&left, &right), equal),
    ensures
        equal ==> (left@.contains_key(field) <==> right@.contains_key(field)),
        equal && left@.contains_key(field) ==> left@[field] == right@[field],
        (forall|name: Seq<char>|
            (#[trigger] left@.contains_key(name) <==> right@.contains_key(name)) && (
            left@.contains_key(name) ==> left@[name] == right@[name])) ==> equal,
{
    if forall|name: Seq<char>|
        (#[trigger] left@.contains_key(name) <==> right@.contains_key(name)) && (
        left@.contains_key(name) ==> left@[name] == right@[name]) {
        assert(left@ =~= right@);
    }
}

/// A copy notes the same places for the same fields.
pub proof fn law_copied_positions(positions: MatchesPosition, copy: MatchesPosition)
    requires
        call_ensures(<MatchesPosition as Clone>::clone, (&positions,), copy),
    ensures
        copy@ == positions@,
{
}

} // verus!
