//! The fields of an index: their names, their numbers, and which of them a search shows.
use std::collections::{BTreeMap, BTreeSet};

use vstd::prelude::*;

use crate::query;
use crate::query::NameSet;
use crate::text;
use crate::text::same_text;

verus! {

/// The number of a field.
pub type FieldId = u16;

/// The fields of an index: each has a number and a name, and no two share either.
pub struct FieldsIdsMap {
    names: BTreeMap<FieldId, String>,
}

/// Whether no two numbers have the same name.
pub open spec fn distinct_names(names: Map<FieldId, Seq<char>>) -> bool {
    forall|a: FieldId, b: FieldId|
        names.contains_key(a) && names.contains_key(b) && #[trigger] names[a] == #[trigger] names[b]
            ==> a == b
}

impl View for FieldsIdsMap {
    type V = Map<FieldId, Seq<char>>;

    closed spec fn view(&self) -> Map<FieldId, Seq<char>> {
        self.names@.map_values(|name: String| name@)
    }
}

impl FieldsIdsMap {
    #[verifier::type_invariant]
    spec fn well_formed(self) -> bool {
        distinct_names(self@)
    }

    /// No field at all.
    pub fn new() -> (map: FieldsIdsMap)
        ensures
            map@ == Map::<FieldId, Seq<char>>::empty(),
    {
        let map = FieldsIdsMap { names: BTreeMap::new() };
        assert(map@ =~= Map::<FieldId, Seq<char>>::empty());
        map
    }

    /// Adds a field; refused, with nothing changed, where its number or its name is taken.
    pub fn add(&mut self, id: FieldId, name: String) -> (added: bool)
        ensures
            added == (!old(self)@.contains_key(id) && !old(self)@.contains_value(name@)),
            final(self)@ == if added {
                old(self)@.insert(id, name@)
            } else {
                old(self)@
            },
    {
        if self.name(id).is_some() || self.id(name.as_str()).is_some() {
            return false;
        }
        proof {
            use_type_invariant(&*self);
        }
        let ghost before = self@;
        let ghost text = name@;
        let mut names = BTreeMap::new();
        std::mem::swap(&mut names, &mut self.names);
        names.insert(id, name);
        assert(names@.map_values(|name: String| name@) =~= before.insert(id, text));
        self.names = names;
        true
    }

    /// The numbers of all fields.
    pub fn ids(&self) -> (ids: BTreeSet<FieldId>)
        ensures
            ids@ == self@.dom(),
    {
        let mut ids: BTreeSet<FieldId> = BTreeSet::new();
        let ghost met = vstd::std_specs::iter::IteratorSpec::remaining(
            &vstd::std_specs::btree::spec_keys_iter(&self.names),
        ).unref();
        for id in it: self.names.keys()
            invariant
                it.seq().unref() == met,
                ids@ == met.take(it.index()).to_set(),
        {
            proof {
                assert(met.take(it.index() + 1) == met.take(it.index()).push(*id));
                lemma_push_members(met.take(it.index()), *id);
            }
            ids.insert(*id);
        }
        assert(met.take(met.len() as int) == met);
        assert(self@.dom() =~= self.names@.dom());
        ids
    }

    /// The name of a field.
    pub fn name(&self, id: FieldId) -> (name: Option<&String>)
        ensures
            match name {
                Some(name) => self@.contains_key(id) && name@ == self@[id],
                None => !self@.contains_key(id),
            },
    {
        self.names.get(&id)
    }

    /// The number of the field with a name.
    pub fn id(&self, name: &str) -> (id: Option<FieldId>)
        ensures
            match id {
                Some(id) => self@.contains_key(id) && self@[id] == name@,
                None => !self@.contains_value(name@),
            },
            distinct_names(self@),
    {
        proof {
            use_type_invariant(self);
        }
        for entry in it: self.names.iter()
            invariant
                distinct_names(self@),
                forall|k: int| 0 <= k < it.index() ==> (#[trigger] it.seq()[k]).1@ != name@,
        {
            if same_text(entry.1.as_str(), name) {
                return Some(*entry.0);
            }
        }
        None
    }
}

/// What a sequence holds once an element is added at its end.
pub proof fn lemma_push_members(ids: Seq<FieldId>, id: FieldId)
    ensures
        forall|other: FieldId| #[trigger]
            ids.push(id).contains(other) <==> ids.contains(other) || other == id,
        ids.push(id).to_set() == ids.to_set().insert(id),
{
    let more = ids.push(id);
    assert(more[ids.len() as int] == id);
    assert forall|other: FieldId| #[trigger]
        more.contains(other) <==> ids.contains(other) || other == id by {
        if ids.contains(other) {
            let k = ids.index_of(other);
            assert(more[k] == other);
        }
    }
    assert(more.to_set() =~= ids.to_set().insert(id));
}

/// Whether numbers come in ascending order, none twice.
pub open spec fn ascending(ids: Seq<FieldId>) -> bool {
    forall|i: int, j: int| 0 <= i < j < ids.len() ==> ids[i] < ids[j]
}

/// Whether a sequence lists a set of numbers in ascending order.
pub open spec fn lists(ids: Set<FieldId>, order: Seq<FieldId>) -> bool {
    ascending(order) && forall|id: FieldId| ids.contains(id) <==> order.contains(id)
}

/// A set of numbers, in ascending order.
pub open spec fn in_order(ids: Set<FieldId>) -> Seq<FieldId> {
    choose|order: Seq<FieldId>| lists(ids, order)
}

/// There is one way only to list a set of numbers in ascending order.
pub proof fn lemma_one_order(ids: Set<FieldId>, left: Seq<FieldId>, right: Seq<FieldId>)
    requires
        lists(ids, left),
        lists(ids, right),
    ensures
        left == right,
    decreases left.len(),
{
    if left.len() == 0 {
        if right.len() > 0 {
            assert(right.contains(right[0]));
            assert(left.contains(right[0]));
        }
        assert(left =~= right);
    } else {
        assert(left.contains(left.last()));
        assert(right.contains(left.last()));
        assert(right.contains(right.last()));
        assert(left.contains(right.last()));
        assert(left.last() == right.last());
        let last = left.last();
        let rest = ids.remove(last);
        let fewer_left = left.drop_last();
        let fewer_right = right.drop_last();
        assert forall|id: FieldId| rest.contains(id) <==> fewer_left.contains(id) by {
            if rest.contains(id) {
                assert(left.contains(id));
                let i = left.index_of(id);
                assert(fewer_left[i] == id);
            }
            if fewer_left.contains(id) {
                let i = fewer_left.index_of(id);
                assert(left[i] == id);
                assert(left.contains(id));
            }
        }
        assert forall|id: FieldId| rest.contains(id) <==> fewer_right.contains(id) by {
            if rest.contains(id) {
                assert(right.contains(id));
                let i = right.index_of(id);
                assert(fewer_right[i] == id);
            }
            if fewer_right.contains(id) {
                let i = fewer_right.index_of(id);
                assert(right[i] == id);
                assert(right.contains(id));
            }
        }
        lemma_one_order(rest, fewer_left, fewer_right);
        assert(left =~= fewer_left.push(last));
        assert(right =~= fewer_right.push(last));
    }
}

/// A walk that meets the numbers of a set, each greater than the one before, lists them.
proof fn lemma_walk(ids: Set<FieldId>, met: Seq<&FieldId>)
    requires
        vstd::std_specs::btree::increasing_seq(met),
        met.unref().to_set() == ids,
    ensures
        lists(ids, met.unref()),
        met.unref() == in_order(ids),
{
    let order = met.unref();
    assert(vstd::laws_cmp::obeys_cmp::<&FieldId>());
    assert forall|i: int, j: int| 0 <= i < j < order.len() implies order[i] < order[j] by {
        assert(order[i] == *met[i] && order[j] == *met[j]);
        assert(vstd::std_specs::cmp::OrdSpec::cmp_spec(&met[i], &met[j]) is Less);
    }
    lemma_one_order(ids, order, in_order(ids));
}

/// A walk over a set of numbers lists them.
pub proof fn lemma_walk_of_set(ids: &BTreeSet<FieldId>)
    ensures
        lists(ids@, in_order(ids@)),
        vstd::std_specs::iter::IteratorSpec::remaining(
            &vstd::std_specs::btree::spec_btree_keys_iter(ids),
        ).unref() == in_order(ids@),
{
    lemma_walk(
        ids@,
        vstd::std_specs::iter::IteratorSpec::remaining(
            &vstd::std_specs::btree::spec_btree_keys_iter(ids),
        ),
    );
}

/// The names of a set of fields, in the order of their numbers.
pub open spec fn names_in_order(
    ids: Set<FieldId>,
    names: Map<FieldId, Seq<char>>,
) -> Seq<Seq<char>> {
    in_order(ids).map_values(|id: FieldId| names[id])
}

/// The names of a set of fields, in the order of their numbers.
pub fn field_names(ids: &BTreeSet<FieldId>, map: &FieldsIdsMap) -> (names: Vec<String>)
    requires
        ids@.subset_of(map@.dom()),
    ensures
        text::texts(names@) == names_in_order(ids@, map@),
{
    let mut names: Vec<String> = Vec::new();
    let ghost order = in_order(ids@);
    proof {
        lemma_walk_of_set(ids);
    }
    for id in it: ids.iter()
        invariant
            ids@.subset_of(map@.dom()),
            lists(ids@, order),
            it.seq().unref() == order,
            names@.len() == it.index(),
            forall|k: int| 0 <= k < names@.len() ==> #[trigger] names@[k]@ == map@[order[k]],
    {
        assert(order[it.index()] == *id);
        assert(order.contains(*id));
        match map.name(*id) {
            Some(name) => names.push(name.clone()),
            None => {},
        }
    }
    proof {
        assert(text::texts(names@) =~= names_in_order(ids@, map@));
    }
    names
}

/// Whether a number is the least one of a set that no field has.
pub open spec fn first_unknown(
    ids: Set<FieldId>,
    names: Map<FieldId, Seq<char>>,
    id: FieldId,
) -> bool {
    &&& ids.contains(id) && !names.contains_key(id)
    &&& forall|other: FieldId| #[trigger]
        ids.contains(other) && other < id ==> names.contains_key(other)
}

/// The least number of a set that no field has, if there is one.
pub fn unknown_field(ids: &BTreeSet<FieldId>, map: &FieldsIdsMap) -> (unknown: Option<FieldId>)
    ensures
        match unknown {
            Some(id) => first_unknown(ids@, map@, id),
            None => ids@.subset_of(map@.dom()),
        },
{
    let ghost order = in_order(ids@);
    proof {
        lemma_walk_of_set(ids);
    }
    for id in it: ids.iter()
        invariant
            lists(ids@, order),
            it.seq().unref() == order,
            forall|k: int| 0 <= k < it.index() ==> map@.contains_key(#[trigger] order[k]),
    {
        assert(order[it.index()] == *id);
        assert(order.contains(*id));
        if map.name(*id).is_none() {
            assert forall|other: FieldId| #[trigger]
                ids@.contains(other) && other < *id implies map@.contains_key(other) by {
                let k = order.index_of(other);
                assert(order[k] == other);
            }
            return Some(*id);
        }
    }
    assert forall|other: FieldId| #[trigger] ids@.contains(other) implies map@.contains_key(
        other,
    ) by {
        let k = order.index_of(other);
        assert(order[k] == other);
    }
    None
}

/// The fields that documents show: those that the settings list, or else all of them.
pub open spec fn displayed_fields(
    listed: Option<Seq<FieldId>>,
    names: Map<FieldId, Seq<char>>,
) -> Set<FieldId> {
    match listed {
        Some(listed) => listed.to_set(),
        None => names.dom(),
    }
}

/// The fields that documents show, from the list in the settings, if there is one.
pub fn displayed_ids(listed: Option<Vec<FieldId>>, map: &FieldsIdsMap) -> (ids: BTreeSet<FieldId>)
    ensures
        ids@ == displayed_fields(
            match listed {
                Some(listed) => Some(listed@),
                None => None,
            },
            map@,
        ),
{
    match listed {
        Some(listed) => {
            let mut ids: BTreeSet<FieldId> = BTreeSet::new();
            let mut i: usize = 0;
            while i < listed.len()
                invariant
                    i <= listed.len(),
                    ids@ == listed@.take(i as int).to_set(),
                decreases listed.len() - i,
            {
                proof {
                    let more = listed@.take(i + 1);
                    assert(more == listed@.take(i as int).push(listed@[i as int]));
                    lemma_push_members(listed@.take(i as int), listed@[i as int]);
                }
                ids.insert(listed[i]);
                i += 1;
            }
            assert(listed@.take(i as int) == listed@);
            ids
        },
        None => map.ids(),
    }
}

/// The fields that a set of attributes stands for: those it names, or all that documents show
/// where it holds a star.
pub open spec fn attribute_fields(
    attributes: Set<Seq<char>>,
    names: Map<FieldId, Seq<char>>,
    displayed: Set<FieldId>,
) -> Set<FieldId> {
    if attributes.contains("*"@) {
        displayed
    } else {
        names.dom().filter(|id: FieldId| attributes.contains(names[id]))
    }
}

/// The fields that a set of attributes stands for.
pub fn attribute_ids(
    set: &NameSet,
    map: &FieldsIdsMap,
    displayed: &BTreeSet<FieldId>,
) -> (ids: BTreeSet<FieldId>)
    ensures
        ids@ == attribute_fields(set@, map@, displayed@),
{
    let attributes = &set.names;
    let mut ids: BTreeSet<FieldId> = BTreeSet::new();
    let mut i: usize = 0;
    while i < attributes.len()
        invariant
            i <= attributes.len(),
            attributes == set.names,
            forall|k: int| 0 <= k < i ==> #[trigger] attributes@[k]@ != "*"@,
            forall|id: FieldId| #[trigger]
                ids@.contains(id) <==> map@.contains_key(id) && text::mentions(
                    attributes@.take(i as int),
                    map@[id],
                ),
        decreases attributes.len() - i,
    {
        let attribute = attributes[i].as_str();
        if same_text(attribute, "*") {
            assert(set@.contains("*"@));
            return displayed.clone();
        }
        let ghost before = attributes@.take(i as int);
        let ghost after = attributes@.take(i + 1);
        assert forall|name: Seq<char>| #[trigger]
            text::mentions(after, name) <==> text::mentions(before, name) || name == attribute@ by {
            assert(after[i as int]@ == attribute@);
            if text::mentions(before, name) {
                let k = choose|k: int| 0 <= k < before.len() && #[trigger] before[k]@ == name;
                assert(after[k]@ == name);
            }
            if text::mentions(after, name) {
                let k = choose|k: int| 0 <= k < after.len() && #[trigger] after[k]@ == name;
                if k < i {
                    assert(before[k]@ == name);
                }
            }
        }
        if let Some(id) = map.id(attribute) {
            ids.insert(id);
        }
        i += 1;
    }
    assert(attributes@.take(i as int) == attributes@);
    assert(ids@ =~= attribute_fields(set@, map@, displayed@));
    ids
}

/// The fields of a document that a query gets back: of those that documents show, all, or those
/// that its attributes stand for.
pub open spec fn retrieved_fields(
    attributes: Option<Set<Seq<char>>>,
    names: Map<FieldId, Seq<char>>,
    displayed: Set<FieldId>,
) -> Set<FieldId> {
    match attributes {
        Some(attributes) => attribute_fields(attributes, names, displayed).intersect(displayed),
        None => displayed,
    }
}

/// The fields of a document that a query gets back.
pub fn to_retrieve_ids(
    attributes: &Option<NameSet>,
    map: &FieldsIdsMap,
    displayed: &BTreeSet<FieldId>,
) -> (ids: BTreeSet<FieldId>)
    ensures
        ids@ == retrieved_fields(query::names_of(*attributes), map@, displayed@),
        ids@.subset_of(displayed@),
{
    match attributes {
        Some(attributes) => {
            let asked = attribute_ids(attributes, map, displayed);
            let mut ids: BTreeSet<FieldId> = BTreeSet::new();
            let ghost order = in_order(displayed@);
            proof {
                lemma_walk_of_set(displayed);
            }
            for id in it: displayed.iter()
                invariant
                    it.seq().unref() == order,
                    forall|other: FieldId| #[trigger]
                        ids@.contains(other) <==> asked@.contains(other) && order.take(
                            it.index(),
                        ).contains(other),
            {
                assert(order[it.index()] == *id);
                proof {
                    assert(order.take(it.index() + 1) == order.take(it.index()).push(*id));
                    lemma_push_members(order.take(it.index()), *id);
                }
                if asked.contains(id) {
                    ids.insert(*id);
                }
            }
            assert(order.take(order.len() as int) == order);
            assert(ids@ =~= asked@.intersect(displayed@));
            ids
        },
        None => displayed.clone(),
    }
}

/// Attributes are a set: only which names occur counts, not where or how often.
pub proof fn law_attributes_are_a_set(
    left: NameSet,
    right: NameSet,
    names: Map<FieldId, Seq<char>>,
    displayed: Set<FieldId>,
)
    requires
        forall|name: Seq<char>| #[trigger]
            text::mentions(left.names@, name) <==> text::mentions(right.names@, name),
    ensures
        left@ == right@,
        attribute_fields(left@, names, displayed) == attribute_fields(right@, names, displayed),
{
    assert(left@ =~= right@);
}

/// A query gets back no field that documents do not show.
pub proof fn law_retrieved_is_displayed(
    attributes: Option<Set<Seq<char>>>,
    names: Map<FieldId, Seq<char>>,
    displayed: Set<FieldId>,
)
    ensures
        retrieved_fields(attributes, names, displayed).subset_of(displayed),
{
}

/// A star stands for every field that documents show.
pub proof fn law_star_retrieves_all(
    attributes: Set<Seq<char>>,
    names: Map<FieldId, Seq<char>>,
    displayed: Set<FieldId>,
)
    requires
        attributes.contains("*"@),
    ensures
        retrieved_fields(Some(attributes), names, displayed) == displayed,
{
    assert(retrieved_fields(Some(attributes), names, displayed) =~= displayed);
}

/// Documents show the fields that the settings list, or else every field of the index.
pub proof fn law_displayed(
    listed: Option<Vec<FieldId>>,
    map: FieldsIdsMap,
    ids: BTreeSet<FieldId>,
    id: FieldId,
)
    requires
        call_ensures(displayed_ids, (listed, &map), ids),
    ensures
        listed is None ==> (ids@.contains(id) <==> map@.contains_key(id)),
        listed is Some ==> (ids@.contains(id) <==> exists|i: int|
            0 <= i < listed->0@.len() && #[trigger] listed->0@[i] == id),
{
}

/// A set of attributes stands for the fields whose names it holds; with a star in it, for those
/// that documents show.
pub proof fn law_attributes_by_name(
    set: NameSet,
    map: FieldsIdsMap,
    displayed: BTreeSet<FieldId>,
    ids: BTreeSet<FieldId>,
    id: FieldId,
)
    requires
        call_ensures(attribute_ids, (&set, &map, &displayed), ids),
    ensures
        text::mentions(set.names@, "*"@) ==> (ids@.contains(id) <==> displayed@.contains(id)),
        !text::mentions(set.names@, "*"@) ==> (ids@.contains(id) <==> map@.contains_key(id)
            && text::mentions(set.names@, map@[id])),
{
    assert(set@.contains("*"@) <==> text::mentions(set.names@, "*"@));
    if map@.contains_key(id) {
        assert(set@.contains(map@[id]) <==> text::mentions(set.names@, map@[id]));
    }
}

/// A query gets back a field just where documents show it, and it asks for all fields, by a star
/// or by no attributes at all, or for this one by its name.
pub proof fn law_retrieved_by_name(
    attributes: Option<NameSet>,
    map: FieldsIdsMap,
    displayed: BTreeSet<FieldId>,
    ids: BTreeSet<FieldId>,
    id: FieldId,
)
    requires
        call_ensures(to_retrieve_ids, (&attributes, &map, &displayed), ids),
    ensures
        attributes is None ==> (ids@.contains(id) <==> displayed@.contains(id)),
        attributes is Some ==> (ids@.contains(id) <==> displayed@.contains(id) && (text::mentions(
            attributes->0.names@,
            "*"@,
        ) || map@.contains_key(id) && text::mentions(attributes->0.names@, map@[id]))),
{
    if attributes is Some {
        let set = attributes->0;
        assert(set@.contains("*"@) <==> text::mentions(set.names@, "*"@));
        if map@.contains_key(id) {
            assert(set@.contains(map@[id]) <==> text::mentions(set.names@, map@[id]));
        }
    }
}

/// Where the numbers of a set are listed in ascending order, the names of its fields are the names
/// of these, one by one.
pub proof fn law_names_by_number(
    ids: Set<FieldId>,
    names: Map<FieldId, Seq<char>>,
    order: Seq<FieldId>,
    i: int,
)
    requires
        forall|a: int, b: int| 0 <= a < b < order.len() ==> order[a] < order[b],
        forall|id: FieldId| #[trigger] ids.contains(id) <==> order.contains(id),
    ensures
        names_in_order(ids, names).len() == order.len(),
        0 <= i < order.len() ==> names_in_order(ids, names)[i] == names[order[i]],
{
    assert(lists(ids, order));
    lemma_one_order(ids, order, in_order(ids));
}

/// The names of a set of fields are listed as many as there are, each once, by ascending number.
pub proof fn law_field_names(
    ids: BTreeSet<FieldId>,
    map: FieldsIdsMap,
    names: Vec<String>,
    order: Seq<FieldId>,
    i: int,
)
    requires
        call_ensures(field_names, (&ids, &map), names),
        forall|a: int, b: int| 0 <= a < b < order.len() ==> order[a] < order[b],
        forall|id: FieldId| #[trigger] ids@.contains(id) <==> order.contains(id),
    ensures
        names@.len() == order.len(),
        0 <= i < order.len() ==> names@[i]@ == map@[order[i]],
{
    law_names_by_number(ids@, map@, order, i);
    assert(text::texts(names@).len() == names@.len());
    if 0 <= i < order.len() {
        assert(text::texts(names@)[i] == names@[i]@);
    }
}

/// A field is added just where neither its number nor its name is taken; it is then found under
/// its number, and no other field has changed. Where it is refused, none has.
pub proof fn law_field_added(
    map: &mut FieldsIdsMap,
    id: FieldId,
    name: String,
    added: bool,
    other: FieldId,
)
    requires
        call_ensures(FieldsIdsMap::add, (map, id, name), added),
    ensures
        !added ==> final(map)@ == old(map)@,
        added ==> final(map)@.contains_key(id) && final(map)@[id] == name@,
        other != id ==> (final(map)@.contains_key(other) <==> old(map)@.contains_key(other)),
        other != id && old(map)@.contains_key(other) ==> final(map)@[other] == old(map)@[other],
        old(map)@.contains_key(id) ==> !added,
        old(map)@.contains_key(other) && old(map)@[other] == name@ ==> !added,
        (forall|taken: FieldId| #[trigger]
            old(map)@.contains_key(taken) ==> taken != id && old(map)@[taken] != name@) ==> added,
{
}

/// The name that is found under a number leads back to that number.
pub proof fn law_name_and_number(
    map: FieldsIdsMap,
    id: FieldId,
    name: &String,
    text: &str,
    found: Option<FieldId>,
    all: BTreeSet<FieldId>,
)
    requires
        call_ensures(FieldsIdsMap::name, (&map, id), Some(name)),
        call_ensures(FieldsIdsMap::id, (&map, text), found),
        call_ensures(FieldsIdsMap::ids, (&map,), all),
        text@ == name@,
    ensures
        found == Some(id),
        all@.contains(id),
{
    assert(map@.contains_value(text@));
}

/// The number that is reported as unknown is in the set and has no name, and all lower ones of the
/// set have one; none is reported just where all have one.
pub proof fn law_unknown_field(
    ids: BTreeSet<FieldId>,
    map: FieldsIdsMap,
    unknown: Option<FieldId>,
    id: FieldId,
)
    requires
        call_ensures(unknown_field, (&ids, &map), unknown),
        ids@.contains(id),
    ensures
        unknown is None ==> map@.contains_key(id),
        unknown matches Some(first) ==> {
            &&& ids@.contains(first) && !map@.contains_key(first)
            &&& id < first ==> map@.contains_key(id)
        },
{
}

} // verus!
