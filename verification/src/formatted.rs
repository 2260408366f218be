//! The formatted copy of a document.
use std::collections::{BTreeMap, BTreeSet};

use vstd::prelude::*;

use crate::fields;
use crate::fields::{field_names, FieldId, FieldsIdsMap};
use crate::json;
use crate::json::{Document, Field, Json, Value};
use crate::matcher;
use crate::matcher::{format_value, MatchBounds, Matcher};
use crate::options::FormatOptions;
use crate::positions;
use crate::positions::MatchesPosition;
use crate::selector;
use crate::selector::Selector;
use crate::text;
use crate::text::is_faceted_by;

verus! {

/// A field that is formatted, and how.
pub struct Mark {
    pub name: Seq<char>,
    pub options: FormatOptions,
}

/// The fields that have anything to format.
pub open spec fn marked_ids(options: Map<FieldId, FormatOptions>) -> Set<FieldId> {
    options.dom().filter(|id: FieldId| options[id].formats())
}

/// The fields that have anything to format, in the order of their numbers.
pub open spec fn marks(
    options: Map<FieldId, FormatOptions>,
    names: Map<FieldId, Seq<char>>,
) -> Seq<Mark> {
    fields::in_order(marked_ids(options)).map_values(
        |id: FieldId| Mark { name: names[id], options: options[id] },
    )
}

/// What a list of names and formats is.
pub open spec fn marks_of(list: Seq<(String, FormatOptions)>) -> Seq<Mark> {
    list.map_values(|mark: (String, FormatOptions)| Mark { name: mark.0@, options: mark.1 })
}

/// Whether the format of a field goes for a key: one of them is the other, or lies under it.
pub open spec fn concerns(name: Seq<char>, key: Seq<char>) -> bool {
    text::faceted_by(name, key) || text::faceted_by(key, name)
}

/// The format of a key: those of all fields that concern it, put together.
pub open spec fn format_of(marks: Seq<Mark>, key: Seq<char>) -> Option<FormatOptions>
    decreases marks.len(),
{
    if marks.len() == 0 {
        None
    } else {
        let earlier = format_of(marks.drop_last(), key);
        if !concerns(marks.last().name, key) {
            earlier
        } else {
            match earlier {
                Some(options) => Some(options.merged(marks.last().options)),
                None => Some(marks.last().options),
            }
        }
    }
}

/// The numbers of the fields of a format.
fn option_ids(formatted_options: &BTreeMap<FieldId, FormatOptions>) -> (ids: BTreeSet<FieldId>)
    ensures
        ids@ == formatted_options@.dom(),
{
    let mut ids: BTreeSet<FieldId> = BTreeSet::new();
    let ghost met = vstd::std_specs::iter::IteratorSpec::remaining(
        &vstd::std_specs::btree::spec_keys_iter(formatted_options),
    ).unref();
    for id in it: formatted_options.keys()
        invariant
            it.seq().unref() == met,
            ids@ == met.take(it.index()).to_set(),
    {
        proof {
            assert(met.take(it.index() + 1) == met.take(it.index()).push(*id));
            fields::lemma_push_members(met.take(it.index()), *id);
        }
        ids.insert(*id);
    }
    assert(met.take(met.len() as int) == met);
    ids
}

/// The fields that have anything to format, in the order of their numbers.
pub fn formatting_fields_options(
    formatted_options: &BTreeMap<FieldId, FormatOptions>,
    field_ids_map: &FieldsIdsMap,
) -> (list: Vec<(String, FormatOptions)>)
    requires
        formatted_options@.dom().subset_of(field_ids_map@.dom()),
    ensures
        marks_of(list@) == marks(formatted_options@, field_ids_map@),
{
    let ghost options = formatted_options@;
    let ghost names = field_ids_map@;
    let all = option_ids(formatted_options);
    let mut ids: BTreeSet<FieldId> = BTreeSet::new();
    let ghost order = fields::in_order(all@);
    proof {
        fields::lemma_walk_of_set(&all);
    }
    for id in it: all.iter()
        invariant
            options == formatted_options@,
            all@ == options.dom(),
            it.seq().unref() == order,
            fields::lists(all@, order),
            forall|other: FieldId| #[trigger]
                ids@.contains(other) <==> order.take(it.index()).contains(other)
                    && options[other].formats(),
    {
        assert(order[it.index()] == *id);
        assert(order.contains(*id));
        proof {
            assert(order.take(it.index() + 1) == order.take(it.index()).push(*id));
            fields::lemma_push_members(order.take(it.index()), *id);
        }
        if let Some(format) = formatted_options.get(id) {
            if format.should_format() {
                ids.insert(*id);
            }
        }
    }
    assert(order.take(order.len() as int) == order);
    assert(ids@ =~= marked_ids(options));
    let mut list: Vec<(String, FormatOptions)> = Vec::new();
    let ghost marked = fields::in_order(ids@);
    proof {
        fields::lemma_walk_of_set(&ids);
    }
    for id in it: ids.iter()
        invariant
            options == formatted_options@,
            names == field_ids_map@,
            options.dom().subset_of(names.dom()),
            ids@ == marked_ids(options),
            it.seq().unref() == marked,
            fields::lists(ids@, marked),
            list@.len() == it.index(),
            forall|k: int|
                0 <= k < list@.len() ==> (#[trigger] list@[k]).0@ == names[marked[k]] && list@[k].1
                    == options[marked[k]],
    {
        assert(marked[it.index()] == *id);
        assert(marked.contains(*id));
        assert(ids@.contains(*id));
        if let Some(format) = formatted_options.get(id) {
            if let Some(name) = field_ids_map.name(*id) {
                list.push((name.clone(), *format));
            }
        }
    }
    assert(marks_of(list@) =~= marks(options, names));
    list
}

/// The format of a key: those of all fields that concern it, put together. If `doggo` is to be
/// highlighted and `doggo.name` to be cropped, then `doggo.name` is highlighted and cropped, and
/// `doggo.age` is highlighted.
pub fn format_for(formatting: &Vec<(String, FormatOptions)>, key: &str) -> (format: Option<
    FormatOptions,
>)
    ensures
        format == format_of(marks_of(formatting@), key@),
{
    let ghost all = marks_of(formatting@);
    let mut format: Option<FormatOptions> = None;
    let mut i: usize = 0;
    while i < formatting.len()
        invariant
            i <= formatting.len(),
            all == marks_of(formatting@),
            format == format_of(all.take(i as int), key@),
        decreases formatting.len() - i,
    {
        let name = formatting[i].0.as_str();
        let options = formatting[i].1;
        assert(all.take(i + 1).drop_last() == all.take(i as int));
        assert(all.take(i + 1).last() == Mark { name: name@, options });
        if is_faceted_by(name, key) || is_faceted_by(key, name) {
            format = match format {
                Some(earlier) => Some(earlier.merge(options)),
                None => Some(options),
            };
        }
        i += 1;
    }
    assert(all.take(i as int) == all);
    format
}

/// Whether the leaves of a document can become these values, with these places noted.
pub open spec fn leaves_become<B: Matcher>(
    builder: B,
    marks: Seq<Mark>,
    compute_matches: bool,
    leaves: Seq<Field>,
    values: Seq<Json>,
    found: Seq<Seq<MatchBounds>>,
) -> bool {
    &&& values.len() == leaves.len()
    &&& found.len() == leaves.len()
    &&& forall|i: int|
        0 <= i < leaves.len() ==> matcher::value_becomes(
            builder,
            format_of(marks, (#[trigger] leaves[i]).key),
            leaves[i].value,
            values[i],
        ) && matcher::noted(builder, compute_matches, leaves[i].value, found[i])
}

/// Whether this can be the formatted copy of a document, with these places noted: the leaves that
/// are shown are formatted, and the part of the document with the formatted fields is taken.
pub open spec fn formats_to<B: Matcher, S: Selector>(
    builder: B,
    selector: S,
    document: Seq<Field>,
    names: Map<FieldId, Seq<char>>,
    options: Map<FieldId, FormatOptions>,
    compute_matches: bool,
    displayable: Set<FieldId>,
    places: Option<Map<Seq<char>, Seq<MatchBounds>>>,
    formatted: Seq<Field>,
) -> bool {
    exists|leaves: Seq<Field>, values: Seq<Json>, found: Seq<Seq<MatchBounds>>, after: Seq<Field>|
        #![trigger leaves_become(
            builder,
            marks(options, names),
            compute_matches,
            leaves,
            values,
            found,
        ), selector::replaces(
            selector,
            document,
            fields::names_in_order(displayable, names),
            values,
            after,
        )]
        {
            &&& selector::lists(
                selector,
                document,
                fields::names_in_order(displayable, names),
                leaves,
            )
            &&& leaves_become(
                builder,
                marks(options, names),
                compute_matches,
                leaves,
                values,
                found,
            )
            &&& selector::replaces(
                selector,
                document,
                fields::names_in_order(displayable, names),
                values,
                after,
            )
            &&& selector::selects(
                selector,
                after,
                fields::names_in_order(options.dom(), names),
                formatted,
            )
            &&& places == if compute_matches {
                Some(positions::noted_places(leaves, found))
            } else {
                None
            }
        }
}

/// What optional places are.
pub open spec fn places_of(noted: Option<MatchesPosition>) -> Option<
    Map<Seq<char>, Seq<MatchBounds>>,
> {
    match noted {
        Some(noted) => Some(noted@),
        None => None,
    }
}

/// Makes the formatted copy of a document, and notes where the words of the query stand in it if
/// `compute_matches` is set.
pub fn format_fields<B: Matcher, S: Selector>(
    document: &Document,
    field_ids_map: &FieldsIdsMap,
    builder: &B,
    selector: &S,
    formatted_options: &BTreeMap<FieldId, FormatOptions>,
    compute_matches: bool,
    displayable_ids: &BTreeSet<FieldId>,
) -> (result: (Option<MatchesPosition>, Document))
    requires
        formatted_options@.dom().subset_of(field_ids_map@.dom()),
        displayable_ids@.subset_of(field_ids_map@.dom()),
    ensures
        formats_to(
            *builder,
            *selector,
            document@,
            field_ids_map@,
            formatted_options@,
            compute_matches,
            displayable_ids@,
            places_of(result.0),
            result.1@,
        ),
{
    let formatting = formatting_fields_options(formatted_options, field_ids_map);
    let displayable_names = field_names(displayable_ids, field_ids_map);
    let leaves = selector.leaf_values(document, &displayable_names);
    let ghost listed = json::fields_of(leaves@);
    let ghost format_marks = marks(formatted_options@, field_ids_map@);
    let ghost mut found: Seq<Seq<MatchBounds>> = Seq::empty();
    let mut values: Vec<Value> = Vec::new();
    let mut matches_position = if compute_matches {
        Some(MatchesPosition::new())
    } else {
        None
    };
    let ghost mut written: Seq<Json> = Seq::empty();
    assert(listed.take(0) == Seq::<Field>::empty());
    for leaf in it: leaves
        invariant
                format_marks == marks_of(formatting@),
            listed == json::fields_of(leaves@),
            it.seq() == leaves@,
            values@.map_values(|v: Value| v@) == written,
            leaves_become(
                *builder,
                format_marks,
                compute_matches,
                listed.take(it.index()),
                written,
                found,
            ),
            places_of(matches_position) == if compute_matches {
                Some(positions::noted_places(listed.take(it.index()), found))
            } else {
                None
            },
    {
        let ghost earlier = listed.take(it.index());
        let ghost later = listed.take(it.index() + 1);
        assert(later.drop_last() == earlier);
        assert(later.last() == listed[it.index()]);
        assert(listed[it.index()] == (Field { key: leaf.0@, value: leaf.1@ }));
        let (key, value) = leaf;
        let format = format_for(&formatting, key.as_str());
        let mut infos: Vec<MatchBounds> = Vec::new();
        let ghost none = infos@;
        let out = format_value(value, builder, format, &mut infos, compute_matches);
        proof {
            let here = choose|here: Seq<MatchBounds>|
                #![trigger none + here]
                infos@ == none + here && matcher::noted(*builder, compute_matches, value@, here);
            assert(none + here == here);
            let more = written.push(out@);
            let more_found = found.push(infos@);
            assert(more_found.drop_last() == found);
            assert forall|i: int| 0 <= i < later.len() implies matcher::value_becomes(
                *builder,
                format_of(format_marks, (#[trigger] later[i]).key),
                later[i].value,
                more[i],
            ) && matcher::noted(*builder, compute_matches, later[i].value, more_found[i]) by {
                if i < earlier.len() {
                    assert(earlier[i] == later[i]);
                }
            }
            written = more;
            found = more_found;
        }
        values.push(out);
        assert(values@.map_values(|v: Value| v@) =~= written);
        if compute_matches && infos.len() > 0 {
            if let Some(matches) = &mut matches_position {
                matches.insert(key, infos);
            }
        }
    }
    assert(listed.take(listed.len() as int) == listed);
    let ghost shown = fields::names_in_order(displayable_ids@, field_ids_map@);
    let after = selector.replace_leaves(document.clone(), &displayable_names, values);
    let selectors = field_names(&option_ids(formatted_options), field_ids_map);
    let formatted = selector.select_values(&after, &selectors);
    proof {
        assert(selector::lists(*selector, document@, shown, listed));
        assert(selector::replaces(*selector, document@, shown, written, after@));
        assert(selector::selects(*selector, after@, text::texts(selectors@), formatted@));
    }
    (matches_position, formatted)
}

/// The place in a list of the first field that concerns a key and is cropped.
pub open spec fn first_crop(marks: Seq<Mark>, key: Seq<char>, at: int) -> bool {
    &&& 0 <= at < marks.len() && concerns(marks[at].name, key) && marks[at].options.crop is Some
    &&& forall|i: int|
        0 <= i < at && concerns((#[trigger] marks[i]).name, key) ==> marks[i].options.crop is None
}

/// A key is formatted just where a field concerns it. It is highlighted where one of those is, and
/// cropped as the first of those that is cropped.
pub proof fn law_format_of(marks: Seq<Mark>, key: Seq<char>)
    ensures
        format_of(marks, key) is Some <==> exists|i: int|
            0 <= i < marks.len() && concerns((#[trigger] marks[i]).name, key),
        format_of(marks, key) matches Some(options) ==> {
            &&& options.highlight <==> exists|i: int|
                0 <= i < marks.len() && concerns((#[trigger] marks[i]).name, key)
                    && marks[i].options.highlight
            &&& options.crop is None <==> forall|i: int|
                0 <= i < marks.len() && concerns((#[trigger] marks[i]).name, key)
                    ==> marks[i].options.crop is None
            &&& forall|at: int| #[trigger]
                first_crop(marks, key, at) ==> options.crop == marks[at].options.crop
        },
    decreases marks.len(),
{
    if marks.len() > 0 {
        let fewer = marks.drop_last();
        let last = marks.len() - 1;
        law_format_of(fewer, key);
        assert forall|i: int| 0 <= i < fewer.len() implies #[trigger] fewer[i] == marks[i] by {}
        if format_of(fewer, key) is Some {
            let i = choose|i: int|
                0 <= i < fewer.len() && concerns((#[trigger] fewer[i]).name, key);
            assert(concerns(marks[i].name, key));
        }
        assert forall|i: int|
            0 <= i < marks.len() && concerns((#[trigger] marks[i]).name, key) && i
                < last implies concerns(fewer[i].name, key) by {}
        if format_of(marks, key) is Some {
            let options = format_of(marks, key)->0;
            let earlier = format_of(fewer, key);
            if earlier is Some && earlier->0.highlight {
                let i = choose|i: int|
                    0 <= i < fewer.len() && concerns((#[trigger] fewer[i]).name, key)
                        && fewer[i].options.highlight;
                assert(concerns(marks[i].name, key) && marks[i].options.highlight);
            }
            if exists|i: int|
                0 <= i < marks.len() && concerns((#[trigger] marks[i]).name, key)
                    && marks[i].options.highlight {
                let i = choose|i: int|
                    0 <= i < marks.len() && concerns((#[trigger] marks[i]).name, key)
                        && marks[i].options.highlight;
                if i < last {
                    assert(concerns(fewer[i].name, key) && fewer[i].options.highlight);
                }
            }
            assert(options.crop is None <==> (earlier is None || earlier->0.crop is None) && (
            concerns(marks[last].name, key) ==> marks[last].options.crop is None));
            assert forall|at: int| #[trigger] first_crop(marks, key, at) implies options.crop
                == marks[at].options.crop by {
                if at < last {
                    assert forall|i: int|
                        0 <= i < at && concerns(
                            (#[trigger] fewer[i]).name,
                            key,
                        ) implies fewer[i].options.crop is None by {
                        assert(concerns(marks[i].name, key));
                    }
                    assert(first_crop(fewer, key, at));
                } else {
                    assert forall|i: int|
                        0 <= i < fewer.len() && concerns(
                            (#[trigger] fewer[i]).name,
                            key,
                        ) implies fewer[i].options.crop is None by {
                        assert(concerns(marks[i].name, key));
                    }
                }
            }
        }
    }
}

/// A field concerns a key where it is named so, where it lies under the key, or where the key lies
/// under it, and only then.
pub proof fn law_concerns(name: Seq<char>, key: Seq<char>)
    ensures
        concerns(name, key) <==> {
            ||| name == key
            ||| exists|rest: Seq<char>| name == #[trigger] (key.push('.') + rest)
            ||| exists|rest: Seq<char>| key == #[trigger] (name.push('.') + rest)
        },
{
    text::law_faceted_by(name, key);
    text::law_faceted_by(key, name);
}

/// The fields that are listed for formatting are those that are highlighted or cropped, by
/// ascending number, each under its name and with its format.
pub proof fn law_marks(
    options: Map<FieldId, FormatOptions>,
    names: Map<FieldId, Seq<char>>,
    order: Seq<FieldId>,
    i: int,
)
    requires
        forall|a: int, b: int| 0 <= a < b < order.len() ==> order[a] < order[b],
        forall|id: FieldId| #[trigger]
            order.contains(id) <==> options.contains_key(id) && (options[id].highlight
                || options[id].crop is Some),
    ensures
        marks(options, names).len() == order.len(),
        0 <= i < order.len() ==> marks(options, names)[i].name == names[order[i]]
            && marks(options, names)[i].options == options[order[i]],
{
    let ids = marked_ids(options);
    assert forall|id: FieldId| ids.contains(id) <==> order.contains(id) by {}
    assert(fields::lists(ids, order));
    fields::lemma_one_order(ids, order, fields::in_order(ids));
}

/// The fields that are listed for formatting are those that are highlighted or cropped, by
/// ascending number, each under its name and with its format.
pub proof fn law_listed_for_formatting(
    options: BTreeMap<FieldId, FormatOptions>,
    map: FieldsIdsMap,
    list: Vec<(String, FormatOptions)>,
    order: Seq<FieldId>,
    i: int,
)
    requires
        call_ensures(formatting_fields_options, (&options, &map), list),
        forall|a: int, b: int| 0 <= a < b < order.len() ==> order[a] < order[b],
        forall|id: FieldId| #[trigger]
            order.contains(id) <==> options@.contains_key(id) && (options@[id].highlight
                || options@[id].crop is Some),
    ensures
        list@.len() == order.len(),
        0 <= i < order.len() ==> list@[i].0@ == map@[order[i]] && list@[i].1 == options@[order[i]],
{
    law_marks(options@, map@, order, i);
    assert(marks_of(list@).len() == list@.len());
    if 0 <= i < order.len() {
        assert(marks_of(list@)[i] == Mark { name: list@[i].0@, options: list@[i].1 });
    }
}

/// A key is formatted just where a listed field concerns it; it is highlighted just where one of
/// those is, and cropped to the length of the first of those that is cropped.
pub proof fn law_format_for_a_key(
    formatting: Vec<(String, FormatOptions)>,
    key: &str,
    format: Option<FormatOptions>,
    at: int,
)
    requires
        call_ensures(format_for, (&formatting, key), format),
        0 <= at <= formatting@.len(),
        at < formatting@.len() ==> concerns(formatting@[at].0@, key@) && formatting@[at].1.crop
            is Some,
        forall|i: int|
            0 <= i < at && concerns((#[trigger] formatting@[i]).0@, key@) ==> formatting@[i].1.crop
                is None,
    ensures
        format is Some <==> exists|i: int|
            0 <= i < formatting@.len() && concerns((#[trigger] formatting@[i]).0@, key@),
        format is Some ==> (format->0.highlight <==> exists|i: int|
            0 <= i < formatting@.len() && concerns((#[trigger] formatting@[i]).0@, key@)
                && formatting@[i].1.highlight),
        format is Some && at < formatting@.len() ==> format->0.crop == formatting@[at].1.crop,
        format is Some && at == formatting@.len() ==> format->0.crop is None,
{
    let all = marks_of(formatting@);
    assert(all.len() == formatting@.len());
    assert forall|i: int| 0 <= i < all.len() implies (#[trigger] all[i]).name == formatting@[i].0@
        && all[i].options == formatting@[i].1 by {}
    law_format_of(all, key@);
    if exists|i: int| 0 <= i < all.len() && concerns((#[trigger] all[i]).name, key@) {
        let i = choose|i: int| 0 <= i < all.len() && concerns((#[trigger] all[i]).name, key@);
        assert(concerns(formatting@[i].0@, key@));
    }
    if exists|i: int|
        0 <= i < formatting@.len() && concerns((#[trigger] formatting@[i]).0@, key@) {
        let i = choose|i: int|
            0 <= i < formatting@.len() && concerns((#[trigger] formatting@[i]).0@, key@);
        assert(concerns(all[i].name, key@));
    }
    if exists|i: int|
        0 <= i < all.len() && concerns((#[trigger] all[i]).name, key@) && all[i].options.highlight {
        let i = choose|i: int|
            0 <= i < all.len() && concerns((#[trigger] all[i]).name, key@)
                && all[i].options.highlight;
        assert(concerns(formatting@[i].0@, key@) && formatting@[i].1.highlight);
    }
    if exists|i: int|
        0 <= i < formatting@.len() && concerns((#[trigger] formatting@[i]).0@, key@)
            && formatting@[i].1.highlight {
        let i = choose|i: int|
            0 <= i < formatting@.len() && concerns((#[trigger] formatting@[i]).0@, key@)
                && formatting@[i].1.highlight;
        assert(concerns(all[i].name, key@) && all[i].options.highlight);
    }
    if at < formatting@.len() {
        assert forall|i: int|
            0 <= i < at && concerns((#[trigger] all[i]).name, key@) implies all[i].options.crop
            is None by {
            assert(concerns(formatting@[i].0@, key@));
        }
        assert(first_crop(all, key@, at));
    } else {
        assert forall|i: int|
            0 <= i < all.len() && concerns(
                (#[trigger] all[i]).name,
                key@,
            ) implies all[i].options.crop is None by {
            assert(concerns(formatting@[i].0@, key@));
        }
    }
}

/// The formatted copy of a document is made of its leaves that are shown: each becomes what its
/// value becomes under the format of its own key, and is put back in its place; and of what comes
/// of that, the fields that have a format are taken. Places are noted just where they are asked
/// for, for the leaves in which there are any.
pub proof fn law_formatted_copy_is_made<B: Matcher, S: Selector>(
    document: Document,
    map: FieldsIdsMap,
    builder: B,
    selector: S,
    options: BTreeMap<FieldId, FormatOptions>,
    compute_matches: bool,
    displayable: BTreeSet<FieldId>,
    result: (Option<MatchesPosition>, Document),
    shown: Seq<FieldId>,
    shown_names: Seq<Seq<char>>,
    chosen: Seq<FieldId>,
    chosen_names: Seq<Seq<char>>,
)
    requires
        call_ensures(
            format_fields::<B, S>,
            (&document, &map, &builder, &selector, &options, compute_matches, &displayable),
            result,
        ),
        forall|a: int, b: int| 0 <= a < b < shown.len() ==> shown[a] < shown[b],
        forall|id: FieldId| #[trigger] displayable@.contains(id) <==> shown.contains(id),
        forall|a: int, b: int| 0 <= a < b < chosen.len() ==> chosen[a] < chosen[b],
        forall|id: FieldId| #[trigger] options@.contains_key(id) <==> chosen.contains(id),
        shown_names.len() == shown.len(),
        forall|i: int| 0 <= i < shown.len() ==> #[trigger] shown_names[i] == map@[shown[i]],
        chosen_names.len() == chosen.len(),
        forall|i: int| 0 <= i < chosen.len() ==> #[trigger] chosen_names[i] == map@[chosen[i]],
    ensures
        result.0 is Some <==> compute_matches,
        exists|
            leaves: Seq<Field>,
            values: Seq<Json>,
            found: Seq<Seq<MatchBounds>>,
            after: Seq<Field>,
        |
            {
                &&& selector::lists(selector, document@, shown_names, leaves)
                &&& #[trigger] selector::replaces(selector, document@, shown_names, values, after)
                &&& selector::selects(selector, after, chosen_names, result.1@)
                &&& values.len() == leaves.len() && found.len() == leaves.len()
                &&& forall|i: int|
                    0 <= i < leaves.len() ==> matcher::value_becomes(
                        builder,
                        format_of(marks(options@, map@), (#[trigger] leaves[i]).key),
                        leaves[i].value,
                        values[i],
                    )
                &&& compute_matches ==> result.0->0@ == #[trigger] positions::noted_places(
                    leaves,
                    found,
                )
                &&& compute_matches ==> forall|i: int|
                    0 <= i < leaves.len() ==> matcher::value_matches(
                        builder,
                        (#[trigger] leaves[i]).value,
                        found[i],
                    )
            },
{
    assert forall|i: int| 0 <= i < shown.len() implies fields::names_in_order(
        displayable@,
        map@,
    )[i] == #[trigger] shown_names[i] by {
        fields::law_names_by_number(displayable@, map@, shown, i);
    }
    fields::law_names_by_number(displayable@, map@, shown, 0);
    assert(fields::names_in_order(displayable@, map@) =~= shown_names);
    assert forall|i: int| 0 <= i < chosen.len() implies fields::names_in_order(
        options@.dom(),
        map@,
    )[i] == #[trigger] chosen_names[i] by {
        fields::law_names_by_number(options@.dom(), map@, chosen, i);
    }
    fields::law_names_by_number(options@.dom(), map@, chosen, 0);
    assert(fields::names_in_order(options@.dom(), map@) =~= chosen_names);
    let (leaves, values, found, after) = choose|
        leaves: Seq<Field>,
        values: Seq<Json>,
        found: Seq<Seq<MatchBounds>>,
        after: Seq<Field>,
    |
        #![trigger leaves_become(
            builder,
            marks(options@, map@),
            compute_matches,
            leaves,
            values,
            found,
        ), selector::replaces(
            selector,
            document@,
            shown_names,
            values,
            after,
        )]
        {
            &&& selector::lists(selector, document@, shown_names, leaves)
            &&& leaves_become(
                builder,
                marks(options@, map@),
                compute_matches,
                leaves,
                values,
                found,
            )
            &&& selector::replaces(selector, document@, shown_names, values, after)
            &&& selector::selects(selector, after, chosen_names, result.1@)
            &&& places_of(result.0) == if compute_matches {
                Some(positions::noted_places(leaves, found))
            } else {
                None
            }
        };
    let noted = positions::noted_places(leaves, found);
    assert(selector::replaces(selector, document@, shown_names, values, after));
    if compute_matches {
        assert(result.0->0@ == noted);
    }
}

} // verus!
