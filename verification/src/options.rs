//! Which fields of a document are formatted, and how.
use std::collections::{BTreeMap, BTreeSet};

use vstd::prelude::*;

use crate::fields;
use crate::fields::{FieldId, FieldsIdsMap};
use crate::query::NameSet;
use crate::text;
use crate::text::{parse_usize, same_text, split_last_colon};

verus! {

/// How a text is formatted.
#[derive(Debug, Clone, Copy, PartialEq, Eq, Structural)]
pub struct FormatOptions {
    /// Whether the words that match are highlighted.
    pub highlight: bool,
    /// The number of words that the text is cropped to, if it is cropped.
    pub crop: Option<usize>,
}

impl FormatOptions {
    /// Both formats at once; the crop of `self` comes before that of `right`.
    pub open spec fn merged(self, right: FormatOptions) -> FormatOptions {
        FormatOptions {
            highlight: self.highlight || right.highlight,
            crop: if self.crop is Some {
                self.crop
            } else {
                right.crop
            },
        }
    }

    /// Whether there is anything to do.
    pub open spec fn formats(self) -> bool {
        self.highlight || self.crop is Some
    }

    /// Puts two formats together; the crop of `self` comes before that of `right`.
    pub fn merge(self, right: FormatOptions) -> (both: FormatOptions)
        ensures
            both == self.merged(right),
    {
        FormatOptions {
            highlight: self.highlight || right.highlight,
            crop: if self.crop.is_some() {
                self.crop
            } else {
                right.crop
            },
        }
    }

    /// Tells whether there is anything to do.
    pub fn should_format(&self) -> (formats: bool)
        ensures
            formats == self.formats(),
    {
        self.highlight || self.crop.is_some()
    }
}

/// Whether a set of attributes asks for the highlighting of a field that documents show.
pub open spec fn highlighted(
    attributes: Set<Seq<char>>,
    names: Map<FieldId, Seq<char>>,
    displayed: Set<FieldId>,
    id: FieldId,
) -> bool {
    displayed.contains(id) && fields::attribute_fields(attributes, names, displayed).contains(id)
}

/// The name in a crop attribute: what stands before its last colon, or all of it.
pub open spec fn crop_name(attribute: Seq<char>) -> Seq<char> {
    match attribute.index_of_last(':') {
        Some(at) => attribute.take(at),
        None => attribute,
    }
}

/// The length in a crop attribute: the number behind its last colon, or the default one.
pub open spec fn crop_length_of(attribute: Seq<char>, default_length: usize) -> usize {
    match attribute.index_of_last(':') {
        Some(at) => match text::parsed_usize(attribute.skip(at + 1)) {
            Some(length) => length,
            None => default_length,
        },
        None => default_length,
    }
}

/// Whether a crop attribute is about a field: by its name or by a star.
pub open spec fn crops(
    attribute: Seq<char>,
    names: Map<FieldId, Seq<char>>,
    id: FieldId,
) -> bool {
    crop_name(attribute) == "*"@ || names.contains_key(id) && names[id] == crop_name(attribute)
}

/// The length that a list of crop attributes gives to a field: that of the last one about it.
pub open spec fn cropped(
    attributes: Seq<String>,
    default_length: usize,
    names: Map<FieldId, Seq<char>>,
    id: FieldId,
) -> Option<usize>
    decreases attributes.len(),
{
    if attributes.len() == 0 {
        None
    } else if crops(attributes.last()@, names, id) {
        Some(crop_length_of(attributes.last()@, default_length))
    } else {
        cropped(attributes.drop_last(), default_length, names, id)
    }
}

/// Formats with the fields of a set of attributes highlighted, and not cropped.
pub open spec fn with_highlight(
    options: Map<FieldId, FormatOptions>,
    attributes: Set<Seq<char>>,
    names: Map<FieldId, Seq<char>>,
    displayed: Set<FieldId>,
) -> Map<FieldId, FormatOptions> {
    Map::new(
        |id: FieldId|
            options.contains_key(id) || highlighted(attributes, names, displayed, id),
        |id: FieldId|
            if highlighted(attributes, names, displayed, id) {
                FormatOptions { highlight: true, crop: None }
            } else {
                options[id]
            },
    )
}

/// Formats with the fields of a list of crop attributes cropped; what was highlighted still is.
pub open spec fn with_crop(
    options: Map<FieldId, FormatOptions>,
    attributes: Seq<String>,
    default_length: usize,
    names: Map<FieldId, Seq<char>>,
    displayed: Set<FieldId>,
) -> Map<FieldId, FormatOptions> {
    Map::new(
        |id: FieldId|
            options.contains_key(id) || displayed.contains(id) && cropped(
                attributes,
                default_length,
                names,
                id,
            ) is Some,
        |id: FieldId|
            if displayed.contains(id) && cropped(attributes, default_length, names, id) is Some {
                FormatOptions {
                    highlight: options.contains_key(id) && options[id].highlight,
                    crop: cropped(attributes, default_length, names, id),
                }
            } else {
                options[id]
            },
    )
}

/// Formats with fields added, that are neither highlighted nor cropped.
pub open spec fn with_plain(
    options: Map<FieldId, FormatOptions>,
    ids: Set<FieldId>,
) -> Map<FieldId, FormatOptions> {
    Map::new(
        |id: FieldId| options.contains_key(id) || ids.contains(id),
        |id: FieldId|
            if options.contains_key(id) {
                options[id]
            } else {
                FormatOptions { highlight: false, crop: None }
            },
    )
}

/// Asks for the highlighting of the fields of a set of attributes, as far as documents show them.
pub fn add_highlight_to_formatted_options(
    formatted_options: &mut BTreeMap<FieldId, FormatOptions>,
    attr_to_highlight: &NameSet,
    fields_ids_map: &FieldsIdsMap,
    displayed_ids: &BTreeSet<FieldId>,
)
    ensures
        final(formatted_options)@ == with_highlight(
            old(formatted_options)@,
            attr_to_highlight@,
            fields_ids_map@,
            displayed_ids@,
        ),
{
    let asked = fields::attribute_ids(attr_to_highlight, fields_ids_map, displayed_ids);
    let ghost before = formatted_options@;
    let ghost order = fields::in_order(displayed_ids@);
    proof {
        fields::lemma_walk_of_set(displayed_ids);
    }
    for id in it: displayed_ids.iter()
        invariant
            it.seq().unref() == order,
            forall|other: FieldId| #[trigger]
                formatted_options@.contains_key(other) <==> before.contains_key(other)
                    || asked@.contains(other) && order.take(it.index()).contains(other),
            forall|other: FieldId| #[trigger]
                formatted_options@.contains_key(other) ==> formatted_options@[other]
                    == if asked@.contains(other) && order.take(it.index()).contains(other) {
                    FormatOptions { highlight: true, crop: None }
                } else {
                    before[other]
                },
    {
        assert(order[it.index()] == *id);
        proof {
            assert(order.take(it.index() + 1) == order.take(it.index()).push(*id));
            fields::lemma_push_members(order.take(it.index()), *id);
        }
        if asked.contains(id) {
            formatted_options.insert(*id, FormatOptions { highlight: true, crop: None });
        }
    }
    assert(order.take(order.len() as int) == order);
    assert(formatted_options@ =~= with_highlight(
        before,
        attr_to_highlight@,
        fields_ids_map@,
        displayed_ids@,
    ));
}

/// Formats with one field cropped.
spec fn with_one_crop(
    options: Map<FieldId, FormatOptions>,
    id: FieldId,
    length: usize,
) -> Map<FieldId, FormatOptions> {
    options.insert(
        id,
        FormatOptions {
            highlight: options.contains_key(id) && options[id].highlight,
            crop: Some(length),
        },
    )
}

/// Asks for the cropping of one field.
fn crop_field(
    formatted_options: &mut BTreeMap<FieldId, FormatOptions>,
    id: FieldId,
    length: usize,
)
    ensures
        final(formatted_options)@ == with_one_crop(old(formatted_options)@, id, length),
{
    let highlight = match formatted_options.get(&id) {
        Some(options) => options.highlight,
        None => false,
    };
    formatted_options.insert(id, FormatOptions { highlight, crop: Some(length) });
}

/// Asks for the cropping of every field of a set.
fn crop_fields(
    formatted_options: &mut BTreeMap<FieldId, FormatOptions>,
    ids: &BTreeSet<FieldId>,
    length: usize,
)
    ensures
        forall|other: FieldId| #[trigger]
            final(formatted_options)@.contains_key(other) <==> old(
                formatted_options,
            )@.contains_key(other) || ids@.contains(other),
        forall|other: FieldId| #[trigger]
            final(formatted_options)@.contains_key(other) ==> final(formatted_options)@[other]
                == if ids@.contains(other) {
                with_one_crop(old(formatted_options)@, other, length)[other]
            } else {
                old(formatted_options)@[other]
            },
{
    let ghost before = formatted_options@;
    let ghost order = fields::in_order(ids@);
    proof {
        fields::lemma_walk_of_set(ids);
    }
    for id in it: ids.iter()
        invariant
            it.seq().unref() == order,
            fields::ascending(order),
            forall|other: FieldId| #[trigger]
                formatted_options@.contains_key(other) <==> before.contains_key(other)
                    || order.take(it.index()).contains(other),
            forall|other: FieldId| #[trigger]
                formatted_options@.contains_key(other) ==> formatted_options@[other]
                    == if order.take(it.index()).contains(other) {
                    with_one_crop(before, other, length)[other]
                } else {
                    before[other]
                },
    {
        assert(order[it.index()] == *id);
        proof {
            assert(order.take(it.index() + 1) == order.take(it.index()).push(*id));
            fields::lemma_push_members(order.take(it.index()), *id);
            assert(!order.take(it.index()).contains(*id));
            assert(formatted_options@.contains_key(*id) <==> before.contains_key(*id));
        }
        crop_field(formatted_options, *id, length);
    }
    assert(order.take(order.len() as int) == order);
}

/// Asks for the cropping of the fields of a list of crop attributes, as far as documents show
/// them. An attribute is a name, or a star for all fields, and may give a length behind a colon.
pub fn add_crop_to_formatted_options(
    formatted_options: &mut BTreeMap<FieldId, FormatOptions>,
    attr_to_crop: &Vec<String>,
    crop_length: usize,
    fields_ids_map: &FieldsIdsMap,
    displayed_ids: &BTreeSet<FieldId>,
)
    ensures
        final(formatted_options)@ == with_crop(
            old(formatted_options)@,
            attr_to_crop@,
            crop_length,
            fields_ids_map@,
            displayed_ids@,
        ),
{
    let ghost before = formatted_options@;
    let ghost names = fields_ids_map@;
    let ghost displayed = displayed_ids@;
    let mut i: usize = 0;
    assert(attr_to_crop@.take(0) == Seq::<String>::empty());
    assert(formatted_options@ =~= with_crop(
        before,
        attr_to_crop@.take(0),
        crop_length,
        names,
        displayed,
    ));
    while i < attr_to_crop.len()
        invariant
            i <= attr_to_crop.len(),
            names == fields_ids_map@,
            displayed == displayed_ids@,
            formatted_options@ == with_crop(
                before,
                attr_to_crop@.take(i as int),
                crop_length,
                names,
                displayed,
            ),
        decreases attr_to_crop.len() - i,
    {
        let attr = attr_to_crop[i].as_str();
        let ghost earlier = attr_to_crop@.take(i as int);
        let ghost later = attr_to_crop@.take(i + 1);
        assert(later.drop_last() == earlier);
        let (attr_name, attr_len) = match split_last_colon(attr) {
            Some((name, len)) => {
                let crop_len = match parse_usize(len) {
                    Some(len) => len,
                    None => crop_length,
                };
                (name, crop_len)
            },
            None => (attr, crop_length),
        };
        let ghost step = formatted_options@;
        if same_text(attr_name, "*") {
            crop_fields(formatted_options, displayed_ids, attr_len);
        }
        let ghost mid = formatted_options@;
        if let Some(id) = fields_ids_map.id(attr_name) {
            if displayed_ids.contains(&id) {
                crop_field(formatted_options, id, attr_len);
            }
        }
        proof {
            let asked = with_crop(before, later, crop_length, names, displayed);
            assert(later.last()@ == attr@);
            assert(crop_name(attr@) == attr_name@);
            assert(crop_length_of(attr@, crop_length) == attr_len);
            assert forall|id: FieldId| #[trigger]
                formatted_options@.contains_key(id) <==> asked.contains_key(id) by {
                assert(step.contains_key(id) <==> with_crop(
                    before,
                    earlier,
                    crop_length,
                    names,
                    displayed,
                ).contains_key(id));
            }
            assert forall|id: FieldId| #[trigger]
                formatted_options@.contains_key(id) implies formatted_options@[id] == asked[id] by {
                assert(step.contains_key(id) <==> with_crop(
                    before,
                    earlier,
                    crop_length,
                    names,
                    displayed,
                ).contains_key(id));
                assert(mid.contains_key(id) <==> step.contains_key(id) || attr_name@ == "*"@
                    && displayed.contains(id));
                if displayed.contains(id) && crops(attr@, names, id) {
                    assert(formatted_options@[id] == FormatOptions {
                        highlight: step.contains_key(id) && step[id].highlight,
                        crop: Some(attr_len),
                    });
                } else {
                    assert(mid[id] == step[id]);
                    assert(formatted_options@[id] == mid[id]);
                }
            }
            assert(formatted_options@ =~= asked);
        }
        i += 1;
    }
    assert(attr_to_crop@.take(i as int) == attr_to_crop@);
}

/// Adds fields that are neither highlighted nor cropped.
pub fn add_non_formatted_ids_to_formatted_options(
    formatted_options: &mut BTreeMap<FieldId, FormatOptions>,
    to_retrieve_ids: &BTreeSet<FieldId>,
)
    ensures
        final(formatted_options)@ == with_plain(old(formatted_options)@, to_retrieve_ids@),
{
    let ghost before = formatted_options@;
    let ghost order = fields::in_order(to_retrieve_ids@);
    proof {
        fields::lemma_walk_of_set(to_retrieve_ids);
    }
    for id in it: to_retrieve_ids.iter()
        invariant
            it.seq().unref() == order,
            forall|other: FieldId| #[trigger]
                formatted_options@.contains_key(other) <==> before.contains_key(other)
                    || order.take(it.index()).contains(other),
            forall|other: FieldId| #[trigger]
                formatted_options@.contains_key(other) ==> formatted_options@[other]
                    == if before.contains_key(other) {
                    before[other]
                } else {
                    FormatOptions { highlight: false, crop: None }
                },
    {
        assert(order[it.index()] == *id);
        proof {
            assert(order.take(it.index() + 1) == order.take(it.index()).push(*id));
            fields::lemma_push_members(order.take(it.index()), *id);
        }
        if !formatted_options.contains_key(id) {
            formatted_options.insert(*id, FormatOptions { highlight: false, crop: None });
        }
    }
    assert(order.take(order.len() as int) == order);
    assert(formatted_options@ =~= with_plain(before, to_retrieve_ids@));
}

/// The fields that are highlighted or cropped, and how.
pub open spec fn marked_fields(
    attr_to_highlight: Set<Seq<char>>,
    attr_to_crop: Seq<String>,
    query_crop_length: usize,
    names: Map<FieldId, Seq<char>>,
    displayed: Set<FieldId>,
) -> Map<FieldId, FormatOptions> {
    Map::new(
        |id: FieldId|
            displayed.contains(id) && (highlighted(attr_to_highlight, names, displayed, id)
                || cropped(attr_to_crop, query_crop_length, names, id) is Some),
        |id: FieldId|
            FormatOptions {
                highlight: highlighted(attr_to_highlight, names, displayed, id),
                crop: cropped(attr_to_crop, query_crop_length, names, id),
            },
    )
}

/// The fields of the formatted copy of a document, and how each is formatted: where any field is
/// highlighted or cropped, those that are, and those that are retrieved; otherwise none.
pub open spec fn formatted_fields(
    attr_to_highlight: Set<Seq<char>>,
    attr_to_crop: Seq<String>,
    query_crop_length: usize,
    to_retrieve: Set<FieldId>,
    names: Map<FieldId, Seq<char>>,
    displayed: Set<FieldId>,
) -> Map<FieldId, FormatOptions> {
    let marked = marked_fields(
        attr_to_highlight,
        attr_to_crop,
        query_crop_length,
        names,
        displayed,
    );
    if marked.dom().is_empty() {
        marked
    } else {
        with_plain(marked, to_retrieve)
    }
}

/// The fields of the formatted copy of a document, and how each is formatted.
pub fn compute_formatted_options(
    attr_to_highlight: &NameSet,
    attr_to_crop: &Vec<String>,
    query_crop_length: usize,
    to_retrieve_ids: &BTreeSet<FieldId>,
    fields_ids_map: &FieldsIdsMap,
    displayed_ids: &BTreeSet<FieldId>,
) -> (formatted_options: BTreeMap<FieldId, FormatOptions>)
    ensures
        formatted_options@ == formatted_fields(
            attr_to_highlight@,
            attr_to_crop@,
            query_crop_length,
            to_retrieve_ids@,
            fields_ids_map@,
            displayed_ids@,
        ),
{
    let mut formatted_options: BTreeMap<FieldId, FormatOptions> = BTreeMap::new();
    add_highlight_to_formatted_options(
        &mut formatted_options,
        attr_to_highlight,
        fields_ids_map,
        displayed_ids,
    );
    add_crop_to_formatted_options(
        &mut formatted_options,
        attr_to_crop,
        query_crop_length,
        fields_ids_map,
        displayed_ids,
    );
    assert(formatted_options@ =~= marked_fields(
        attr_to_highlight@,
        attr_to_crop@,
        query_crop_length,
        fields_ids_map@,
        displayed_ids@,
    ));
    // Should not return `_formatted` if no valid attributes to highlight/crop
    if !formatted_options.is_empty() {
        add_non_formatted_ids_to_formatted_options(&mut formatted_options, to_retrieve_ids);
    }
    formatted_options
}

/// There is no formatted copy unless a field that documents show is highlighted or cropped; where
/// there is one, it has every field that is, and every field that is retrieved, and no other.
pub proof fn law_formatted_copy(
    attr_to_highlight: Set<Seq<char>>,
    attr_to_crop: Seq<String>,
    query_crop_length: usize,
    to_retrieve: Set<FieldId>,
    names: Map<FieldId, Seq<char>>,
    displayed: Set<FieldId>,
)
    ensures
        ({
            let marked = marked_fields(
                attr_to_highlight,
                attr_to_crop,
                query_crop_length,
                names,
                displayed,
            );
            let formatted = formatted_fields(
                attr_to_highlight,
                attr_to_crop,
                query_crop_length,
                to_retrieve,
                names,
                displayed,
            );
            &&& formatted.dom() == if marked.dom().is_empty() {
                Set::<FieldId>::empty()
            } else {
                marked.dom().union(to_retrieve)
            }
            &&& forall|id: FieldId| #[trigger]
                formatted.contains_key(id) ==> (formatted[id].formats() <==> marked.contains_key(
                    id,
                ))
        }),
{
    let marked = marked_fields(
        attr_to_highlight,
        attr_to_crop,
        query_crop_length,
        names,
        displayed,
    );
    let formatted = formatted_fields(
        attr_to_highlight,
        attr_to_crop,
        query_crop_length,
        to_retrieve,
        names,
        displayed,
    );
    if marked.dom().is_empty() {
        assert(formatted.dom() =~= Set::<FieldId>::empty());
    } else {
        assert(formatted.dom() =~= marked.dom().union(to_retrieve));
    }
}

/// No field that documents do not show gets into the formatted copy.
pub proof fn law_formatted_is_displayed(
    attr_to_highlight: Set<Seq<char>>,
    attr_to_crop: Seq<String>,
    query_crop_length: usize,
    to_retrieve: Set<FieldId>,
    names: Map<FieldId, Seq<char>>,
    displayed: Set<FieldId>,
)
    requires
        to_retrieve.subset_of(displayed),
    ensures
        formatted_fields(
            attr_to_highlight,
            attr_to_crop,
            query_crop_length,
            to_retrieve,
            names,
            displayed,
        ).dom().subset_of(displayed),
{
}

/// A crop attribute that is written as a name, a colon and a length is read as that name and that
/// length.
pub proof fn law_crop_attribute(name: Seq<char>, length: usize, default_length: usize)
    ensures
        ({
            let attribute = name.push(':') + text::digits_of(length as nat);
            &&& crop_name(attribute) == name
            &&& crop_length_of(attribute, default_length) == length
        }),
{
    let digits = text::digits_of(length as nat);
    let attribute = name.push(':') + digits;
    text::lemma_digits_of(length as nat);
    text::law_read_back(length);
    assert(attribute[name.len() as int] == ':');
    assert(attribute.contains(':'));
    attribute.index_of_last_ensures(':');
    let at = attribute.index_of_last(':')->0;
    if at > name.len() {
        assert(attribute[at] == digits[at - name.len() - 1]);
        assert(text::is_digit(digits[at - name.len() - 1]));
    }
    assert(at == name.len());
    assert(attribute.take(at) =~= name);
    assert(attribute.skip(at + 1) =~= digits);
}

/// A crop attribute without a colon stands for its name and the default length.
pub proof fn law_plain_crop_attribute(name: Seq<char>, default_length: usize)
    requires
        !name.contains(':'),
    ensures
        crop_name(name) == name,
        crop_length_of(name, default_length) == default_length,
{
    name.index_of_last_ensures(':');
}

/// Putting formats together can be done in any grouping, and a plain format adds nothing.
pub proof fn law_merge(a: FormatOptions, b: FormatOptions, c: FormatOptions)
    ensures
        a.merged(b).merged(c) == a.merged(b.merged(c)),
        a.merged(FormatOptions { highlight: false, crop: None }) == a,
        (FormatOptions { highlight: false, crop: None }).merged(a) == a,
        a.merged(a) == a,
        a.merged(b).formats() <==> a.formats() || b.formats(),
{
}

/// Putting two formats together highlights where either does, and crops as the first does, or else
/// as the second does.
pub proof fn law_merged(left: FormatOptions, right: FormatOptions, both: FormatOptions)
    requires
        call_ensures(FormatOptions::merge, (left, right), both),
    ensures
        both.highlight <==> left.highlight || right.highlight,
        left.crop is Some ==> both.crop == left.crop,
        left.crop is None ==> both.crop == right.crop,
{
}

/// There is something to do just where a format highlights or crops.
pub proof fn law_something_to_do(options: FormatOptions, formats: bool)
    requires
        call_ensures(FormatOptions::should_format, (&options,), formats),
    ensures
        formats <==> options.highlight || options.crop is Some,
{
}

/// A crop attribute is read as the name before its last colon, with the number behind that colon as
/// its length; where there is no number behind it, the length is the default one.
pub proof fn law_any_crop_attribute(name: Seq<char>, behind: Seq<char>, default_length: usize)
    requires
        !behind.contains(':'),
    ensures
        ({
            let attribute = name.push(':') + behind;
            &&& crop_name(attribute) == name
            &&& text::parsed_usize(behind) is Some ==> crop_length_of(attribute, default_length)
                == text::parsed_usize(behind)->0
            &&& text::parsed_usize(behind) is None ==> crop_length_of(attribute, default_length)
                == default_length
        }),
{
    let attribute = name.push(':') + behind;
    assert(attribute[name.len() as int] == ':');
    assert(attribute.contains(':'));
    attribute.index_of_last_ensures(':');
    let at = attribute.index_of_last(':')->0;
    if at > name.len() {
        assert(attribute[at] == behind[at - name.len() - 1]);
        assert(behind.contains(':'));
    }
    assert(at == name.len());
    assert(attribute.take(at) =~= name);
    assert(attribute.skip(at + 1) =~= behind);
}

/// Of the crop attributes that name a field, or a star, the last one counts; without one the field
/// is not cropped.
pub proof fn law_last_crop_attribute_counts(
    attributes: Seq<String>,
    default_length: usize,
    names: Map<FieldId, Seq<char>>,
    id: FieldId,
    at: int,
)
    requires
        -1 <= at < attributes.len(),
        at >= 0 ==> crop_name(attributes[at]@) == "*"@ || names.contains_key(id) && crop_name(
            attributes[at]@,
        ) == names[id],
        forall|j: int|
            at < j < attributes.len() ==> crop_name((#[trigger] attributes[j])@) != "*"@ && !(
            names.contains_key(id) && crop_name(attributes[j]@) == names[id]),
    ensures
        at >= 0 ==> cropped(attributes, default_length, names, id) == Some(
            crop_length_of(attributes[at]@, default_length),
        ),
        at == -1 ==> cropped(attributes, default_length, names, id) is None,
    decreases attributes.len(),
{
    if at + 1 < attributes.len() {
        let fewer = attributes.drop_last();
        assert(!crops(attributes[attributes.len() - 1]@, names, id));
        assert forall|j: int| at < j < fewer.len() implies crop_name((#[trigger] fewer[j])@)
            != "*"@ && !(names.contains_key(id) && crop_name(fewer[j]@) == names[id]) by {
            assert(fewer[j] == attributes[j]);
        }
        law_last_crop_attribute_counts(fewer, default_length, names, id, at);
    }
}

/// A field is highlighted in the formatted copy just where documents show it and the attributes
/// hold its name or a star; it is cropped just where documents show it and a crop attribute is
/// about it, to the length of the last such one. A field that is neither is in the copy just where
/// it is retrieved and another one is highlighted or cropped, and is then left as it is.
pub proof fn law_format_of_a_field(
    attr_to_highlight: Set<Seq<char>>,
    attr_to_crop: Seq<String>,
    query_crop_length: usize,
    to_retrieve: Set<FieldId>,
    names: Map<FieldId, Seq<char>>,
    displayed: Set<FieldId>,
    id: FieldId,
    at: int,
    other: FieldId,
)
    requires
        -1 <= at < attr_to_crop.len(),
        at >= 0 ==> crop_name(attr_to_crop[at]@) == "*"@ || names.contains_key(id) && crop_name(
            attr_to_crop[at]@,
        ) == names[id],
        forall|j: int|
            at < j < attr_to_crop.len() ==> crop_name((#[trigger] attr_to_crop[j])@) != "*"@ && !(
            names.contains_key(id) && crop_name(attr_to_crop[j]@) == names[id]),
    ensures
        ({
            let options = formatted_fields(
                attr_to_highlight,
                attr_to_crop,
                query_crop_length,
                to_retrieve,
                names,
                displayed,
            );
            let asked = attr_to_highlight.contains("*"@) || names.contains_key(id)
                && attr_to_highlight.contains(names[id]);
            let marked = displayed.contains(id) && (asked || at >= 0);
            &&& marked ==> {
                &&& options.contains_key(id)
                &&& options[id].highlight <==> asked
                &&& at >= 0 ==> options[id].crop == Some(
                    crop_length_of(attr_to_crop[at]@, query_crop_length),
                )
                &&& at == -1 ==> options[id].crop is None
            }
            &&& !marked && options.contains_key(id) ==> {
                &&& to_retrieve.contains(id)
                &&& !options[id].highlight && options[id].crop is None
                &&& exists|first: FieldId|
                    displayed.contains(first) && #[trigger] options.contains_key(first) && (
                    options[first].highlight || options[first].crop is Some)
            }
            &&& options.contains_key(other) && to_retrieve.contains(id) ==> options.contains_key(id)
        }),
{
    law_last_crop_attribute_counts(attr_to_crop, query_crop_length, names, id, at);
    let options = formatted_fields(
        attr_to_highlight,
        attr_to_crop,
        query_crop_length,
        to_retrieve,
        names,
        displayed,
    );
    let marked = marked_fields(
        attr_to_highlight,
        attr_to_crop,
        query_crop_length,
        names,
        displayed,
    );
    if !marked.dom().is_empty() {
        let first = marked.dom().choose();
        assert(marked.contains_key(first));
        assert(options.contains_key(first));
        assert(options[first] == marked[first]);
    }
}

/// The formats that are computed are those of the fields of the formatted copy: which are
/// highlighted, which are cropped and to what length, and which are left as they are.
pub proof fn law_computed_format_of_a_field(
    attr_to_highlight: NameSet,
    attr_to_crop: Vec<String>,
    query_crop_length: usize,
    to_retrieve_ids: BTreeSet<FieldId>,
    fields_ids_map: FieldsIdsMap,
    displayed_ids: BTreeSet<FieldId>,
    options: BTreeMap<FieldId, FormatOptions>,
    id: FieldId,
    at: int,
    other: FieldId,
)
    requires
        call_ensures(
            compute_formatted_options,
            (
                &attr_to_highlight,
                &attr_to_crop,
                query_crop_length,
                &to_retrieve_ids,
                &fields_ids_map,
                &displayed_ids,
            ),
            options,
        ),
        -1 <= at < attr_to_crop@.len(),
        at >= 0 ==> crop_name(attr_to_crop@[at]@) == "*"@ || fields_ids_map@.contains_key(id)
            && crop_name(attr_to_crop@[at]@) == fields_ids_map@[id],
        forall|j: int|
            at < j < attr_to_crop@.len() ==> crop_name((#[trigger] attr_to_crop@[j])@) != "*"@ && !(
            fields_ids_map@.contains_key(id) && crop_name(attr_to_crop@[j]@)
                == fields_ids_map@[id]),
    ensures
        ({
            let asked = text::mentions(attr_to_highlight.names@, "*"@)
                || fields_ids_map@.contains_key(id) && text::mentions(
                attr_to_highlight.names@,
                fields_ids_map@[id],
            );
            let marked = displayed_ids@.contains(id) && (asked || at >= 0);
            &&& marked ==> {
                &&& options@.contains_key(id)
                &&& options@[id].highlight <==> asked
                &&& at >= 0 ==> options@[id].crop == Some(
                    crop_length_of(attr_to_crop@[at]@, query_crop_length),
                )
                &&& at == -1 ==> options@[id].crop is None
            }
            &&& !marked && options@.contains_key(id) ==> to_retrieve_ids@.contains(id)
                && !options@[id].highlight && options@[id].crop is None
            &&& options@.contains_key(other) && to_retrieve_ids@.contains(id)
                ==> options@.contains_key(id)
        }),
{
    let set = attr_to_highlight;
    assert(set@.contains("*"@) <==> text::mentions(set.names@, "*"@));
    if fields_ids_map@.contains_key(id) {
        assert(set@.contains(fields_ids_map@[id]) <==> text::mentions(
            set.names@,
            fields_ids_map@[id],
        ));
    }
    law_format_of_a_field(
        set@,
        attr_to_crop@,
        query_crop_length,
        to_retrieve_ids@,
        fields_ids_map@,
        displayed_ids@,
        id,
        at,
        other,
    );
}

/// A field that documents show and the attributes ask for is highlighted, and not cropped; any
/// other field stays as it was.
pub proof fn law_highlight_is_added(
    options: &mut BTreeMap<FieldId, FormatOptions>,
    attributes: NameSet,
    map: FieldsIdsMap,
    displayed: BTreeSet<FieldId>,
    done: (),
    id: FieldId,
)
    requires
        call_ensures(
            add_highlight_to_formatted_options,
            (options, &attributes, &map, &displayed),
            done,
        ),
    ensures
        ({
            let asked = displayed@.contains(id) && (text::mentions(attributes.names@, "*"@)
                || map@.contains_key(id) && text::mentions(attributes.names@, map@[id]));
            &&& asked ==> {
                &&& final(options)@.contains_key(id)
                &&& final(options)@[id].highlight && final(options)@[id].crop is None
            }
            &&& !asked ==> (final(options)@.contains_key(id) <==> old(options)@.contains_key(id))
            &&& !asked && old(options)@.contains_key(id) ==> final(options)@[id]
                == old(options)@[id]
        }),
{
    let set = attributes;
    assert(set@.contains("*"@) <==> text::mentions(set.names@, "*"@));
    if map@.contains_key(id) {
        assert(set@.contains(map@[id]) <==> text::mentions(set.names@, map@[id]));
    }
}

/// A field that documents show and a crop attribute is about is cropped to the length of the last
/// such attribute, and stays highlighted where it was; any other field stays as it was.
pub proof fn law_crop_is_added(
    options: &mut BTreeMap<FieldId, FormatOptions>,
    attributes: Vec<String>,
    crop_length: usize,
    map: FieldsIdsMap,
    displayed: BTreeSet<FieldId>,
    done: (),
    id: FieldId,
    at: int,
)
    requires
        call_ensures(
            add_crop_to_formatted_options,
            (options, &attributes, crop_length, &map, &displayed),
            done,
        ),
        -1 <= at < attributes@.len(),
        at >= 0 ==> crop_name(attributes@[at]@) == "*"@ || map@.contains_key(id) && crop_name(
            attributes@[at]@,
        ) == map@[id],
        forall|j: int|
            at < j < attributes@.len() ==> crop_name((#[trigger] attributes@[j])@) != "*"@ && !(
            map@.contains_key(id) && crop_name(attributes@[j]@) == map@[id]),
    ensures
        displayed@.contains(id) && at >= 0 ==> {
            &&& final(options)@.contains_key(id)
            &&& final(options)@[id].crop == Some(crop_length_of(attributes@[at]@, crop_length))
            &&& final(options)@[id].highlight <==> old(options)@.contains_key(id)
                && old(options)@[id].highlight
        },
        !displayed@.contains(id) || at == -1 ==> {
            &&& final(options)@.contains_key(id) <==> old(options)@.contains_key(id)
            &&& old(options)@.contains_key(id) ==> final(options)@[id] == old(options)@[id]
        },
{
    law_last_crop_attribute_counts(attributes@, crop_length, map@, id, at);
}

/// A field of the set that has no format yet is neither highlighted nor cropped; what has one keeps
/// it.
pub proof fn law_plain_is_added(
    options: &mut BTreeMap<FieldId, FormatOptions>,
    ids: BTreeSet<FieldId>,
    done: (),
    id: FieldId,
)
    requires
        call_ensures(add_non_formatted_ids_to_formatted_options, (options, &ids), done),
    ensures
        final(options)@.contains_key(id) <==> old(options)@.contains_key(id) || ids@.contains(id),
        old(options)@.contains_key(id) ==> final(options)@[id] == old(options)@[id],
        !old(options)@.contains_key(id) && ids@.contains(id) ==> !final(options)@[id].highlight
            && final(options)@[id].crop is None,
{
}

} // verus!
