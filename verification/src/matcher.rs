//! Formatting: marking the words of a document that match a query.
use vstd::prelude::*;

use crate::json;
use crate::json::{Document, Field, Json, Value};
use crate::options::FormatOptions;

verus! {

/// Where a match stands in a text, in bytes.
#[derive(Debug, Clone, Copy, PartialEq, Eq, Structural)]
pub struct MatchBounds {
    pub start: usize,
    pub length: usize,
}

/// What finds the words of a query in texts, and marks them. Nothing is assumed of what it returns.
pub trait Matcher {
    /// Where the words stand in a text.
    fn matches(&self, text: &str) -> Vec<MatchBounds>;

    /// A text with its words marked, and cropped around them.
    fn format(&self, text: &str, options: FormatOptions) -> String;
}

/// Whether these can be the places of the words in a text.
pub open spec fn text_matches<B: Matcher>(
    builder: B,
    text: Seq<char>,
    found: Seq<MatchBounds>,
) -> bool {
    exists|read: &str, bounds: Vec<MatchBounds>| #[trigger]
        call_ensures(B::matches, (&builder, read), bounds) && read@ == text && bounds@ == found
}

/// Whether this can be what a text becomes.
pub open spec fn text_becomes<B: Matcher>(
    builder: B,
    options: Option<FormatOptions>,
    text: Seq<char>,
    out: Seq<char>,
) -> bool {
    match options {
        Some(options) => exists|read: &str, written: String| #[trigger]
            call_ensures(B::format, (&builder, read, options), written) && read@ == text && written@
                == out,
        None => out == text,
    }
}

/// Whether these can be the places of the words in a value: those in each of its texts and
/// numbers, one after the other.
pub open spec fn value_matches<B: Matcher>(builder: B, value: Json, found: Seq<MatchBounds>) -> bool
    decreases value,
{
    match value {
        Json::String(text) | Json::Number(text) => text_matches(builder, text, found),
        Json::Array(values) => exists|parts: Seq<Seq<MatchBounds>>|
            #![trigger parts.flatten()]
            found == parts.flatten() && parts.len() == values.len() && forall|i: int|
                0 <= i < values.len() ==> value_matches(builder, #[trigger] values[i], parts[i]),
        Json::Object(fields) => exists|parts: Seq<Seq<MatchBounds>>|
            #![trigger parts.flatten()]
            found == parts.flatten() && parts.len() == fields.len() && forall|i: int|
                0 <= i < fields.len() ==> value_matches(
                    builder,
                    (#[trigger] fields[i]).value,
                    parts[i],
                ),
        _ => found.len() == 0,
    }
}

/// Whether this can be what a value becomes: each of its texts is formatted, each of its
/// numbers is made a text and formatted, and the rest stays as it is. Only a text at the top
/// is cropped.
pub open spec fn value_becomes<B: Matcher>(
    builder: B,
    options: Option<FormatOptions>,
    value: Json,
    out: Json,
) -> bool
    decreases value,
{
    match value {
        Json::String(text) | Json::Number(text) => out is String && text_becomes(
            builder,
            options,
            text,
            out->String_0,
        ),
        Json::Array(values) => {
            &&& out is Array
            &&& out->Array_0.len() == values.len()
            &&& forall|i: int|
                0 <= i < values.len() ==> value_becomes(
                    builder,
                    uncropped(options),
                    #[trigger] values[i],
                    out->Array_0[i],
                )
        },
        Json::Object(fields) => {
            &&& out is Object
            &&& out->Object_0.len() == fields.len()
            &&& forall|i: int|
                0 <= i < fields.len() ==> out->Object_0[i].key == (#[trigger] fields[i]).key
                    && value_becomes(
                    builder,
                    uncropped(options),
                    fields[i].value,
                    out->Object_0[i].value,
                )
        },
        other => out == other,
    }
}

/// Whether these can be the places that are noted for a value: those of the words, or none.
pub open spec fn noted<B: Matcher>(
    builder: B,
    compute_matches: bool,
    value: Json,
    found: Seq<MatchBounds>,
) -> bool {
    if compute_matches {
        value_matches(builder, value, found)
    } else {
        found.len() == 0
    }
}

/// Whether a list of places can grow so when those of the words in a value are added to it.
pub open spec fn places_added<B: Matcher>(
    builder: B,
    compute_matches: bool,
    value: Json,
    before: Seq<MatchBounds>,
    after: Seq<MatchBounds>,
) -> bool {
    exists|found: Seq<MatchBounds>|
        #![trigger before + found]
        after == before + found && noted(builder, compute_matches, value, found)
}

/// Formats a text, and adds the places of the words in it to `infos`.
fn format_text<B: Matcher>(
    builder: &B,
    text: String,
    format_options: Option<FormatOptions>,
    infos: &mut Vec<MatchBounds>,
    compute_matches: bool,
) -> (out: String)
    ensures
        text_becomes(*builder, format_options, text@, out@),
        exists|found: Seq<MatchBounds>|
            #![trigger old(infos)@ + found]
            final(infos)@ == old(infos)@ + found && if compute_matches {
                text_matches(*builder, text@, found)
            } else {
                found.len() == 0
            },
{
    if compute_matches {
        let mut bounds = builder.matches(text.as_str());
        let ghost found = bounds@;
        assert(text_matches(*builder, text@, found));
        infos.append(&mut bounds);
        assert(infos@ == old(infos)@ + found);
    } else {
        assert(infos@ == old(infos)@ + Seq::<MatchBounds>::empty());
    }
    match format_options {
        Some(options) => builder.format(text.as_str(), options),
        None => text,
    }
}

/// A format without its crop.
pub open spec fn uncropped(options: Option<FormatOptions>) -> Option<FormatOptions> {
    match options {
        Some(options) => Some(FormatOptions { highlight: options.highlight, crop: None }),
        None => None,
    }
}

/// A format without its crop.
fn without_crop(options: Option<FormatOptions>) -> (nested: Option<FormatOptions>)
    ensures
        nested == uncropped(options),
{
    match options {
        Some(options) => Some(FormatOptions { highlight: options.highlight, crop: None }),
        None => None,
    }
}

/// Formats a value, and adds the places of the words in it to `infos`.
pub fn format_value<B: Matcher>(
    value: Value,
    builder: &B,
    format_options: Option<FormatOptions>,
    infos: &mut Vec<MatchBounds>,
    compute_matches: bool,
) -> (out: Value)
    ensures
        value_becomes(*builder, format_options, value@, out@),
        places_added(*builder, compute_matches, value@, old(infos)@, final(infos)@),
    decreases value,
{
    broadcast use json::lemma_value_view;

    match value {
        Value::String(text) => Value::String(
            format_text(builder, text, format_options, infos, compute_matches),
        ),
        Value::Number(number) => Value::String(
            format_text(builder, number.text, format_options, infos, compute_matches),
        ),
        Value::Array(values) => {
            let nested = without_crop(format_options);
            let ghost before = infos@;
            let ghost mut parts: Seq<Seq<MatchBounds>> = Seq::empty();
            let mut outs: Vec<Value> = Vec::new();
            assert(before + parts.flatten() == before);
            for item in it: values
                invariant
                    value == Value::Array(values),
                    it.seq() == values@,
                    outs@.len() == it.index(),
                    parts.len() == it.index(),
                    infos@ == before + parts.flatten(),
                    !compute_matches ==> infos@ == before,
                    forall|i: int|
                        0 <= i < outs@.len() ==> value_becomes(
                            *builder,
                            nested,
                            values@[i]@,
                            #[trigger] outs@[i]@,
                        ),
                    forall|i: int|
                        0 <= i < parts.len() ==> noted(
                            *builder,
                            compute_matches,
                            values@[i]@,
                            #[trigger] parts[i],
                        ),
            {
                assert(values@[it.index()] == item);
                assert(decreases_to!(value => value->Array_0));
                assert(decreases_to!(values => values@));
                assert(decreases_to!(values@ => values@[it.index()]));
                let ghost earlier = infos@;
                outs.push(format_value(item, builder, nested, infos, compute_matches));
                proof {
                    let found = choose|found: Seq<MatchBounds>|
                        #![trigger earlier + found]
                        infos@ == earlier + found && noted(*builder, compute_matches, item@, found);
                    parts.lemma_flatten_push(found);
                    assert(before + parts.flatten() + found == before + (parts.flatten() + found));
                    parts = parts.push(found);
                }
            }
            proof {
                if compute_matches {
                    assert(value_matches(*builder, value@, parts.flatten()));
                } else {
                    assert(infos@ == before + Seq::<MatchBounds>::empty());
                }
            }
            Value::Array(outs)
        },
        Value::Object(object) => {
            let nested = without_crop(format_options);
            let entries = object.entries;
            let ghost before = infos@;
            let ghost mut parts: Seq<Seq<MatchBounds>> = Seq::empty();
            let mut outs: Vec<(String, Value)> = Vec::new();
            assert(before + parts.flatten() == before);
            for entry in it: entries
                invariant
                    value == Value::Object(object),
                    object.entries == entries,
                    it.seq() == entries@,
                    outs@.len() == it.index(),
                    parts.len() == it.index(),
                    infos@ == before + parts.flatten(),
                    !compute_matches ==> infos@ == before,
                    forall|i: int|
                        0 <= i < outs@.len() ==> (#[trigger] outs@[i]).0@ == entries@[i].0@
                            && value_becomes(*builder, nested, entries@[i].1@, outs@[i].1@),
                    forall|i: int|
                        0 <= i < parts.len() ==> noted(
                            *builder,
                            compute_matches,
                            entries@[i].1@,
                            #[trigger] parts[i],
                        ),
            {
                assert(entries@[it.index()] == entry);
                assert(decreases_to!(value => value->Object_0));
                assert(decreases_to!(object => object.entries));
                assert(decreases_to!(entries => entries@));
                assert(decreases_to!(entries@ => entries@[it.index()]));
                assert(decreases_to!(entry => entry.1));
                let ghost earlier = infos@;
                let (key, item) = entry;
                outs.push((key, format_value(item, builder, nested, infos, compute_matches)));
                proof {
                    let found = choose|found: Seq<MatchBounds>|
                        #![trigger earlier + found]
                        infos@ == earlier + found && noted(*builder, compute_matches, item@, found);
                    parts.lemma_flatten_push(found);
                    assert(before + parts.flatten() + found == before + (parts.flatten() + found));
                    parts = parts.push(found);
                }
            }
            proof {
                if compute_matches {
                    assert(value_matches(*builder, value@, parts.flatten()));
                } else {
                    assert(infos@ == before + Seq::<MatchBounds>::empty());
                }
            }
            Value::Object(Document { entries: outs })
        },
        other => {
            assert(infos@ == old(infos)@ + Seq::<MatchBounds>::empty());
            other
        },
    }
}

/// A value with its numbers made texts.
pub open spec fn with_texts(value: Json) -> Json
    decreases value,
{
    match value {
        Json::Number(text) => Json::String(text),
        Json::Array(values) => Json::Array(
            Seq::new(
                values.len(),
                |i: int|
                    if 0 <= i < values.len() {
                        with_texts(values[i])
                    } else {
                        Json::Null
                    },
            ),
        ),
        Json::Object(fields) => Json::Object(
            Seq::new(
                fields.len(),
                |i: int|
                    if 0 <= i < fields.len() {
                        Field { key: fields[i].key, value: with_texts(fields[i].value) }
                    } else {
                        Field { key: Seq::empty(), value: Json::Null }
                    },
            ),
        ),
        other => other,
    }
}

/// Where there is no format, a value stays as it is, but for its numbers, which are made texts.
pub proof fn law_no_format<B: Matcher>(builder: B, value: Json, out: Json)
    requires
        value_becomes(builder, None, value, out),
    ensures
        out == with_texts(value),
    decreases value,
{
    match value {
        Json::Array(values) => {
            let outs = out->Array_0;
            let expected = with_texts(value)->Array_0;
            assert forall|i: int|
                0 <= i < values.len() implies outs[i] == #[trigger] expected[i] by {
                assert(value_becomes(builder, uncropped(None), values[i], outs[i]));
                law_no_format(builder, values[i], outs[i]);
            }
            assert(outs =~= expected);
        },
        Json::Object(fields) => {
            let outs = out->Object_0;
            let expected = with_texts(value)->Object_0;
            assert forall|i: int|
                0 <= i < fields.len() implies outs[i] == #[trigger] expected[i] by {
                assert(value_becomes(builder, uncropped(None), fields[i].value, outs[i].value));
                law_no_format(builder, fields[i].value, outs[i].value);
            }
            assert(outs =~= expected);
        },
        _ => {},
    }
}

/// Whether a matcher answers alike each time it is asked about the same text.
pub open spec fn answers_alike<B: Matcher>(builder: B) -> bool {
    &&& forall|options: Option<FormatOptions>, text: Seq<char>, left: Seq<char>, right: Seq<char>|
        #[trigger] text_becomes(builder, options, text, left) && #[trigger] text_becomes(
            builder,
            options,
            text,
            right,
        ) ==> left == right
    &&& forall|text: Seq<char>, left: Seq<MatchBounds>, right: Seq<MatchBounds>|
        #[trigger] text_matches(builder, text, left) && #[trigger] text_matches(
            builder,
            text,
            right,
        ) ==> left == right
}

/// With a matcher that answers alike, there is one thing only that a value becomes.
proof fn lemma_becomes_one<B: Matcher>(
    builder: B,
    options: Option<FormatOptions>,
    value: Json,
    left: Json,
    right: Json,
)
    requires
        answers_alike(builder),
        value_becomes(builder, options, value, left),
        value_becomes(builder, options, value, right),
    ensures
        left == right,
    decreases value,
{
    match value {
        Json::String(text) | Json::Number(text) => {
            assert(text_becomes(builder, options, text, left->String_0));
            assert(text_becomes(builder, options, text, right->String_0));
        },
        Json::Array(values) => {
            let lefts = left->Array_0;
            let rights = right->Array_0;
            assert forall|i: int| 0 <= i < values.len() implies lefts[i] == rights[i] by {
                lemma_becomes_one(builder, uncropped(options), values[i], lefts[i], rights[i]);
            }
            assert(lefts =~= rights);
        },
        Json::Object(fields) => {
            let lefts = left->Object_0;
            let rights = right->Object_0;
            assert forall|i: int| 0 <= i < fields.len() implies lefts[i] == rights[i] by {
                assert(lefts[i].key == fields[i].key && rights[i].key == fields[i].key);
                lemma_becomes_one(
                    builder,
                    uncropped(options),
                    fields[i].value,
                    lefts[i].value,
                    rights[i].value,
                );
            }
            assert(lefts =~= rights);
        },
        _ => {},
    }
}

/// The texts and numbers in each of the parts of a value.
pub open spec fn texts_in_parts(value: Json) -> Seq<Seq<Seq<char>>>
    decreases value, 0int,
{
    match value {
        Json::Array(values) => Seq::new(
            values.len(),
            |i: int|
                if 0 <= i < values.len() {
                    texts_in(values[i])
                } else {
                    Seq::empty()
                },
        ),
        Json::Object(fields) => Seq::new(
            fields.len(),
            |i: int|
                if 0 <= i < fields.len() {
                    texts_in(fields[i].value)
                } else {
                    Seq::empty()
                },
        ),
        _ => Seq::empty(),
    }
}

/// The texts and numbers in a value, in the order in which they stand in it.
pub open spec fn texts_in(value: Json) -> Seq<Seq<char>>
    decreases value, 1int,
{
    match value {
        Json::String(text) | Json::Number(text) => seq![text],
        _ => texts_in_parts(value).flatten(),
    }
}

/// Whether these can be the places of the words in each of a list of texts, one after the other.
pub open spec fn texts_match<B: Matcher>(
    builder: B,
    texts: Seq<Seq<char>>,
    found: Seq<MatchBounds>,
) -> bool {
    exists|parts: Seq<Seq<MatchBounds>>|
        #![trigger parts.flatten()]
        found == parts.flatten() && parts.len() == texts.len() && forall|i: int|
            0 <= i < texts.len() ==> text_matches(builder, #[trigger] texts[i], parts[i])
}

/// The places in two lists of texts are those in both together.
proof fn lemma_texts_match_sum<B: Matcher>(
    builder: B,
    texts: Seq<Seq<char>>,
    found: Seq<MatchBounds>,
    more_texts: Seq<Seq<char>>,
    more_found: Seq<MatchBounds>,
)
    requires
        texts_match(builder, texts, found),
        texts_match(builder, more_texts, more_found),
    ensures
        texts_match(builder, texts + more_texts, found + more_found),
{
    let parts = choose|parts: Seq<Seq<MatchBounds>>|
        #![trigger parts.flatten()]
        found == parts.flatten() && parts.len() == texts.len() && forall|i: int|
            0 <= i < texts.len() ==> text_matches(builder, #[trigger] texts[i], parts[i]);
    let more = choose|parts: Seq<Seq<MatchBounds>>|
        #![trigger parts.flatten()]
        more_found == parts.flatten() && parts.len() == more_texts.len() && forall|i: int|
            0 <= i < more_texts.len() ==> text_matches(
                builder,
                #[trigger] more_texts[i],
                parts[i],
            );
    let both = texts + more_texts;
    let all = parts + more;
    vstd::seq_lib::lemma_flatten_concat(parts, more);
    assert forall|i: int| 0 <= i < both.len() implies text_matches(
        builder,
        #[trigger] both[i],
        all[i],
    ) by {
        if i < texts.len() {
            assert(both[i] == texts[i]);
        } else {
            assert(both[i] == more_texts[i - texts.len()]);
        }
    }
    assert(found + more_found == all.flatten());
}

/// The places in lists of texts, one list after the other, are those in all of the texts.
proof fn lemma_groups_match<B: Matcher>(
    builder: B,
    groups: Seq<Seq<Seq<char>>>,
    founds: Seq<Seq<MatchBounds>>,
)
    requires
        groups.len() == founds.len(),
        forall|i: int|
            0 <= i < groups.len() ==> texts_match(builder, #[trigger] groups[i], founds[i]),
    ensures
        texts_match(builder, groups.flatten(), founds.flatten()),
    decreases groups.len(),
{
    if groups.len() == 0 {
        let none: Seq<Seq<MatchBounds>> = Seq::empty();
        assert(none.flatten() == founds.flatten());
    } else {
        let fewer = groups.drop_last();
        let fewer_founds = founds.drop_last();
        assert forall|i: int| 0 <= i < fewer.len() implies texts_match(
            builder,
            #[trigger] fewer[i],
            fewer_founds[i],
        ) by {
            assert(fewer[i] == groups[i]);
        }
        lemma_groups_match(builder, fewer, fewer_founds);
        assert(texts_match(builder, groups[groups.len() - 1], founds[groups.len() - 1]));
        lemma_texts_match_sum(
            builder,
            fewer.flatten(),
            fewer_founds.flatten(),
            groups.last(),
            founds.last(),
        );
        fewer.lemma_flatten_push(groups.last());
        fewer_founds.lemma_flatten_push(founds.last());
        assert(fewer.push(groups.last()) == groups);
        assert(fewer_founds.push(founds.last()) == founds);
    }
}

/// The places of the words in a value are those in each of its texts and numbers, in the order in
/// which they stand in it.
pub proof fn law_places_in_order<B: Matcher>(builder: B, value: Json, found: Seq<MatchBounds>)
    requires
        value_matches(builder, value, found),
    ensures
        texts_match(builder, texts_in(value), found),
    decreases value,
{
    match value {
        Json::String(text) | Json::Number(text) => {
            let parts = seq![found];
            let texts = texts_in(value);
            parts.lemma_flatten_one_element();
            assert(found == parts.flatten());
            assert(texts == seq![text]);
            assert(text_matches(builder, texts[0], parts[0]));
        },
        Json::Array(values) => {
            let parts = choose|parts: Seq<Seq<MatchBounds>>|
                #![trigger parts.flatten()]
                found == parts.flatten() && parts.len() == values.len() && forall|i: int|
                    0 <= i < values.len() ==> value_matches(
                        builder,
                        #[trigger] values[i],
                        parts[i],
                    );
            let groups = texts_in_parts(value);
            assert forall|i: int| 0 <= i < groups.len() implies texts_match(
                builder,
                #[trigger] groups[i],
                parts[i],
            ) by {
                assert(value_matches(builder, values[i], parts[i]));
                assert(groups[i] == texts_in(values[i]));
                law_places_in_order(builder, values[i], parts[i]);
            }
            lemma_groups_match(builder, groups, parts);
        },
        Json::Object(fields) => {
            let parts = choose|parts: Seq<Seq<MatchBounds>>|
                #![trigger parts.flatten()]
                found == parts.flatten() && parts.len() == fields.len() && forall|i: int|
                    0 <= i < fields.len() ==> value_matches(
                        builder,
                        (#[trigger] fields[i]).value,
                        parts[i],
                    );
            let groups = texts_in_parts(value);
            assert forall|i: int| 0 <= i < groups.len() implies texts_match(
                builder,
                #[trigger] groups[i],
                parts[i],
            ) by {
                assert(value_matches(builder, fields[i].value, parts[i]));
                assert(groups[i] == texts_in(fields[i].value));
                law_places_in_order(builder, fields[i].value, parts[i]);
            }
            lemma_groups_match(builder, groups, parts);
        },
        _ => {
            let parts: Seq<Seq<MatchBounds>> = Seq::empty();
            assert(found =~= parts.flatten());
        },
    }
}

/// With a matcher that answers alike, a value becomes the same whether or not the places of the
/// words are noted. Where they are not, the list of places stays as it was; where they are, the
/// places in each text and number of the value come behind it, in order.
pub proof fn law_noting_changes_no_value<B: Matcher>(
    builder: B,
    options: Option<FormatOptions>,
    value: Json,
    plain_out: Json,
    plain_before: Seq<MatchBounds>,
    plain_after: Seq<MatchBounds>,
    noted_out: Json,
    noted_before: Seq<MatchBounds>,
    noted_after: Seq<MatchBounds>,
)
    requires
        answers_alike(builder),
        value_becomes(builder, options, value, plain_out),
        places_added(builder, false, value, plain_before, plain_after),
        value_becomes(builder, options, value, noted_out),
        places_added(builder, true, value, noted_before, noted_after),
    ensures
        noted_out == plain_out,
        plain_after == plain_before,
        noted_before.is_prefix_of(noted_after),
        texts_match(builder, texts_in(value), noted_after.skip(noted_before.len() as int)),
{
    lemma_becomes_one(builder, options, value, plain_out, noted_out);
    let nothing = choose|found: Seq<MatchBounds>|
        #![trigger plain_before + found]
        plain_after == plain_before + found && noted(builder, false, value, found);
    assert(plain_before + nothing =~= plain_before);
    let found = choose|found: Seq<MatchBounds>|
        #![trigger noted_before + found]
        noted_after == noted_before + found && noted(builder, true, value, found);
    assert(noted_after.skip(noted_before.len() as int) =~= found);
    law_places_in_order(builder, value, found);
}

/// A number is formatted as the text that it is printed with, under whatever options; and so are
/// the places of the words in it noted.
pub proof fn law_number_as_its_text<B: Matcher>(
    builder: B,
    options: Option<FormatOptions>,
    text: Seq<char>,
    out: Json,
    found: Seq<MatchBounds>,
)
    ensures
        value_becomes(builder, options, Json::Number(text), out) <==> value_becomes(
            builder,
            options,
            Json::String(text),
            out,
        ),
        value_matches(builder, Json::Number(text), found) <==> value_matches(
            builder,
            Json::String(text),
            found,
        ),
{
}

/// A text, or a number by its text, becomes what the matcher makes of that very text under the very
/// options that are given, and stays as it is without options. The list of places grows by those
/// that the matcher finds in that text, if they are asked for, and by none else.
pub proof fn law_text_is_formatted_as_told<B: Matcher>(
    value: Value,
    text: Seq<char>,
    builder: B,
    format_options: Option<FormatOptions>,
    infos: &mut Vec<MatchBounds>,
    compute_matches: bool,
    out: Value,
)
    requires
        call_ensures(
            format_value::<B>,
            (value, &builder, format_options, infos, compute_matches),
            out,
        ),
        value is String && value->String_0@ == text || value is Number && value->Number_0.text@
            == text,
    ensures
        out is String,
        format_options is None ==> out->String_0@ == text,
        format_options matches Some(options) ==> exists|read: &str, written: String|
            read@ == text && out->String_0@ == written@ && #[trigger] call_ensures(
                B::format,
                (&builder, read, options),
                written,
            ),
        !compute_matches ==> final(infos)@ == old(infos)@,
        compute_matches ==> exists|read: &str, bounds: Vec<MatchBounds>|
            read@ == text && final(infos)@ == old(infos)@ + bounds@ && #[trigger] call_ensures(
                B::matches,
                (&builder, read),
                bounds,
            ),
{
}

/// The values in an array or an object are formatted each by itself, in their places and under
/// their keys: highlighted just where the whole is to be, and never cropped. What is neither a text
/// nor a number, nor holds any, stays as it is.
pub proof fn law_nested_values_are_not_cropped<B: Matcher>(
    builder: B,
    options: Option<FormatOptions>,
    nested: Option<FormatOptions>,
    value: Json,
    out: Json,
    i: int,
)
    requires
        value_becomes(builder, options, value, out),
        options is None <==> nested is None,
        nested is Some ==> nested->0.crop is None && nested->0.highlight == options->0.highlight,
    ensures
        value matches Json::Array(values) ==> {
            &&& out is Array && out->Array_0.len() == values.len()
            &&& 0 <= i < values.len() ==> value_becomes(
                builder,
                nested,
                values[i],
                out->Array_0[i],
            )
        },
        value matches Json::Object(fields) ==> {
            &&& out is Object && out->Object_0.len() == fields.len()
            &&& 0 <= i < fields.len() ==> out->Object_0[i].key == fields[i].key && value_becomes(
                builder,
                nested,
                fields[i].value,
                out->Object_0[i].value,
            )
        },
        value is Null || value is Bool ==> out == value,
        value is String || value is Number ==> out is String,
{
    if value is Array && 0 <= i < value->Array_0.len() {
        let values = value->Array_0;
        assert(value_becomes(builder, nested, values[i], out->Array_0[i]));
    }
    if value is Object && 0 <= i < value->Object_0.len() {
        let fields = value->Object_0;
        assert(out->Object_0[i].key == fields[i].key);
    }
}

/// The places in an array or an object are those in all of its values but the last, and then those
/// in the last; there are none in an empty one, nor in what is no text and no number.
pub proof fn law_places_grow<B: Matcher>(builder: B, value: Json, found: Seq<MatchBounds>)
    requires
        value_matches(builder, value, found),
    ensures
        value is Null || value is Bool ==> found.len() == 0,
        value matches Json::Array(values) && values.len() == 0 ==> found.len() == 0,
        value matches Json::Object(fields) && fields.len() == 0 ==> found.len() == 0,
        value matches Json::Array(values) && values.len() > 0 ==> exists|
            earlier: Seq<MatchBounds>,
            last: Seq<MatchBounds>,
        |
            {
                &&& found == #[trigger] (earlier + last)
                &&& value_matches(builder, Json::Array(value->Array_0.drop_last()), earlier)
                &&& value_matches(builder, value->Array_0.last(), last)
            },
        value matches Json::Object(fields) && fields.len() > 0 ==> exists|
            earlier: Seq<MatchBounds>,
            last: Seq<MatchBounds>,
        |
            {
                &&& found == #[trigger] (earlier + last)
                &&& value_matches(builder, Json::Object(value->Object_0.drop_last()), earlier)
                &&& value_matches(builder, value->Object_0.last().value, last)
            },
{
    match value {
        Json::Array(values) => {
            let parts = choose|parts: Seq<Seq<MatchBounds>>|
                #![trigger parts.flatten()]
                found == parts.flatten() && parts.len() == values.len() && forall|i: int|
                    0 <= i < values.len() ==> value_matches(
                        builder,
                        #[trigger] values[i],
                        parts[i],
                    );
            if values.len() > 0 {
                let fewer = parts.drop_last();
                let rest = values.drop_last();
                fewer.lemma_flatten_push(parts.last());
                assert(fewer.push(parts.last()) =~= parts);
                assert forall|i: int| 0 <= i < rest.len() implies value_matches(
                    builder,
                    #[trigger] rest[i],
                    fewer[i],
                ) by {
                    assert(rest[i] == values[i]);
                }
                assert(value_matches(builder, Json::Array(rest), fewer.flatten()));
                assert(value_matches(builder, values[values.len() - 1], parts.last()));
                assert(found == fewer.flatten() + parts.last());
            }
        },
        Json::Object(fields) => {
            let parts = choose|parts: Seq<Seq<MatchBounds>>|
                #![trigger parts.flatten()]
                found == parts.flatten() && parts.len() == fields.len() && forall|i: int|
                    0 <= i < fields.len() ==> value_matches(
                        builder,
                        (#[trigger] fields[i]).value,
                        parts[i],
                    );
            if fields.len() > 0 {
                let fewer = parts.drop_last();
                let rest = fields.drop_last();
                fewer.lemma_flatten_push(parts.last());
                assert(fewer.push(parts.last()) =~= parts);
                assert forall|i: int| 0 <= i < rest.len() implies value_matches(
                    builder,
                    (#[trigger] rest[i]).value,
                    fewer[i],
                ) by {
                    assert(rest[i] == fields[i]);
                }
                assert(value_matches(builder, Json::Object(rest), fewer.flatten()));
                assert(value_matches(builder, fields[fields.len() - 1].value, parts.last()));
                assert(found == fewer.flatten() + parts.last());
            }
        },
        _ => {},
    }
}

/// Formatting a value does to it, and to the list of places, just what is said of a value and of
/// its places: the list keeps what it held, and grows only where the places are asked for.
pub proof fn law_value_is_formatted_as_told<B: Matcher>(
    value: Value,
    builder: B,
    format_options: Option<FormatOptions>,
    infos: &mut Vec<MatchBounds>,
    compute_matches: bool,
    out: Value,
)
    requires
        call_ensures(
            format_value::<B>,
            (value, &builder, format_options, infos, compute_matches),
            out,
        ),
    ensures
        value_becomes(builder, format_options, value@, out@),
        old(infos)@.is_prefix_of(final(infos)@),
        !compute_matches ==> final(infos)@ == old(infos)@,
        compute_matches ==> value_matches(
            builder,
            value@,
            final(infos)@.skip(old(infos)@.len() as int),
        ),
{
    let before = old(infos)@;
    let after = final(infos)@;
    let found = choose|found: Seq<MatchBounds>|
        #![trigger before + found]
        after == before + found && noted(builder, compute_matches, value@, found);
    assert(after.skip(before.len() as int) =~= found);
    if !compute_matches {
        assert(before + found =~= before);
    }
}

} // verus!
