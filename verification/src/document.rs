//! Documents: from the bytes they are stored in to the fields that they show.
use std::collections::BTreeSet;

use vstd::prelude::*;

use crate::error::{Fallible, SearchError};
use crate::fields;
use crate::fields::{field_names, unknown_field, FieldId, FieldsIdsMap};
use crate::json;
use crate::json::{Document, Field, Json, Value};
use crate::selector;
use crate::selector::Selector;

verus! {

/// The entries that `obkv` reads from the bytes of a stored document: the number of each field, and
/// the bytes of its value.
pub uninterp spec fn stored_entries(bytes: Seq<u8>) -> Seq<(u16, Seq<u8>)>;

/// What a list of entries is, apart from how it is stored.
pub open spec fn entries_of(entries: Seq<(FieldId, Vec<u8>)>) -> Seq<(u16, Seq<u8>)> {
    entries.map_values(|entry: (FieldId, Vec<u8>)| (entry.0, entry.1@))
}

/// The bytes that a length is stored in: seven bits in each, the lowest first, with the eighth bit
/// set where more follow.
pub open spec fn length_bytes(length: nat) -> Seq<u8>
    decreases length,
{
    if length < 128 {
        seq![length as u8]
    } else {
        seq![(length % 128 + 128) as u8] + length_bytes(length / 128)
    }
}

/// The bytes that entries are stored in: for each the two bytes of its number, the higher one
/// first, the length of its value, and its value.
pub open spec fn written(entries: Seq<(u16, Seq<u8>)>) -> Seq<u8>
    decreases entries.len(),
{
    if entries.len() == 0 {
        Seq::empty()
    } else {
        let (id, value) = entries.first();
        seq![(id / 256) as u8, (id % 256) as u8] + length_bytes(value.len()) + value + written(
            entries.drop_first(),
        )
    }
}

/// Whether the length of every value can be stored.
pub open spec fn storable(entries: Seq<(u16, Seq<u8>)>) -> bool {
    forall|i: int| 0 <= i < entries.len() ==> (#[trigger] entries[i]).1.len() <= u32::MAX
}

/// Reads the entries of a stored document, through `KvReaderU16::new` and `KvReader::iter` of the
/// crate `obkv`, which take any bytes. What is claimed of the entries is that the bytes alone
/// decide them, and that entries which were written are read back. What is read from bytes that
/// nobody wrote is not said, but that reading ends; where addresses have 64 bits, no offset into
/// the bytes overflows.
#[verifier::external_body]
fn read_entries(bytes: &[u8]) -> (entries: Vec<(FieldId, Vec<u8>)>)
    ensures
        entries_of(entries@) == stored_entries(bytes@),
        forall|wrote: Seq<(u16, Seq<u8>)>|
            storable(wrote) && bytes@ == #[trigger] written(wrote) ==> entries_of(entries@)
                == wrote,
{
    obkv::KvReaderU16::new(bytes).iter().map(|(key, value)| (key, value.to_vec())).collect()
}

/// A length can be told from its bytes, whatever comes behind them.
proof fn lemma_one_length(left: nat, right: nat, left_rest: Seq<u8>, right_rest: Seq<u8>)
    requires
        length_bytes(left) + left_rest == length_bytes(right) + right_rest,
    ensures
        left == right,
        left_rest == right_rest,
    decreases left,
{
    let bytes = length_bytes(left) + left_rest;
    assert(bytes[0] == length_bytes(left)[0]);
    assert(bytes[0] == (length_bytes(right) + right_rest)[0]);
    assert((length_bytes(right) + right_rest)[0] == length_bytes(right)[0]);
    if left < 128 {
        assert(right < 128);
        assert(left_rest =~= bytes.skip(1));
        assert(right_rest =~= bytes.skip(1));
    } else {
        assert(right >= 128);
        assert(left % 128 == right % 128);
        assert(length_bytes(left / 128) + left_rest =~= bytes.skip(1));
        assert(length_bytes(right / 128) + right_rest =~= bytes.skip(1));
        lemma_one_length(left / 128, right / 128, left_rest, right_rest);
    }
}

/// No two lists of entries are stored in the same bytes.
pub proof fn law_written_once(left: Seq<(u16, Seq<u8>)>, right: Seq<(u16, Seq<u8>)>)
    requires
        written(left) == written(right),
    ensures
        left == right,
    decreases left.len(),
{
    if left.len() == 0 || right.len() == 0 {
        assert(left.len() > 0 ==> written(left).len() > 0);
        assert(right.len() > 0 ==> written(right).len() > 0);
        assert(left =~= right);
    } else {
        let bytes = written(left);
        let (left_id, left_value) = left.first();
        let (right_id, right_value) = right.first();
        let left_rest = written(left.drop_first());
        let right_rest = written(right.drop_first());
        assert(bytes[0] == (left_id / 256) as u8 && bytes[1] == (left_id % 256) as u8);
        assert(bytes[0] == (right_id / 256) as u8 && bytes[1] == (right_id % 256) as u8);
        assert(left_id == right_id);
        assert(length_bytes(left_value.len()) + (left_value + left_rest) =~= bytes.skip(2));
        assert(length_bytes(right_value.len()) + (right_value + right_rest) =~= bytes.skip(2));
        lemma_one_length(
            left_value.len(),
            right_value.len(),
            left_value + left_rest,
            right_value + right_rest,
        );
        let both = left_value + left_rest;
        assert(left_value =~= both.take(left_value.len() as int));
        assert(right_value =~= both.take(left_value.len() as int));
        assert(left_rest =~= both.skip(left_value.len() as int));
        assert(right_rest =~= both.skip(left_value.len() as int));
        law_written_once(left.drop_first(), right.drop_first());
        assert(left =~= seq![left.first()] + left.drop_first());
        assert(right =~= seq![right.first()] + right.drop_first());
    }
}

/// What reads the bytes of stored values. Nothing is assumed of what it returns.
pub trait Reader: Fallible {
    /// The value that bytes hold.
    fn parse(&self, bytes: &Vec<u8>) -> Result<Value, Self::Error>;
}

/// Whether bytes can be read so.
pub open spec fn parses<T: Reader>(reader: T, bytes: Seq<u8>, value: Json) -> bool {
    exists|read: &Vec<u8>, out: Value| #[trigger]
        call_ensures(T::parse, (&reader, read), Ok(out)) && read@ == bytes && out@ == value
}

/// Whether the reading of bytes can fail so.
pub open spec fn fails<T: Reader>(reader: T, bytes: Seq<u8>, error: T::Error) -> bool {
    exists|read: &Vec<u8>| #[trigger]
        call_ensures(T::parse, (&reader, read), Err::<Value, T::Error>(error)) && read@ == bytes
}

/// Whether the entries of a stored document can be read as these values, and the index knows their
/// fields.
pub open spec fn readable<T: Reader>(
    reader: T,
    names: Map<FieldId, Seq<char>>,
    entries: Seq<(u16, Seq<u8>)>,
    values: Seq<Json>,
) -> bool {
    &&& values.len() == entries.len()
    &&& forall|i: int|
        0 <= i < entries.len() ==> names.contains_key((#[trigger] entries[i]).0) && parses(
            reader,
            entries[i].1,
            values[i],
        )
}

/// The fields of a stored document: each value under the name of its field.
pub open spec fn recreated(
    names: Map<FieldId, Seq<char>>,
    entries: Seq<(u16, Seq<u8>)>,
    values: Seq<Json>,
) -> Seq<Field>
    decreases entries.len(),
{
    if entries.len() == 0 {
        Seq::empty()
    } else {
        json::with_field(
            recreated(names, entries.drop_last(), values.drop_last()),
            names[entries.last().0],
            values.last(),
        )
    }
}

/// Whether this can be the document that stored entries show.
pub open spec fn shows<T: Reader + Selector>(
    index: T,
    displayed: Set<FieldId>,
    names: Map<FieldId, Seq<char>>,
    entries: Seq<(u16, Seq<u8>)>,
    document: Seq<Field>,
) -> bool {
    &&& displayed.subset_of(names.dom())
    &&& exists|values: Seq<Json>| #[trigger]
        readable(index, names, entries, values) && selector::selects(
            index,
            recreated(names, entries, values),
            fields::names_in_order(displayed, names),
            document,
        )
}

/// Whether this can be why stored entries show no document: the first entry that cannot be read or
/// whose field the index does not know, or else a field to be shown that the index does not know.
pub open spec fn shows_not<T: Reader>(
    reader: T,
    displayed: Set<FieldId>,
    names: Map<FieldId, Seq<char>>,
    entries: Seq<(u16, Seq<u8>)>,
    error: SearchError<T::Error>,
) -> bool {
    exists|at: int, values: Seq<Json>|
        #![trigger readable(reader, names, entries.take(at), values)]
        0 <= at <= entries.len() && readable(reader, names, entries.take(at), values) && if at
            == entries.len() {
            error is MissingFieldName && fields::first_unknown(
                displayed,
                names,
                error->MissingFieldName_0,
            )
        } else {
            match error {
                SearchError::Engine(error) => fails(reader, entries[at].1, error),
                SearchError::MissingFieldName(id) => id == entries[at].0 && !names.contains_key(id)
                    && exists|value: Json| parses(reader, entries[at].1, value),
                _ => false,
            }
        }
}

/// Whether the showing of stored entries can end so.
pub open spec fn document_outcome<T: Reader + Selector>(
    index: T,
    displayed: Set<FieldId>,
    names: Map<FieldId, Seq<char>>,
    entries: Seq<(u16, Seq<u8>)>,
    result: Result<Seq<Field>, SearchError<T::Error>>,
) -> bool {
    match result {
        Ok(document) => shows(index, displayed, names, entries, document),
        Err(error) => shows_not(index, displayed, names, entries, error),
    }
}

/// What the fields of a document are, or why there is none.
pub open spec fn fields_or_error<E>(result: Result<Document, E>) -> Result<Seq<Field>, E> {
    match result {
        Ok(document) => Ok(document@),
        Err(error) => Err(error),
    }
}

/// The document that stored entries show.
pub fn document_of_entries<T: Reader + Selector>(
    displayed_attributes: &BTreeSet<FieldId>,
    field_ids_map: &FieldsIdsMap,
    entries: &Vec<(FieldId, Vec<u8>)>,
    index: &T,
) -> (result: Result<Document, SearchError<T::Error>>)
    ensures
        document_outcome(
            *index,
            displayed_attributes@,
            field_ids_map@,
            entries_of(entries@),
            fields_or_error(result),
        ),
{
    let ghost names = field_ids_map@;
    let ghost stored = entries_of(entries@);
    let ghost mut values: Seq<Json> = Seq::empty();
    let mut document = Document::new();
    let mut i: usize = 0;
    // recreate the original json
    while i < entries.len()
        invariant
            i <= entries.len(),
            names == field_ids_map@,
            stored == entries_of(entries@),
            readable(*index, names, stored.take(i as int), values),
            document@ == recreated(names, stored.take(i as int), values),
        decreases entries.len() - i,
    {
        let id = entries[i].0;
        let ghost earlier = stored.take(i as int);
        let ghost later = stored.take(i + 1);
        assert(later.drop_last() == earlier);
        assert(stored[i as int] == (id, entries@[i as int].1@));
        let value = match index.parse(&entries[i].1) {
            Ok(value) => value,
            Err(error) => {
                assert(fails(*index, stored[i as int].1, error));
                return Err(SearchError::Engine(error));
            },
        };
        assert(parses(*index, stored[i as int].1, value@));
        let key = match field_ids_map.name(id) {
            Some(name) => name.clone(),
            None => {
                return Err(SearchError::MissingFieldName(id));
            },
        };
        proof {
            let more = values.push(value@);
            assert(more.drop_last() == values);
            assert forall|k: int| 0 <= k < later.len() implies names.contains_key(
                (#[trigger] later[k]).0,
            ) && parses(*index, later[k].1, more[k]) by {
                if k < i {
                    assert(earlier[k] == later[k]);
                }
            }
            values = more;
        }
        document.insert(key, value);
        i += 1;
    }
    assert(stored.take(i as int) == stored);
    if let Some(id) = unknown_field(displayed_attributes, field_ids_map) {
        return Err(SearchError::MissingFieldName(id));
    }
    // select the attributes to retrieve
    let displayed_names = field_names(displayed_attributes, field_ids_map);
    let shown = index.select_values(&document, &displayed_names);
    assert(selector::selects(
        *index,
        recreated(names, stored, values),
        fields::names_in_order(displayed_attributes@, names),
        shown@,
    ));
    Ok(shown)
}

/// The document that stored bytes show. Entries that were written into the bytes are the ones that
/// are read.
pub fn make_document<T: Reader + Selector>(
    displayed_attributes: &BTreeSet<FieldId>,
    field_ids_map: &FieldsIdsMap,
    obkv: &[u8],
    index: &T,
) -> (result: Result<Document, SearchError<T::Error>>)
    ensures
        document_outcome(
            *index,
            displayed_attributes@,
            field_ids_map@,
            stored_entries(obkv@),
            fields_or_error(result),
        ),
        forall|wrote: Seq<(u16, Seq<u8>)>|
            storable(wrote) && obkv@ == #[trigger] written(wrote) ==> stored_entries(obkv@)
                == wrote,
{
    let entries = read_entries(obkv);
    document_of_entries(displayed_attributes, field_ids_map, &entries, index)
}

/// The fields of a stored document hold what was stored: under the name of each field its value.
pub proof fn law_recreated(
    names: Map<FieldId, Seq<char>>,
    entries: Seq<(u16, Seq<u8>)>,
    values: Seq<Json>,
    at: int,
)
    requires
        fields::distinct_names(names),
        values.len() == entries.len(),
        forall|i: int| 0 <= i < entries.len() ==> names.contains_key((#[trigger] entries[i]).0),
        forall|i: int, j: int|
            0 <= i < j < entries.len() ==> (#[trigger] entries[i]).0 != (#[trigger] entries[j]).0,
        0 <= at < entries.len(),
    ensures
        json::lookup(recreated(names, entries, values), names[entries[at].0]) == Some(values[at]),
    decreases entries.len(),
{
    let fewer = entries.drop_last();
    let last = entries.len() - 1;
    json::law_insert_then_get(
        recreated(names, fewer, values.drop_last()),
        names[entries[last].0],
        values[last],
        names[entries[at].0],
    );
    if at < last {
        assert forall|i: int, j: int| 0 <= i < j < fewer.len() implies (#[trigger] fewer[i]).0 != (
        #[trigger] fewer[j]).0 by {
            assert(entries[i].0 != entries[j].0);
        }
        assert forall|i: int| 0 <= i < fewer.len() implies names.contains_key(
            (#[trigger] fewer[i]).0,
        ) by {
            assert(names.contains_key(entries[i].0));
        }
        law_recreated(names, fewer, values.drop_last(), at);
        assert(entries[at].0 != entries[last].0);
        assert(names[entries[at].0] != names[entries[last].0]);
    }
}

/// The fields of a stored document have no name twice.
pub proof fn law_recreated_keys(
    names: Map<FieldId, Seq<char>>,
    entries: Seq<(u16, Seq<u8>)>,
    values: Seq<Json>,
)
    ensures
        json::unique_keys(recreated(names, entries, values)),
    decreases entries.len(),
{
    if entries.len() > 0 {
        law_recreated_keys(names, entries.drop_last(), values.drop_last());
        json::law_insert_keeps_keys_unique(
            recreated(names, entries.drop_last(), values.drop_last()),
            names[entries.last().0],
            values.last(),
        );
    }
}

/// Whether no bytes are read by a reader at one time and refused at another.
pub open spec fn reads_alike<T: Reader>(reader: T) -> bool {
    forall|bytes: Seq<u8>, value: Json, error: T::Error|
        !(#[trigger] parses(reader, bytes, value) && #[trigger] fails(reader, bytes, error))
}

/// Whether one of the stored values can be refused.
pub open spec fn some_value_refused<T: Reader>(
    reader: T,
    entries: Seq<(u16, Seq<u8>)>,
) -> bool {
    exists|i: int, error: T::Error|
        #![trigger fails(reader, entries[i].1, error)]
        0 <= i < entries.len() && fails(reader, entries[i].1, error)
}

/// With a reader that reads alike, and where all fields have names, stored entries show no document
/// just where one of their values is refused, whether or not its field is displayed. The error is
/// that of the first such value.
pub proof fn law_every_stored_value_counts<T: Reader + Selector>(
    index: T,
    displayed: Set<FieldId>,
    names: Map<FieldId, Seq<char>>,
    entries: Seq<(u16, Seq<u8>)>,
    result: Result<Seq<Field>, SearchError<T::Error>>,
)
    requires
        reads_alike(index),
        displayed.subset_of(names.dom()),
        forall|i: int| 0 <= i < entries.len() ==> names.contains_key((#[trigger] entries[i]).0),
        document_outcome(index, displayed, names, entries, result),
    ensures
        result is Err <==> some_value_refused(index, entries),
        result matches Err(error) ==> error is Engine && exists|at: int|
            #![trigger entries[at]]
            0 <= at < entries.len() && fails(index, entries[at].1, error->Engine_0)
                && !some_value_refused(index, entries.take(at)),
{
    match result {
        Ok(document) => {
            let values = choose|values: Seq<Json>| #[trigger]
                readable(index, names, entries, values) && selector::selects(
                    index,
                    recreated(names, entries, values),
                    fields::names_in_order(displayed, names),
                    document,
                );
            lemma_readable_is_not_refused(index, names, entries, values);
        },
        Err(error) => {
            let (at, values) = choose|at: int, values: Seq<Json>|
                #![trigger readable(index, names, entries.take(at), values)]
                0 <= at <= entries.len() && readable(index, names, entries.take(at), values)
                    && if at == entries.len() {
                    error is MissingFieldName && fields::first_unknown(
                        displayed,
                        names,
                        error->MissingFieldName_0,
                    )
                } else {
                    match error {
                        SearchError::Engine(error) => fails(index, entries[at].1, error),
                        SearchError::MissingFieldName(id) => id == entries[at].0
                            && !names.contains_key(id) && exists|value: Json|
                            parses(index, entries[at].1, value),
                        _ => false,
                    }
                };
            if at < entries.len() {
                assert(names.contains_key(entries[at].0));
                lemma_readable_is_not_refused(index, names, entries.take(at), values);
                assert(fails(index, entries[at].1, error->Engine_0));
            }
        },
    }
}

/// Of values that can be read, none can be refused.
proof fn lemma_readable_is_not_refused<T: Reader>(
    reader: T,
    names: Map<FieldId, Seq<char>>,
    entries: Seq<(u16, Seq<u8>)>,
    values: Seq<Json>,
)
    requires
        reads_alike(reader),
        readable(reader, names, entries, values),
    ensures
        !some_value_refused(reader, entries),
{
    if some_value_refused(reader, entries) {
        let (i, error) = choose|i: int, error: T::Error|
            #![trigger fails(reader, entries[i].1, error)]
            0 <= i < entries.len() && fails(reader, entries[i].1, error);
        assert(parses(reader, entries[i].1, values[i]));
    }
}

/// Where no field occurs twice, the fields of a stored document are its entries, as many and in
/// their order, each under its name.
pub proof fn law_recreated_in_order(
    names: Map<FieldId, Seq<char>>,
    entries: Seq<(u16, Seq<u8>)>,
    values: Seq<Json>,
    i: int,
)
    requires
        fields::distinct_names(names),
        values.len() == entries.len(),
        forall|k: int| 0 <= k < entries.len() ==> names.contains_key((#[trigger] entries[k]).0),
        forall|k: int, j: int|
            0 <= k < j < entries.len() ==> (#[trigger] entries[k]).0 != (#[trigger] entries[j]).0,
    ensures
        recreated(names, entries, values).len() == entries.len(),
        0 <= i < entries.len() ==> recreated(names, entries, values)[i].key == names[entries[i].0]
            && recreated(names, entries, values)[i].value == values[i],
    decreases entries.len(),
{
    if entries.len() > 0 {
        let fewer = entries.drop_last();
        let last = entries.len() - 1;
        let before = recreated(names, fewer, values.drop_last());
        assert forall|k: int, j: int| 0 <= k < j < fewer.len() implies (#[trigger] fewer[k]).0 != (
        #[trigger] fewer[j]).0 by {
            assert(entries[k].0 != entries[j].0);
        }
        assert forall|k: int| 0 <= k < fewer.len() implies names.contains_key(
            (#[trigger] fewer[k]).0,
        ) by {
            assert(names.contains_key(entries[k].0));
        }
        law_recreated_in_order(names, fewer, values.drop_last(), i);
        assert forall|k: int| 0 <= k < before.len() implies (#[trigger] before[k]).key
            != names[entries[last].0] by {
            law_recreated_in_order(names, fewer, values.drop_last(), k);
            assert(entries[k].0 != entries[last].0);
            assert(names.contains_key(entries[k].0) && names.contains_key(entries[last].0));
        }
        json::lemma_position(before, names[entries[last].0]);
    }
}

/// The document that is shown is the part of the stored one that the fields to be shown select, by
/// ascending number; the stored one holds what the reader makes of the bytes of every entry, under
/// the name of its field.
pub proof fn law_shown_is_selected<T: Reader + Selector>(
    displayed: BTreeSet<FieldId>,
    map: FieldsIdsMap,
    entries: Vec<(FieldId, Vec<u8>)>,
    index: T,
    document: Document,
    shown: Seq<FieldId>,
    shown_names: Seq<Seq<char>>,
)
    requires
        call_ensures(
            document_of_entries::<T>,
            (&displayed, &map, &entries, &index),
            Ok(document),
        ),
        forall|a: int, b: int| 0 <= a < b < shown.len() ==> shown[a] < shown[b],
        forall|id: FieldId| #[trigger] displayed@.contains(id) <==> shown.contains(id),
        shown_names.len() == shown.len(),
        forall|i: int| 0 <= i < shown.len() ==> #[trigger] shown_names[i] == map@[shown[i]],
    ensures
        forall|id: FieldId| #[trigger] displayed@.contains(id) ==> map@.contains_key(id),
        forall|i: int| 0 <= i < entries@.len() ==> map@.contains_key((#[trigger] entries@[i]).0),
        exists|values: Seq<Json>|
            {
                &&& values.len() == entries@.len()
                &&& forall|i: int|
                    0 <= i < entries@.len() ==> parses(
                        index,
                        (#[trigger] entries@[i]).1@,
                        values[i],
                    )
                &&& selector::selects(
                    index,
                    #[trigger] recreated(map@, entries_of(entries@), values),
                    shown_names,
                    document@,
                )
            },
{
    let stored = entries_of(entries@);
    assert forall|i: int| 0 <= i < shown.len() implies fields::names_in_order(
        displayed@,
        map@,
    )[i] == #[trigger] shown_names[i] by {
        fields::law_names_by_number(displayed@, map@, shown, i);
    }
    fields::law_names_by_number(displayed@, map@, shown, 0);
    assert(fields::names_in_order(displayed@, map@) =~= shown_names);
    let values = choose|values: Seq<Json>| #[trigger]
        readable(index, map@, stored, values) && selector::selects(
            index,
            recreated(map@, stored, values),
            fields::names_in_order(displayed@, map@),
            document@,
        );
    assert(stored.len() == entries@.len());
    assert forall|i: int| 0 <= i < entries@.len() implies map@.contains_key(
        (#[trigger] entries@[i]).0,
    ) && parses(index, entries@[i].1@, values[i]) by {
        assert(stored[i] == (entries@[i].0, entries@[i].1@));
    }
    let whole = recreated(map@, stored, values);
    assert(selector::selects(index, whole, shown_names, document@));
}

/// The value that is read from an entry is what the reader returns for its bytes.
pub proof fn law_read_by_the_reader<T: Reader>(
    reader: T,
    bytes: Seq<u8>,
    value: Json,
    error: T::Error,
)
    ensures
        parses(reader, bytes, value) <==> exists|read: &Vec<u8>, out: Value|
            read@ == bytes && out@ == value && #[trigger] call_ensures(
                T::parse,
                (&reader, read),
                Ok(out),
            ),
        fails(reader, bytes, error) <==> exists|read: &Vec<u8>|
            read@ == bytes && #[trigger] call_ensures(
                T::parse,
                (&reader, read),
                Err::<Value, T::Error>(error),
            ),
{
}

/// No document is shown only where the bytes of an entry are refused, with the error of the reader,
/// or where a field has no name: that of an entry whose bytes can be read, or the least one of
/// those to be shown. The fields of the entries before the one at fault have names.
pub proof fn law_why_none_is_shown<T: Reader + Selector>(
    displayed: BTreeSet<FieldId>,
    map: FieldsIdsMap,
    entries: Vec<(FieldId, Vec<u8>)>,
    index: T,
    error: SearchError<T::Error>,
)
    requires
        call_ensures(document_of_entries::<T>, (&displayed, &map, &entries, &index), Err(error)),
    ensures
        error is Engine || error is MissingFieldName,
        error is Engine ==> exists|at: int|
            {
                &&& 0 <= at < entries@.len()
                &&& fails(index, (#[trigger] entries@[at]).1@, error->Engine_0)
                &&& forall|i: int|
                    0 <= i < at ==> map@.contains_key((#[trigger] entries@[i]).0)
            },
        error matches SearchError::MissingFieldName(id) ==> !map@.contains_key(id) && ((exists|
            at: int,
        |
            {
                &&& 0 <= at < entries@.len() && (#[trigger] entries@[at]).0 == id
                &&& exists|value: Json| parses(index, entries@[at].1@, value)
                &&& forall|i: int|
                    0 <= i < at ==> map@.contains_key((#[trigger] entries@[i]).0)
            }) || displayed@.contains(id) && (forall|i: int|
            0 <= i < entries@.len() ==> map@.contains_key((#[trigger] entries@[i]).0)) && (forall|
            other: FieldId,
        | #[trigger]
            displayed@.contains(other) && other < id ==> map@.contains_key(other))),
{
    let stored = entries_of(entries@);
    assert(stored.len() == entries@.len());
    let (at, values) = choose|at: int, values: Seq<Json>|
        #![trigger readable(index, map@, stored.take(at), values)]
        0 <= at <= stored.len() && readable(index, map@, stored.take(at), values) && if at
            == stored.len() {
            error is MissingFieldName && fields::first_unknown(
                displayed@,
                map@,
                error->MissingFieldName_0,
            )
        } else {
            match error {
                SearchError::Engine(error) => fails(index, stored[at].1, error),
                SearchError::MissingFieldName(id) => id == stored[at].0 && !map@.contains_key(id)
                    && exists|value: Json| parses(index, stored[at].1, value),
                _ => false,
            }
        };
    assert forall|i: int| 0 <= i < at implies map@.contains_key((#[trigger] entries@[i]).0) by {
        assert(stored.take(at)[i] == (entries@[i].0, entries@[i].1@));
    }
    if at < stored.len() {
        assert(stored[at] == (entries@[at].0, entries@[at].1@));
    }
}

/// From bytes that entries were written into, the document of those very entries is shown.
pub proof fn law_written_entries_are_shown<T: Reader + Selector>(
    displayed: BTreeSet<FieldId>,
    map: FieldsIdsMap,
    bytes: &[u8],
    index: T,
    result: Result<Document, SearchError<T::Error>>,
    wrote: Seq<(u16, Seq<u8>)>,
)
    requires
        call_ensures(make_document::<T>, (&displayed, &map, bytes, &index), result),
        storable(wrote),
        bytes@ == written(wrote),
    ensures
        result matches Ok(document) ==> shows(index, displayed@, map@, wrote, document@),
        result matches Err(error) ==> shows_not(index, displayed@, map@, wrote, error),
{
}

/// An entry puts its value under the name of its field, in the stead of what an earlier entry put
/// there, and changes nothing under any other name.
pub proof fn law_entry_added(
    names: Map<FieldId, Seq<char>>,
    entries: Seq<(u16, Seq<u8>)>,
    values: Seq<Json>,
    entry: (u16, Seq<u8>),
    value: Json,
    other: Seq<char>,
)
    requires
        values.len() == entries.len(),
    ensures
        json::lookup(
            recreated(names, entries.push(entry), values.push(value)),
            names[entry.0],
        ) == Some(value),
        other != names[entry.0] ==> json::lookup(
            recreated(names, entries.push(entry), values.push(value)),
            other,
        ) == json::lookup(recreated(names, entries, values), other),
        recreated(names, Seq::empty(), Seq::empty()) == Seq::<Field>::empty(),
{
    assert(entries.push(entry).drop_last() =~= entries);
    assert(values.push(value).drop_last() =~= values);
    json::law_insert_then_get(
        recreated(names, entries, values),
        names[entry.0],
        value,
        other,
    );
}

} // verus!
