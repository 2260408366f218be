//! JSON values and documents.
use vstd::prelude::*;

use crate::text::same_text;

verus! {

/// What a JSON value is, apart from how it is stored.
pub enum Json {
    Null,
    Bool(bool),
    /// A number, by its decimal text.
    Number(Seq<char>),
    String(Seq<char>),
    Array(Seq<Json>),
    /// The entries of an object, in the order in which they were inserted.
    Object(Seq<Field>),
}

/// What one entry of an object is.
pub struct Field {
    pub key: Seq<char>,
    pub value: Json,
}

/// A JSON number, held as the text it is printed with.
#[derive(Debug, Clone)]
pub struct Number {
    pub text: String,
}

/// A JSON value.
#[derive(Debug)]
pub enum Value {
    Null,
    Bool(bool),
    Number(Number),
    String(String),
    Array(Vec<Value>),
    Object(Document),
}

/// A JSON object: its entries, in the order in which they were inserted.
#[derive(Debug)]
pub struct Document {
    pub entries: Vec<(String, Value)>,
}

impl View for Value {
    type V = Json;

    open spec fn view(&self) -> Json
        decreases self,
    {
        match *self {
            Value::Null => Json::Null,
            Value::Bool(b) => Json::Bool(b),
            Value::Number(n) => Json::Number(n.text@),
            Value::String(s) => Json::String(s@),
            Value::Array(values) => Json::Array(
                Seq::new(
                    values@.len(),
                    |i: int|
                        if 0 <= i < values@.len() {
                            values@[i].view()
                        } else {
                            Json::Null
                        },
                ),
            ),
            Value::Object(document) => Json::Object(
                Seq::new(
                    document.entries@.len(),
                    |i: int|
                        if 0 <= i < document.entries@.len() {
                            Field {
                                key: document.entries@[i].0@,
                                value: document.entries@[i].1.view(),
                            }
                        } else {
                            Field { key: Seq::empty(), value: Json::Null }
                        },
                ),
            ),
        }
    }
}

impl View for Document {
    type V = Seq<Field>;

    open spec fn view(&self) -> Seq<Field> {
        fields_of(self.entries@)
    }
}

/// The view of a value, one level at a time.
pub broadcast proof fn lemma_value_view(value: Value)
    ensures
        #![trigger value@]
        value matches Value::Array(values) ==> value@ == Json::Array(
            values@.map_values(|v: Value| v@),
        ),
        value matches Value::Object(document) ==> value@ == Json::Object(document@),
{
    match value {
        Value::Array(values) => {
            assert(value@->Array_0 =~= values@.map_values(|v: Value| v@));
        },
        Value::Object(document) => {
            assert(value@ is Object);
            let held = value@->Object_0;
            assert(held.len() == document.entries@.len());
            assert forall|i: int|
                0 <= i < held.len() implies #[trigger] held[i] == document@[i] by {
                assert(held[i].value == document.entries@[i].1@);
            }
            assert(held =~= document@);
        },
        _ => {},
    }
}

/// The fields that a list of entries holds.
pub open spec fn fields_of(entries: Seq<(String, Value)>) -> Seq<Field> {
    entries.map_values(|entry: (String, Value)| Field { key: entry.0@, value: entry.1@ })
}

/// Where the first field with a key stands.
pub open spec fn position(fields: Seq<Field>, key: Seq<char>) -> Option<int>
    decreases fields.len(),
{
    if fields.len() == 0 {
        None
    } else {
        match position(fields.drop_last(), key) {
            Some(at) => Some(at),
            None => if fields.last().key == key {
                Some(fields.len() - 1)
            } else {
                None
            },
        }
    }
}

/// The value under a key.
pub open spec fn lookup(fields: Seq<Field>, key: Seq<char>) -> Option<Json> {
    match position(fields, key) {
        Some(at) => Some(fields[at].value),
        None => None,
    }
}

/// The fields with a value under a key: in the place of the one that was there, or at the end.
pub open spec fn with_field(fields: Seq<Field>, key: Seq<char>, value: Json) -> Seq<Field> {
    match position(fields, key) {
        Some(at) => fields.update(at, Field { key, value }),
        None => fields.push(Field { key, value }),
    }
}

/// Whether no key occurs twice.
pub open spec fn unique_keys(fields: Seq<Field>) -> bool {
    forall|i: int, j: int|
        0 <= i < fields.len() && 0 <= j < fields.len() && #[trigger] fields[i].key
            == #[trigger] fields[j].key ==> i == j
}

/// What the position of a key says.
pub proof fn lemma_position(fields: Seq<Field>, key: Seq<char>)
    ensures
        match position(fields, key) {
            Some(at) => 0 <= at < fields.len() && fields[at].key == key && forall|i: int|
                0 <= i < at ==> (#[trigger] fields[i]).key != key,
            None => forall|i: int| 0 <= i < fields.len() ==> (#[trigger] fields[i]).key != key,
        },
    decreases fields.len(),
{
    if fields.len() > 0 {
        let fewer = fields.drop_last();
        lemma_position(fewer, key);
        match position(fewer, key) {
            Some(at) => {
                assert(fewer[at] == fields[at]);
                assert forall|i: int| 0 <= i < at implies (#[trigger] fields[i]).key != key by {
                    assert(fewer[i] == fields[i]);
                }
            },
            None => {
                assert forall|i: int| 0 <= i < fewer.len() implies (#[trigger] fields[i]).key
                    != key by {
                    assert(fewer[i] == fields[i]);
                }
            },
        }
    }
}

/// The first field with a key is the one that no earlier field has the key of.
pub proof fn lemma_position_is(fields: Seq<Field>, key: Seq<char>, at: int)
    requires
        0 <= at < fields.len(),
        fields[at].key == key,
        forall|i: int| 0 <= i < at ==> (#[trigger] fields[i]).key != key,
    ensures
        position(fields, key) == Some(at),
{
    lemma_position(fields, key);
}

/// A value that was put under a key is found there, and nothing else has changed.
pub proof fn law_insert_then_get(
    fields: Seq<Field>,
    key: Seq<char>,
    value: Json,
    other: Seq<char>,
)
    ensures
        lookup(with_field(fields, key, value), key) == Some(value),
        other != key ==> lookup(with_field(fields, key, value), other) == lookup(fields, other),
{
    let after = with_field(fields, key, value);
    lemma_position(fields, key);
    lemma_position(fields, other);
    lemma_position(after, key);
    lemma_position(after, other);
    match position(fields, key) {
        Some(at) => {
            lemma_position_is(after, key, at);
        },
        None => {
            lemma_position_is(after, key, fields.len() as int);
        },
    }
    if other != key {
        match position(fields, other) {
            Some(at) => {
                lemma_position_is(after, other, at);
            },
            None => {},
        }
    }
}

/// Putting a value under a key makes no key occur twice.
pub proof fn law_insert_keeps_keys_unique(fields: Seq<Field>, key: Seq<char>, value: Json)
    requires
        unique_keys(fields),
    ensures
        unique_keys(with_field(fields, key, value)),
{
    lemma_position(fields, key);
    let after = with_field(fields, key, value);
    assert forall|i: int, j: int|
        0 <= i < after.len() && 0 <= j < after.len() && #[trigger] after[i].key
            == #[trigger] after[j].key implies i == j by {
        if i < fields.len() {
            assert(after[i].key == fields[i].key);
        }
        if j < fields.len() {
            assert(after[j].key == fields[j].key);
        }
    }
}

impl Document {
    /// A document without fields.
    pub fn new() -> (document: Document)
        ensures
            document@ == Seq::<Field>::empty(),
            unique_keys(document@),
    {
        let document = Document { entries: Vec::new() };
        assert(document@ =~= Seq::<Field>::empty());
        document
    }

    /// Where the first field with a key stands.
    fn find(&self, key: &str) -> (at: Option<usize>)
        ensures
            match at {
                Some(at) => position(self@, key@) == Some(at as int) && at < self.entries@.len(),
                None => position(self@, key@) is None,
            },
    {
        let mut i: usize = 0;
        while i < self.entries.len()
            invariant
                i <= self.entries.len(),
                forall|k: int| 0 <= k < i ==> (#[trigger] self@[k]).key != key@,
            decreases self.entries.len() - i,
        {
            if same_text(self.entries[i].0.as_str(), key) {
                proof {
                    lemma_position_is(self@, key@, i as int);
                }
                return Some(i);
            }
            i += 1;
        }
        proof {
            lemma_position(self@, key@);
        }
        None
    }

    /// The value under a key.
    pub fn get(&self, key: &str) -> (value: Option<&Value>)
        ensures
            match value {
                Some(value) => lookup(self@, key@) == Some(value@),
                None => lookup(self@, key@) is None,
            },
    {
        match self.find(key) {
            Some(at) => Some(&self.entries[at].1),
            None => None,
        }
    }

    /// Puts a value under a key: in the place of the one that was there, or at the end.
    pub fn insert(&mut self, key: String, value: Value)
        ensures
            final(self)@ == with_field(old(self)@, key@, value@),
            unique_keys(old(self)@) ==> unique_keys(final(self)@),
    {
        let ghost before = self@;
        let ghost text = key@;
        let ghost model = value@;
        proof {
            if unique_keys(before) {
                law_insert_keeps_keys_unique(before, text, model);
            }
        }
        match self.find(key.as_str()) {
            Some(at) => {
                self.entries.set(at, (key, value));
                assert(self@ =~= before.update(at as int, Field { key: text, value: model }));
            },
            None => {
                self.entries.push((key, value));
                assert(self@ =~= before.push(Field { key: text, value: model }));
            },
        }
    }
}

impl Clone for Value {
    fn clone(&self) -> (result: Value)
        ensures
            result@ == self@,
        decreases self,
    {
        broadcast use lemma_value_view;

        match self {
            Value::Null => Value::Null,
            Value::Bool(b) => Value::Bool(*b),
            Value::Number(n) => Value::Number(Number { text: n.text.clone() }),
            Value::String(s) => Value::String(s.clone()),
            Value::Array(values) => {
                let mut copies: Vec<Value> = Vec::new();
                let mut i: usize = 0;
                while i < values.len()
                    invariant
                        self matches Value::Array(v) && v == *values,
                        i <= values.len(),
                        copies@.len() == i,
                        forall|k: int| 0 <= k < i ==> #[trigger] copies@[k]@ == values@[k]@,
                    decreases values.len() - i,
                {
                    copies.push(values[i].clone());
                    i += 1;
                }
                assert(copies@.map_values(|v: Value| v@) =~= values@.map_values(|v: Value| v@));
                Value::Array(copies)
            },
            Value::Object(document) => Value::Object(document.clone()),
        }
    }
}

impl Clone for Document {
    fn clone(&self) -> (result: Document)
        ensures
            result@ == self@,
        decreases self,
    {
        let mut copies: Vec<(String, Value)> = Vec::new();
        let mut i: usize = 0;
        while i < self.entries.len()
            invariant
                i <= self.entries.len(),
                copies@.len() == i,
                forall|k: int|
                    0 <= k < i ==> (#[trigger] copies@[k]).0@ == self.entries@[k].0@
                        && copies@[k].1@ == self.entries@[k].1@,
            decreases self.entries.len() - i,
        {
            let entry = &self.entries[i];
            copies.push((entry.0.clone(), entry.1.clone()));
            i += 1;
        }
        let result = Document { entries: copies };
        assert(result@ =~= self@);
        result
    }
}

/// Putting the same value under a key again changes nothing.
pub proof fn law_insert_again(fields: Seq<Field>, key: Seq<char>, value: Json)
    ensures
        with_field(with_field(fields, key, value), key, value) == with_field(fields, key, value),
{
    let once = with_field(fields, key, value);
    lemma_position(fields, key);
    match position(fields, key) {
        Some(at) => {
            lemma_position_is(once, key, at);
        },
        None => {
            lemma_position_is(once, key, fields.len() as int);
        },
    }
    assert(with_field(once, key, value) =~= once);
}

/// Whether a text is one of the two that zero is printed with as a fraction.
pub open spec fn is_zero_fraction(text: Seq<char>) -> bool {
    text == "0.0"@ || text == "-0.0"@
}

/// Whether two texts are those of the same number.
pub open spec fn same_printed(left: Seq<char>, right: Seq<char>) -> bool {
    left == right || is_zero_fraction(left) && is_zero_fraction(right)
}

/// Whether two values are the same. The order of the entries of an object does not count.
pub open spec fn same_json(left: Json, right: Json) -> bool
    decreases left,
{
    match left {
        Json::Null => right is Null,
        Json::Bool(b) => right is Bool && right->Bool_0 == b,
        Json::Number(text) => right is Number && same_printed(text, right->Number_0),
        Json::String(text) => right is String && right->String_0 == text,
        Json::Array(values) => {
            &&& right is Array
            &&& right->Array_0.len() == values.len()
            &&& forall|i: int|
                0 <= i < values.len() ==> same_json(#[trigger] values[i], right->Array_0[i])
        },
        Json::Object(fields) => {
            &&& right is Object
            &&& right->Object_0.len() == fields.len()
            &&& forall|i: int|
                0 <= i < fields.len() ==> {
                    let found = lookup(right->Object_0, (#[trigger] fields[i]).key);
                    found is Some && same_json(fields[i].value, found->0)
                }
        },
    }
}

/// Whether two objects are the same: as many entries, and each of the one under its key in the
/// other.
pub open spec fn same_fields(left: Seq<Field>, right: Seq<Field>) -> bool {
    &&& right.len() == left.len()
    &&& forall|i: int|
        0 <= i < left.len() ==> {
            let found = lookup(right, (#[trigger] left[i]).key);
            found is Some && same_json(left[i].value, found->0)
        }
}

/// Tells whether two texts are those of the same number.
fn equal_numbers(left: &str, right: &str) -> (equal: bool)
    ensures
        equal == same_printed(left@, right@),
{
    same_text(left, right) || (same_text(left, "0.0") || same_text(left, "-0.0")) && (same_text(
        right,
        "0.0",
    ) || same_text(right, "-0.0"))
}

/// Tells whether two values are the same.
fn equal_values(left: &Value, right: &Value) -> (equal: bool)
    ensures
        equal == same_json(left@, right@),
    decreases left, 1int,
{
    broadcast use lemma_value_view;

    match (left, right) {
        (Value::Null, Value::Null) => true,
        (Value::Bool(a), Value::Bool(b)) => *a == *b,
        (Value::Number(a), Value::Number(b)) => equal_numbers(a.text.as_str(), b.text.as_str()),
        (Value::String(a), Value::String(b)) => same_text(a.as_str(), b.as_str()),
        (Value::Array(a), Value::Array(b)) => {
            if a.len() != b.len() {
                return false;
            }
            let mut i: usize = 0;
            while i < a.len()
                invariant
                    i <= a.len(),
                    a.len() == b.len(),
                    *left == Value::Array(*a),
                    *right == Value::Array(*b),
                    forall|k: int| 0 <= k < i ==> same_json(#[trigger] a@[k]@, b@[k]@),
                decreases a.len() - i,
            {
                broadcast use lemma_value_view;

                assert(decreases_to!(left => left->Array_0));
                assert(decreases_to!(a => a@));
                assert(decreases_to!(a@ => a@[i as int]));
                if !equal_values(&a[i], &b[i]) {
                    assert(left@->Array_0[i as int] == a@[i as int]@);
                    assert(right@->Array_0[i as int] == b@[i as int]@);
                    return false;
                }
                i += 1;
            }
            assert forall|k: int| 0 <= k < a.len() implies same_json(
                #[trigger] left@->Array_0[k],
                right@->Array_0[k],
            ) by {
                assert(same_json(a@[k]@, b@[k]@));
            }
            true
        },
        (Value::Object(a), Value::Object(b)) => {
            assert(decreases_to!(left => left->Object_0));
            equal_documents(a, b)
        },
        _ => false,
    }
}

/// Tells whether two objects are the same.
fn equal_documents(left: &Document, right: &Document) -> (equal: bool)
    ensures
        equal == same_fields(left@, right@),
    decreases left, 0int,
{
    if left.entries.len() != right.entries.len() {
        return false;
    }
    let mut i: usize = 0;
    while i < left.entries.len()
        invariant
            i <= left.entries.len(),
            forall|k: int|
                0 <= k < i ==> {
                    let found = lookup(right@, (#[trigger] left@[k]).key);
                    found is Some && same_json(left@[k].value, found->0)
                },
        decreases left.entries.len() - i,
    {
        assert(decreases_to!(left => left.entries));
        assert(decreases_to!(left.entries => left.entries@));
        assert(decreases_to!(left.entries@ => left.entries@[i as int]));
        assert(decreases_to!(left.entries@[i as int] => left.entries@[i as int].1));
        assert(left@[i as int].key == left.entries@[i as int].0@);
        assert(left@[i as int].value == left.entries@[i as int].1@);
        let entry = &left.entries[i];
        match right.get(entry.0.as_str()) {
            Some(value) => {
                if !equal_values(&entry.1, value) {
                    return false;
                }
            },
            None => {
                return false;
            },
        }
        i += 1;
    }
    true
}

/// Two are equal where they are the same number.
impl PartialEq for Number {
    fn eq(&self, other: &Number) -> (equal: bool) {
        equal_numbers(self.text.as_str(), other.text.as_str())
    }
}

impl vstd::std_specs::cmp::PartialEqSpecImpl for Number {
    open spec fn obeys_eq_spec() -> bool {
        true
    }

    open spec fn eq_spec(&self, other: &Number) -> bool {
        same_printed(self.text@, other.text@)
    }
}

/// Two are equal where they are the same value; the order of the entries of an object does not
/// count.
impl PartialEq for Value {
    fn eq(&self, other: &Value) -> (equal: bool) {
        equal_values(self, other)
    }
}

impl vstd::std_specs::cmp::PartialEqSpecImpl for Value {
    open spec fn obeys_eq_spec() -> bool {
        true
    }

    open spec fn eq_spec(&self, other: &Value) -> bool {
        same_json(self@, other@)
    }
}

/// Two are equal where they have the same entries, in whatever order.
impl PartialEq for Document {
    fn eq(&self, other: &Document) -> (equal: bool) {
        equal_documents(self, other)
    }
}

impl vstd::std_specs::cmp::PartialEqSpecImpl for Document {
    open spec fn obeys_eq_spec() -> bool {
        true
    }

    open spec fn eq_spec(&self, other: &Document) -> bool {
        same_fields(self@, other@)
    }
}

/// A value is put in the place of the one that was under its key, or at the end where there was
/// none; every other field stays where it was.
pub proof fn law_insert_place(fields: Seq<Field>, key: Seq<char>, value: Json, i: int)
    requires
        0 <= i < fields.len(),
    ensures
        with_field(fields, key, value)[i].key == fields[i].key,
        fields[i].key != key ==> with_field(fields, key, value)[i].value == fields[i].value,
        fields[i].key == key ==> with_field(fields, key, value).len() == fields.len(),
        unique_keys(fields) && fields[i].key == key ==> with_field(fields, key, value)[i].value
            == value,
        (forall|k: int| 0 <= k < fields.len() ==> (#[trigger] fields[k]).key != key) ==> {
            &&& with_field(fields, key, value).len() == fields.len() + 1
            &&& with_field(fields, key, value).last().key == key
            &&& with_field(fields, key, value).last().value == value
        },
{
    lemma_position(fields, key);
}

/// Whether a field has its equal under the same key among others.
pub open spec fn has_equal_field(field: Field, others: Seq<Field>) -> bool {
    exists|j: int|
        0 <= j < others.len() && (#[trigger] others[j]).key == field.key && same_json(
            field.value,
            others[j].value,
        )
}

/// Two documents are equal just where they are as long as each other, and each field of the one
/// has its equal under the same key in the other, wherever it stands there.
pub proof fn law_equal_documents(left: Document, right: Document, equal: bool)
    requires
        call_ensures(<Document as PartialEq>::eq, (&left, &right), equal),
        unique_keys(right@),
    ensures
        equal <==> {
            &&& left.entries@.len() == right.entries@.len()
            &&& forall|i: int|
                0 <= i < left@.len() ==> has_equal_field(#[trigger] left@[i], right@)
        },
{
    assert forall|i: int| 0 <= i < left@.len() implies has_equal_field(
        #[trigger] left@[i],
        right@,
    ) == {
        let found = lookup(right@, left@[i].key);
        found is Some && same_json(left@[i].value, found->0)
    } by {
        lemma_position(right@, left@[i].key);
    }
}

/// Two values are equal only where they are of one kind: two truth values or two texts where they
/// are the same, two numbers where they are printed alike, two arrays where they are as long as
/// each other and hold equal values in the same places. Zero is equal to zero, whatever its sign.
pub proof fn law_equal_values(left: Value, right: Value, equal: bool)
    requires
        call_ensures(<Value as PartialEq>::eq, (&left, &right), equal),
    ensures
        left is Null ==> (equal <==> right is Null),
        left matches Value::Bool(a) ==> (equal <==> right is Bool && right->Bool_0 == a),
        left matches Value::String(a) ==> (equal <==> right is String && right->String_0@ == a@),
        left is Number && right !is Number ==> !equal,
        left is Number && right is Number ==> {
            let a = left->Number_0.text@;
            let b = right->Number_0.text@;
            equal <==> {
                ||| a == b
                ||| a == "0.0"@ && b == "-0.0"@
                ||| a == "-0.0"@ && b == "0.0"@
            }
        },
        left matches Value::Array(a) ==> (equal <==> right is Array && right->Array_0@.len()
            == a@.len() && forall|i: int|
            0 <= i < a@.len() ==> same_json((#[trigger] a@[i])@, right->Array_0@[i]@)),
        left matches Value::Object(a) ==> (equal <==> right is Object && same_fields(
            a@,
            right->Object_0@,
        )),
{
    broadcast use lemma_value_view;

    match (left, right) {
        (Value::Array(a), Value::Array(b)) => {
            let lefts = left@->Array_0;
            let rights = right@->Array_0;
            assert forall|i: int| 0 <= i < a@.len() implies lefts[i] == (#[trigger] a@[i])@ && (
            i < b@.len() ==> rights[i] == b@[i]@) by {}
            if equal {
                assert forall|i: int| 0 <= i < a@.len() implies same_json(
                    (#[trigger] a@[i])@,
                    b@[i]@,
                ) by {
                    assert(same_json(lefts[i], rights[i]));
                }
            } else if b@.len() == a@.len() {
                let i = choose|i: int|
                    0 <= i < lefts.len() && !same_json(#[trigger] lefts[i], rights[i]);
                assert(!same_json(a@[i]@, b@[i]@));
            }
        },
        _ => {},
    }
}

/// A copy of a value is the same value, down to the order of its fields.
pub proof fn law_copied_value(value: Value, copy: Value, document: Document, other: Document)
    requires
        call_ensures(<Value as Clone>::clone, (&value,), copy),
        call_ensures(<Document as Clone>::clone, (&document,), other),
    ensures
        copy@ == value@,
        other.entries@.len() == document.entries@.len(),
        forall|i: int|
            0 <= i < document.entries@.len() ==> (#[trigger] other.entries@[i]).0@
                == document.entries@[i].0@ && other.entries@[i].1@ == document.entries@[i].1@,
{
    assert(other@.len() == other.entries@.len());
    assert(document@.len() == document.entries@.len());
    assert forall|i: int| 0 <= i < document.entries@.len() implies (
    #[trigger] other.entries@[i]).0@ == document.entries@[i].0@ && other.entries@[i].1@
        == document.entries@[i].1@ by {
        assert(other@[i] == document@[i]);
    }
}

/// The value that is found under a key is that of the first field with the key, and none is found
/// where no field has it.
pub proof fn law_first_of_a_key(document: Document, key: &str, value: Option<&Value>, at: int)
    requires
        call_ensures(Document::get, (&document, key), value),
        0 <= at <= document.entries@.len(),
        forall|i: int| 0 <= i < at ==> (#[trigger] document.entries@[i]).0@ != key@,
    ensures
        at < document.entries@.len() && document.entries@[at].0@ == key@ ==> value is Some
            && value->0@ == document.entries@[at].1@,
        at == document.entries@.len() ==> value is None,
{
    lemma_position(document@, key@);
    assert(document@.len() == document.entries@.len());
    assert forall|i: int| 0 <= i < at implies (#[trigger] document@[i]).key != key@ by {
        assert(document.entries@[i].0@ != key@);
    }
    if at < document.entries@.len() {
        assert(document@[at].key == document.entries@[at].0@);
        if document.entries@[at].0@ == key@ {
            lemma_position_is(document@, key@, at);
        }
    }
}

} // verus!
