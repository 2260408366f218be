//! Reading text: equality, decimal numbers, dotted field names and crop attributes.
use vstd::arithmetic::power;
use vstd::prelude::*;
use vstd::string::{StrSliceExecFns, StringExecFns};

verus! {

/// The texts that a list of strings holds.
pub open spec fn texts(strings: Seq<String>) -> Seq<Seq<char>> {
    strings.map_values(|s: String| s@)
}

/// Whether a list of strings holds a text.
pub open spec fn mentions(strings: Seq<String>, text: Seq<char>) -> bool {
    exists|i: int| 0 <= i < strings.len() && #[trigger] strings[i]@ == text
}

/// Whether two texts are made of the same characters.
pub fn same_text(left: &str, right: &str) -> (same: bool)
    ensures
        same == (left@ == right@),
{
    let mut rest_left = left.chars();
    let mut rest_right = right.chars();
    let ghost mut done: int = 0;
    loop
        invariant
            0 <= done <= left@.len(),
            done <= right@.len(),
            vstd::std_specs::iter::IteratorSpec::remaining(&rest_left) == left@.skip(done),
            vstd::std_specs::iter::IteratorSpec::remaining(&rest_right) == right@.skip(done),
            left@.take(done) == right@.take(done),
        decreases left@.len() - done,
    {
        let next_left = rest_left.next();
        let next_right = rest_right.next();
        match (next_left, next_right) {
            (Some(a), Some(b)) => {
                assert(a == left@[done] && b == right@[done]);
                if a != b {
                    return false;
                }
                proof {
                    assert(left@.take(done + 1) == left@.take(done).push(a));
                    assert(right@.take(done + 1) == right@.take(done).push(b));
                    assert(left@.skip(done).drop_first() == left@.skip(done + 1));
                    assert(right@.skip(done).drop_first() == right@.skip(done + 1));
                    done = done + 1;
                }
            },
            (None, None) => {
                assert(left@.take(done) == left@);
                assert(right@.take(done) == right@);
                return true;
            },
            _ => {
                return false;
            },
        }
    }
}

/// Tells whether a list of strings holds a text.
pub fn holds(strings: &Vec<String>, text: &str) -> (held: bool)
    ensures
        held == mentions(strings@, text@),
{
    let mut i: usize = 0;
    while i < strings.len()
        invariant
            i <= strings.len(),
            forall|k: int| 0 <= k < i ==> #[trigger] strings@[k]@ != text@,
        decreases strings.len() - i,
    {
        if same_text(strings[i].as_str(), text) {
            assert(strings@[i as int]@ == text@);
            return true;
        }
        i += 1;
    }
    false
}

/// Whether `field` is the field `facet` or lies under it: `doggo.name` and `doggo` are both
/// faceted by `doggo`, `doggos` is not.
pub open spec fn faceted_by(field: Seq<char>, facet: Seq<char>) -> bool {
    &&& facet.is_prefix_of(field)
    &&& field.len() == facet.len() || field[facet.len() as int] == '.'
}

/// Tells whether `field` is the field `facet` or one nested under it.
pub fn is_faceted_by(field: &str, facet: &str) -> (faceted: bool)
    ensures
        faceted == faceted_by(field@, facet@),
{
    let mut rest_field = field.chars();
    let mut rest_facet = facet.chars();
    let ghost mut done: int = 0;
    loop
        invariant
            0 <= done <= field@.len(),
            done <= facet@.len(),
            vstd::std_specs::iter::IteratorSpec::remaining(&rest_field) == field@.skip(done),
            vstd::std_specs::iter::IteratorSpec::remaining(&rest_facet) == facet@.skip(done),
            field@.take(done) == facet@.take(done),
        decreases facet@.len() - done,
    {
        let next_field = rest_field.next();
        match rest_facet.next() {
            Some(b) => {
                assert(b == facet@[done]);
                match next_field {
                    Some(a) => {
                        assert(a == field@[done]);
                        if a != b {
                            return false;
                        }
                        proof {
                            assert(field@.take(done + 1) == field@.take(done).push(a));
                            assert(facet@.take(done + 1) == facet@.take(done).push(b));
                            assert(field@.skip(done).drop_first() == field@.skip(done + 1));
                            assert(facet@.skip(done).drop_first() == facet@.skip(done + 1));
                            done = done + 1;
                        }
                    },
                    None => {
                        return false;
                    },
                }
            },
            None => {
                assert(facet@.take(done) == facet@);
                return match next_field {
                    Some(a) => {
                        assert(a == field@[done]);
                        a == '.'
                    },
                    None => true,
                };
            },
        }
    }
}

/// Whether a character is an ASCII decimal digit.
pub open spec fn is_digit(c: char) -> bool {
    '0' <= c <= '9'
}

/// Whether a text is made of decimal digits alone.
pub open spec fn all_digits(text: Seq<char>) -> bool {
    forall|i: int| 0 <= i < text.len() ==> is_digit(#[trigger] text[i])
}

/// The number that a sequence of decimal digits writes.
pub open spec fn decimal(digits: Seq<char>) -> nat
    decreases digits.len(),
{
    if digits.len() == 0 {
        0
    } else {
        decimal(digits.drop_last()) * 10 + (digits.last() as nat - '0' as nat) as nat
    }
}

/// A text without the plus sign that it may start with.
pub open spec fn unsigned(text: Seq<char>) -> Seq<char> {
    if text.len() > 0 && text[0] == '+' {
        text.skip(1)
    } else {
        text
    }
}

/// The unsigned number that a text writes: decimal digits, at least one, behind an optional plus
/// sign, within the range of `usize`.
pub open spec fn parsed_usize(text: Seq<char>) -> Option<usize> {
    let digits = unsigned(text);
    if digits.len() > 0 && all_digits(digits) && decimal(digits) <= usize::MAX {
        Some(decimal(digits) as usize)
    } else {
        None
    }
}

proof fn lemma_decimal_grows(digits: Seq<char>, len: int)
    requires
        0 <= len <= digits.len(),
    ensures
        decimal(digits.take(len)) <= decimal(digits),
    decreases digits.len() - len,
{
    if len == digits.len() {
        assert(digits.take(len) == digits);
    } else {
        lemma_decimal_grows(digits, len + 1);
        assert(digits.take(len + 1).drop_last() == digits.take(len));
    }
}

/// Reads an unsigned number; `None` where the text writes none that fits in `usize`.
pub fn parse_usize(text: &str) -> (number: Option<usize>)
    ensures
        number == parsed_usize(text@),
{
    let ghost digits = unsigned(text@);
    let mut rest = text.chars();
    let mut value: usize = 0;
    let mut first = rest.next();
    if let Some(c) = first {
        if c == '+' {
            first = rest.next();
        }
    }
    let mut next = first;
    let ghost mut done: int = 0;
    assert(digits.take(0) == Seq::<char>::empty());
    assert(text@.len() > 0 ==> text@.skip(0) == text@);
    while next.is_some()
        invariant
            digits == unsigned(text@),
            0 <= done <= digits.len(),
            next matches Some(c) ==> done < digits.len() && c == digits[done]
                && vstd::std_specs::iter::IteratorSpec::remaining(&rest) == digits.skip(done + 1),
            next is None ==> done == digits.len(),
            all_digits(digits.take(done)),
            value == decimal(digits.take(done)),
        decreases digits.len() - done,
    {
        let c = next.unwrap();
        proof {
            assert(digits.take(done + 1).drop_last() == digits.take(done));
        }
        if !('0' <= c && c <= '9') {
            assert(!is_digit(digits[done]));
            return None;
        }
        let digit: usize = (c as u32 - '0' as u32) as usize;
        match value.checked_mul(10) {
            Some(tens) => match tens.checked_add(digit) {
                Some(sum) => {
                    value = sum;
                },
                None => {
                    proof {
                        lemma_decimal_grows(digits, done + 1);
                    }
                    return None;
                },
            },
            None => {
                proof {
                    lemma_decimal_grows(digits, done + 1);
                }
                return None;
            },
        }
        proof {
            if done + 1 < digits.len() {
                assert(digits.skip(done + 1).drop_first() == digits.skip(done + 2));
            }
            done = done + 1;
        }
        next = rest.next();
    }
    assert(digits.take(done) == digits);
    if first.is_none() {
        None
    } else {
        Some(value)
    }
}

/// The decimal digits of a number, without leading zeros.
pub open spec fn digits_of(number: nat) -> Seq<char>
    decreases number,
{
    let last = ('0' as nat + number % 10) as char;
    if number < 10 {
        seq![last]
    } else {
        digits_of(number / 10).push(last)
    }
}

/// The text of a digit.
fn digit_text(digit: usize) -> (text: &'static str)
    requires
        digit < 10,
    ensures
        text@ == seq![('0' as nat + digit) as char],
{
    proof {
        reveal_strlit("0");
        reveal_strlit("1");
        reveal_strlit("2");
        reveal_strlit("3");
        reveal_strlit("4");
        reveal_strlit("5");
        reveal_strlit("6");
        reveal_strlit("7");
        reveal_strlit("8");
        reveal_strlit("9");
    }
    let text = match digit {
        0 => "0",
        1 => "1",
        2 => "2",
        3 => "3",
        4 => "4",
        5 => "5",
        6 => "6",
        7 => "7",
        8 => "8",
        _ => "9",
    };
    assert(text@ =~= seq![('0' as nat + digit) as char]);
    text
}

/// Writes a number in decimal digits.
pub fn write_usize(number: usize) -> (text: String)
    ensures
        text@ == digits_of(number as nat),
    decreases number,
{
    if number < 10 {
        digit_text(number).to_owned()
    } else {
        let mut text = write_usize(number / 10);
        text.append(digit_text(number % 10));
        assert(text@ =~= digits_of(number as nat));
        text
    }
}

/// Reading gives back every number that was written.
pub proof fn law_read_back(number: usize)
    ensures
        parsed_usize(digits_of(number as nat)) == Some(number),
{
    lemma_digits_of(number as nat);
}

/// The digits of a number are digits, and write it.
pub proof fn lemma_digits_of(number: nat)
    ensures
        digits_of(number).len() > 0,
        all_digits(digits_of(number)),
        decimal(digits_of(number)) == number,
    decreases number,
{
    let last = ('0' as nat + number % 10) as char;
    assert(last as nat == '0' as nat + number % 10);
    assert(digits_of(number).last() == last);
    assert(decimal(Seq::<char>::empty()) == 0);
    if number >= 10 {
        lemma_digits_of(number / 10);
        assert(digits_of(number).drop_last() == digits_of(number / 10));
    } else {
        assert(digits_of(number).drop_last() == Seq::<char>::empty());
    }
}

/// A text without the minus sign that it may start with.
pub open spec fn magnitude(text: Seq<char>) -> Seq<char> {
    if text.len() > 0 && text[0] == '-' {
        text.skip(1)
    } else {
        text
    }
}

/// Whether a text writes a number in decimal digits: one at least, with one dot at most among them
/// or at either end, behind an optional minus sign.
pub open spec fn decimal_number(text: Seq<char>) -> bool {
    let body = magnitude(text);
    &&& forall|i: int| 0 <= i < body.len() ==> is_digit(#[trigger] body[i]) || body[i] == '.'
    &&& forall|i: int, j: int|
        0 <= i < j < body.len() && #[trigger] body[i] == '.' ==> #[trigger] body[j] != '.'
    &&& exists|i: int| 0 <= i < body.len() && is_digit(#[trigger] body[i])
}

/// A text without its dots.
pub open spec fn without_dots(text: Seq<char>) -> Seq<char> {
    text.filter(|c: char| c != '.')
}

/// The number of characters behind the dot of a text.
pub open spec fn decimal_places(text: Seq<char>) -> nat {
    match text.index_of_last('.') {
        Some(at) => (text.len() - at - 1) as nat,
        None => 0,
    }
}

/// The number that a text writes, apart from where its dot stands.
pub open spec fn unscaled(text: Seq<char>) -> int {
    let size = decimal(without_dots(magnitude(text))) as int;
    if text.len() > 0 && text[0] == '-' {
        -size
    } else {
        size
    }
}

/// Whether two texts write the same number in decimal digits.
pub open spec fn same_number(left: Seq<char>, right: Seq<char>) -> bool {
    unscaled(left) * power::pow(10, decimal_places(right)) == unscaled(right) * power::pow(
        10,
        decimal_places(left),
    )
}

/// Tells whether a text writes a number in decimal digits.
pub fn is_decimal_number(text: &str) -> (decimal: bool)
    ensures
        decimal == decimal_number(text@),
{
    let ghost body = magnitude(text@);
    let mut rest = text.chars();
    let mut next = rest.next();
    if let Some(c) = next {
        if c == '-' {
            next = rest.next();
        }
    }
    let mut dot = false;
    let mut digit = false;
    let ghost mut done: int = 0;
    assert(text@.len() > 0 ==> text@.skip(0) == text@);
    while next.is_some()
        invariant
            body == magnitude(text@),
            0 <= done <= body.len(),
            next matches Some(c) ==> done < body.len() && c == body[done]
                && vstd::std_specs::iter::IteratorSpec::remaining(&rest) == body.skip(done + 1),
            next is None ==> done == body.len(),
            forall|i: int| 0 <= i < done ==> is_digit(#[trigger] body[i]) || body[i] == '.',
            forall|i: int, j: int|
                0 <= i < j < done && #[trigger] body[i] == '.' ==> #[trigger] body[j] != '.',
            dot <==> exists|i: int| 0 <= i < done && #[trigger] body[i] == '.',
            digit <==> exists|i: int| 0 <= i < done && is_digit(#[trigger] body[i]),
        decreases body.len() - done,
    {
        let c = next.unwrap();
        if '0' <= c && c <= '9' {
            assert(is_digit(body[done]));
            digit = true;
        } else if c == '.' && !dot {
            assert(body[done] == '.');
            dot = true;
        } else {
            if c == '.' {
                assert(body[done] == '.');
            } else {
                assert(!is_digit(body[done]) && body[done] != '.');
            }
            return false;
        }
        proof {
            if done + 1 < body.len() {
                assert(body.skip(done + 1).drop_first() == body.skip(done + 2));
            }
            done = done + 1;
        }
        next = rest.next();
    }
    digit
}

/// Splits a text at its last colon into what stands before it and what stands behind it; `None`
/// where there is no colon.
pub fn split_last_colon(text: &str) -> (parts: Option<(&str, &str)>)
    ensures
        match text@.index_of_last(':') {
            Some(at) => parts matches Some((before, after)) && before@ == text@.take(at) && after@
                == text@.skip(at + 1),
            None => parts is None,
        },
{
    let len = text.unicode_len();
    let mut rest = text.chars();
    let mut last: Option<usize> = None;
    let mut i: usize = 0;
    while i < len
        invariant
            len == text@.len(),
            i <= len,
            vstd::std_specs::iter::IteratorSpec::remaining(&rest) == text@.skip(i as int),
            match last {
                Some(at) => at < i && text@[at as int] == ':' && forall|j: int|
                    at < j < i ==> text@[j] != ':',
                None => forall|j: int| 0 <= j < i ==> text@[j] != ':',
            },
        decreases len - i,
    {
        let next = rest.next();
        assert(next == Some(text@[i as int]));
        if let Some(c) = next {
            if c == ':' {
                last = Some(i);
            }
        }
        assert(text@.skip(i as int).drop_first() == text@.skip(i + 1));
        i += 1;
    }
    proof {
        text@.index_of_last_ensures(':');
    }
    match last {
        Some(at) => {
            assert(text@.contains(':'));
            Some((text.substring_char(0, at), text.substring_char(at + 1, len)))
        },
        None => None,
    }
}

/// A field is faceted by itself and by every field that it lies under, whose name and a dot its own
/// starts with, and by no other.
pub proof fn law_faceted_by(field: Seq<char>, facet: Seq<char>)
    ensures
        faceted_by(field, facet) <==> field == facet || exists|rest: Seq<char>|
            field == #[trigger] (facet.push('.') + rest),
{
    if faceted_by(field, facet) && field.len() == facet.len() {
        assert(field =~= facet);
    } else if faceted_by(field, facet) {
        let rest = field.skip(facet.len() as int + 1);
        assert(field =~= facet.push('.') + rest);
    }
    if exists|rest: Seq<char>| field == #[trigger] (facet.push('.') + rest) {
        let rest = choose|rest: Seq<char>| field == #[trigger] (facet.push('.') + rest);
        assert(field[facet.len() as int] == '.');
        assert(field.take(facet.len() as int) =~= facet);
        assert(facet.is_prefix_of(field));
    }
}

/// That a field is faceted by another is told just where it is that other, or lies under it.
pub proof fn law_faceted_by_is_told(field: &str, facet: &str, faceted: bool)
    requires
        call_ensures(is_faceted_by, (field, facet), faceted),
    ensures
        faceted <==> field@ == facet@ || exists|rest: Seq<char>|
            field@ == #[trigger] (facet@.push('.') + rest),
{
    law_faceted_by(field@, facet@);
}

/// A digit by itself writes its own number, and a digit behind a number makes ten times that number
/// and its own, as long as that fits. A plus sign before a number changes nothing.
pub proof fn law_digit_appended(text: Seq<char>, digit: char)
    requires
        '0' <= digit <= '9',
    ensures
        parsed_usize(seq![digit]) == Some((digit as nat - '0' as nat) as usize),
        parsed_usize(text) matches Some(number) ==> {
            let longer = number * 10 + (digit as nat - '0' as nat);
            &&& longer <= usize::MAX ==> parsed_usize(text.push(digit)) == Some(longer as usize)
            &&& longer > usize::MAX ==> parsed_usize(text.push(digit)) is None
        },
        text.len() > 0 && text[0] != '+' ==> parsed_usize(seq!['+'] + text) == parsed_usize(text),
{
    let one = seq![digit];
    assert(decimal(Seq::<char>::empty()) == 0);
    assert(one.drop_last() =~= Seq::<char>::empty());
    assert(decimal(one) == digit as nat - '0' as nat);
    assert(is_digit(one[0]));
    if parsed_usize(text) is Some {
        let digits = unsigned(text);
        let longer = text.push(digit);
        assert(unsigned(longer) =~= digits.push(digit));
        assert(digits.push(digit).drop_last() =~= digits);
        assert forall|i: int| 0 <= i < digits.push(digit).len() implies is_digit(
            #[trigger] digits.push(digit)[i],
        ) by {
            if i < digits.len() {
                assert(digits.push(digit)[i] == digits[i]);
            }
        }
    }
    assert((seq!['+'] + text).skip(1) =~= text);
}

/// A text that holds anything but digits, apart from a plus sign before them, writes no number;
/// nor does one without digits.
pub proof fn law_no_number(text: Seq<char>, i: int)
    requires
        0 <= i < text.len(),
    ensures
        !('0' <= text[i] <= '9') && !(i == 0 && text[0] == '+') ==> parsed_usize(text) is None,
        text.len() == 1 && text[0] == '+' ==> parsed_usize(text) is None,
        parsed_usize(Seq::<char>::empty()) is None,
{
    if !('0' <= text[i] <= '9') && !(i == 0 && text[0] == '+') {
        if text[0] == '+' {
            assert(!is_digit(unsigned(text)[i - 1]));
        } else {
            assert(!is_digit(unsigned(text)[i]));
        }
    }
}

/// A number is written in decimal digits alone, without a zero before them.
pub proof fn law_no_leading_zero(number: nat)
    ensures
        digits_of(number).len() > 0,
        number > 0 ==> digits_of(number)[0] != '0',
        number == 0 ==> digits_of(number) == seq!['0'],
        forall|i: int|
            0 <= i < digits_of(number).len() ==> '0' <= #[trigger] digits_of(number)[i] <= '9',
    decreases number,
{
    lemma_digits_of(number);
    assert forall|i: int| 0 <= i < digits_of(number).len() implies '0'
        <= #[trigger] digits_of(number)[i] <= '9' by {
        assert(is_digit(digits_of(number)[i]));
    }
    if number >= 10 {
        law_no_leading_zero(number / 10);
    } else {
        assert(digits_of(number)[0] as nat == '0' as nat + number % 10);
    }
}

/// Digits write a number, with a dot among them, before them or behind them as well as without
/// one, and with a minus sign before all as well as without one.
pub proof fn law_decimal_numbers(whole: Seq<char>, fraction: Seq<char>)
    requires
        forall|i: int| 0 <= i < whole.len() ==> '0' <= #[trigger] whole[i] <= '9',
        forall|i: int| 0 <= i < fraction.len() ==> '0' <= #[trigger] fraction[i] <= '9',
        whole.len() + fraction.len() > 0,
    ensures
        decimal_number(whole.push('.') + fraction),
        decimal_number(seq!['-'] + (whole.push('.') + fraction)),
        whole.len() > 0 ==> decimal_number(whole) && decimal_number(seq!['-'] + whole),
{
    let dotted = whole.push('.') + fraction;
    let signed = seq!['-'] + dotted;
    let signed_whole = seq!['-'] + whole;
    assert(signed[0] == '-' && signed.skip(1) =~= dotted);
    assert(signed_whole[0] == '-' && signed_whole.skip(1) =~= whole);
    assert(magnitude(dotted) == dotted && magnitude(signed) == dotted);
    assert(magnitude(whole) == whole && magnitude(signed_whole) == whole);
    assert forall|i: int| 0 <= i < dotted.len() implies is_digit(#[trigger] dotted[i]) || dotted[i]
        == '.' by {
        if i < whole.len() {
            assert(dotted[i] == whole[i]);
        } else if i > whole.len() {
            assert(dotted[i] == fraction[i - whole.len() - 1]);
        }
    }
    assert forall|i: int, j: int|
        0 <= i < j < dotted.len() && #[trigger] dotted[i] == '.' implies #[trigger] dotted[j]
        != '.' by {
        if i < whole.len() {
            assert(dotted[i] == whole[i]);
        } else if i > whole.len() {
            assert(dotted[i] == fraction[i - whole.len() - 1]);
        } else {
            assert(dotted[j] == fraction[j - whole.len() - 1]);
        }
    }
    if whole.len() > 0 {
        assert(is_digit(dotted[0]) && is_digit(whole[0]));
        assert(forall|i: int| 0 <= i < whole.len() ==> is_digit(#[trigger] whole[i]));
    } else {
        assert(is_digit(dotted[1])) by {
            assert(dotted[1] == fraction[0]);
        }
    }
}

/// A text writes no number where it holds anything but digits and dots behind its sign, a sign
/// anywhere but at its start, more than one dot, or no digit at all.
pub proof fn law_no_decimal_number(text: Seq<char>, i: int, j: int)
    ensures
        0 <= i < text.len() && !('0' <= text[i] <= '9') && text[i] != '.' && !(i == 0 && text[i]
            == '-') ==> !decimal_number(text),
        0 <= i < j < text.len() && text[i] == '.' && text[j] == '.' ==> !decimal_number(text),
        (forall|k: int| 0 <= k < text.len() ==> !('0' <= #[trigger] text[k] <= '9'))
            ==> !decimal_number(text),
{
    let body = magnitude(text);
    let shift: int = text.len() - body.len();
    assert forall|k: int| shift <= k < text.len() implies #[trigger] text[k] == body[k
        - shift] by {}
    if 0 <= i < text.len() && !('0' <= text[i] <= '9') && text[i] != '.' && !(i == 0 && text[i]
        == '-') {
        assert(!is_digit(body[i - shift]));
    }
    if 0 <= i < j < text.len() && text[i] == '.' && text[j] == '.' {
        assert(body[i - shift] == '.' && body[j - shift] == '.');
    }
    if decimal_number(text) {
        let k = choose|k: int| 0 <= k < body.len() && is_digit(#[trigger] body[k]);
        assert(text[k + shift] == body[k]);
    }
}

/// A text is split at its last colon: what stands behind it holds none, and both parts with a colon
/// between them are the text.
pub proof fn law_split_at_last_colon(
    text: &str,
    before: Seq<char>,
    after: Seq<char>,
    parts: Option<(&str, &str)>,
)
    requires
        call_ensures(split_last_colon, (text,), parts),
    ensures
        text@ == before.push(':') + after && !after.contains(':') ==> (parts matches Some(
            (left, right),
        ) && left@ == before && right@ == after),
        parts is None <==> !text@.contains(':'),
{
    text@.index_of_last_ensures(':');
    if text@ == before.push(':') + after && !after.contains(':') {
        let at = before.len() as int;
        assert(text@[at] == ':');
        assert(text@.contains(':'));
        let last = text@.index_of_last(':')->0;
        if last > at {
            assert(text@[last] == after[last - at - 1]);
            assert(after.contains(':'));
        }
        assert(last == at);
        assert(text@.take(at) =~= before);
        assert(text@.skip(at + 1) =~= after);
    }
}

/// A text is held by a list just where one of the strings of the list is that text.
pub proof fn law_held(strings: Vec<String>, text: &str, held: bool)
    requires
        call_ensures(holds, (&strings, text), held),
    ensures
        held <==> exists|i: int| 0 <= i < strings@.len() && #[trigger] strings@[i]@ == text@,
        held <==> mentions(strings@, text@),
{
}

/// Two texts are the same just where they are as long as each other and have the same characters
/// in the same places.
pub proof fn law_same_text(left: &str, right: &str, same: bool)
    requires
        call_ensures(same_text, (left, right), same),
    ensures
        same <==> left@.len() == right@.len() && forall|i: int|
            0 <= i < left@.len() ==> #[trigger] left@[i] == right@[i],
{
    if left@.len() == right@.len() && forall|i: int|
        0 <= i < left@.len() ==> #[trigger] left@[i] == right@[i] {
        assert(left@ =~= right@);
    }
}

/// A number is read from a text just as the text writes it, and is written just as it is read.
pub proof fn law_read_and_written(
    number: usize,
    written: String,
    text: &str,
    read: Option<usize>,
)
    requires
        call_ensures(write_usize, (number,), written),
        call_ensures(parse_usize, (text,), read),
    ensures
        read == parsed_usize(text@),
        text@ == written@ ==> read == Some(number),
        written@.len() > 1 ==> written@[0] != '0',
{
    law_read_back(number);
    law_no_leading_zero(number as nat);
}

/// That a text writes a number is told just where it does.
pub proof fn law_decimal_number_is_told(text: &str, decimal: bool)
    requires
        call_ensures(is_decimal_number, (text,), decimal),
    ensures
        decimal <==> decimal_number(text@),
{
}

} // verus!
