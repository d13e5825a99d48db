use vstd::prelude::*;
use crate::db::plain::Plain;

verus! {

/// The lower-case hexadecimal digit of a value below sixteen.
pub open spec fn hex_digit(value: int) -> char {
    if value == 0 {
        '0'
    } else if value == 1 {
        '1'
    } else if value == 2 {
        '2'
    } else if value == 3 {
        '3'
    } else if value == 4 {
        '4'
    } else if value == 5 {
        '5'
    } else if value == 6 {
        '6'
    } else if value == 7 {
        '7'
    } else if value == 8 {
        '8'
    } else if value == 9 {
        '9'
    } else if value == 10 {
        'a'
    } else if value == 11 {
        'b'
    } else if value == 12 {
        'c'
    } else if value == 13 {
        'd'
    } else if value == 14 {
        'e'
    } else {
        'f'
    }
}

/// How one character stands inside a JSON string: the quote and the backslash behind a
/// backslash, a control character by its short name or its number, any other as it is.
pub open spec fn escaped_char(c: char) -> Seq<char> {
    if c == '"' {
        seq!['\\', '"']
    } else if c == '\\' {
        seq!['\\', '\\']
    } else if c == '\u{8}' {
        seq!['\\', 'b']
    } else if c == '\t' {
        seq!['\\', 't']
    } else if c == '\n' {
        seq!['\\', 'n']
    } else if c == '\u{c}' {
        seq!['\\', 'f']
    } else if c == '\r' {
        seq!['\\', 'r']
    } else if (c as int) < 32 {
        seq!['\\', 'u', '0', '0', hex_digit((c as int) / 16), hex_digit((c as int) % 16)]
    } else {
        seq![c]
    }
}

/// The characters of a text as they stand inside a JSON string.
pub open spec fn escaped(text: Seq<char>) -> Seq<char>
    decreases text.len(),
{
    if text.len() == 0 {
        Seq::empty()
    } else {
        escaped_char(text[0]) + escaped(text.drop_first())
    }
}

/// A text as a JSON string: escaped, between two quotes.
pub open spec fn json_text(text: Seq<char>) -> Seq<char> {
    seq!['"'] + escaped(text) + seq!['"']
}

/// Two digits below sixteen with the same character are the same digit.
pub proof fn lemma_hex_digit_tells(left: int, right: int)
    requires
        0 <= left < 16,
        0 <= right < 16,
        hex_digit(left) == hex_digit(right),
    ensures
        left == right,
{
}

/// The escaped form of a character tells where it ends and which character it was: where
/// two texts that begin with the escaped forms of two characters are the same text, the
/// characters are the same, and so is what follows them.
pub proof fn lemma_escaped_char_parts(c: char, d: char, after_c: Seq<char>, after_d: Seq<char>)
    requires
        escaped_char(c) + after_c == escaped_char(d) + after_d,
    ensures
        c == d,
        after_c == after_d,
{
    let ec = escaped_char(c);
    let ed = escaped_char(d);
    let left = ec + after_c;
    let right = ed + after_d;
    assert(left[0] == ec[0]);
    assert(right[0] == ed[0]);
    if ec.len() == 1 && ed.len() == 1 {
        assert(c == d);
    } else if ec.len() == 1 {
        assert(ed[0] == '\\');
        assert(false);
    } else if ed.len() == 1 {
        assert(ec[0] == '\\');
        assert(false);
    } else {
        assert(left[1] == ec[1]);
        assert(right[1] == ed[1]);
        if ec.len() == 6 && ed.len() == 6 {
            assert(left[4] == ec[4]);
            assert(right[4] == ed[4]);
            assert(left[5] == ec[5]);
            assert(right[5] == ed[5]);
            lemma_hex_digit_tells((c as int) / 16, (d as int) / 16);
            lemma_hex_digit_tells((c as int) % 16, (d as int) % 16);
            assert(c as int == d as int);
        } else if ec.len() == 6 {
            assert(ec[1] == 'u');
            assert(false);
        } else if ed.len() == 6 {
            assert(ed[1] == 'u');
            assert(false);
        } else {
            assert(c == d);
        }
    }
    assert(after_c =~= left.subrange(ec.len() as int, left.len() as int));
    assert(after_d =~= right.subrange(ed.len() as int, right.len() as int));
}

/// The escaped form of a character never begins with a quote.
pub proof fn lemma_escaped_char_begins(c: char)
    ensures
        escaped_char(c).len() >= 1,
        escaped_char(c)[0] != '"',
{
}

/// The escaped form of a text, closed by a quote, tells where it ends and which text it
/// was.
pub proof fn lemma_escaped_parts(
    left: Seq<char>,
    right: Seq<char>,
    after_left: Seq<char>,
    after_right: Seq<char>,
)
    requires
        escaped(left) + seq!['"'] + after_left == escaped(right) + seq!['"'] + after_right,
    ensures
        left == right,
        after_left == after_right,
    decreases left.len(),
{
    let whole_left = escaped(left) + seq!['"'] + after_left;
    let whole_right = escaped(right) + seq!['"'] + after_right;
    if left.len() == 0 {
        assert(whole_left[0] == '"');
        if right.len() == 0 {
            assert(after_left =~= whole_left.subrange(1, whole_left.len() as int));
            assert(after_right =~= whole_right.subrange(1, whole_right.len() as int));
            assert(left =~= right);
        } else {
            lemma_escaped_char_begins(right[0]);
            assert(whole_right[0] == escaped_char(right[0])[0]);
            assert(false);
        }
    } else if right.len() == 0 {
        assert(whole_right[0] == '"');
        lemma_escaped_char_begins(left[0]);
        assert(whole_left[0] == escaped_char(left[0])[0]);
        assert(false);
    } else {
        let rest_left = escaped(left.drop_first()) + seq!['"'] + after_left;
        let rest_right = escaped(right.drop_first()) + seq!['"'] + after_right;
        assert(whole_left =~= escaped_char(left[0]) + rest_left);
        assert(whole_right =~= escaped_char(right[0]) + rest_right);
        lemma_escaped_char_parts(left[0], right[0], rest_left, rest_right);
        lemma_escaped_parts(left.drop_first(), right.drop_first(), after_left, after_right);
        assert(left =~= seq![left[0]] + left.drop_first());
        assert(right =~= seq![right[0]] + right.drop_first());
    }
}

/// A JSON string tells where it ends and which text it holds: where two texts that begin
/// with the JSON strings of two texts are the same, the two texts are the same, and so is
/// what follows the strings.
pub proof fn lemma_json_text_parts(
    left: Seq<char>,
    right: Seq<char>,
    after_left: Seq<char>,
    after_right: Seq<char>,
)
    requires
        json_text(left) + after_left == json_text(right) + after_right,
    ensures
        left == right,
        after_left == after_right,
{
    let whole_left = json_text(left) + after_left;
    let whole_right = json_text(right) + after_right;
    assert(whole_left.subrange(1, whole_left.len() as int) =~= escaped(left) + seq!['"']
        + after_left);
    assert(whole_right.subrange(1, whole_right.len() as int) =~= escaped(right) + seq!['"']
        + after_right);
    lemma_escaped_parts(left, right, after_left, after_right);
}

/// The outside type of a JSON value.
#[verifier::external_type_specification]
#[verifier::external_body]
pub struct ExValue(serde_json::Value);

/// What a JSON value is: nothing, a truth value, a whole number, a number with a
/// fraction, a text, a list of values, or an object with a value for each of its fields.
pub enum Json {
    Null,
    Bool(bool),
    Whole(int),
    Fraction,
    Text(Seq<char>),
    List(Seq<Json>),
    Object(Map<Seq<char>, Json>),
}

/// What a `serde_json::Value` holds.
pub uninterp spec fn held(value: serde_json::Value) -> Json;

/// What `parse` reads: the value that a JSON text writes, where the text is JSON.
pub uninterp spec fn parsed_of(text: Seq<char>) -> Option<Json>;

/// The value of a field of an object.
pub open spec fn member_of(json: Json, field: Seq<char>) -> Option<Json> {
    match json {
        Json::Object(fields) => if fields.contains_key(field) {
            Some(fields[field])
        } else {
            None
        },
        _ => None,
    }
}

/// The text that a value is, where it is one.
pub open spec fn text_of(json: Json) -> Option<Seq<char>> {
    match json {
        Json::Text(text) => Some(text),
        _ => None,
    }
}

/// The whole number that a value is, where it is one that fits 64 bits with a sign.
pub open spec fn whole_of(json: Json) -> Option<int> {
    match json {
        Json::Whole(number) => if i64::MIN <= number <= i64::MAX {
            Some(number)
        } else {
            None
        },
        _ => None,
    }
}

/// The texts that a value lists, where it is a list of texts.
pub open spec fn texts_of(json: Json) -> Option<Seq<Seq<char>>> {
    match json {
        Json::List(items) => if forall|i: int|
            0 <= i < items.len() ==> text_of(#[trigger] items[i]) is Some {
            Some(Seq::new(items.len(), |i: int| text_of(items[i])->0))
        } else {
            None
        },
        _ => None,
    }
}

/// The value of a field of the object that a text writes.
pub open spec fn field_of(text: Seq<char>, field: Seq<char>) -> Option<Json> {
    match parsed_of(text) {
        Some(json) => member_of(json, field),
        None => None,
    }
}

/// The text of a field of a JSON object, where the text is an object and the field holds
/// a string.
pub open spec fn string_field_of(text: Seq<char>, field: Seq<char>) -> Option<Seq<char>> {
    match field_of(text, field) {
        Some(json) => text_of(json),
        None => None,
    }
}

/// `serde_json::to_string` on a string slice. The contract states the escaping that
/// serde_json's writer applies to a string: its table of escapes, between two quotes.
/// Writing a string has no failing path.
#[verifier::external_body]
pub(crate) fn json_string(text: &str) -> (out: String)
    ensures
        out@ == json_text(text@),
{
    serde_json::to_string(text).unwrap_or_default()
}

/// `serde_json::from_str` to a `Value`. The contract names what the text writes; `None`
/// stands for a text that is no JSON.
#[verifier::external_body]
pub(crate) fn parse(text: &str) -> (out: Option<serde_json::Value>)
    ensures
        match out {
            Some(value) => parsed_of(text@) == Some(held(value)),
            None => parsed_of(text@) is None,
        },
{
    serde_json::from_str::<serde_json::Value>(text).ok()
}

/// `Value::get` with the name of a field: the value of the field where the value is an
/// object that has the field, else nothing.
#[verifier::external_body]
pub(crate) fn member<'a>(value: &'a serde_json::Value, field: &str) -> (out: Option<
    &'a serde_json::Value,
>)
    ensures
        match out {
            Some(found) => member_of(held(*value), field@) == Some(held(*found)),
            None => member_of(held(*value), field@) is None,
        },
{
    value.get(field)
}

/// `Value::as_str`: the text where the value is a string, else nothing.
#[verifier::external_body]
pub(crate) fn as_text(value: &serde_json::Value) -> (out: Option<String>)
    ensures
        out.model() == text_of(held(*value)),
{
    value.as_str().map(String::from)
}

/// `Value::as_i64`: the number where the value is a whole number that fits 64 bits with a
/// sign, else nothing.
#[verifier::external_body]
pub(crate) fn as_whole(value: &serde_json::Value) -> (out: Option<i64>)
    ensures
        match out {
            Some(number) => whole_of(held(*value)) == Some(number as int),
            None => whole_of(held(*value)) is None,
        },
{
    value.as_i64()
}

/// `Value::as_array`: the items where the value is a list, else nothing.
#[verifier::external_body]
pub(crate) fn as_list<'a>(value: &'a serde_json::Value) -> (out: Option<
    &'a Vec<serde_json::Value>,
>)
    ensures
        match out {
            Some(items) => match held(*value) {
                Json::List(listed) => listed.len() == items@.len() && forall|i: int|
                    0 <= i < listed.len() ==> listed[i] == held(#[trigger] items@[i]),
                _ => false,
            },
            None => !(held(*value) is List),
        },
{
    value.as_array()
}

/// The text of a field of a value.
pub open spec fn text_member_of(json: Json, field: Seq<char>) -> Option<Seq<char>> {
    match member_of(json, field) {
        Some(found) => text_of(found),
        None => None,
    }
}

/// The whole number of a field of a value.
pub open spec fn whole_member_of(json: Json, field: Seq<char>) -> Option<int> {
    match member_of(json, field) {
        Some(found) => whole_of(found),
        None => None,
    }
}

/// The texts of a field of a value.
pub open spec fn texts_member_of(json: Json, field: Seq<char>) -> Option<Seq<Seq<char>>> {
    match member_of(json, field) {
        Some(found) => texts_of(found),
        None => None,
    }
}

/// The text of a field of a value.
pub(crate) fn text_member(value: &serde_json::Value, field: &str) -> (out: Option<String>)
    ensures
        out.model() == text_member_of(held(*value), field@),
{
    match member(value, field) {
        Some(found) => as_text(found),
        None => None,
    }
}

/// The whole number of a field of a value.
pub(crate) fn whole_member(value: &serde_json::Value, field: &str) -> (out: Option<i64>)
    ensures
        match out {
            Some(number) => whole_member_of(held(*value), field@) == Some(number as int),
            None => whole_member_of(held(*value), field@) is None,
        },
{
    match member(value, field) {
        Some(found) => as_whole(found),
        None => None,
    }
}

/// The texts that a value lists.
fn texts(value: &serde_json::Value) -> (out: Option<Vec<String>>)
    ensures
        out.model() == texts_of(held(*value)),
{
    let items = match as_list(value) {
        Some(items) => items,
        None => {
            return None;
        },
    };
    let ghost listed = held(*value)->List_0;
    let mut out: Vec<String> = Vec::new();
    let mut index: usize = 0;
    while index < items.len()
        invariant
            index <= items@.len(),
            held(*value) == Json::List(listed),
            listed.len() == items@.len(),
            forall|i: int| 0 <= i < listed.len() ==> listed[i] == held(#[trigger] items@[i]),
            out@.len() == index,
            forall|k: int| 0 <= k < index ==> text_of(listed[k]) == Some(out@[k]@),
        decreases items@.len() - index,
    {
        match as_text(&items[index]) {
            Some(item) => {
                out.push(item);
            },
            None => {
                assert(text_of(listed[index as int]) is None);
                return None;
            },
        }
        index += 1;
    }
    assert(out.model() =~= Seq::new(listed.len(), |i: int| text_of(listed[i])->0));
    Some(out)
}

/// The texts of a field of a value.
pub(crate) fn texts_member(value: &serde_json::Value, field: &str) -> (out: Option<
    Vec<String>,
>)
    ensures
        out.model() == texts_member_of(held(*value), field@),
{
    match member(value, field) {
        Some(found) => texts(found),
        None => None,
    }
}

/// The text of a field of a JSON object.
pub fn string_field(text: &str, field: &str) -> (out: Option<String>)
    ensures
        out.model() == string_field_of(text@, field@),
{
    match parse(text) {
        Some(value) => text_member(&value, field),
        None => None,
    }
}

} // verus!
