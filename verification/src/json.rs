//! JSON text: what `serde_json` reads and writes.
//!
//! A JSON value is handled as its text. What is written is compact; what is
//! read may have white space between its tokens.

use serde_json::value::RawValue;
use std::collections::BTreeMap;
use vstd::prelude::*;

use crate::layout;
use crate::layout::Written;
use crate::layout::WrittenItem;
use crate::numbers;
use crate::numbers::Number;
use crate::spelling;
use crate::spelling::Spelled;
use crate::text;

verus! {

// ---- Compact text ----------------------------------------------------------

/// A JSON value.
pub enum Json {
    Null,
    Bool(bool),
    Num(Number),
    Str(Seq<char>),
    Arr(Seq<Json>),
    Obj(Seq<(Seq<char>, Json)>),
}

/// The lower-case hexadecimal digit for `d`.
pub open spec fn hex_digit(d: int) -> char {
    if d < 10 {
        (0x30 + d) as char
    } else {
        (0x61 + d - 10) as char
    }
}

/// How one character stands inside a JSON string.
pub open spec fn escape(c: char) -> Seq<char> {
    if c == '"' {
        seq!['\\', '"']
    } else if c == '\\' {
        seq!['\\', '\\']
    } else if c as u32 == 0x8 {
        seq!['\\', 'b']
    } else if c as u32 == 0xc {
        seq!['\\', 'f']
    } else if c == '\n' {
        seq!['\\', 'n']
    } else if c == '\r' {
        seq!['\\', 'r']
    } else if c == '\t' {
        seq!['\\', 't']
    } else if (c as u32) < 0x20 {
        seq!['\\', 'u', '0', '0', hex_digit(c as int / 16), hex_digit(c as int % 16)]
    } else {
        seq![c]
    }
}

/// The characters of `s` as they stand inside a JSON string.
pub open spec fn escaped(s: Seq<char>) -> Seq<char>
    decreases s.len(),
{
    if s.len() == 0 {
        Seq::empty()
    } else {
        escape(s[0]) + escaped(s.drop_first())
    }
}

/// `s` as a JSON string.
pub open spec fn quoted(s: Seq<char>) -> Seq<char> {
    seq!['"'] + escaped(s) + seq!['"']
}

/// An array of the given value texts.
pub open spec fn array_text(items: Seq<Seq<char>>) -> Seq<char> {
    seq!['['] + text::joined(items, seq![',']) + seq![']']
}

/// The entry of an object.
pub open spec fn entry_text(name: Seq<char>, value: Seq<char>) -> Seq<char> {
    quoted(name) + seq![':'] + value
}

/// The entries of an object, each as text.
pub open spec fn entry_texts(fields: Seq<(Seq<char>, Seq<char>)>) -> Seq<Seq<char>> {
    Seq::new(fields.len(), |i: int| entry_text(fields[i].0, fields[i].1))
}

/// An object of the given names and value texts.
pub open spec fn object_text(fields: Seq<(Seq<char>, Seq<char>)>) -> Seq<char> {
    seq!['{'] + text::joined(entry_texts(fields), seq![',']) + seq!['}']
}

/// The compact text of a value: no white space between tokens, and strings
/// escaped no more than they must be.
pub open spec fn json_text(j: Json) -> Seq<char>
    decreases j,
{
    match j {
        Json::Null => "null"@,
        Json::Bool(b) => layout::bool_text(b),
        Json::Num(n) => numbers::number_text(n),
        Json::Str(s) => quoted(s),
        Json::Arr(items) => array_text(texts(items)),
        Json::Obj(fields) => object_text(field_texts(fields)),
    }
}

/// The compact text of each value.
pub open spec fn texts(items: Seq<Json>) -> Seq<Seq<char>>
    decreases items,
{
    if items.len() == 0 {
        Seq::empty()
    } else {
        texts(items.drop_last()).push(json_text(items.last()))
    }
}

/// The compact text of each field's value, beside the field's name.
pub open spec fn field_texts(fields: Seq<(Seq<char>, Json)>) -> Seq<(Seq<char>, Seq<char>)>
    decreases fields,
{
    if fields.len() == 0 {
        Seq::empty()
    } else {
        field_texts(fields.drop_last()).push((fields.last().0, json_text(fields.last().1)))
    }
}

/// `t` is the compact text of some value.
pub open spec fn is_json_text(t: Seq<char>) -> bool {
    exists|j: Json| #[trigger] json_text(j) == t
}

pub proof fn lemma_texts(items: Seq<Json>)
    ensures
        texts(items).len() == items.len(),
        forall|i: int|
            0 <= i < items.len() ==> #[trigger] texts(items)[i] == json_text(items[i]),
    decreases items.len(),
{
    if items.len() > 0 {
        lemma_texts(items.drop_last());
    }
}

pub proof fn lemma_field_texts(fields: Seq<(Seq<char>, Json)>)
    ensures
        field_texts(fields).len() == fields.len(),
        forall|i: int|
            0 <= i < fields.len() ==> #[trigger] field_texts(fields)[i] == (
                fields[i].0,
                json_text(fields[i].1),
            ),
    decreases fields.len(),
{
    if fields.len() > 0 {
        lemma_field_texts(fields.drop_last());
    }
}

// ---- Writing ---------------------------------------------------------------

/// `a` stands before `b` in the order of strings: character by character,
/// by code point.
pub open spec fn precedes(a: Seq<char>, b: Seq<char>) -> bool
    decreases a.len(),
{
    if b.len() == 0 {
        false
    } else if a.len() == 0 {
        true
    } else if a[0] != b[0] {
        (a[0] as u32) < (b[0] as u32)
    } else {
        precedes(a.drop_first(), b.drop_first())
    }
}

/// The names stand in increasing order, so no name stands twice.
pub open spec fn names_increase(fields: Seq<(Seq<char>, Seq<char>)>) -> bool {
    forall|i: int, j: int|
        0 <= i < j < fields.len() ==> precedes(#[trigger] fields[i].0, #[trigger] fields[j].0)
}

/// `serde_json::to_string` on a string writes it between quotation marks:
/// the mark, the backslash and the control characters are escaped, each by
/// its short form where JSON has one, and every other character stands as it
/// is.
#[verifier::external_body]
pub(crate) fn write_string(s: &str) -> (r: String)
    ensures
        r@ == quoted(s@),
{
    serde_json::to_string(s).unwrap_or_default()
}

/// `serde_json::to_string` on a list of raw values writes their texts
/// unchanged between brackets, with commas and without white space. A compact
/// text is a raw value (`RawValue::from_string` takes it as it is).
#[verifier::external_body]
pub(crate) fn write_array(items: &Vec<String>) -> (r: String)
    requires
        forall|i: int| 0 <= i < items@.len() ==> is_json_text(#[trigger] items@[i]@),
    ensures
        r@ == array_text(items.deep_view()),
{
    let raw: Vec<Box<RawValue>> = items
        .iter()
        .map(|item| RawValue::from_string(item.clone()).unwrap_or_default())
        .collect();
    serde_json::to_string(&raw).unwrap_or_default()
}

/// `serde_json::to_string` on an ordered map of raw values writes, between
/// braces, with commas and without white space, each name as a string, a
/// colon and the value's text unchanged, in the order of the names.
#[verifier::external_body]
pub(crate) fn write_object(fields: &Vec<(String, String)>) -> (r: String)
    requires
        forall|i: int| 0 <= i < fields@.len() ==> is_json_text((#[trigger] fields@[i]).1@),
        names_increase(fields.deep_view()),
    ensures
        r@ == object_text(fields.deep_view()),
{
    let raw: BTreeMap<&str, Box<RawValue>> = fields
        .iter()
        .map(|f| (f.0.as_str(), RawValue::from_string(f.1.clone()).unwrap_or_default()))
        .collect();
    serde_json::to_string(&raw).unwrap_or_default()
}

// ---- Reading ---------------------------------------------------------------

/// The value that `serde_json::from_str::<Box<RawValue>>` finds in a text.
pub uninterp spec fn parsed_value(text: Seq<char>) -> Option<Seq<char>>;

/// The items that `serde_json::from_str::<Vec<Box<RawValue>>>` finds in a
/// text.
pub uninterp spec fn parsed_items(text: Seq<char>) -> Option<Seq<Seq<char>>>;

/// The string that `serde_json::from_str::<String>` finds in a text.
pub uninterp spec fn parsed_string(text: Seq<char>) -> Option<Seq<char>>;

/// The number that `serde_json::from_str::<u64>` finds in a text.
pub uninterp spec fn parsed_number(text: Seq<char>) -> Option<u64>;

/// `t` is the text of a value, with nothing around it.
pub open spec fn is_value_text(t: Seq<char>) -> bool {
    exists|w: Written| layout::well_spaced(w) && #[trigger] layout::written(w) == t
}

/// `t` is the text of a value with white space around it.
pub open spec fn is_padded_text(t: Seq<char>) -> bool {
    exists|item: WrittenItem|
        layout::well_spaced_item(item) && #[trigger] layout::item_text(item) == t
}

/// `t` is the text of an array.
pub open spec fn is_array_text(t: Seq<char>) -> bool {
    exists|items: Seq<WrittenItem>, gap: Seq<char>|
        layout::well_spaced(Written::Arr(items, gap)) && #[trigger] layout::written(
            Written::Arr(items, gap),
        ) == t
}

/// `t` is the text of a string.
pub open spec fn is_string_text(t: Seq<char>) -> bool {
    exists|s: Seq<Spelled>| t == #[trigger] spelling::string_text(s)
}

/// `t` is the text of a number.
pub open spec fn is_number_text(t: Seq<char>) -> bool {
    exists|n: Number| t == #[trigger] numbers::number_text(n)
}

/// The one JSON value in `t`, as its own text without the white space around
/// it; nothing where `t` is not JSON.
pub open spec fn value_text(t: Seq<char>) -> Option<Seq<char>> {
    if is_padded_text(t) {
        let item = choose|item: WrittenItem|
            layout::well_spaced_item(item) && #[trigger] layout::item_text(item) == t;
        Some(layout::written(item.value))
    } else {
        parsed_value(t)
    }
}

/// The texts of the items of the array in `t`; nothing where `t` is no array.
pub open spec fn item_texts(t: Seq<char>) -> Option<Seq<Seq<char>>> {
    if is_array_text(t) {
        let (items, gap) = choose|items: Seq<WrittenItem>, gap: Seq<char>|
            layout::well_spaced(Written::Arr(items, gap)) && #[trigger] layout::written(
                Written::Arr(items, gap),
            ) == t;
        Some(layout::value_texts(items))
    } else if is_value_text(t) {
        None
    } else {
        parsed_items(t)
    }
}

/// The characters of the string in `t`; nothing where `t` is no string.
pub open spec fn string_value(t: Seq<char>) -> Option<Seq<char>> {
    if is_string_text(t) {
        let s = choose|s: Seq<Spelled>| t == #[trigger] spelling::string_text(s);
        Some(spelling::chars(s))
    } else if is_value_text(t) {
        None
    } else {
        parsed_string(t)
    }
}

/// The whole number from zero on in `t`; nothing where `t` is none.
pub open spec fn number_value(t: Seq<char>) -> Option<u64> {
    if is_number_text(t) {
        let n = choose|n: Number| t == #[trigger] numbers::number_text(n);
        numbers::counted(n)
    } else if is_value_text(t) {
        None
    } else {
        parsed_number(t)
    }
}

/// `serde_json::from_str::<Box<RawValue>>` checks that the text is one JSON
/// value and gives that value's text, without the white space around it. Of
/// texts other than those of [`Written`] values (no JSON, or half of a
/// surrogate pair in a string) the result is only named.
#[verifier::external_body]
pub(crate) fn read_value(text: &str) -> (r: Option<String>)
    ensures
        forall|item: WrittenItem|
            layout::well_spaced_item(item) && #[trigger] layout::item_text(item) == text@
                ==> r.deep_view() == Some(layout::written(item.value)),
        !is_padded_text(text@) ==> r.deep_view() == parsed_value(text@),
{
    match serde_json::from_str::<Box<RawValue>>(text) {
        Ok(raw) => Some(raw.get().to_string()),
        Err(_) => None,
    }
}

/// `serde_json::from_str::<Vec<Box<RawValue>>>` gives the texts of an array's
/// items, without the white space around them, and fails on any other value.
/// Of texts other than those of [`Written`] values the result is only named.
#[verifier::external_body]
pub(crate) fn read_items(text: &str) -> (r: Option<Vec<String>>)
    ensures
        forall|items: Seq<WrittenItem>, gap: Seq<char>|
            layout::well_spaced(Written::Arr(items, gap)) && #[trigger] layout::written(
                Written::Arr(items, gap),
            ) == text@ ==> r.deep_view() == Some(layout::value_texts(items)),
        is_value_text(text@) && !is_array_text(text@) ==> r is None,
        !is_value_text(text@) ==> r.deep_view() == parsed_items(text@),
{
    match serde_json::from_str::<Vec<Box<RawValue>>>(text) {
        Ok(items) => Some(items.iter().map(|raw| raw.get().to_string()).collect()),
        Err(_) => None,
    }
}

/// `serde_json::from_str::<String>` gives the characters of a JSON string,
/// with every escape undone, and fails on any other value. Of texts other than
/// those of [`Written`] values the result is only named.
#[verifier::external_body]
pub(crate) fn read_string(text: &str) -> (r: Option<String>)
    ensures
        forall|s: Seq<Spelled>| #[trigger]
            spelling::string_text(s) == text@ ==> r.deep_view() == Some(spelling::chars(s)),
        is_value_text(text@) && !is_string_text(text@) ==> r is None,
        !is_value_text(text@) ==> r.deep_view() == parsed_string(text@),
{
    match serde_json::from_str::<String>(text) {
        Ok(s) => Some(s),
        Err(_) => None,
    }
}

/// `serde_json::from_str::<u64>` gives the number that decimal digits stand
/// for. It fails where there is a minus sign, a fraction or an exponent, where
/// the number is too large, and on any value that is no number. Of texts other
/// than those of [`Written`] values the result is only named.
#[verifier::external_body]
pub(crate) fn read_number(t: &str) -> (r: Option<u64>)
    ensures
        forall|n: Number| #[trigger] numbers::number_text(n) == t@ ==> r == numbers::counted(n),
        is_value_text(t@) && !is_number_text(t@) ==> r is None,
        !is_value_text(t@) ==> r == parsed_number(t@),
{
    match serde_json::from_str::<u64>(t) {
        Ok(n) => Some(n),
        Err(_) => None,
    }
}

} // verus!
