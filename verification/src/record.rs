//! Reading a record out of JSON text, field by field.
//!
//! A record is given as an object, where names that it does not have are
//! passed over and a name of its own may stand only once, or as an array that
//! holds the fields' values in order.

use vstd::prelude::*;

use crate::flatten;
use crate::json;
use crate::json::Json;
use crate::layout;
use crate::layout::Written;
use crate::layout::WrittenItem;
use crate::numbers;
use crate::numbers::Number;
use crate::spelling;
use crate::spelling::Spelled;
use crate::text;
use crate::text::same;

verus! {

/// What was found of a record: for each of its fields the text of the value,
/// where there was one.
pub struct Record {
    /// The record stood as an object, not as an array.
    pub by_name: bool,
    pub values: Vec<Option<String>>,
}

/// What a [`Record`] holds.
pub struct RecordView {
    pub by_name: bool,
    pub values: Seq<Option<Seq<char>>>,
}

impl DeepView for Record {
    type V = RecordView;

    open spec fn deep_view(&self) -> RecordView {
        RecordView { by_name: self.by_name, values: self.values.deep_view() }
    }
}

// ---- What a record's text means --------------------------------------------

/// The values once `value` has been found under `name`.
pub open spec fn with_entry(
    values: Seq<Option<Seq<char>>>,
    names: Seq<Seq<char>>,
    name: Seq<char>,
    value: Seq<char>,
) -> Seq<Option<Seq<char>>> {
    Seq::new(
        names.len(),
        |i: int|
            if names[i] == name {
                Some(value)
            } else {
                values[i]
            },
    )
}

/// A value has already been found under `name`.
pub open spec fn already_found(
    values: Seq<Option<Seq<char>>>,
    names: Seq<Seq<char>>,
    name: Seq<char>,
) -> bool {
    exists|i: int| 0 <= i < names.len() && #[trigger] names[i] == name && values[i] is Some
}

/// The values of the fields `names` in a list of names and values. Nothing
/// where a name is not a string, or one of `names` stands twice.
pub open spec fn values_by_name(
    flat: Seq<Seq<char>>,
    names: Seq<Seq<char>>,
) -> Option<Seq<Option<Seq<char>>>>
    decreases flat.len(),
{
    if flat.len() == 0 {
        Some(Seq::new(names.len(), |i: int| None))
    } else if flat.len() == 1 {
        None
    } else {
        let n = flat.len() as int;
        match (values_by_name(flat.take(n - 2), names), json::string_value(flat[n - 2])) {
            (Some(values), Some(name)) => if already_found(values, names, name) {
                None
            } else {
                Some(with_entry(values, names, name, flat[n - 1]))
            },
            _ => None,
        }
    }
}

/// The values of the fields `names` in a list of values.
pub open spec fn values_by_position(
    items: Seq<Seq<char>>,
    names: Seq<Seq<char>>,
) -> Seq<Option<Seq<char>>> {
    Seq::new(
        names.len(),
        |i: int|
            if i < items.len() {
                Some(items[i])
            } else {
                None
            },
    )
}

/// The record with the fields `names` in `text`.
pub open spec fn record(text: Seq<char>, names: Seq<Seq<char>>) -> Option<RecordView> {
    match json::value_text(text) {
        Some(t) => if t.len() > 0 && t[0] == '{' {
            match json::item_texts(flatten::opened(t)) {
                Some(flat) => match values_by_name(flat, names) {
                    Some(values) => Some(RecordView { by_name: true, values }),
                    None => None,
                },
                None => None,
            }
        } else if t.len() > 0 && t[0] == '[' {
            match json::item_texts(t) {
                Some(items) => if items.len() <= names.len() {
                    Some(
                        RecordView { by_name: false, values: values_by_position(items, names) },
                    )
                } else {
                    None
                },
                None => None,
            }
        } else {
            None
        },
        None => None,
    }
}

/// The record with the fields `names` in `text`, where it stands as an object.
pub open spec fn object_record(text: Seq<char>, names: Seq<Seq<char>>) -> Option<RecordView> {
    match record(text, names) {
        Some(r) => if r.by_name {
            Some(r)
        } else {
            None
        },
        None => None,
    }
}

/// All the parts, where each is there.
pub open spec fn all_some<T>(parts: Seq<Option<T>>) -> Option<Seq<T>> {
    if forall|i: int| 0 <= i < parts.len() ==> (#[trigger] parts[i]) is Some {
        Some(Seq::new(parts.len(), |i: int| parts[i]->0))
    } else {
        None
    }
}

/// The text in a field that must be there.
pub open spec fn required_text(field: Option<Seq<char>>) -> Option<Seq<char>> {
    match field {
        Some(t) => json::string_value(t),
        None => None,
    }
}

/// The text in a field that may be missing or `null`.
pub open spec fn optional_text(field: Option<Seq<char>>) -> Option<Option<Seq<char>>> {
    match field {
        None => Some(None),
        Some(t) => if t == "null"@ {
            Some(None)
        } else {
            match json::string_value(t) {
                Some(s) => Some(Some(s)),
                None => None,
            }
        },
    }
}

/// The items of an array, each read by `entry`.
pub open spec fn entries<T>(
    t: Seq<char>,
    entry: spec_fn(Seq<char>) -> Option<T>,
) -> Option<Seq<T>> {
    match json::item_texts(t) {
        Some(items) => all_some(items.map_values(entry)),
        None => None,
    }
}

/// The items of an array in a field that may be missing or `null`.
pub open spec fn optional_entries<T>(
    field: Option<Seq<char>>,
    entry: spec_fn(Seq<char>) -> Option<T>,
) -> Option<Option<Seq<T>>> {
    match field {
        None => Some(None),
        Some(t) => if t == "null"@ {
            Some(None)
        } else {
            match entries(t, entry) {
                Some(list) => Some(Some(list)),
                None => None,
            }
        },
    }
}

/// The strings in an array.
pub open spec fn text_list(t: Seq<char>) -> Option<Seq<Seq<char>>> {
    entries(t, |item: Seq<char>| json::string_value(item))
}

/// The strings in a field that must be there.
pub open spec fn required_text_list(field: Option<Seq<char>>) -> Option<Seq<Seq<char>>> {
    match field {
        Some(t) => text_list(t),
        None => None,
    }
}

// ---- Reading ---------------------------------------------------------------

/// Notes `value` under `name`, unless one has been found there.
fn note_entry(
    values: &mut Vec<Option<String>>,
    names: &Vec<&str>,
    name: &str,
    value: &String,
) -> (fresh: bool)
    requires
        old(values)@.len() == names@.len(),
    ensures
        final(values)@.len() == names@.len(),
        fresh == !already_found(old(values).deep_view(), names.deep_view(), name@),
        fresh ==> final(values).deep_view() == with_entry(
            old(values).deep_view(),
            names.deep_view(),
            name@,
            value@,
        ),
{
    let ghost before = values.deep_view();
    let ghost wanted = names.deep_view();
    let mut i: usize = 0;
    while i < names.len()
        invariant
            i <= names@.len(),
            values@.len() == names@.len(),
            before == old(values).deep_view(),
            before.len() == names@.len(),
            wanted == names.deep_view(),
            forall|j: int|
                0 <= j < i ==> #[trigger] values.deep_view()[j] == (if wanted[j] == name@ {
                    Some(value@)
                } else {
                    before[j]
                }),
            forall|j: int| i <= j < names@.len() ==> #[trigger] values.deep_view()[j] == before[j],
            forall|j: int| 0 <= j < i && #[trigger] wanted[j] == name@ ==> before[j] is None,
        decreases names@.len() - i,
    {
        assert(values.deep_view()[i as int] == before[i as int]);
        if same(names[i], name) {
            assert(wanted[i as int] == name@);
            if values[i].is_some() {
                assert(already_found(before, wanted, name@));
                return false;
            }
            let ghost prior = values.deep_view();
            values.set(i, Some(value.clone()));
            assert(values.deep_view() =~= prior.update(i as int, Some(value@)));
        }
        i = i + 1;
    }
    assert(values.deep_view() =~= with_entry(before, wanted, name@, value@));
    assert(!already_found(before, wanted, name@));
    true
}

fn read_by_name(flat: &Vec<String>, names: &Vec<&str>) -> (r: Option<Vec<Option<String>>>)
    ensures
        r.deep_view() == values_by_name(flat.deep_view(), names.deep_view()),
        r is Some ==> r->0@.len() == names@.len(),
{
    let ghost all = flat.deep_view();
    let ghost wanted = names.deep_view();
    let mut values: Vec<Option<String>> = Vec::new();
    let mut k: usize = 0;
    while k < names.len()
        invariant
            k <= names@.len(),
            values@.len() == k,
            forall|j: int| 0 <= j < k ==> #[trigger] values.deep_view()[j] is None,
        decreases names@.len() - k,
    {
        let ghost prior = values.deep_view();
        values.push(None);
        assert(values.deep_view() =~= prior.push(None));
        k = k + 1;
    }
    let mut i: usize = 0;
    proof {
        assert(all.take(0) =~= Seq::empty());
        assert(values.deep_view() =~= Seq::new(
            wanted.len(),
            |i: int| Option::<Seq<char>>::None,
        ));
    }
    while i < flat.len()
        invariant
            i <= flat@.len(),
            i % 2 == 0,
            values@.len() == names@.len(),
            all == flat.deep_view(),
            wanted == names.deep_view(),
            values_by_name(all.take(i as int), wanted) == Some(values.deep_view()),
        decreases flat@.len() - i,
    {
        if flat.len() - i == 1 {
            proof {
                lemma_odd_list(all, wanted);
            }
            return None;
        }
        let ghost upto = all.take(i + 2);
        proof {
            assert(upto.take(i as int) =~= all.take(i as int));
            assert(upto[i as int] == flat[i as int]@);
            assert(upto[i + 1] == flat[i + 1]@);
        }
        match json::read_string(flat[i].as_str()) {
            Some(name) => {
                assert(json::string_value(flat[i as int]@) == Some(name@));
                if !note_entry(&mut values, names, name.as_str(), &flat[i + 1]) {
                    proof {
                        assert(values_by_name(upto, wanted) is None);
                        lemma_prefix_fails(all, wanted, i + 2);
                    }
                    return None;
                }
            },
            None => {
                proof {
                    assert(json::string_value(flat[i as int]@) is None);
                    assert(values_by_name(upto, wanted) is None);
                    lemma_prefix_fails(all, wanted, i + 2);
                }
                return None;
            },
        }
        i = i + 2;
    }
    assert(all.take(i as int) =~= all);
    Some(values)
}

/// A list that breaks off behind a name holds no fields.
proof fn lemma_odd_list(flat: Seq<Seq<char>>, names: Seq<Seq<char>>)
    requires
        flat.len() % 2 == 1,
    ensures
        values_by_name(flat, names) is None,
    decreases flat.len(),
{
    if flat.len() > 1 {
        lemma_odd_list(flat.take(flat.len() - 2), names);
    }
}

/// Where a prefix fails, the whole does.
proof fn lemma_prefix_fails(flat: Seq<Seq<char>>, names: Seq<Seq<char>>, n: int)
    requires
        0 <= n <= flat.len(),
        n % 2 == 0,
        values_by_name(flat.take(n), names) is None,
    ensures
        values_by_name(flat, names) is None,
    decreases flat.len(),
{
    if flat.len() % 2 == 1 {
        lemma_odd_list(flat, names);
    } else if n < flat.len() {
        let shorter = flat.take(flat.len() - 2);
        assert(shorter.take(n) =~= flat.take(n));
        lemma_prefix_fails(shorter, names, n);
    } else {
        assert(flat.take(n) =~= flat);
    }
}

fn read_by_position(items: &Vec<String>, names: &Vec<&str>) -> (r: Vec<Option<String>>)
    ensures
        r.deep_view() == values_by_position(items.deep_view(), names.deep_view()),
        r@.len() == names@.len(),
{
    let mut values: Vec<Option<String>> = Vec::new();
    let mut i: usize = 0;
    while i < names.len()
        invariant
            i <= names@.len(),
            values@.len() == i,
            forall|j: int|
                0 <= j < i ==> #[trigger] values.deep_view()[j] == (if j < items@.len() {
                    Some(items.deep_view()[j])
                } else {
                    None
                }),
        decreases names@.len() - i,
    {
        let ghost prior = values.deep_view();
        if i < items.len() {
            values.push(Some(items[i].clone()));
            assert(values.deep_view() =~= prior.push(Some(items[i as int]@)));
        } else {
            values.push(None);
            assert(values.deep_view() =~= prior.push(None));
        }
        i = i + 1;
    }
    assert(values.deep_view() =~= values_by_position(items.deep_view(), names.deep_view()));
    values
}

fn first_char_is(s: &str, c: char) -> (r: bool)
    ensures
        r == (s@.len() > 0 && s@[0] == c),
{
    if s.is_empty() {
        false
    } else {
        s.get_char(0) == c
    }
}

/// Reads the record with the fields `names`.
pub(crate) fn read_record(text: &str, names: &Vec<&str>) -> (r: Option<Record>)
    ensures
        r.deep_view() == record(text@, names.deep_view()),
        r is Some ==> r->0.values@.len() == names@.len(),
{
    let t: String = match json::read_value(text) {
        Some(t) => t,
        None => {
            return None;
        },
    };
    assert(json::value_text(text@) == Some(t@));
    if first_char_is(t.as_str(), '{') {
        let opened: String = flatten::open_object(t.as_str());
        match json::read_items(opened.as_str()) {
            Some(flat) => {
                assert(json::item_texts(opened@) == Some(flat.deep_view()));
                match read_by_name(&flat, names) {
                    Some(values) => Some(Record { by_name: true, values }),
                    None => None,
                }
            },
            None => None,
        }
    } else if first_char_is(t.as_str(), '[') {
        match json::read_items(t.as_str()) {
            Some(items) => {
                assert(json::item_texts(t@) == Some(items.deep_view()));
                if items.len() <= names.len() {
                    Some(Record { by_name: false, values: read_by_position(&items, names) })
                } else {
                    None
                }
            },
            None => None,
        }
    } else {
        None
    }
}

/// Reads the record with the fields `names`, which must stand as an object.
pub(crate) fn read_object_record(text: &str, names: &Vec<&str>) -> (r: Option<Record>)
    ensures
        r.deep_view() == object_record(text@, names.deep_view()),
        r is Some ==> r->0.values@.len() == names@.len(),
{
    match read_record(text, names) {
        Some(r) => if r.by_name {
            Some(r)
        } else {
            None
        },
        None => None,
    }
}

pub(crate) fn read_required_text(field: &Option<String>) -> (r: Option<String>)
    ensures
        r.deep_view() == required_text(field.deep_view()),
{
    match field {
        Some(t) => json::read_string(t.as_str()),
        None => None,
    }
}

pub(crate) fn read_optional_text(field: &Option<String>) -> (r: Option<Option<String>>)
    ensures
        r.deep_view() == optional_text(field.deep_view()),
{
    match field {
        Some(t) => if same(t.as_str(), "null") {
            Some(None)
        } else {
            match json::read_string(t.as_str()) {
                Some(s) => Some(Some(s)),
                None => None,
            }
        },
        None => Some(None),
    }
}

/// Reads the items of an array, each by `read`.
pub(crate) fn read_entries<T: DeepView, F: Fn(&str) -> Option<T>>(
    t: &str,
    read: F,
    Ghost(entry): Ghost<spec_fn(Seq<char>) -> Option<T::V>>,
) -> (r: Option<Vec<T>>)
    requires
        forall|s: &str| call_requires(read, (s,)),
        forall|s: &str, x: Option<T>| #[trigger]
            call_ensures(read, (s,), x) ==> x.deep_view() == entry(s@),
    ensures
        r.deep_view() == entries(t@, entry),
{
    let items: Vec<String> = match json::read_items(t) {
        Some(items) => items,
        None => {
            return None;
        },
    };
    let ghost parts = items.deep_view().map_values(entry);
    assert(json::item_texts(t@) == Some(items.deep_view()));
    let mut out: Vec<T> = Vec::new();
    let mut i: usize = 0;
    while i < items.len()
        invariant
            i <= items@.len(),
            out@.len() == i,
            parts == items.deep_view().map_values(entry),
            json::item_texts(t@) == Some(items.deep_view()),
            forall|s: &str| call_requires(read, (s,)),
            forall|s: &str, x: Option<T>| #[trigger]
                call_ensures(read, (s,), x) ==> x.deep_view() == entry(s@),
            forall|j: int| 0 <= j < i ==> #[trigger] parts[j] == Some(out.deep_view()[j]),
        decreases items@.len() - i,
    {
        assert(parts[i as int] == entry(items[i as int]@));
        match read(items[i].as_str()) {
            Some(x) => {
                let ghost prior = out.deep_view();
                out.push(x);
                assert(out.deep_view() =~= prior.push(x.deep_view()));
            },
            None => {
                assert(parts[i as int] is None);
                return None;
            },
        }
        i = i + 1;
    }
    assert(all_some(parts)->0 =~= out.deep_view());
    Some(out)
}

/// Reads the items of an array in a field that may be missing or `null`.
pub(crate) fn read_optional_entries<T: DeepView, F: Fn(&str) -> Option<T>>(
    field: &Option<String>,
    read: F,
    Ghost(entry): Ghost<spec_fn(Seq<char>) -> Option<T::V>>,
) -> (r: Option<Option<Vec<T>>>)
    requires
        forall|s: &str| call_requires(read, (s,)),
        forall|s: &str, x: Option<T>| #[trigger]
            call_ensures(read, (s,), x) ==> x.deep_view() == entry(s@),
    ensures
        r.deep_view() == optional_entries(field.deep_view(), entry),
{
    match field {
        Some(t) => if same(t.as_str(), "null") {
            Some(None)
        } else {
            match read_entries(t.as_str(), read, Ghost(entry)) {
                Some(list) => Some(Some(list)),
                None => None,
            }
        },
        None => Some(None),
    }
}

fn read_text(t: &str) -> (r: Option<String>)
    ensures
        r.deep_view() == json::string_value(t@),
{
    json::read_string(t)
}

pub(crate) fn read_required_text_list(field: &Option<String>) -> (r: Option<Vec<String>>)
    ensures
        r.deep_view() == required_text_list(field.deep_view()),
{
    match field {
        Some(t) => read_entries(
            t.as_str(),
            read_text,
            Ghost(|item: Seq<char>| json::string_value(item)),
        ),
        None => None,
    }
}

// ---- Reading what was written ----------------------------------------------

/// A record has a place for each of its fields.
pub proof fn lemma_record_len(text: Seq<char>, names: Seq<Seq<char>>)
    ensures
        record(text, names) matches Some(r) ==> r.values.len() == names.len(),
{
    if let Some(t) = json::value_text(text) {
        if let Some(flat) = json::item_texts(flatten::opened(t)) {
            if let Some(values) = values_by_name(flat, names) {
                lemma_values_len(flat, names);
            }
        }
    }
}

proof fn lemma_values_len(flat: Seq<Seq<char>>, names: Seq<Seq<char>>)
    ensures
        values_by_name(flat, names) matches Some(values) ==> values.len() == names.len(),
    decreases flat.len(),
{
    if flat.len() >= 2 {
        lemma_values_len(flat.take(flat.len() - 2), names);
    }
}

/// A string is read from its text, however it is written.
pub proof fn lemma_read_spelled(s: Seq<Spelled>)
    ensures
        json::string_value(spelling::string_text(s)) == Some(spelling::chars(s)),
{
    let t = spelling::string_text(s);
    assert(json::is_string_text(t));
    let u = choose|u: Seq<Spelled>| t == #[trigger] spelling::string_text(u);
    spelling::lemma_string_injective(s, u);
}

/// A string is read back from its text.
pub proof fn lemma_read_string(s: Seq<char>)
    ensures
        json::string_value(json::json_text(Json::Str(s))) == Some(s),
{
    spelling::lemma_shortest(s);
    lemma_read_spelled(spelling::shortest(s));
}

/// A whole number is read from its text, and no other number is.
pub proof fn lemma_read_number(n: Number)
    ensures
        json::number_value(json::json_text(Json::Num(n))) == numbers::counted(n),
{
    let t = numbers::number_text(n);
    assert(json::is_number_text(t));
    let m = choose|m: Number| t == #[trigger] numbers::number_text(m);
    numbers::lemma_counted(n, m);
}

/// The text of a value is found inside the white space around it.
pub proof fn lemma_read_value(item: WrittenItem)
    requires
        layout::well_spaced_item(item),
    ensures
        json::value_text(layout::item_text(item)) == Some(layout::written(item.value)),
{
    let t = layout::item_text(item);
    assert(json::is_padded_text(t));
    let other = choose|other: WrittenItem|
        layout::well_spaced_item(other) && #[trigger] layout::item_text(other) == t;
    layout::lemma_value_in_item(item, other);
}

/// A value with nothing around it.
pub open spec fn bare(w: Written) -> WrittenItem {
    WrittenItem { before: Seq::empty(), value: w, after: Seq::empty() }
}

/// A value's text is its own.
pub proof fn lemma_read_bare_value(w: Written)
    requires
        layout::well_spaced(w),
    ensures
        json::value_text(layout::written(w)) == Some(layout::written(w)),
{
    assert(layout::item_text(bare(w)) =~= layout::written(w));
    lemma_read_value(bare(w));
}

/// The items' texts are read back from the text of an array.
pub proof fn lemma_read_written_items(items: Seq<WrittenItem>, gap: Seq<char>)
    requires
        layout::well_spaced(Written::Arr(items, gap)),
    ensures
        json::item_texts(layout::written(Written::Arr(items, gap))) == Some(
            layout::value_texts(items),
        ),
{
    let t = layout::written(Written::Arr(items, gap));
    assert(json::is_array_text(t));
    let (other, other_gap) = choose|other: Seq<WrittenItem>, other_gap: Seq<char>|
        layout::well_spaced(Written::Arr(other, other_gap)) && #[trigger] layout::written(
            Written::Arr(other, other_gap),
        ) == t;
    flatten::lemma_items_injective(items, gap, other, other_gap);
}

/// The items' texts are read back from the compact text of an array.
pub proof fn lemma_read_items(items: Seq<Json>)
    ensures
        json::item_texts(json::json_text(Json::Arr(items))) == Some(json::texts(items)),
{
    layout::lemma_compact(Json::Arr(items));
    layout::lemma_compact_items(items);
    lemma_read_written_items(layout::compact_items(items), Seq::empty());
    json::lemma_texts(items);
    assert(layout::value_texts(layout::compact_items(items)) =~= json::texts(items));
}

/// A list is read back from the compact text of an array, where each of its
/// items is read back.
pub proof fn lemma_read_entries<T>(
    items: Seq<Json>,
    entry: spec_fn(Seq<char>) -> Option<T>,
    list: Seq<T>,
)
    requires
        items.len() == list.len(),
        forall|i: int|
            0 <= i < items.len() ==> entry(json::json_text(#[trigger] items[i])) == Some(list[i]),
    ensures
        entries(json::json_text(Json::Arr(items)), entry) == Some(list),
{
    lemma_read_items(items);
    json::lemma_texts(items);
    let parts = json::texts(items).map_values(entry);
    assert forall|i: int| 0 <= i < parts.len() implies #[trigger] parts[i] == Some(list[i]) by {
        assert(json::texts(items)[i] == json::json_text(items[i]));
    }
    assert(all_some(parts)->0 =~= list);
}

/// A list of strings is read back from its compact text.
pub proof fn lemma_read_text_list(list: Seq<Seq<char>>)
    ensures
        text_list(json::json_text(Json::Arr(list.map_values(|s: Seq<char>| Json::Str(s)))))
            == Some(list),
{
    let items = list.map_values(|s: Seq<char>| Json::Str(s));
    assert forall|i: int| 0 <= i < items.len() implies json::string_value(
        json::json_text(#[trigger] items[i]),
    ) == Some(list[i]) by {
        lemma_read_string(list[i]);
    }
    lemma_read_entries(items, |item: Seq<char>| json::string_value(item), list);
}

/// None of `names` stands twice among `fields`.
pub open spec fn each_once(fields: Seq<(Seq<char>, Json)>, names: Seq<Seq<char>>) -> bool {
    forall|i: int, j: int|
        0 <= i < j < fields.len() && names.contains(#[trigger] fields[i].0)
            ==> #[trigger] fields[j].0 != fields[i].0
}

/// The text of the value under `name` among `fields`.
pub open spec fn value_under(fields: Seq<(Seq<char>, Json)>, name: Seq<char>) -> Option<Seq<char>>
    decreases fields.len(),
{
    if fields.len() == 0 {
        None
    } else if fields.last().0 == name {
        Some(json::json_text(fields.last().1))
    } else {
        value_under(fields.drop_last(), name)
    }
}

pub proof fn lemma_value_under_absent(fields: Seq<(Seq<char>, Json)>, name: Seq<char>)
    requires
        forall|i: int| 0 <= i < fields.len() ==> #[trigger] fields[i].0 != name,
    ensures
        value_under(fields, name) is None,
    decreases fields.len(),
{
    if fields.len() > 0 {
        assert(fields[fields.len() - 1].0 != name);
        assert forall|i: int| 0 <= i < fields.drop_last().len() implies #[trigger]
            fields.drop_last()[i].0 != name by {
            assert(fields[i].0 != name);
        }
        lemma_value_under_absent(fields.drop_last(), name);
    }
}

/// The texts of an object's names and values, one after the other.
spec fn flat_texts(fields: Seq<(Seq<char>, Json)>) -> Seq<Seq<char>> {
    layout::value_texts(flatten::alternating(layout::compact_fields(fields)))
}

proof fn lemma_flat_texts(fields: Seq<(Seq<char>, Json)>)
    ensures
        flat_texts(fields).len() == 2 * fields.len(),
        fields.len() > 0 ==> flat_texts(fields) == flat_texts(fields.drop_last()).push(
            json::quoted(fields.last().0),
        ).push(json::json_text(fields.last().1)),
{
    layout::lemma_compact_fields(fields);
    flatten::lemma_alternating(layout::compact_fields(fields));
    if fields.len() > 0 {
        let before = fields.drop_last();
        layout::lemma_compact_fields(before);
        flatten::lemma_alternating(layout::compact_fields(before));
        let c = layout::compact_fields(fields);
        assert(c.drop_last() =~= layout::compact_fields(before));
        assert(c.last() == c[fields.len() - 1]);
        spelling::lemma_shortest(fields.last().0);
        assert(flat_texts(fields) =~= flat_texts(before).push(
            json::quoted(fields.last().0),
        ).push(json::json_text(fields.last().1)));
    }
}

proof fn lemma_values_by_name(fields: Seq<(Seq<char>, Json)>, names: Seq<Seq<char>>)
    requires
        each_once(fields, names),
    ensures
        values_by_name(flat_texts(fields), names) == Some(
            Seq::new(names.len(), |i: int| value_under(fields, names[i])),
        ),
    decreases fields.len(),
{
    let flat = flat_texts(fields);
    lemma_flat_texts(fields);
    let expected = Seq::new(names.len(), |i: int| value_under(fields, names[i]));
    if fields.len() == 0 {
        assert(Seq::new(names.len(), |i: int| Option::<Seq<char>>::None) =~= expected);
    } else {
        let before = fields.drop_last();
        let last = fields.last();
        let n = flat.len() as int;
        assert forall|i: int, j: int|
            0 <= i < j < before.len() && names.contains(#[trigger] before[i].0) implies (
        #[trigger] before[j].0 != before[i].0) by {
            assert(fields[j].0 != fields[i].0);
        }
        lemma_values_by_name(before, names);
        lemma_flat_texts(before);
        let k = fields.len() - 1;
        assert(flat[n - 2] == json::json_text(Json::Str(last.0)));
        assert(flat[n - 1] == json::json_text(last.1));
        assert(flat.take(n - 2) =~= flat_texts(before));
        lemma_read_string(last.0);
        let values = Seq::new(names.len(), |i: int| value_under(before, names[i]));
        assert(!already_found(values, names, last.0)) by {
            if names.contains(last.0) {
                assert forall|i: int| 0 <= i < before.len() implies #[trigger] before[i].0
                    != last.0 by {
                    if fields[i].0 == last.0 {
                        assert(names.contains(fields[i].0));
                        assert(fields[k].0 != fields[i].0);
                    }
                }
                lemma_value_under_absent(before, last.0);
            }
        }
        assert(with_entry(values, names, last.0, flat[n - 1]) =~= expected);
    }
}

/// A record is read back from the compact text of an object: each field has
/// the value under its name.
pub proof fn lemma_read_record(fields: Seq<(Seq<char>, Json)>, names: Seq<Seq<char>>)
    requires
        each_once(fields, names),
    ensures
        record(json::json_text(Json::Obj(fields)), names) == Some(
            RecordView {
                by_name: true,
                values: Seq::new(names.len(), |i: int| value_under(fields, names[i])),
            },
        ),
{
    let t = json::json_text(Json::Obj(fields));
    let c = layout::compact_fields(fields);
    layout::lemma_compact(Json::Obj(fields));
    lemma_read_bare_value(Written::Obj(c, Seq::empty()));
    assert(t[0] == '{');
    flatten::lemma_opened_object(c, Seq::empty());
    flatten::lemma_alternating_spaced(c, Seq::empty());
    lemma_read_written_items(flatten::alternating(c), Seq::empty());
    lemma_values_by_name(fields, names);
}

// ---- Laws ------------------------------------------------------------------

/// The fields that are among `names`.
pub open spec fn known(
    fields: Seq<(Seq<char>, Json)>,
    names: Seq<Seq<char>>,
) -> Seq<(Seq<char>, Json)>
    decreases fields.len(),
{
    if fields.len() == 0 {
        Seq::empty()
    } else if names.contains(fields.last().0) {
        known(fields.drop_last(), names).push(fields.last())
    } else {
        known(fields.drop_last(), names)
    }
}

proof fn lemma_known(fields: Seq<(Seq<char>, Json)>, names: Seq<Seq<char>>)
    requires
        each_once(fields, names),
    ensures
        each_once(known(fields, names), names),
        forall|i: int|
            0 <= i < known(fields, names).len() ==> exists|j: int|
                0 <= j < fields.len() && fields[j] == #[trigger] known(fields, names)[i],
        forall|name: Seq<char>|
            names.contains(name) ==> #[trigger] value_under(known(fields, names), name)
                == value_under(fields, name),
    decreases fields.len(),
{
    if fields.len() > 0 {
        let before = fields.drop_last();
        let last = fields.last();
        let n = fields.len() - 1;
        let k = known(fields, names);
        let kb = known(before, names);
        assert forall|i: int, j: int|
            0 <= i < j < before.len() && names.contains(#[trigger] before[i].0) implies (
        #[trigger] before[j].0 != before[i].0) by {
            assert(fields[j].0 != fields[i].0);
        }
        lemma_known(before, names);
        assert forall|i: int| 0 <= i < k.len() implies exists|j: int|
            0 <= j < fields.len() && fields[j] == #[trigger] k[i] by {
            if i < kb.len() {
                let j = choose|j: int| 0 <= j < before.len() && before[j] == kb[i];
                assert(fields[j] == k[i]);
            } else {
                assert(fields[n] == k[i]);
            }
        }
        assert forall|i: int, j: int|
            0 <= i < j < k.len() && names.contains(#[trigger] k[i].0) implies (#[trigger] k[j].0
            != k[i].0) by {
            if j < kb.len() {
                assert(kb[j].0 != kb[i].0);
            } else {
                let x = choose|x: int| 0 <= x < before.len() && before[x] == kb[i];
                assert(fields[n].0 != fields[x].0);
            }
        }
        assert forall|name: Seq<char>| names.contains(name) implies #[trigger] value_under(k, name)
            == value_under(fields, name) by {
            assert(value_under(kb, name) == value_under(before, name));
            if names.contains(last.0) {
                assert(k.last() == last);
                assert(k.drop_last() =~= kb);
            }
        }
    }
}

/// Names that a record does not have are passed over: it is read from an
/// object as if they were not there.
pub proof fn law_unknown_names_are_ignored(
    fields: Seq<(Seq<char>, Json)>,
    names: Seq<Seq<char>>,
)
    requires
        each_once(fields, names),
    ensures
        record(json::json_text(Json::Obj(fields)), names) == record(
            json::json_text(Json::Obj(known(fields, names))),
            names,
        ),
{
    lemma_known(fields, names);
    lemma_read_record(fields, names);
    lemma_read_record(known(fields, names), names);
    assert forall|i: int| 0 <= i < names.len() implies value_under(fields, #[trigger] names[i])
        == value_under(known(fields, names), names[i]) by {
        assert(names.contains(names[i]));
    }
    assert(Seq::new(names.len(), |i: int| value_under(fields, names[i])) =~= Seq::new(
        names.len(),
        |i: int| value_under(known(fields, names), names[i]),
    ));
}

/// A name that stands twice is refused, where it is one of the fields' names.
pub proof fn law_repeated_name_is_refused(
    fields: Seq<(Seq<char>, Json)>,
    names: Seq<Seq<char>>,
    i: int,
    j: int,
)
    requires
        0 <= i < j < fields.len(),
        fields[i].0 == fields[j].0,
        names.contains(fields[i].0),
    ensures
        record(json::json_text(Json::Obj(fields)), names) is None,
{
    let t = json::json_text(Json::Obj(fields));
    let c = layout::compact_fields(fields);
    layout::lemma_compact(Json::Obj(fields));
    lemma_read_bare_value(Written::Obj(c, Seq::empty()));
    assert(t[0] == '{');
    flatten::lemma_opened_object(c, Seq::empty());
    flatten::lemma_alternating_spaced(c, Seq::empty());
    lemma_read_written_items(flatten::alternating(c), Seq::empty());
    lemma_repeated_name(fields, names, i, j);
}

proof fn lemma_repeated_name(
    fields: Seq<(Seq<char>, Json)>,
    names: Seq<Seq<char>>,
    i: int,
    j: int,
)
    requires
        0 <= i < j < fields.len(),
        fields[i].0 == fields[j].0,
        names.contains(fields[i].0),
    ensures
        values_by_name(flat_texts(fields), names) is None,
    decreases fields.len(),
{
    let flat = flat_texts(fields);
    let before = fields.drop_last();
    let last = fields.last();
    let n = flat.len() as int;
    lemma_flat_texts(fields);
    lemma_flat_texts(before);
    assert(flat.take(n - 2) =~= flat_texts(before));
    if !each_once(before, names) {
        let (x, y) = choose|x: int, y: int|
            0 <= x < y < before.len() && names.contains(#[trigger] before[x].0) && (
            #[trigger] before[y].0) == before[x].0;
        lemma_repeated_name(before, names, x, y);
    } else {
        if j < before.len() {
            assert(before[i].0 == before[j].0);
        }
        assert(j == before.len());
        lemma_values_by_name(before, names);
        assert(flat[n - 2] == json::json_text(Json::Str(last.0)));
        lemma_read_string(last.0);
        lemma_value_under_present(before, last.0, i);
        let values = Seq::new(names.len(), |i: int| value_under(before, names[i]));
        let k = choose|k: int| 0 <= k < names.len() && names[k] == last.0;
        assert(values[k] is Some);
        assert(already_found(values, names, last.0));
    }
}

proof fn lemma_value_under_present(fields: Seq<(Seq<char>, Json)>, name: Seq<char>, i: int)
    requires
        0 <= i < fields.len(),
        fields[i].0 == name,
    ensures
        value_under(fields, name) is Some,
    decreases fields.len(),
{
    if fields.last().0 != name {
        assert(fields.drop_last()[i].0 == name);
        lemma_value_under_present(fields.drop_last(), name, i);
    }
}

/// The views of records leave nothing out and change nothing: each part is that
/// of the value itself.
pub proof fn law_views_of_records(
    record: Record,
)
    ensures
        record.deep_view().by_name == record.by_name,
        record.deep_view().values == record.values.deep_view(),
{
}

} // verus!
