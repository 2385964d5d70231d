//! What is read from the compact text of a JSON value, said of the value.

use vstd::prelude::*;

use crate::json;
use crate::json::Json;
use crate::layout;
use crate::numbers;
use crate::record;
use crate::spacing;
use crate::tool_laws;

verus! {

// ---- Values ----------------------------------------------------------------

/// The value under `name`.
pub open spec fn under(fields: Seq<(Seq<char>, Json)>, name: Seq<char>) -> Option<Json>
    decreases fields.len(),
{
    if fields.len() == 0 {
        None
    } else if fields.last().0 == name {
        Some(fields.last().1)
    } else {
        under(fields.drop_last(), name)
    }
}

/// The characters of a string.
pub open spec fn string_in(v: Json) -> Option<Seq<char>> {
    match v {
        Json::Str(s) => Some(s),
        _ => None,
    }
}

/// What `f` makes of the items of a list, where it makes something of each.
pub open spec fn list_in<T>(v: Json, f: spec_fn(Json) -> Option<T>) -> Option<Seq<T>> {
    match v {
        Json::Arr(items) => if forall|i: int|
            0 <= i < items.len() ==> f(#[trigger] items[i]) is Some {
            Some(Seq::new(items.len(), |i: int| f(items[i])->0))
        } else {
            None
        },
        _ => None,
    }
}

/// What `f` makes of a value that must be there.
pub open spec fn required<T>(v: Option<Json>, f: spec_fn(Json) -> Option<T>) -> Option<T> {
    match v {
        Some(v) => f(v),
        None => None,
    }
}

/// What `f` makes of a value that may be missing or null.
pub open spec fn optional<T>(v: Option<Json>, f: spec_fn(Json) -> Option<T>) -> Option<Option<T>> {
    match v {
        None => Some(None),
        Some(Json::Null) => Some(None),
        Some(v) => match f(v) {
            Some(t) => Some(Some(t)),
            None => None,
        },
    }
}

/// The values of the fields `names`: of an object by name, of an array by
/// position.
pub open spec fn members(v: Json, names: Seq<Seq<char>>) -> Option<Seq<Option<Json>>> {
    match v {
        Json::Obj(fields) => Some(Seq::new(names.len(), |i: int| under(fields, names[i]))),
        Json::Arr(items) => if items.len() <= names.len() {
            Some(
                Seq::new(
                    names.len(),
                    |i: int|
                        if i < items.len() {
                            Some(items[i])
                        } else {
                            None
                        },
                ),
            )
        } else {
            None
        },
        _ => None,
    }
}

/// The compact text of a value that may be missing.
pub open spec fn text_where_given(v: Option<Json>) -> Option<Seq<char>> {
    match v {
        Some(v) => Some(json::json_text(v)),
        None => None,
    }
}

// ---- Reading ---------------------------------------------------------------

proof fn lemma_kind(v: Json)
    ensures
        json::is_value_text(json::json_text(v)),
        json::is_string_text(json::json_text(v)) <==> v is Str,
        json::is_number_text(json::json_text(v)) <==> v is Num,
        json::is_array_text(json::json_text(v)) <==> v is Arr,
        json::json_text(v) == "null"@ <==> v is Null,
        json::json_text(v).len() > 0,
        json::json_text(v)[0] == '{' <==> v is Obj,
        json::json_text(v)[0] == '[' <==> v is Arr,
        json::value_text(json::json_text(v)) == Some(json::json_text(v)),
{
    layout::lemma_compact(v);
    spacing::lemma_kinds(layout::compact(v));
    layout::lemma_ends(layout::compact(v));
    record::lemma_read_bare_value(layout::compact(v));
}

/// A string is read from the text of a string, and of no other value.
pub proof fn lemma_string(v: Json)
    ensures
        json::string_value(json::json_text(v)) == string_in(v),
{
    lemma_kind(v);
    if let Json::Str(s) = v {
        record::lemma_read_string(s);
    }
}

/// A whole number is read from the text of a number, and of no other value.
pub proof fn lemma_number(v: Json)
    ensures
        json::number_value(json::json_text(v)) == (match v {
            Json::Num(n) => numbers::counted(n),
            _ => None,
        }),
{
    lemma_kind(v);
    if let Json::Num(n) = v {
        record::lemma_read_number(n);
    }
}

/// Only the null value has that text.
pub proof fn lemma_null(v: Json)
    ensures
        json::json_text(v) == "null"@ <==> v is Null,
{
    lemma_kind(v);
}

/// A list is read from the text of a list, and of no other value.
pub proof fn lemma_list<T>(
    v: Json,
    entry: spec_fn(Seq<char>) -> Option<T>,
    f: spec_fn(Json) -> Option<T>,
)
    requires
        v matches Json::Arr(items) ==> forall|i: int|
            0 <= i < items.len() ==> entry(json::json_text(#[trigger] items[i])) == f(items[i]),
    ensures
        record::entries(json::json_text(v), entry) == list_in(v, f),
{
    lemma_kind(v);
    if let Json::Arr(items) = v {
        record::lemma_read_items(items);
        json::lemma_texts(items);
        let texts = json::texts(items);
        let parts = texts.map_values(entry);
        assert forall|i: int| 0 <= i < items.len() implies #[trigger] parts[i] == f(items[i]) by {
            assert(texts[i] == json::json_text(items[i]));
        }
        if forall|i: int| 0 <= i < items.len() ==> f(#[trigger] items[i]) is Some {
            assert forall|i: int| 0 <= i < parts.len() implies (#[trigger] parts[i]) is Some by {
                assert(f(items[i]) is Some);
            }
            assert(record::all_some(parts)->0 =~= list_in(v, f)->0);
        } else {
            let i = choose|i: int| 0 <= i < items.len() && !(f(#[trigger] items[i]) is Some);
            assert(!(parts[i] is Some));
        }
    }
}

pub proof fn lemma_under(fields: Seq<(Seq<char>, Json)>, name: Seq<char>)
    ensures
        record::value_under(fields, name) == text_where_given(under(fields, name)),
    decreases fields.len(),
{
    if fields.len() > 0 {
        lemma_under(fields.drop_last(), name);
    }
}

/// What is under a name stands among the fields.
pub proof fn lemma_under_is_field(fields: Seq<(Seq<char>, Json)>, name: Seq<char>)
    ensures
        match under(fields, name) {
            Some(v) => exists|f: int| 0 <= f < fields.len() && #[trigger] fields[f] == (name, v),
            None => forall|f: int| 0 <= f < fields.len() ==> (#[trigger] fields[f]).0 != name,
        },
    decreases fields.len(),
{
    if fields.len() > 0 {
        let before = fields.drop_last();
        let n = fields.len() - 1;
        lemma_under_is_field(before, name);
        if fields.last().0 == name {
            assert(fields[n] == (name, fields.last().1));
        } else if let Some(v) = under(before, name) {
            let f = choose|f: int| 0 <= f < before.len() && #[trigger] before[f] == (name, v);
            assert(fields[f] == (name, v));
        } else {
            assert forall|f: int| 0 <= f < fields.len() implies (#[trigger] fields[f]).0
                != name by {
                if f < n {
                    assert(before[f].0 != name);
                }
            }
        }
    }
}

/// What is under a name holds no name twice.
pub proof fn lemma_proper_under(fields: Seq<(Seq<char>, Json)>, name: Seq<char>)
    requires
        tool_laws::is_proper(Json::Obj(fields)),
    ensures
        under(fields, name) matches Some(v) ==> tool_laws::is_proper(v),
{
    lemma_under_is_field(fields, name);
    lemma_proper_fields(Json::Obj(fields));
}

proof fn lemma_proper_fields(v: Json)
    requires
        tool_laws::is_proper(v),
    ensures
        match v {
            Json::Obj(fields) => tool_laws::names_differ(fields) && forall|i: int|
                0 <= i < fields.len() ==> tool_laws::is_proper((#[trigger] fields[i]).1),
            Json::Arr(items) => forall|i: int|
                0 <= i < items.len() ==> tool_laws::is_proper(#[trigger] items[i]),
            _ => true,
        },
{
}

/// What a proper value is made of is proper.
pub proof fn lemma_proper_members(v: Json, names: Seq<Seq<char>>)
    requires
        tool_laws::is_proper(v),
        members(v, names) is Some,
    ensures
        forall|i: int|
            0 <= i < names.len() ==> ((#[trigger] members(v, names)->0[i]) matches Some(w)
                ==> tool_laws::is_proper(w)),
{
    let m = members(v, names)->0;
    lemma_proper_fields(v);
    assert forall|i: int| 0 <= i < names.len() implies ((#[trigger] m[i]) matches Some(w)
        ==> tool_laws::is_proper(w)) by {
        match v {
            Json::Obj(fields) => lemma_proper_under(fields, names[i]),
            Json::Arr(items) => {
                if i < items.len() {
                    assert(m[i] == Some(items[i]));
                }
            },
            _ => {},
        }
    }
}

/// The items of a proper list are proper.
pub proof fn lemma_proper_items(items: Seq<Json>)
    requires
        tool_laws::is_proper(Json::Arr(items)),
    ensures
        forall|i: int| 0 <= i < items.len() ==> tool_laws::is_proper(#[trigger] items[i]),
{
    lemma_proper_fields(Json::Arr(items));
}

/// A record is read from the text of an object or an array, and of no other
/// value.
pub proof fn lemma_record(v: Json, names: Seq<Seq<char>>)
    requires
        tool_laws::is_proper(v),
    ensures
        match (record::record(json::json_text(v), names), members(v, names)) {
            (Some(r), Some(m)) => {
                &&& r.by_name == (v is Obj)
                &&& r.values.len() == names.len()
                &&& m.len() == names.len()
                &&& forall|i: int|
                    0 <= i < names.len() ==> #[trigger] r.values[i] == text_where_given(m[i])
            },
            (None, None) => true,
            _ => false,
        },
{
    lemma_kind(v);
    match v {
        Json::Obj(fields) => {
            lemma_proper_fields(v);
            assert(record::each_once(fields, names));
            record::lemma_read_record(fields, names);
            let r = record::record(json::json_text(v), names)->0;
            assert forall|i: int| 0 <= i < names.len() implies #[trigger] r.values[i]
                == text_where_given(members(v, names)->0[i]) by {
                lemma_under(fields, names[i]);
            }
        },
        Json::Arr(items) => {
            record::lemma_read_items(items);
            json::lemma_texts(items);
            let texts = json::texts(items);
            if items.len() <= names.len() {
                let r = record::record(json::json_text(v), names)->0;
                assert forall|i: int| 0 <= i < names.len() implies #[trigger] r.values[i]
                    == text_where_given(members(v, names)->0[i]) by {
                    if i < items.len() {
                        assert(texts[i] == json::json_text(items[i]));
                    }
                }
            }
        },
        _ => {},
    }
}

// ---- Fields ----------------------------------------------------------------

pub proof fn lemma_required_text(v: Option<Json>)
    ensures
        record::required_text(text_where_given(v)) == required(v, |v: Json| string_in(v)),
{
    if let Some(v) = v {
        lemma_string(v);
    }
}

pub proof fn lemma_optional_text(v: Option<Json>)
    ensures
        record::optional_text(text_where_given(v)) == optional(v, |v: Json| string_in(v)),
{
    if let Some(v) = v {
        lemma_string(v);
        lemma_null(v);
    }
}

/// The strings in a list of strings.
pub open spec fn strings_in(v: Json) -> Option<Seq<Seq<char>>> {
    list_in(v, |item: Json| string_in(item))
}

pub proof fn lemma_required_text_list(v: Option<Json>)
    ensures
        record::required_text_list(text_where_given(v)) == required(v, |v: Json| strings_in(v)),
{
    if let Some(v) = v {
        let entry = |item: Seq<char>| json::string_value(item);
        let f = |item: Json| string_in(item);
        if let Json::Arr(items) = v {
            assert forall|i: int| 0 <= i < items.len() implies entry(
                json::json_text(#[trigger] items[i]),
            ) == f(items[i]) by {
                lemma_string(items[i]);
            }
        }
        lemma_list(v, entry, f);
    }
}

pub proof fn lemma_optional_list<T>(
    v: Option<Json>,
    entry: spec_fn(Seq<char>) -> Option<T>,
    f: spec_fn(Json) -> Option<T>,
)
    requires
        v matches Some(Json::Arr(items)) ==> forall|i: int|
            0 <= i < items.len() ==> entry(json::json_text(#[trigger] items[i])) == f(items[i]),
    ensures
        record::optional_entries(text_where_given(v), entry) == optional(
            v,
            |v: Json| list_in(v, f),
        ),
{
    if let Some(v) = v {
        lemma_null(v);
        lemma_list(v, entry, f);
    }
}

} // verus!
