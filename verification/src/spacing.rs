//! White space and escapes make no difference: what is read from the text of a
//! value is what is read from its compact text.

use vstd::prelude::*;

use crate::flatten;
use crate::json;
use crate::layout;
use crate::layout::Written;
use crate::layout::WrittenField;
use crate::layout::WrittenItem;
use crate::numbers;
use crate::numbers::Number;
use crate::record;
use crate::record::RecordView;
use crate::spelling;
use crate::spelling::Spelled;

verus! {

/// `x` is the text of a value and `y` its compact text.
pub open spec fn same_value(x: Seq<char>, y: Seq<char>) -> bool {
    exists|w: Written|
        layout::well_spaced(w) && x == #[trigger] layout::written(w) && y == json::json_text(
            layout::plain(w),
        )
}

/// Two fields, both missing or with the same value.
pub open spec fn same_field(x: Option<Seq<char>>, y: Option<Seq<char>>) -> bool {
    match (x, y) {
        (Some(x), Some(y)) => same_value(x, y),
        (None, None) => true,
        _ => false,
    }
}

/// Two records, both missing or with the same fields.
pub open spec fn same_record(x: Option<RecordView>, y: Option<RecordView>) -> bool {
    match (x, y) {
        (Some(x), Some(y)) => {
            &&& x.by_name == y.by_name
            &&& x.values.len() == y.values.len()
            &&& forall|i: int|
                0 <= i < x.values.len() ==> same_field(#[trigger] x.values[i], y.values[i])
        },
        (None, None) => true,
        _ => false,
    }
}

/// Two lists with the same values.
pub open spec fn same_values(x: Seq<Seq<char>>, y: Seq<Seq<char>>) -> bool {
    &&& x.len() == y.len()
    &&& forall|i: int| 0 <= i < x.len() ==> same_value(#[trigger] x[i], y[i])
}

// ---- Values ----------------------------------------------------------------

/// The compact text of a value is one of its texts.
proof fn lemma_compact_text(w: Written)
    ensures
        ({
            let c = layout::compact(layout::plain(w));
            &&& layout::well_spaced(c)
            &&& layout::written(c) == json::json_text(layout::plain(w))
            &&& c is Null <==> w is Null
            &&& c is Num <==> w is Num
            &&& c is Str <==> w is Str
            &&& c is Arr <==> w is Arr
            &&& c is Obj <==> w is Obj
        }),
{
    layout::lemma_compact(layout::plain(w));
}

/// A text tells by its first character what kind of value it is.
pub proof fn lemma_kinds(w: Written)
    requires
        layout::well_spaced(w),
    ensures
        json::is_value_text(layout::written(w)),
        json::is_string_text(layout::written(w)) <==> w is Str,
        json::is_number_text(layout::written(w)) <==> w is Num,
        json::is_array_text(layout::written(w)) <==> w is Arr,
        layout::written(w) == "null"@ <==> w is Null,
{
    let t = layout::written(w);
    layout::lemma_ends(w);
    if json::is_string_text(t) {
        let s = choose|s: Seq<Spelled>| t == #[trigger] spelling::string_text(s);
        assert(spelling::string_text(s)[0] == '"');
    }
    if json::is_number_text(t) {
        let n = choose|n: Number| t == #[trigger] numbers::number_text(n);
        numbers::lemma_number(n);
    }
    if json::is_array_text(t) {
        let (items, gap) = choose|items: Seq<WrittenItem>, gap: Seq<char>|
            layout::well_spaced(Written::Arr(items, gap)) && #[trigger] layout::written(
                Written::Arr(items, gap),
            ) == t;
        assert(layout::written(Written::Arr(items, gap))[0] == '[');
    }
    match w {
        Written::Str(s) => assert(json::is_string_text(spelling::string_text(s))),
        Written::Num(n) => assert(json::is_number_text(numbers::number_text(n))),
        Written::Arr(items, gap) => assert(json::is_array_text(
            layout::written(Written::Arr(items, gap)),
        )),
        _ => {},
    }
    reveal_strlit("null");
    if t == "null"@ {
        assert(t[0] == 'n');
    }
}

pub proof fn lemma_same_string(x: Seq<char>, y: Seq<char>)
    requires
        same_value(x, y),
    ensures
        json::string_value(x) == json::string_value(y),
{
    let w = choose|w: Written|
        layout::well_spaced(w) && x == #[trigger] layout::written(w) && y == json::json_text(
            layout::plain(w),
        );
    lemma_compact_text(w);
    lemma_kinds(w);
    lemma_kinds(layout::compact(layout::plain(w)));
    if let Written::Str(s) = w {
        record::lemma_read_spelled(s);
        record::lemma_read_string(spelling::chars(s));
    }
}

pub proof fn lemma_same_number(x: Seq<char>, y: Seq<char>)
    requires
        same_value(x, y),
    ensures
        json::number_value(x) == json::number_value(y),
{
    let w = choose|w: Written|
        layout::well_spaced(w) && x == #[trigger] layout::written(w) && y == json::json_text(
            layout::plain(w),
        );
    lemma_compact_text(w);
    lemma_kinds(w);
    lemma_kinds(layout::compact(layout::plain(w)));
}

pub proof fn lemma_same_null(x: Seq<char>, y: Seq<char>)
    requires
        same_value(x, y),
    ensures
        x == "null"@ <==> y == "null"@,
{
    let w = choose|w: Written|
        layout::well_spaced(w) && x == #[trigger] layout::written(w) && y == json::json_text(
            layout::plain(w),
        );
    lemma_compact_text(w);
    lemma_kinds(w);
    lemma_kinds(layout::compact(layout::plain(w)));
}

/// The items of an array are the same.
proof fn lemma_same_items(x: Seq<char>, y: Seq<char>)
    requires
        same_value(x, y),
    ensures
        match (json::item_texts(x), json::item_texts(y)) {
            (Some(a), Some(b)) => same_values(a, b),
            (None, None) => true,
            _ => false,
        },
{
    let w = choose|w: Written|
        layout::well_spaced(w) && x == #[trigger] layout::written(w) && y == json::json_text(
            layout::plain(w),
        );
    lemma_compact_text(w);
    lemma_kinds(w);
    lemma_kinds(layout::compact(layout::plain(w)));
    if let Written::Arr(items, gap) = w {
        let p = layout::plain_items(items);
        record::lemma_read_written_items(items, gap);
        record::lemma_read_items(p);
        layout::lemma_plain_items(items);
        json::lemma_texts(p);
        let a = layout::value_texts(items);
        let b = json::texts(p);
        assert forall|i: int| 0 <= i < a.len() implies same_value(#[trigger] a[i], b[i]) by {
            assert(layout::well_spaced(items[i].value));
            assert(a[i] == layout::written(items[i].value));
        }
    }
}

// ---- Fields ----------------------------------------------------------------

pub proof fn lemma_same_required_text(x: Option<Seq<char>>, y: Option<Seq<char>>)
    requires
        same_field(x, y),
    ensures
        record::required_text(x) == record::required_text(y),
{
    if x is Some {
        lemma_same_string(x->0, y->0);
    }
}

pub proof fn lemma_same_optional_text(x: Option<Seq<char>>, y: Option<Seq<char>>)
    requires
        same_field(x, y),
    ensures
        record::optional_text(x) == record::optional_text(y),
{
    if x is Some {
        lemma_same_string(x->0, y->0);
        lemma_same_null(x->0, y->0);
    }
}

/// An entry is read the same however it is laid out.
pub open spec fn ignores_layout<T>(entry: spec_fn(Seq<char>) -> Option<T>) -> bool {
    forall|x: Seq<char>, y: Seq<char>| #[trigger] same_value(x, y) ==> entry(x) == entry(y)
}

pub proof fn lemma_same_entries<T>(
    x: Seq<char>,
    y: Seq<char>,
    entry: spec_fn(Seq<char>) -> Option<T>,
)
    requires
        same_value(x, y),
        ignores_layout(entry),
    ensures
        record::entries(x, entry) == record::entries(y, entry),
{
    lemma_same_items(x, y);
    if let (Some(a), Some(b)) = (json::item_texts(x), json::item_texts(y)) {
        assert forall|i: int| 0 <= i < a.len() implies a.map_values(entry)[i] == b.map_values(
            entry,
        )[i] by {
            assert(same_value(a[i], b[i]));
        }
        assert(a.map_values(entry) =~= b.map_values(entry));
    }
}

pub proof fn lemma_same_optional_entries<T>(
    x: Option<Seq<char>>,
    y: Option<Seq<char>>,
    entry: spec_fn(Seq<char>) -> Option<T>,
)
    requires
        same_field(x, y),
        ignores_layout(entry),
    ensures
        record::optional_entries(x, entry) == record::optional_entries(y, entry),
{
    if x is Some {
        lemma_same_null(x->0, y->0);
        lemma_same_entries(x->0, y->0, entry);
    }
}

pub proof fn lemma_same_required_text_list(x: Option<Seq<char>>, y: Option<Seq<char>>)
    requires
        same_field(x, y),
    ensures
        record::required_text_list(x) == record::required_text_list(y),
{
    if x is Some {
        let entry = |item: Seq<char>| json::string_value(item);
        assert forall|a: Seq<char>, b: Seq<char>| #[trigger] same_value(a, b) implies entry(a)
            == entry(b) by {
            lemma_same_string(a, b);
        }
        lemma_same_entries(x->0, y->0, entry);
    }
}

// ---- Records ---------------------------------------------------------------

proof fn lemma_same_values_by_name(
    x: Seq<Seq<char>>,
    y: Seq<Seq<char>>,
    names: Seq<Seq<char>>,
)
    requires
        same_values(x, y),
    ensures
        match (record::values_by_name(x, names), record::values_by_name(y, names)) {
            (Some(a), Some(b)) => a.len() == names.len() && b.len() == names.len() && forall|
                i: int,
            |
                0 <= i < names.len() ==> same_field(#[trigger] a[i], b[i]),
            (None, None) => true,
            _ => false,
        },
    decreases x.len(),
{
    let n = x.len() as int;
    if n >= 2 {
        let x0 = x.take(n - 2);
        let y0 = y.take(n - 2);
        assert forall|i: int| 0 <= i < x0.len() implies same_value(#[trigger] x0[i], y0[i]) by {
            assert(same_value(x[i], y[i]));
        }
        lemma_same_values_by_name(x0, y0, names);
        assert(same_value(x[n - 2], y[n - 2]));
        assert(same_value(x[n - 1], y[n - 1]));
        lemma_same_string(x[n - 2], y[n - 2]);
        if let (Some(a), Some(b), Some(name)) = (
            record::values_by_name(x0, names),
            record::values_by_name(y0, names),
            json::string_value(x[n - 2]),
        ) {
            if record::already_found(a, names, name) {
                let i = choose|i: int|
                    0 <= i < names.len() && #[trigger] names[i] == name && a[i] is Some;
                assert(same_field(a[i], b[i]));
                assert(names[i] == name && b[i] is Some);
            }
            if record::already_found(b, names, name) {
                let i = choose|i: int|
                    0 <= i < names.len() && #[trigger] names[i] == name && b[i] is Some;
                assert(same_field(a[i], b[i]));
                assert(names[i] == name && a[i] is Some);
            }
            let a1 = record::with_entry(a, names, name, x[n - 1]);
            let b1 = record::with_entry(b, names, name, y[n - 1]);
            assert forall|i: int| 0 <= i < names.len() implies same_field(
                #[trigger] a1[i],
                b1[i],
            ) by {
                assert(same_field(a[i], b[i]));
            }
        }
    }
}

/// The names and values of an object are the same.
proof fn lemma_same_fields(fields: Seq<WrittenField>, gap: Seq<char>)
    requires
        layout::well_spaced(Written::Obj(fields, gap)),
    ensures
        same_values(
            layout::value_texts(flatten::alternating(fields)),
            layout::value_texts(
                flatten::alternating(layout::compact_fields(layout::plain_fields(fields))),
            ),
        ),
{
    let p = layout::plain_fields(fields);
    let c = layout::compact_fields(p);
    layout::lemma_plain_fields(fields);
    layout::lemma_compact_fields(p);
    flatten::lemma_alternating(fields);
    flatten::lemma_alternating(c);
    let x = layout::value_texts(flatten::alternating(fields));
    let y = layout::value_texts(flatten::alternating(c));
    assert forall|i: int| 0 <= i < x.len() implies same_value(#[trigger] x[i], y[i]) by {
        let k = i / 2;
        let f = fields[k];
        if i % 2 == 0 {
            assert(flatten::alternating(fields)[2 * k] == flatten::name_item(f));
            assert(flatten::alternating(c)[2 * k] == flatten::name_item(c[k]));
            let w = Written::Str(f.name);
            assert(layout::well_spaced(w));
            assert(x[i] == layout::written(w));
            spelling::lemma_shortest(spelling::chars(f.name));
            assert(y[i] == json::json_text(layout::plain(w)));
        } else {
            assert(flatten::alternating(fields)[2 * k + 1] == f.item);
            assert(flatten::alternating(c)[2 * k + 1] == c[k].item);
            assert(layout::well_spaced(f.item.value));
            assert(x[i] == layout::written(f.item.value));
            assert(p[k].1 == layout::plain(f.item.value));
            assert(y[i] == json::json_text(p[k].1));
        }
    }
}

/// A record is read from the text of a value, with white space around it, as
/// from its compact text.
pub proof fn lemma_same_record(item: WrittenItem, names: Seq<Seq<char>>)
    requires
        layout::well_spaced_item(item),
    ensures
        same_record(
            record::record(layout::item_text(item), names),
            record::record(json::json_text(layout::plain(item.value)), names),
        ),
{
    let w = item.value;
    let c = layout::compact(layout::plain(w));
    lemma_compact_text(w);
    record::lemma_read_value(item);
    record::lemma_read_bare_value(c);
    layout::lemma_ends(w);
    layout::lemma_ends(c);
    match w {
        Written::Obj(fields, gap) => {
            let cf = layout::compact_fields(layout::plain_fields(fields));
            assert(c == Written::Obj(cf, Seq::empty()));
            flatten::lemma_opened_object(fields, gap);
            flatten::lemma_opened_object(cf, Seq::empty());
            flatten::lemma_alternating_spaced(fields, gap);
            flatten::lemma_alternating_spaced(cf, Seq::empty());
            record::lemma_read_written_items(flatten::alternating(fields), gap);
            record::lemma_read_written_items(flatten::alternating(cf), Seq::empty());
            lemma_same_fields(fields, gap);
            lemma_same_values_by_name(
                layout::value_texts(flatten::alternating(fields)),
                layout::value_texts(flatten::alternating(cf)),
                names,
            );
        },
        Written::Arr(items, gap) => {
            lemma_same_items(layout::written(w), json::json_text(layout::plain(w)));
            let a = json::item_texts(layout::written(w))->0;
            let b = json::item_texts(layout::written(c))->0;
            record::lemma_read_written_items(items, gap);
            if a.len() <= names.len() {
                let va = record::values_by_position(a, names);
                let vb = record::values_by_position(b, names);
                assert forall|i: int| 0 <= i < names.len() implies same_field(
                    #[trigger] va[i],
                    vb[i],
                ) by {
                    if i < a.len() {
                        assert(same_value(a[i], b[i]));
                    }
                }
            }
        },
        _ => {},
    }
}

/// The same for a value with nothing around it.
pub proof fn lemma_same_bare_record(x: Seq<char>, y: Seq<char>, names: Seq<Seq<char>>)
    requires
        same_value(x, y),
    ensures
        same_record(record::record(x, names), record::record(y, names)),
{
    let w = choose|w: Written|
        layout::well_spaced(w) && x == #[trigger] layout::written(w) && y == json::json_text(
            layout::plain(w),
        );
    assert(layout::item_text(record::bare(w)) =~= x);
    lemma_same_record(record::bare(w), names);
}

} // verus!
