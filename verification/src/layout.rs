//! JSON values as they stand in a text, with white space between the tokens.

use vstd::prelude::*;

use crate::json;
use crate::json::Json;
use crate::numbers;
use crate::numbers::Number;
use crate::spelling;
use crate::spelling::Spelled;
use crate::text;

verus! {

/// A JSON value, the white space inside its text and the way its strings are
/// written.
pub enum Written {
    Null,
    Bool(bool),
    Num(Number),
    Str(Seq<Spelled>),
    /// The items, and the white space where there are none.
    Arr(Seq<WrittenItem>, Seq<char>),
    /// The fields, and the white space where there are none.
    Obj(Seq<WrittenField>, Seq<char>),
}

/// A value with the white space around it.
pub struct WrittenItem {
    pub before: Seq<char>,
    pub value: Written,
    pub after: Seq<char>,
}

/// A field with the white space around its parts.
pub struct WrittenField {
    pub before: Seq<char>,
    pub name: Seq<Spelled>,
    /// Stands between the name and the colon.
    pub gap: Seq<char>,
    pub item: WrittenItem,
}

// ---- Texts -----------------------------------------------------------------

/// What JSON takes for white space.
pub open spec fn is_space_char(c: char) -> bool {
    c == ' ' || c == '\n' || c == '\t' || c == '\r'
}

pub open spec fn is_space(s: Seq<char>) -> bool {
    forall|i: int| 0 <= i < s.len() ==> is_space_char(#[trigger] s[i])
}

/// `true` or `false`.
pub open spec fn bool_text(b: bool) -> Seq<char> {
    if b {
        "true"@
    } else {
        "false"@
    }
}

/// The text of a value.
pub open spec fn written(w: Written) -> Seq<char>
    decreases w,
{
    match w {
        Written::Null => "null"@,
        Written::Bool(b) => bool_text(b),
        Written::Num(n) => numbers::number_text(n),
        Written::Str(s) => spelling::string_text(s),
        Written::Arr(items, gap) => seq!['['] + (if items.len() == 0 {
            gap
        } else {
            text::joined(paddings(items), seq![','])
        }) + seq![']'],
        Written::Obj(fields, gap) => seq!['{'] + (if fields.len() == 0 {
            gap
        } else {
            text::joined(field_paddings(fields), seq![','])
        }) + seq!['}'],
    }
}

/// The texts of the items, each with the white space around it.
pub open spec fn paddings(items: Seq<WrittenItem>) -> Seq<Seq<char>>
    decreases items,
{
    if items.len() == 0 {
        Seq::empty()
    } else {
        paddings(items.drop_last()).push(
            items.last().before + written(items.last().value) + items.last().after,
        )
    }
}

/// The texts of the fields, each with the white space around it.
pub open spec fn field_paddings(fields: Seq<WrittenField>) -> Seq<Seq<char>>
    decreases fields,
{
    if fields.len() == 0 {
        Seq::empty()
    } else {
        let f = fields.last();
        field_paddings(fields.drop_last()).push(
            f.before + spelling::string_text(f.name) + f.gap + seq![':'] + (f.item.before
                + written(f.item.value) + f.item.after),
        )
    }
}

/// The text of a value with the white space around it.
pub open spec fn item_text(item: WrittenItem) -> Seq<char> {
    item.before + written(item.value) + item.after
}

/// The text of a field with the white space around it.
pub open spec fn field_text(f: WrittenField) -> Seq<char> {
    f.before + spelling::string_text(f.name) + f.gap + seq![':'] + item_text(f.item)
}

/// The texts of the items, without the white space around them.
pub open spec fn value_texts(items: Seq<WrittenItem>) -> Seq<Seq<char>> {
    items.map_values(|item: WrittenItem| written(item.value))
}

/// Only white space stands between the tokens.
pub open spec fn well_spaced(w: Written) -> bool
    decreases w,
{
    match w {
        Written::Arr(items, gap) => {
            &&& is_space(gap)
            &&& forall|i: int|
                0 <= i < items.len() ==> {
                    let item = #[trigger] items[i];
                    is_space(item.before) && well_spaced(item.value) && is_space(item.after)
                }
        },
        Written::Obj(fields, gap) => {
            &&& is_space(gap)
            &&& forall|i: int|
                0 <= i < fields.len() ==> {
                    let f = #[trigger] fields[i];
                    &&& is_space(f.before)
                    &&& is_space(f.gap)
                    &&& is_space(f.item.before)
                    &&& well_spaced(f.item.value)
                    &&& is_space(f.item.after)
                }
        },
        _ => true,
    }
}

/// Only white space stands around the value and between its tokens.
pub open spec fn well_spaced_item(item: WrittenItem) -> bool {
    is_space(item.before) && well_spaced(item.value) && is_space(item.after)
}

/// Only white space stands around the parts of the field.
pub open spec fn well_spaced_field(f: WrittenField) -> bool {
    is_space(f.before) && is_space(f.gap) && well_spaced_item(f.item)
}

// ---- The value itself ------------------------------------------------------

/// The value, whatever white space its text holds and however its strings are
/// written.
pub open spec fn plain(w: Written) -> Json
    decreases w,
{
    match w {
        Written::Null => Json::Null,
        Written::Bool(b) => Json::Bool(b),
        Written::Num(n) => Json::Num(n),
        Written::Str(s) => Json::Str(spelling::chars(s)),
        Written::Arr(items, gap) => Json::Arr(plain_items(items)),
        Written::Obj(fields, gap) => Json::Obj(plain_fields(fields)),
    }
}

pub open spec fn plain_items(items: Seq<WrittenItem>) -> Seq<Json>
    decreases items,
{
    if items.len() == 0 {
        Seq::empty()
    } else {
        plain_items(items.drop_last()).push(plain(items.last().value))
    }
}

pub open spec fn plain_fields(fields: Seq<WrittenField>) -> Seq<(Seq<char>, Json)>
    decreases fields,
{
    if fields.len() == 0 {
        Seq::empty()
    } else {
        plain_fields(fields.drop_last()).push(
            (spelling::chars(fields.last().name), plain(fields.last().item.value)),
        )
    }
}

/// The value without any white space, each string in its shortest form.
pub open spec fn compact(j: Json) -> Written
    decreases j,
{
    match j {
        Json::Null => Written::Null,
        Json::Bool(b) => Written::Bool(b),
        Json::Num(n) => Written::Num(n),
        Json::Str(s) => Written::Str(spelling::shortest(s)),
        Json::Arr(items) => Written::Arr(compact_items(items), Seq::empty()),
        Json::Obj(fields) => Written::Obj(compact_fields(fields), Seq::empty()),
    }
}

pub open spec fn compact_items(items: Seq<Json>) -> Seq<WrittenItem>
    decreases items,
{
    if items.len() == 0 {
        Seq::empty()
    } else {
        compact_items(items.drop_last()).push(
            WrittenItem {
                before: Seq::empty(),
                value: compact(items.last()),
                after: Seq::empty(),
            },
        )
    }
}

pub open spec fn compact_fields(fields: Seq<(Seq<char>, Json)>) -> Seq<WrittenField>
    decreases fields,
{
    if fields.len() == 0 {
        Seq::empty()
    } else {
        compact_fields(fields.drop_last()).push(
            WrittenField {
                before: Seq::empty(),
                name: spelling::shortest(fields.last().0),
                gap: Seq::empty(),
                item: WrittenItem {
                    before: Seq::empty(),
                    value: compact(fields.last().1),
                    after: Seq::empty(),
                },
            },
        )
    }
}

pub proof fn lemma_paddings(items: Seq<WrittenItem>)
    ensures
        paddings(items).len() == items.len(),
        forall|i: int| 0 <= i < items.len() ==> #[trigger] paddings(items)[i] == item_text(items[i]),
    decreases items.len(),
{
    if items.len() > 0 {
        lemma_paddings(items.drop_last());
    }
}

pub proof fn lemma_field_paddings(fields: Seq<WrittenField>)
    ensures
        field_paddings(fields).len() == fields.len(),
        forall|i: int|
            0 <= i < fields.len() ==> #[trigger] field_paddings(fields)[i] == field_text(
                fields[i],
            ),
    decreases fields.len(),
{
    if fields.len() > 0 {
        lemma_field_paddings(fields.drop_last());
    }
}

pub proof fn lemma_plain_items(items: Seq<WrittenItem>)
    ensures
        plain_items(items).len() == items.len(),
        forall|i: int|
            0 <= i < items.len() ==> #[trigger] plain_items(items)[i] == plain(items[i].value),
    decreases items.len(),
{
    if items.len() > 0 {
        lemma_plain_items(items.drop_last());
    }
}

pub proof fn lemma_plain_fields(fields: Seq<WrittenField>)
    ensures
        plain_fields(fields).len() == fields.len(),
        forall|i: int|
            0 <= i < fields.len() ==> #[trigger] plain_fields(fields)[i] == (
                spelling::chars(fields[i].name),
                plain(fields[i].item.value),
            ),
    decreases fields.len(),
{
    if fields.len() > 0 {
        lemma_plain_fields(fields.drop_last());
    }
}

/// The compact form of a value is the value, and its text the compact one.
pub proof fn lemma_compact(j: Json)
    ensures
        well_spaced(compact(j)),
        written(compact(j)) == json::json_text(j),
        plain(compact(j)) == j,
    decreases j, 0nat,
{
    match j {
        Json::Arr(items) => {
            lemma_compact_items(items);
            json::lemma_texts(items);
            lemma_paddings(compact_items(items));
            lemma_plain_items(compact_items(items));
            assert(paddings(compact_items(items)) =~= json::texts(items)) by {
                assert forall|i: int| 0 <= i < items.len() implies paddings(
                    compact_items(items),
                )[i] == json::texts(items)[i] by {
                    let c = compact_items(items)[i];
                    assert(item_text(c) =~= written(c.value));
                }
            }
            assert(plain_items(compact_items(items)) =~= items);
        },
        Json::Obj(fields) => {
            lemma_compact_fields(fields);
            json::lemma_field_texts(fields);
            lemma_field_paddings(compact_fields(fields));
            lemma_plain_fields(compact_fields(fields));
            let entries = json::entry_texts(json::field_texts(fields));
            assert(field_paddings(compact_fields(fields)) =~= entries) by {
                assert forall|i: int| 0 <= i < fields.len() implies field_paddings(
                    compact_fields(fields),
                )[i] == entries[i] by {
                    let c = compact_fields(fields)[i];
                    assert(json::field_texts(fields)[i] == (
                        fields[i].0,
                        json::json_text(fields[i].1),
                    ));
                    assert(item_text(c.item) =~= written(c.item.value));
                    spelling::lemma_shortest(fields[i].0);
                    assert(field_text(c) =~= entries[i]);
                }
            }
            assert(plain_fields(compact_fields(fields)) =~= fields) by {
                assert forall|i: int| 0 <= i < fields.len() implies plain_fields(
                    compact_fields(fields),
                )[i] == fields[i] by {
                    let c = compact_fields(fields)[i];
                    spelling::lemma_shortest(fields[i].0);
                }
            }
        },
        Json::Str(s) => {
            spelling::lemma_shortest(s);
        },
        _ => {},
    }
}

pub proof fn lemma_compact_items(items: Seq<Json>)
    ensures
        compact_items(items).len() == items.len(),
        forall|i: int|
            0 <= i < items.len() ==> {
                let c = #[trigger] compact_items(items)[i];
                &&& c == (WrittenItem {
                    before: Seq::empty(),
                    value: compact(items[i]),
                    after: Seq::empty(),
                })
                &&& well_spaced(c.value)
                &&& written(c.value) == json::json_text(items[i])
                &&& plain(c.value) == items[i]
            },
    decreases items, items.len(),
{
    if items.len() > 0 {
        lemma_compact_items(items.drop_last());
        lemma_compact(items.last());
    }
}

pub proof fn lemma_compact_fields(fields: Seq<(Seq<char>, Json)>)
    ensures
        compact_fields(fields).len() == fields.len(),
        forall|i: int|
            0 <= i < fields.len() ==> {
                let c = #[trigger] compact_fields(fields)[i];
                &&& c.before.len() == 0
                &&& c.name == spelling::shortest(fields[i].0)
                &&& c.gap.len() == 0
                &&& c.item.before.len() == 0
                &&& c.item.after.len() == 0
                &&& c.item.value == compact(fields[i].1)
                &&& well_spaced(c.item.value)
                &&& written(c.item.value) == json::json_text(fields[i].1)
                &&& plain(c.item.value) == fields[i].1
            },
    decreases fields, fields.len(),
{
    if fields.len() > 0 {
        lemma_compact_fields(fields.drop_last());
        lemma_compact(fields.last().1);
    }
}

// ---- First and last characters ---------------------------------------------

/// Stands neither for structure nor for a string.
pub open spec fn is_calm(c: char) -> bool {
    c != '"' && c != '{' && c != '}' && c != '[' && c != ']' && c != ':' && c != ','
}

/// What the first character says of a value, and that neither end is white
/// space.
pub proof fn lemma_ends(w: Written)
    ensures
        written(w).len() > 0,
        !is_space_char(written(w)[0]),
        !is_space_char(written(w).last()),
        written(w)[0] == '"' <==> w is Str,
        written(w)[0] == '[' <==> w is Arr,
        written(w)[0] == '{' <==> w is Obj,
        written(w)[0] == 'n' <==> w is Null,
        written(w)[0] == '-' || numbers::is_digit(written(w)[0]) <==> w is Num,
{
    reveal_strlit("null");
    reveal_strlit("true");
    reveal_strlit("false");
    match w {
        Written::Num(n) => {
            numbers::lemma_number(n);
        },
        _ => {},
    }
}

/// The text of a value that is no array, object or string holds none of their
/// characters.
pub proof fn lemma_scalar_is_calm(w: Written)
    requires
        !(w is Str),
        !(w is Arr),
        !(w is Obj),
    ensures
        forall|i: int| 0 <= i < written(w).len() ==> is_calm(#[trigger] written(w)[i]),
{
    reveal_strlit("null");
    reveal_strlit("true");
    reveal_strlit("false");
    match w {
        Written::Num(n) => {
            numbers::lemma_number(n);
        },
        _ => {},
    }
}

/// The white space around a value is no part of it.
pub proof fn lemma_value_in_item(a: WrittenItem, b: WrittenItem)
    requires
        well_spaced_item(a),
        well_spaced_item(b),
        item_text(a) == item_text(b),
    ensures
        written(a.value) == written(b.value),
{
    lemma_ends(a.value);
    lemma_ends(b.value);
    let t = item_text(a);
    let x = written(a.value);
    let y = written(b.value);
    let n = a.before.len() as int;
    let m = b.before.len() as int;
    assert(t[n] == x[0]);
    assert(t[m] == y[0]);
    if n < m {
        assert(t[n] == b.before[n]);
    }
    if m < n {
        assert(t[m] == a.before[m]);
    }
    assert(n == m);
    let e = n + x.len();
    let f = m + y.len();
    assert(t.len() == e + a.after.len());
    assert(t.len() == f + b.after.len());
    assert(t[e - 1] == x.last());
    assert(t[f - 1] == y.last());
    if e < f {
        assert(0 <= f - 1 - e < a.after.len());
        assert(t[f - 1] == a.after[f - 1 - e]);
        assert(is_space_char(a.after[f - 1 - e]));
    }
    if f < e {
        assert(0 <= e - 1 - f < b.after.len());
        assert(t[e - 1] == b.after[e - 1 - f]);
        assert(is_space_char(b.after[e - 1 - f]));
    }
    assert(x =~= t.subrange(n, e));
    assert(y =~= t.subrange(m, f));
}

} // verus!
