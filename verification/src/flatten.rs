//! Opening an object: its text as that of the array of its names and values,
//! so that every entry is seen, a repeated name too.

use vstd::prelude::*;

use crate::layout;
use crate::layout::Written;
use crate::layout::WrittenField;
use crate::layout::WrittenItem;
use crate::spelling;
use crate::spelling::Spelled;
use crate::spelling::Spelling;
use crate::text;

verus! {

// ---- Position in a text ----------------------------------------------------

/// Where a reader of JSON text stands: how many brackets are open, and
/// whether it is inside a string, possibly behind a backslash.
pub struct Place {
    pub depth: nat,
    pub in_string: bool,
    pub after_backslash: bool,
}

/// The start of a text.
pub open spec fn start() -> Place {
    Place { depth: 0, in_string: false, after_backslash: false }
}

/// The place behind `c`.
pub open spec fn step(p: Place, c: char) -> Place {
    if p.in_string {
        if p.after_backslash {
            Place { after_backslash: false, ..p }
        } else if c == '\\' {
            Place { after_backslash: true, ..p }
        } else if c == '"' {
            Place { in_string: false, ..p }
        } else {
            p
        }
    } else if c == '"' {
        Place { in_string: true, ..p }
    } else if c == '{' || c == '[' {
        Place { depth: p.depth + 1, ..p }
    } else if (c == '}' || c == ']') && p.depth > 0 {
        Place { depth: (p.depth - 1) as nat, ..p }
    } else {
        p
    }
}

/// What stands for `c` at `p` once the outermost object is an array.
pub open spec fn opened_char(p: Place, c: char) -> char {
    if p.in_string {
        c
    } else if c == '{' && p.depth == 0 {
        '['
    } else if c == '}' && p.depth == 1 {
        ']'
    } else if c == ':' && p.depth == 1 {
        ','
    } else {
        c
    }
}

/// The place behind `s`.
pub open spec fn place_after(p: Place, s: Seq<char>) -> Place
    decreases s.len(),
{
    if s.len() == 0 {
        p
    } else {
        step(place_after(p, s.drop_last()), s.last())
    }
}

/// `s`, read from `p` on, with the outermost object turned into an array.
pub open spec fn opened_from(p: Place, s: Seq<char>) -> Seq<char>
    decreases s.len(),
{
    if s.len() == 0 {
        s
    } else {
        opened_from(p, s.drop_last()).push(
            opened_char(place_after(p, s.drop_last()), s.last()),
        )
    }
}

/// The text of an object as that of the array of its names and values, in
/// the order in which they stand.
pub open spec fn opened(s: Seq<char>) -> Seq<char> {
    opened_from(start(), s)
}

fn chars_of(s: &str) -> (r: Vec<char>)
    ensures
        r@ == s@,
{
    let mut out: Vec<char> = Vec::new();
    for c in it: s.chars()
        invariant
            it.seq() == s@,
            out@ == s@.take(it.index()),
    {
        out.push(c);
        assert(out@ =~= s@.take(it.index() + 1));
    }
    assert(out@ =~= s@);
    out
}

/// Turns the text of an object into that of the array of its names and
/// values.
pub(crate) fn open_object(text: &str) -> (r: String)
    ensures
        r@ == opened(text@),
{
    let chars: Vec<char> = chars_of(text);
    let mut out = String::new();
    let mut depth: usize = 0;
    let mut in_string: bool = false;
    let mut after_backslash: bool = false;
    let mut i: usize = 0;
    while i < chars.len()
        invariant
            chars@ == text@,
            i <= chars@.len(),
            depth <= i,
            place_after(start(), text@.take(i as int)) == (Place {
                depth: depth as nat,
                in_string,
                after_backslash,
            }),
            out@ == opened_from(start(), text@.take(i as int)),
        decreases chars@.len() - i,
    {
        let c: char = chars[i];
        proof {
            assert(text@.take(i + 1).drop_last() =~= text@.take(i as int));
            assert(text@.take(i + 1).last() == c);
        }
        if in_string {
            out.push(c);
            if after_backslash {
                after_backslash = false;
            } else if c == '\\' {
                after_backslash = true;
            } else if c == '"' {
                in_string = false;
            }
        } else if c == '"' {
            out.push(c);
            in_string = true;
        } else if c == '{' || c == '[' {
            out.push(if c == '{' && depth == 0 { '[' } else { c });
            depth = depth + 1;
        } else if c == '}' || c == ']' {
            out.push(if c == '}' && depth == 1 { ']' } else { c });
            if depth > 0 {
                depth = depth - 1;
            }
        } else {
            out.push(if c == ':' && depth == 1 { ',' } else { c });
        }
        i = i + 1;
    }
    assert(text@.take(i as int) =~= text@);
    out
}

// ---- Reading a value -------------------------------------------------------

/// Not inside a string.
pub open spec fn outside(p: Place) -> bool {
    !p.in_string && !p.after_backslash
}

/// `t` read from `p` comes back to `p`, without leaving the brackets that
/// are open there; two levels down it stays as it is.
pub open spec fn level_at(p: Place, t: Seq<char>) -> bool {
    &&& place_after(p, t) == p
    &&& p.depth >= 2 ==> opened_from(p, t) == t
    &&& forall|k: int|
        0 <= k <= t.len() ==> (#[trigger] place_after(p, t.take(k))).depth >= p.depth
}

/// `t` read from `p` comes back to `p` and holds no comma there; one level
/// down it stays as it is.
pub open spec fn quiet_at(p: Place, t: Seq<char>) -> bool {
    &&& level_at(p, t)
    &&& p.depth >= 1 ==> opened_from(p, t) == t
    &&& forall|k: int|
        0 <= k < t.len() && #[trigger] place_after(p, t.take(k)) == p ==> t[k] != ','
}

proof fn lemma_append(p: Place, a: Seq<char>, b: Seq<char>)
    ensures
        place_after(p, a + b) == place_after(place_after(p, a), b),
        opened_from(p, a + b) == opened_from(p, a) + opened_from(place_after(p, a), b),
    decreases b.len(),
{
    if b.len() == 0 {
        assert(a + b =~= a);
        assert(opened_from(p, a) + opened_from(place_after(p, a), b) =~= opened_from(p, a));
    } else {
        assert((a + b).drop_last() =~= a + b.drop_last());
        lemma_append(p, a, b.drop_last());
        assert(opened_from(p, a + b) =~= opened_from(p, a) + opened_from(place_after(p, a), b));
    }
}

proof fn lemma_one(p: Place, c: char)
    ensures
        place_after(p, seq![c]) == step(p, c),
        opened_from(p, seq![c]) == seq![opened_char(p, c)],
{
    let s = seq![c];
    assert(s.drop_last() =~= Seq::<char>::empty());
    assert(place_after(p, s.drop_last()) == p);
    assert(opened_from(p, s.drop_last()) =~= Seq::<char>::empty());
    assert(opened_from(p, s) =~= seq![opened_char(p, c)]);
}

/// A prefix of `a + b` is one of `a`, or `a` and one of `b`.
proof fn lemma_prefix(p: Place, a: Seq<char>, b: Seq<char>, k: int)
    requires
        0 <= k <= a.len() + b.len(),
    ensures
        k <= a.len() ==> place_after(p, (a + b).take(k)) == place_after(p, a.take(k)),
        k >= a.len() ==> place_after(p, (a + b).take(k)) == place_after(
            place_after(p, a),
            b.take(k - a.len()),
        ),
{
    if k <= a.len() {
        assert((a + b).take(k) =~= a.take(k));
    }
    if k >= a.len() {
        assert((a + b).take(k) =~= a + b.take(k - a.len()));
        lemma_append(p, a, b.take(k - a.len()));
    }
}

/// Inside a string nothing is changed.
proof fn lemma_opened_in_string(p: Place, t: Seq<char>)
    requires
        forall|k: int| 0 <= k < t.len() ==> (#[trigger] place_after(p, t.take(k))).in_string,
    ensures
        opened_from(p, t) == t,
    decreases t.len(),
{
    if t.len() > 0 {
        let u = t.drop_last();
        assert forall|k: int| 0 <= k < u.len() implies (#[trigger] place_after(
            p,
            u.take(k),
        )).in_string by {
            assert(u.take(k) =~= t.take(k));
        }
        lemma_opened_in_string(p, u);
        assert(t.take(t.len() - 1) =~= u);
        assert(opened_from(p, t) =~= t);
    }
}

/// Reading `t` from `p`, inside a string, stays in the string and ends at `p`.
spec fn stays_in_string(p: Place, t: Seq<char>) -> bool {
    &&& place_after(p, t) == p
    &&& forall|k: int|
        0 <= k <= t.len() ==> (#[trigger] place_after(p, t.take(k))).in_string && place_after(
            p,
            t.take(k),
        ).depth == p.depth
}

/// An escape: a backslash, a character, and perhaps digits.
proof fn lemma_escape(p: Place, t: Seq<char>)
    requires
        p.in_string,
        !p.after_backslash,
        t.len() == 2 || t.len() == 6,
        t[0] == '\\',
        forall|i: int| 2 <= i < t.len() ==> #[trigger] t[i] != '"' && t[i] != '\\',
    ensures
        stays_in_string(p, t),
{
    let n = t.len() as int;
    let mid = Place { after_backslash: true, ..p };
    assert(t.take(0) =~= Seq::empty());
    assert(place_after(p, t.take(0)) == p);
    assert(t.take(1).drop_last() =~= t.take(0));
    assert(place_after(p, t.take(1)) == mid);
    assert(t.take(2).drop_last() =~= t.take(1));
    assert(place_after(p, t.take(2)) == p);
    if n > 2 {
        assert(t.take(3).drop_last() =~= t.take(2));
        assert(t.take(4).drop_last() =~= t.take(3));
        assert(t.take(5).drop_last() =~= t.take(4));
        assert(t.take(6).drop_last() =~= t.take(5));
        assert(place_after(p, t.take(3)) == p);
        assert(place_after(p, t.take(4)) == p);
        assert(place_after(p, t.take(5)) == p);
        assert(place_after(p, t.take(6)) == p);
    }
    assert(t.take(n) =~= t);
    assert forall|k: int| 0 <= k <= n implies (#[trigger] place_after(p, t.take(k))).in_string
        && place_after(p, t.take(k)).depth == p.depth by {
        assert(k == 0 || k == 1 || k == 2 || k == 3 || k == 4 || k == 5 || k == 6);
    }
}

/// Two parts that stay in a string stay there one after the other.
proof fn lemma_stays_append(p: Place, a: Seq<char>, b: Seq<char>)
    requires
        stays_in_string(p, a),
        stays_in_string(p, b),
    ensures
        stays_in_string(p, a + b),
{
    let t = a + b;
    lemma_append(p, a, b);
    assert forall|k: int| 0 <= k <= t.len() implies (#[trigger] place_after(
        p,
        t.take(k),
    )).in_string && place_after(p, t.take(k)).depth == p.depth by {
        lemma_prefix(p, a, b, k);
    }
}

proof fn lemma_char_text(p: Place, s: Spelled)
    requires
        p.in_string,
        !p.after_backslash,
    ensures
        stays_in_string(p, spelling::char_text(s)),
{
    let t = spelling::char_text(s);
    let code = s.value as int;
    match s.spelling {
        Spelling::Hex(capitals) => {
            if code < 0x10000 {
                spelling::lemma_group(code, capitals, 0);
                lemma_escape(p, t);
            } else {
                let high = 0xd800 + (code - 0x10000) / 0x400;
                let low = 0xdc00 + (code - 0x10000) % 0x400;
                spelling::lemma_group(high, capitals, 0);
                spelling::lemma_group(low, capitals, 4);
                lemma_escape(p, spelling::group(high, capitals, 0));
                lemma_escape(p, spelling::group(low, capitals, 4));
                lemma_stays_append(
                    p,
                    spelling::group(high, capitals, 0),
                    spelling::group(low, capitals, 4),
                );
            }
        },
        _ => {
            if t.len() == 1 {
                lemma_one(p, t[0]);
                assert(t =~= seq![t[0]]);
                assert forall|k: int| 0 <= k <= 1 implies (#[trigger] place_after(
                    p,
                    t.take(k),
                )).in_string && place_after(p, t.take(k)).depth == p.depth by {
                    if k == 0 {
                        assert(t.take(0) =~= Seq::empty());
                    } else {
                        assert(t.take(1) =~= t);
                    }
                }
            } else {
                lemma_escape(p, t);
            }
        },
    }
}

proof fn lemma_chars_text(p: Place, s: Seq<Spelled>)
    requires
        p.in_string,
        !p.after_backslash,
    ensures
        stays_in_string(p, spelling::chars_text(s)),
    decreases s.len(),
{
    let t = spelling::chars_text(s);
    if s.len() > 0 {
        let rest = spelling::chars_text(s.drop_first());
        lemma_char_text(p, s[0]);
        lemma_chars_text(p, s.drop_first());
        lemma_stays_append(p, spelling::char_text(s[0]), rest);
    } else {
        assert forall|k: int| 0 <= k <= t.len() implies (#[trigger] place_after(
            p,
            t.take(k),
        )).in_string && place_after(p, t.take(k)).depth == p.depth by {
            assert(t.take(k) =~= t);
        }
    }
}

proof fn lemma_string_text(p: Place, s: Seq<Spelled>)
    requires
        outside(p),
    ensures
        quiet_at(p, spelling::string_text(s)),
{
    let q = Place { in_string: true, ..p };
    let a = seq!['"'];
    let b = spelling::chars_text(s);
    let t = spelling::string_text(s);
    lemma_one(p, '"');
    lemma_chars_text(q, s);
    lemma_one(q, '"');
    lemma_append(p, a, b);
    lemma_append(p, a + b, a);
    assert forall|k: int| 0 <= k < b.len() implies (#[trigger] place_after(
        q,
        b.take(k),
    )).in_string by {}
    lemma_opened_in_string(q, b);
    assert(opened_from(p, t) =~= t);
    assert forall|k: int| 0 <= k <= t.len() implies ({
        let x = #[trigger] place_after(p, t.take(k));
        x.depth == p.depth && (0 < k < t.len() ==> x.in_string)
    }) by {
        lemma_prefix(p, a + b, a, k);
        if k <= (a + b).len() {
            lemma_prefix(p, a, b, k);
            if k == 0 {
                assert(a.take(0) =~= Seq::empty());
            } else {
                assert(b.take(k - 1) == b.take(k - a.len()));
            }
        } else {
            assert(a.take(1) =~= a);
        }
    }
}

/// Characters that stand neither for structure nor for a string change
/// nothing.
proof fn lemma_calm(p: Place, t: Seq<char>)
    requires
        outside(p),
        forall|i: int| 0 <= i < t.len() ==> layout::is_calm(#[trigger] t[i]),
    ensures
        quiet_at(p, t),
        opened_from(p, t) == t,
    decreases t.len(),
{
    if t.len() == 0 {
        lemma_level_empty(p);
        assert(opened_from(p, t) =~= t);
    } else {
        let u = t.drop_last();
        assert forall|i: int| 0 <= i < u.len() implies layout::is_calm(#[trigger] u[i]) by {
            assert(layout::is_calm(t[i]));
        }
        lemma_calm(p, u);
        assert(layout::is_calm(t[t.len() - 1]));
        assert(opened_from(p, t) =~= t);
        assert forall|k: int| 0 <= k <= t.len() implies (#[trigger] place_after(
            p,
            t.take(k),
        )).depth >= p.depth by {
            if k < t.len() {
                assert(t.take(k) =~= u.take(k));
            } else {
                assert(t.take(k) =~= t);
            }
        }
        assert forall|k: int|
            0 <= k < t.len() && #[trigger] place_after(p, t.take(k)) == p implies t[k] != ',' by {
            assert(layout::is_calm(t[k]));
        }
    }
}

proof fn lemma_space(p: Place, t: Seq<char>)
    requires
        outside(p),
        layout::is_space(t),
    ensures
        quiet_at(p, t),
        opened_from(p, t) == t,
{
    assert forall|i: int| 0 <= i < t.len() implies layout::is_calm(#[trigger] t[i]) by {
        assert(layout::is_space_char(t[i]));
    }
    lemma_calm(p, t);
}

proof fn lemma_level_append(p: Place, a: Seq<char>, b: Seq<char>)
    requires
        level_at(p, a),
        level_at(p, b),
    ensures
        level_at(p, a + b),
{
    lemma_append(p, a, b);
    assert forall|k: int| 0 <= k <= (a + b).len() implies (#[trigger] place_after(
        p,
        (a + b).take(k),
    )).depth >= p.depth by {
        lemma_prefix(p, a, b, k);
    }
}

proof fn lemma_level_comma(p: Place)
    requires
        outside(p),
    ensures
        level_at(p, seq![',']),
{
    let t = seq![','];
    lemma_one(p, ',');
    assert forall|k: int| 0 <= k <= t.len() implies (#[trigger] place_after(p, t.take(k))).depth
        >= p.depth by {
        if k == 0 {
            assert(t.take(k) =~= Seq::empty());
        } else {
            assert(t.take(k) =~= t);
        }
    }
}

proof fn lemma_level_empty(p: Place)
    ensures
        level_at(p, Seq::empty()),
{
    let t = Seq::<char>::empty();
    assert forall|k: int| 0 <= k <= t.len() implies (#[trigger] place_after(p, t.take(k))).depth
        >= p.depth by {
        assert(t.take(k) =~= t);
    }
}

proof fn lemma_joined_level(p: Place, parts: Seq<Seq<char>>)
    requires
        outside(p),
        forall|i: int| 0 <= i < parts.len() ==> level_at(p, #[trigger] parts[i]),
    ensures
        level_at(p, text::joined(parts, seq![','])),
    decreases parts.len(),
{
    if parts.len() == 0 {
        lemma_level_empty(p);
    } else if parts.len() > 1 {
        let rest = parts.drop_last();
        assert forall|i: int| 0 <= i < rest.len() implies level_at(p, #[trigger] rest[i]) by {
            assert(rest[i] == parts[i]);
        }
        lemma_joined_level(p, rest);
        lemma_level_comma(p);
        let head = text::joined(rest, seq![',']);
        lemma_level_append(p, head, seq![',']);
        assert(level_at(p, parts[parts.len() - 1]));
        lemma_level_append(p, head + seq![','], parts.last());
    }
}

proof fn lemma_quiet_append(p: Place, a: Seq<char>, b: Seq<char>)
    requires
        quiet_at(p, a),
        quiet_at(p, b),
    ensures
        quiet_at(p, a + b),
{
    lemma_level_append(p, a, b);
    lemma_append(p, a, b);
    assert forall|k: int|
        0 <= k < (a + b).len() && #[trigger] place_after(p, (a + b).take(k)) == p implies (a
        + b)[k] != ',' by {
        lemma_prefix(p, a, b, k);
        if k < a.len() {
            assert(place_after(p, a.take(k)) == p);
        } else {
            assert(place_after(p, b.take(k - a.len())) == p);
        }
    }
}

/// A bracketed run is one value.
proof fn lemma_bracketed(p: Place, open: char, inner: Seq<char>, close: char)
    requires
        outside(p),
        open == '[' && close == ']' || open == '{' && close == '}',
        level_at((Place { depth: p.depth + 1, ..p }), inner),
    ensures
        quiet_at(p, seq![open] + inner + seq![close]),
{
    let q = Place { depth: p.depth + 1, ..p };
    let a = seq![open];
    let c = seq![close];
    let t = a + inner + c;
    lemma_one(p, open);
    lemma_one(q, close);
    lemma_append(p, a, inner);
    lemma_append(p, a + inner, c);
    if p.depth >= 1 {
        assert(opened_from(p, t) =~= t);
    }
    assert forall|k: int| 0 <= k <= t.len() implies ({
        let x = #[trigger] place_after(p, t.take(k));
        x.depth >= p.depth && (0 < k < t.len() ==> x.depth > p.depth)
    }) by {
        lemma_prefix(p, a + inner, c, k);
        if k <= (a + inner).len() {
            lemma_prefix(p, a, inner, k);
            if k == 0 {
                assert(a.take(0) =~= Seq::empty());
            } else {
                assert(inner.take(k - 1) == inner.take(k - a.len()));
            }
        } else {
            assert(c.take(1) =~= c);
        }
    }
}

/// White space around a value adds nothing to it.
proof fn lemma_padded(p: Place, item: WrittenItem)
    requires
        outside(p),
        layout::well_spaced_item(item),
        quiet_at(p, layout::written(item.value)),
    ensures
        quiet_at(p, layout::item_text(item)),
{
    lemma_space(p, item.before);
    lemma_space(p, item.after);
    let v = layout::written(item.value);
    lemma_quiet_append(p, item.before, v);
    lemma_quiet_append(p, item.before + v, item.after);
}

proof fn lemma_field_level(p: Place, f: WrittenField)
    requires
        outside(p),
        layout::well_spaced_field(f),
        quiet_at(p, layout::written(f.item.value)),
    ensures
        level_at(p, layout::field_text(f)),
{
    let colon = seq![':'];
    let name = spelling::string_text(f.name);
    lemma_string_text(p, f.name);
    lemma_space(p, f.before);
    lemma_space(p, f.gap);
    lemma_padded(p, f.item);
    lemma_one(p, ':');
    assert(level_at(p, colon)) by {
        assert forall|k: int| 0 <= k <= colon.len() implies (#[trigger] place_after(
            p,
            colon.take(k),
        )).depth >= p.depth by {
            if k == 0 {
                assert(colon.take(k) =~= Seq::empty());
            } else {
                assert(colon.take(k) =~= colon);
            }
        }
    }
    lemma_level_append(p, f.before, name);
    lemma_level_append(p, f.before + name, f.gap);
    lemma_level_append(p, f.before + name + f.gap, colon);
    lemma_level_append(p, f.before + name + f.gap + colon, layout::item_text(f.item));
}

/// The text of a value is one value, wherever it stands.
pub proof fn lemma_written_quiet(p: Place, w: Written)
    requires
        outside(p),
        layout::well_spaced(w),
    ensures
        quiet_at(p, layout::written(w)),
    decreases w, 0nat,
{
    let q = Place { depth: p.depth + 1, ..p };
    match w {
        Written::Str(s) => {
            lemma_string_text(p, s);
        },
        Written::Arr(items, gap) => {
            if items.len() == 0 {
                lemma_space(q, gap);
                lemma_bracketed(p, '[', gap, ']');
            } else {
                lemma_items_quiet(q, items);
                lemma_joined_level(q, layout::paddings(items));
                lemma_bracketed(p, '[', text::joined(layout::paddings(items), seq![',']), ']');
            }
        },
        Written::Obj(fields, gap) => {
            if fields.len() == 0 {
                lemma_space(q, gap);
                lemma_bracketed(p, '{', gap, '}');
            } else {
                lemma_fields_level(q, fields);
                lemma_joined_level(q, layout::field_paddings(fields));
                lemma_bracketed(
                    p,
                    '{',
                    text::joined(layout::field_paddings(fields), seq![',']),
                    '}',
                );
            }
        },
        _ => {
            layout::lemma_scalar_is_calm(w);
            lemma_calm(p, layout::written(w));
        },
    }
}

proof fn lemma_items_quiet(p: Place, items: Seq<WrittenItem>)
    requires
        outside(p),
        forall|i: int| 0 <= i < items.len() ==> layout::well_spaced_item(#[trigger] items[i]),
    ensures
        forall|i: int|
            0 <= i < items.len() ==> quiet_at(p, #[trigger] layout::paddings(items)[i]),
        layout::paddings(items).len() == items.len(),
    decreases items, items.len(),
{
    layout::lemma_paddings(items);
    assert forall|i: int| 0 <= i < items.len() implies quiet_at(
        p,
        #[trigger] layout::paddings(items)[i],
    ) by {
        assert(layout::well_spaced_item(items[i]));
        lemma_written_quiet(p, items[i].value);
        lemma_padded(p, items[i]);
    }
}

proof fn lemma_fields_level(p: Place, fields: Seq<WrittenField>)
    requires
        outside(p),
        forall|i: int| 0 <= i < fields.len() ==> layout::well_spaced_field(#[trigger] fields[i]),
    ensures
        forall|i: int|
            0 <= i < fields.len() ==> level_at(p, #[trigger] layout::field_paddings(fields)[i]),
        layout::field_paddings(fields).len() == fields.len(),
    decreases fields, fields.len(),
{
    layout::lemma_field_paddings(fields);
    assert forall|i: int| 0 <= i < fields.len() implies level_at(
        p,
        #[trigger] layout::field_paddings(fields)[i],
    ) by {
        assert(layout::well_spaced_field(fields[i]));
        lemma_written_quiet(p, fields[i].item.value);
        lemma_field_level(p, fields[i]);
    }
}

// ---- An opened object ------------------------------------------------------

/// A field's name as an item.
pub open spec fn name_item(f: WrittenField) -> WrittenItem {
    WrittenItem { before: f.before, value: Written::Str(f.name), after: f.gap }
}

/// The names and values of an object, one after the other.
pub open spec fn alternating(fields: Seq<WrittenField>) -> Seq<WrittenItem>
    decreases fields.len(),
{
    if fields.len() == 0 {
        Seq::empty()
    } else {
        alternating(fields.drop_last()).push(name_item(fields.last())).push(fields.last().item)
    }
}

pub proof fn lemma_alternating(fields: Seq<WrittenField>)
    ensures
        alternating(fields).len() == 2 * fields.len(),
        forall|i: int|
            0 <= i < fields.len() ==> #[trigger] alternating(fields)[2 * i] == name_item(
                fields[i],
            ),
        forall|i: int|
            0 <= i < fields.len() ==> #[trigger] alternating(fields)[2 * i + 1] == fields[i].item,
    decreases fields.len(),
{
    if fields.len() > 0 {
        lemma_alternating(fields.drop_last());
    }
}

/// What stands around the names and values is white space, where that holds
/// of the object.
pub proof fn lemma_alternating_spaced(fields: Seq<WrittenField>, gap: Seq<char>)
    requires
        layout::well_spaced(Written::Obj(fields, gap)),
    ensures
        layout::well_spaced(Written::Arr(alternating(fields), gap)),
{
    lemma_alternating(fields);
    let alt = alternating(fields);
    assert forall|i: int| 0 <= i < alt.len() implies ({
        let item = #[trigger] alt[i];
        layout::is_space(item.before) && layout::well_spaced(item.value) && layout::is_space(
            item.after,
        )
    }) by {
        let k = i / 2;
        let f = fields[k];
        if i % 2 == 0 {
            assert(alt[2 * k] == name_item(f));
        } else {
            assert(alt[2 * k + 1] == f.item);
        }
    }
}

/// Field by field, one level down the colons become commas.
proof fn lemma_opened_fields(fields: Seq<WrittenField>)
    requires
        forall|i: int| 0 <= i < fields.len() ==> layout::well_spaced_field(#[trigger] fields[i]),
    ensures
        ({
            let p = Place { depth: 1, in_string: false, after_backslash: false };
            let inner = text::joined(layout::field_paddings(fields), seq![',']);
            &&& place_after(p, inner) == p
            &&& opened_from(p, inner) == text::joined(
                layout::paddings(alternating(fields)),
                seq![','],
            )
        }),
    decreases fields.len(),
{
    let p = Place { depth: 1, in_string: false, after_backslash: false };
    let comma = seq![','];
    let entries = layout::field_paddings(fields);
    let inner = text::joined(entries, comma);
    layout::lemma_field_paddings(fields);
    if fields.len() == 0 {
        assert(inner =~= Seq::empty());
        assert(layout::paddings(alternating(fields)) =~= Seq::empty());
    } else {
        let before = fields.drop_last();
        let f = fields.last();
        assert(layout::well_spaced_field(fields[fields.len() - 1]));
        assert forall|i: int| 0 <= i < before.len() implies layout::well_spaced_field(
            #[trigger] before[i],
        ) by {
            assert(layout::well_spaced_field(fields[i]));
        }
        let name = layout::item_text(name_item(f));
        let value = layout::item_text(f.item);
        let entry = layout::field_text(f);
        lemma_opened_fields(before);
        layout::lemma_field_paddings(before);
        let earlier = layout::field_paddings(before);
        assert(entries.drop_last() =~= earlier);
        assert(entries.last() == entry);

        // The field itself.
        lemma_string_text(p, f.name);
        lemma_padded(p, name_item(f));
        lemma_written_quiet(p, f.item.value);
        lemma_padded(p, f.item);
        lemma_one(p, ':');
        lemma_append(p, name, seq![':']);
        lemma_append(p, name + seq![':'], value);
        assert(entry =~= name + seq![':'] + value);
        assert(place_after(p, entry) == p);
        assert(opened_from(p, entry) =~= name + comma + value);

        // The list of names and values.
        let alt = alternating(fields);
        let alt_before = alternating(before);
        let parts = layout::paddings(alt);
        let parts_before = layout::paddings(alt_before);
        lemma_alternating(before);
        layout::lemma_paddings(alt_before);
        assert(alt.drop_last().drop_last() =~= alt_before);
        assert(alt.drop_last().last() == name_item(f));
        assert(layout::paddings(alt.drop_last()) == parts_before.push(name));
        assert(parts == parts_before.push(name).push(value));
        assert(parts.drop_last() =~= parts_before.push(name));
        assert(parts_before.push(name).drop_last() =~= parts_before);
        assert(text::joined(parts, comma) == text::joined(parts_before.push(name), comma) + comma
            + value);

        if before.len() == 0 {
            assert(parts_before =~= Seq::empty());
            assert(inner == entry);
            assert(text::joined(parts_before.push(name), comma) == name);
        } else {
            let head = text::joined(earlier, comma);
            assert(inner == head + comma + entry);
            lemma_one(p, ',');
            lemma_append(p, head, comma);
            lemma_append(p, head + comma, entry);
            assert(text::joined(parts_before.push(name), comma) == text::joined(
                parts_before,
                comma,
            ) + comma + name);
            assert(opened_from(p, inner) =~= text::joined(parts, comma));
        }
    }
}

/// Opening the text of an object gives the text of the array of its names and
/// values, with the white space where it was.
pub proof fn lemma_opened_object(fields: Seq<WrittenField>, gap: Seq<char>)
    requires
        layout::well_spaced(Written::Obj(fields, gap)),
    ensures
        opened(layout::written(Written::Obj(fields, gap))) == layout::written(
            Written::Arr(alternating(fields), gap),
        ),
{
    let p = start();
    let q = Place { depth: 1, in_string: false, after_backslash: false };
    let inner = if fields.len() == 0 {
        gap
    } else {
        text::joined(layout::field_paddings(fields), seq![','])
    };
    lemma_alternating(fields);
    if fields.len() == 0 {
        lemma_space(q, gap);
    } else {
        assert forall|i: int| 0 <= i < fields.len() implies layout::well_spaced_field(
            #[trigger] fields[i],
        ) by {}
        lemma_opened_fields(fields);
    }
    lemma_one(p, '{');
    lemma_one(q, '}');
    lemma_append(p, seq!['{'], inner);
    lemma_append(p, seq!['{'] + inner, seq!['}']);
    assert(opened(layout::written(Written::Obj(fields, gap))) =~= layout::written(
        Written::Arr(alternating(fields), gap),
    ));
}

// ---- Texts are unambiguous -------------------------------------------------

/// The parts joined, seen from the front.
proof fn lemma_joined_front(parts: Seq<Seq<char>>)
    requires
        parts.len() > 1,
    ensures
        text::joined(parts, seq![',']) == parts[0] + (seq![','] + text::joined(
            parts.drop_first(),
            seq![','],
        )),
    decreases parts.len(),
{
    let comma = seq![','];
    let rest = parts.drop_first();
    assert(rest.last() == parts.last());
    if parts.len() == 2 {
        assert(parts.drop_last().len() == 1);
        assert(text::joined(parts.drop_last(), comma) == parts[0]);
        assert(text::joined(rest, comma) == rest[0]);
        assert(text::joined(parts, comma) =~= parts[0] + (comma + text::joined(rest, comma)));
    } else {
        lemma_joined_front(parts.drop_last());
        assert(parts.drop_last().drop_first() =~= rest.drop_last());
        assert(text::joined(parts, comma) =~= parts[0] + (comma + text::joined(rest, comma)));
    }
}

proof fn lemma_joined_injective(a: Seq<Seq<char>>, b: Seq<Seq<char>>)
    requires
        forall|i: int|
            0 <= i < a.len() ==> quiet_at(start(), #[trigger] a[i]) && a[i].len() > 0,
        forall|i: int|
            0 <= i < b.len() ==> quiet_at(start(), #[trigger] b[i]) && b[i].len() > 0,
        text::joined(a, seq![',']) == text::joined(b, seq![',']),
    ensures
        a == b,
    decreases a.len(),
{
    let comma = seq![','];
    let t = text::joined(a, comma);
    if a.len() > 1 {
        lemma_joined_front(a);
    }
    if b.len() > 1 {
        lemma_joined_front(b);
    }
    if a.len() == 0 || b.len() == 0 {
        if a.len() > 0 {
            assert(a[0].len() > 0);
        }
        if b.len() > 0 {
            assert(b[0].len() > 0);
        }
        assert(a =~= b);
    } else {
        assert(quiet_at(start(), a[0]) && quiet_at(start(), b[0]));
        let n = a[0].len() as int;
        let m = b[0].len() as int;
        assert(t.take(n) =~= a[0]);
        assert(t.take(m) =~= b[0]);
        if n < m {
            assert(b[0].take(n) =~= a[0]);
            assert(place_after(start(), b[0].take(n)) == start());
            assert(t[n] == b[0][n]);
            assert(false);
        }
        if m < n {
            assert(a[0].take(m) =~= b[0]);
            assert(place_after(start(), a[0].take(m)) == start());
            assert(t[m] == a[0][m]);
            assert(false);
        }
        if a.len() == 1 || b.len() == 1 {
            assert(a.len() == 1 && b.len() == 1);
            assert(a =~= b);
        } else {
            assert(text::joined(a.drop_first(), comma) =~= t.skip(n + 1));
            assert(text::joined(b.drop_first(), comma) =~= t.skip(n + 1));
            lemma_joined_injective(a.drop_first(), b.drop_first());
            assert(a =~= seq![a[0]] + a.drop_first());
            assert(b =~= seq![b[0]] + b.drop_first());
        }
    }
}

/// A list of items is not all white space.
proof fn lemma_items_are_no_space(items: Seq<WrittenItem>, gap: Seq<char>)
    requires
        items.len() > 0,
        layout::is_space(gap),
    ensures
        text::joined(layout::paddings(items), seq![',']) != gap,
{
    let t = text::joined(layout::paddings(items), seq![',']);
    let n = items[0].before.len() as int;
    layout::lemma_paddings(items);
    layout::lemma_ends(items[0].value);
    let first = layout::paddings(items)[0];
    assert(first == layout::item_text(items[0]));
    assert(first[n] == layout::written(items[0].value)[0]);
    if items.len() > 1 {
        lemma_joined_front(layout::paddings(items));
    }
    assert(t[n] == first[n]);
    if t == gap {
        assert(layout::is_space_char(gap[n]));
    }
}

/// The texts of an array's items are determined by its text.
pub proof fn lemma_items_injective(
    a: Seq<WrittenItem>,
    a_gap: Seq<char>,
    b: Seq<WrittenItem>,
    b_gap: Seq<char>,
)
    requires
        layout::well_spaced(Written::Arr(a, a_gap)),
        layout::well_spaced(Written::Arr(b, b_gap)),
        layout::written(Written::Arr(a, a_gap)) == layout::written(Written::Arr(b, b_gap)),
    ensures
        layout::value_texts(a) == layout::value_texts(b),
{
    let t = layout::written(Written::Arr(a, a_gap));
    let n = t.len() as int;
    let a_inner = if a.len() == 0 {
        a_gap
    } else {
        text::joined(layout::paddings(a), seq![','])
    };
    let b_inner = if b.len() == 0 {
        b_gap
    } else {
        text::joined(layout::paddings(b), seq![','])
    };
    assert(a_inner =~= t.subrange(1, n - 1));
    assert(b_inner =~= t.subrange(1, n - 1));
    if a.len() == 0 {
        if b.len() > 0 {
            lemma_items_are_no_space(b, a_gap);
        }
        assert(layout::value_texts(a) =~= layout::value_texts(b));
    } else if b.len() == 0 {
        lemma_items_are_no_space(a, b_gap);
    } else {
        lemma_paddings_quiet(a);
        lemma_paddings_quiet(b);
        lemma_joined_injective(layout::paddings(a), layout::paddings(b));
        layout::lemma_paddings(a);
        layout::lemma_paddings(b);
        assert forall|i: int| 0 <= i < a.len() implies layout::written(a[i].value)
            == layout::written(b[i].value) by {
            assert(layout::paddings(a)[i] == layout::item_text(a[i]));
            assert(layout::paddings(b)[i] == layout::item_text(b[i]));
            layout::lemma_value_in_item(a[i], b[i]);
        }
        assert(layout::value_texts(a) =~= layout::value_texts(b));
    }
}

proof fn lemma_paddings_quiet(items: Seq<WrittenItem>)
    requires
        forall|i: int| 0 <= i < items.len() ==> layout::well_spaced_item(#[trigger] items[i]),
    ensures
        layout::paddings(items).len() == items.len(),
        forall|i: int|
            0 <= i < items.len() ==> quiet_at(start(), #[trigger] layout::paddings(items)[i])
                && layout::paddings(items)[i].len() > 0,
{
    lemma_items_quiet(start(), items);
    layout::lemma_paddings(items);
    assert forall|i: int| 0 <= i < items.len() implies #[trigger] layout::paddings(items)[i].len()
        > 0 by {
        layout::lemma_ends(items[i].value);
    }
}

} // verus!
