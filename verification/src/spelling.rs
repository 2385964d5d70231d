//! Strings as JSON writes them: a character may stand as itself or be escaped
//! in several ways.

use vstd::prelude::*;

use crate::json;

verus! {

/// How a character is written in a string.
pub enum Spelling {
    /// As itself where that is allowed, else by its shortest escape.
    Shortest,
    /// The slash behind a backslash; any other character as above.
    Slash,
    /// By its code in hexadecimal, as one or two groups of four digits. Says
    /// which of the digits are capital letters, where they are letters.
    Hex(Seq<bool>),
}

/// A character of a string, and how it is written.
pub struct Spelled {
    pub value: char,
    pub spelling: Spelling,
}

// ---- Texts -----------------------------------------------------------------

/// The hexadecimal digit for `d`.
pub open spec fn hex_digit(d: int, capital: bool) -> char {
    if d >= 10 && capital {
        (0x41 + d - 10) as char
    } else {
        json::hex_digit(d)
    }
}

pub open spec fn is_capital(capitals: Seq<bool>, i: int) -> bool {
    0 <= i < capitals.len() && capitals[i]
}

/// The escape of a code of four hexadecimal digits, the first of which is the
/// one at `from`.
pub open spec fn group(code: int, capitals: Seq<bool>, from: int) -> Seq<char> {
    seq![
        '\\',
        'u',
        hex_digit(code / 4096, is_capital(capitals, from)),
        hex_digit(code / 256 % 16, is_capital(capitals, from + 1)),
        hex_digit(code / 16 % 16, is_capital(capitals, from + 2)),
        hex_digit(code % 16, is_capital(capitals, from + 3)),
    ]
}

/// The escape of a character by its code. One that needs more than four digits
/// is written as a surrogate pair.
pub open spec fn hex_escape(c: char, capitals: Seq<bool>) -> Seq<char> {
    let code = c as int;
    if code < 0x10000 {
        group(code, capitals, 0)
    } else {
        group(0xd800 + (code - 0x10000) / 0x400, capitals, 0) + group(
            0xdc00 + (code - 0x10000) % 0x400,
            capitals,
            4,
        )
    }
}

/// How a character stands inside a string.
pub open spec fn char_text(s: Spelled) -> Seq<char> {
    match s.spelling {
        Spelling::Shortest => json::escape(s.value),
        Spelling::Slash => if s.value == '/' {
            seq!['\\', '/']
        } else {
            json::escape(s.value)
        },
        Spelling::Hex(capitals) => hex_escape(s.value, capitals),
    }
}

/// How characters stand inside a string.
pub open spec fn chars_text(s: Seq<Spelled>) -> Seq<char>
    decreases s.len(),
{
    if s.len() == 0 {
        Seq::empty()
    } else {
        char_text(s[0]) + chars_text(s.drop_first())
    }
}

/// The text of a string.
pub open spec fn string_text(s: Seq<Spelled>) -> Seq<char> {
    seq!['"'] + chars_text(s) + seq!['"']
}

/// The characters of a string, however they are written.
pub open spec fn chars(s: Seq<Spelled>) -> Seq<char> {
    s.map_values(|c: Spelled| c.value)
}

/// A character in its shortest form.
pub open spec fn shortest_char(c: char) -> Spelled {
    Spelled { value: c, spelling: Spelling::Shortest }
}

/// Every character in its shortest form.
pub open spec fn shortest(s: Seq<char>) -> Seq<Spelled> {
    s.map_values(|c: char| shortest_char(c))
}

/// In its shortest form a string has its usual text.
pub proof fn lemma_shortest(s: Seq<char>)
    ensures
        chars(shortest(s)) == s,
        string_text(shortest(s)) == json::quoted(s),
{
    assert(chars(shortest(s)) =~= s);
    lemma_shortest_chars(s);
}

proof fn lemma_shortest_chars(s: Seq<char>)
    ensures
        chars_text(shortest(s)) == json::escaped(s),
    decreases s.len(),
{
    if s.len() > 0 {
        assert(shortest(s).drop_first() =~= shortest(s.drop_first()));
        lemma_shortest_chars(s.drop_first());
    }
}

// ---- Texts are unambiguous -------------------------------------------------

/// The value of a hexadecimal digit.
spec fn hex_value(c: char) -> int {
    if c <= '9' {
        c as int - 0x30
    } else if c <= 'F' {
        c as int - 0x41 + 10
    } else {
        c as int - 0x61 + 10
    }
}

/// The code in the group that begins at `at`.
spec fn code_at(t: Seq<char>, at: int) -> int {
    hex_value(t[at + 2]) * 4096 + hex_value(t[at + 3]) * 256 + hex_value(t[at + 4]) * 16
        + hex_value(t[at + 5])
}

/// The character that a letter stands for behind a backslash.
spec fn short_value(c: char) -> char {
    if c == 'b' {
        0x8int as char
    } else if c == 'f' {
        0xcint as char
    } else if c == 'n' {
        '\n'
    } else if c == 'r' {
        '\r'
    } else if c == 't' {
        '\t'
    } else {
        c
    }
}

/// The first character in a text, and how long its own text is.
spec fn first_char(t: Seq<char>) -> (int, int) {
    if t[0] != '\\' {
        (t[0] as int, 1)
    } else if t[1] != 'u' {
        (short_value(t[1]) as int, 2)
    } else if 0xd800 <= code_at(t, 0) < 0xdc00 {
        (0x10000 + (code_at(t, 0) - 0xd800) * 0x400 + (code_at(t, 6) - 0xdc00), 12)
    } else {
        (code_at(t, 0), 6)
    }
}

proof fn lemma_hex_digit(d: int, capital: bool)
    requires
        0 <= d < 16,
    ensures
        hex_value(hex_digit(d, capital)) == d,
        hex_digit(d, capital) != '"',
        hex_digit(d, capital) != '\\',
{
}

/// What stands in a group.
pub proof fn lemma_group(code: int, capitals: Seq<bool>, from: int)
    requires
        0 <= code < 0x10000,
    ensures
        forall|i: int|
            2 <= i < 6 ==> #[trigger] group(code, capitals, from)[i] != '"' && group(
                code,
                capitals,
                from,
            )[i] != '\\',
{
    lemma_hex_digit(code / 4096, is_capital(capitals, from));
    lemma_hex_digit(code / 256 % 16, is_capital(capitals, from + 1));
    lemma_hex_digit(code / 16 % 16, is_capital(capitals, from + 2));
    lemma_hex_digit(code % 16, is_capital(capitals, from + 3));
}

proof fn lemma_four_digits(code: int)
    requires
        0 <= code < 0x10000,
    ensures
        0 <= code / 4096 < 16,
        code == code / 4096 * 4096 + code / 256 % 16 * 256 + code / 16 % 16 * 16 + code % 16,
{
    let a = code / 16;
    let b = a / 16;
    assert(code / 256 == b);
    assert(code / 4096 == b / 16);
    assert(code == a * 16 + code % 16);
    assert(a == b * 16 + a % 16);
    assert(b == b / 16 * 16 + b % 16);
}

proof fn lemma_code_at(code: int, capitals: Seq<bool>, from: int, t: Seq<char>, at: int)
    requires
        0 <= code < 0x10000,
        0 <= at,
        at + 6 <= t.len(),
        t.subrange(at, at + 6) == group(code, capitals, from),
    ensures
        code_at(t, at) == code,
{
    let g = group(code, capitals, from);
    lemma_four_digits(code);
    lemma_hex_digit(code / 4096, is_capital(capitals, from));
    lemma_hex_digit(code / 256 % 16, is_capital(capitals, from + 1));
    lemma_hex_digit(code / 16 % 16, is_capital(capitals, from + 2));
    lemma_hex_digit(code % 16, is_capital(capitals, from + 3));
    assert(t[at + 2] == g[2] && t[at + 3] == g[3] && t[at + 4] == g[4] && t[at + 5] == g[5]);
}

/// A control character without a short escape is escaped by its code.
proof fn lemma_control(c: char)
    requires
        json::escape(c).len() > 2,
    ensures
        (c as int) < 0x20,
        json::escape(c) == group(c as int, Seq::empty(), 0),
{
    assert(json::escape(c) =~= group(c as int, Seq::empty(), 0));
}

/// The first character is found again, whatever stands behind it.
proof fn lemma_first_char(s: Spelled, rest: Seq<char>)
    ensures
        first_char(char_text(s) + rest) == (s.value as int, char_text(s).len() as int),
        char_text(s).len() > 0,
{
    let own = char_text(s);
    let t = own + rest;
    let code = s.value as int;
    assert(own.len() > 0);
    assert(t[0] == own[0]);
    if own.len() > 1 {
        assert(t[1] == own[1]);
    }
    match s.spelling {
        Spelling::Hex(capitals) => {
            if code < 0x10000 {
                assert(t.subrange(0, 6) =~= group(code, capitals, 0));
                lemma_code_at(code, capitals, 0, t, 0);
            } else {
                let high = 0xd800 + (code - 0x10000) / 0x400;
                let low = 0xdc00 + (code - 0x10000) % 0x400;
                assert(t.subrange(0, 6) =~= group(high, capitals, 0));
                assert(t.subrange(6, 12) =~= group(low, capitals, 4));
                lemma_code_at(high, capitals, 0, t, 0);
                lemma_code_at(low, capitals, 4, t, 6);
            }
        },
        _ => {
            if own.len() > 2 {
                lemma_control(s.value);
                assert(t.subrange(0, 6) =~= group(code, Seq::empty(), 0));
                lemma_code_at(code, Seq::empty(), 0, t, 0);
            }
        },
    }
}

proof fn lemma_chars_injective(a: Seq<Spelled>, b: Seq<Spelled>)
    requires
        chars_text(a) == chars_text(b),
    ensures
        chars(a) == chars(b),
    decreases a.len(),
{
    if a.len() > 0 {
        lemma_first_char(a[0], chars_text(a.drop_first()));
    }
    if b.len() > 0 {
        lemma_first_char(b[0], chars_text(b.drop_first()));
    }
    if a.len() == 0 || b.len() == 0 {
        assert(a.len() == 0 ==> chars_text(a).len() == 0);
        assert(b.len() == 0 ==> chars_text(b).len() == 0);
        assert(chars(a) =~= chars(b));
    } else {
        let t = chars_text(a);
        let n = char_text(a[0]).len() as int;
        assert(chars_text(a.drop_first()) =~= t.skip(n));
        assert(chars_text(b.drop_first()) =~= t.skip(n));
        lemma_chars_injective(a.drop_first(), b.drop_first());
        assert(chars(a) =~= seq![a[0].value] + chars(a.drop_first()));
        assert(chars(b) =~= seq![b[0].value] + chars(b.drop_first()));
    }
}

/// The characters of a string are determined by its text.
pub proof fn lemma_string_injective(a: Seq<Spelled>, b: Seq<Spelled>)
    requires
        string_text(a) == string_text(b),
    ensures
        chars(a) == chars(b),
{
    let n = string_text(a).len() as int;
    assert(chars_text(a) =~= string_text(a).subrange(1, n - 1));
    assert(chars_text(b) =~= string_text(b).subrange(1, n - 1));
    lemma_chars_injective(a, b);
}

} // verus!
