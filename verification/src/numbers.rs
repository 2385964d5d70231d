//! Numbers as JSON writes them.

use vstd::prelude::*;

use crate::text;

verus! {

/// At least one decimal digit. A digit is what is left of its number modulo
/// ten.
pub struct Digits {
    pub first: nat,
    pub rest: Seq<nat>,
}

/// The power of ten that a number is multiplied by.
pub struct Exponent {
    /// The letter is a capital one.
    pub capital: bool,
    /// Whether there is a sign, and whether it is a plus.
    pub plus: Option<bool>,
    pub digits: Digits,
}

/// A number: every text that JSON takes for one, and no other.
pub struct Number {
    pub negative: bool,
    pub whole: nat,
    pub fraction: Option<Digits>,
    pub exponent: Option<Exponent>,
}

// ---- Texts -----------------------------------------------------------------

pub open spec fn digits_text(d: Digits) -> Seq<char> {
    seq![text::digit((d.first % 10) as int)] + d.rest.map_values(
        |n: nat| text::digit((n % 10) as int),
    )
}

pub open spec fn sign_text(negative: bool) -> Seq<char> {
    if negative {
        seq!['-']
    } else {
        Seq::empty()
    }
}

pub open spec fn fraction_text(fraction: Option<Digits>) -> Seq<char> {
    match fraction {
        Some(digits) => seq!['.'] + digits_text(digits),
        None => Seq::empty(),
    }
}

pub open spec fn letter_text(capital: bool) -> Seq<char> {
    if capital {
        seq!['E']
    } else {
        seq!['e']
    }
}

pub open spec fn plus_text(plus: Option<bool>) -> Seq<char> {
    match plus {
        Some(true) => seq!['+'],
        Some(false) => seq!['-'],
        None => Seq::empty(),
    }
}

pub open spec fn exponent_text(exponent: Option<Exponent>) -> Seq<char> {
    match exponent {
        Some(e) => letter_text(e.capital) + plus_text(e.plus) + digits_text(e.digits),
        None => Seq::empty(),
    }
}

/// The text of a number.
pub open spec fn number_text(n: Number) -> Seq<char> {
    sign_text(n.negative) + text::decimal(n.whole) + fraction_text(n.fraction) + exponent_text(
        n.exponent,
    )
}

/// A whole number from zero on.
pub open spec fn count_of(n: u64) -> Number {
    Number { negative: false, whole: n as nat, fraction: None, exponent: None }
}

/// The whole number from zero on that `n` is written as; nothing where it has
/// a minus sign, a fraction or an exponent, or is too large.
pub open spec fn counted(n: Number) -> Option<u64> {
    if !n.negative && n.whole <= u64::MAX && n.fraction is None && n.exponent is None {
        Some(n.whole as u64)
    } else {
        None
    }
}

// ---- Characters ------------------------------------------------------------

pub open spec fn is_digit(c: char) -> bool {
    '0' <= c <= '9'
}

/// Occurs in numbers.
pub open spec fn is_number_char(c: char) -> bool {
    is_digit(c) || c == '-' || c == '+' || c == '.' || c == 'e' || c == 'E'
}

/// A whole number is made of digits.
pub proof fn lemma_decimal(n: nat)
    ensures
        text::decimal(n).len() > 0,
        forall|i: int|
            0 <= i < text::decimal(n).len() ==> is_digit(#[trigger] text::decimal(n)[i]),
    decreases n,
{
    if n >= 10 {
        lemma_decimal(n / 10);
    }
}

/// A whole number is determined by its digits.
pub proof fn lemma_decimal_injective(a: nat, b: nat)
    requires
        text::decimal(a) == text::decimal(b),
    ensures
        a == b,
    decreases a,
{
    let s = text::decimal(a);
    if a >= 10 {
        lemma_decimal(a / 10);
    }
    if b >= 10 {
        lemma_decimal(b / 10);
    }
    assert(a < 10 ==> s.len() == 1);
    assert(b < 10 ==> s.len() == 1);
    assert(a >= 10 ==> s.len() == text::decimal(a / 10).len() + 1);
    assert(b >= 10 ==> s.len() == text::decimal(b / 10).len() + 1);
    if a < 10 && b < 10 {
        assert(s[0] == text::digit(a as int) && s[0] == text::digit(b as int));
    } else if a >= 10 && b >= 10 {
        assert(s.drop_last() =~= text::decimal(a / 10));
        assert(s.drop_last() =~= text::decimal(b / 10));
        lemma_decimal_injective(a / 10, b / 10);
        assert(s.last() == text::digit((a % 10) as int) && s.last() == text::digit(
            (b % 10) as int,
        ));
    }
}

proof fn lemma_digits(d: Digits)
    ensures
        digits_text(d).len() > 0,
        forall|i: int| 0 <= i < digits_text(d).len() ==> is_digit(#[trigger] digits_text(d)[i]),
{
    let t = digits_text(d);
    assert forall|i: int| 0 <= i < t.len() implies is_digit(#[trigger] t[i]) by {
        if i > 0 {
            assert(t[i] == text::digit((d.rest[i - 1] % 10) as int));
        }
    }
}

/// What a number is made of, and what its ends are.
pub proof fn lemma_number(n: Number)
    ensures
        number_text(n).len() > 0,
        number_text(n)[0] == '-' || is_digit(number_text(n)[0]),
        is_digit(number_text(n).last()),
        forall|i: int|
            0 <= i < number_text(n).len() ==> is_number_char(#[trigger] number_text(n)[i]),
{
    lemma_decimal(n.whole);
    if let Some(d) = n.fraction {
        lemma_digits(d);
    }
    if let Some(e) = n.exponent {
        lemma_digits(e.digits);
    }
    let t = number_text(n);
    let a = sign_text(n.negative);
    let b = text::decimal(n.whole);
    let c = fraction_text(n.fraction);
    let d = exponent_text(n.exponent);
    assert forall|i: int| 0 <= i < c.len() implies is_number_char(#[trigger] c[i]) by {
        if i > 0 {
            assert(c[i] == digits_text(n.fraction->0)[i - 1]);
        }
    }
    assert forall|i: int| 0 <= i < d.len() implies is_number_char(#[trigger] d[i]) by {
        let e = n.exponent->0;
        let k = 1 + plus_text(e.plus).len();
        if i >= k {
            assert(d[i] == digits_text(e.digits)[i - k]);
        }
    }
    assert forall|i: int| 0 <= i < t.len() implies is_number_char(#[trigger] t[i]) by {
        let j = i - a.len();
        let k = j - b.len();
        let l = k - c.len();
        if j < 0 {
            assert(t[i] == a[i]);
        } else if k < 0 {
            assert(t[i] == b[j]);
        } else if l < 0 {
            assert(t[i] == c[k]);
        } else {
            assert(t[i] == d[l]);
        }
    }
    if !n.negative {
        assert(t[0] == b[0]);
    }
    if let Some(e) = n.exponent {
        assert(t.last() == digits_text(e.digits).last());
    } else if let Some(f) = n.fraction {
        assert(t.last() == digits_text(f).last());
    } else {
        assert(t.last() == b.last());
    }
}

/// The text of a whole number from zero on belongs to no other number.
proof fn lemma_count(a: u64, b: Number)
    requires
        number_text(b) == number_text(count_of(a)),
    ensures
        counted(b) == Some(a),
{
    let t = number_text(b);
    lemma_decimal(a as nat);
    lemma_decimal(b.whole);
    assert(t =~= text::decimal(a as nat));
    let n = sign_text(b.negative).len() + text::decimal(b.whole).len() as int;
    if b.negative {
        assert(t[0] == '-');
        assert(is_digit(t[0]));
    }
    if b.fraction is Some {
        assert(t[n] == '.');
        assert(is_digit(t[n]));
    } else if b.exponent is Some {
        assert(t[n] == letter_text(b.exponent->0.capital)[0]);
        assert(is_digit(t[n]));
    }
    assert(t =~= text::decimal(b.whole));
    lemma_decimal_injective(a as nat, b.whole);
}

/// What a number counts is determined by its text.
pub proof fn lemma_counted(a: Number, b: Number)
    requires
        number_text(a) == number_text(b),
    ensures
        counted(a) == counted(b),
{
    if let Some(n) = counted(a) {
        assert(a == count_of(n));
        lemma_count(n, b);
    } else if let Some(n) = counted(b) {
        assert(b == count_of(n));
        lemma_count(n, a);
    }
}

} // verus!
