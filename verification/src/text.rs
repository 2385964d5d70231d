//! Text helpers shared by the other modules: trimming, decimal rendering,
//! joining and clipping.

use vstd::prelude::*;
use vstd::string::StrSliceExecFns;
use vstd::string::StringExecFns;

verus! {

// ---- Whitespace ------------------------------------------------------------

/// The characters with the Unicode property `White_Space`.
pub open spec fn is_white_space(c: char) -> bool {
    let u = c as u32;
    ||| 0x9 <= u <= 0xd
    ||| u == 0x20
    ||| u == 0x85
    ||| u == 0xa0
    ||| u == 0x1680
    ||| 0x2000 <= u <= 0x200a
    ||| u == 0x2028
    ||| u == 0x2029
    ||| u == 0x202f
    ||| u == 0x205f
    ||| u == 0x3000
}

/// `s` without its leading white space.
pub open spec fn trimmed_start(s: Seq<char>) -> Seq<char>
    decreases s.len(),
{
    if s.len() > 0 && is_white_space(s[0]) {
        trimmed_start(s.drop_first())
    } else {
        s
    }
}

/// `s` without its trailing white space.
pub open spec fn trimmed_end(s: Seq<char>) -> Seq<char>
    decreases s.len(),
{
    if s.len() > 0 && is_white_space(s.last()) {
        trimmed_end(s.drop_last())
    } else {
        s
    }
}

/// `s` without its leading and trailing white space.
pub open spec fn trimmed(s: Seq<char>) -> Seq<char> {
    trimmed_end(trimmed_start(s))
}

/// `s` without the run of `c` at its end.
pub open spec fn without_trailing(s: Seq<char>, c: char) -> Seq<char>
    decreases s.len(),
{
    if s.len() > 0 && s.last() == c {
        without_trailing(s.drop_last(), c)
    } else {
        s
    }
}

/// `str::trim` removes the leading and the trailing run of characters with
/// the Unicode property `White_Space`, and nothing else.
pub assume_specification[ str::trim ](s: &str) -> (r: &str)
    ensures
        r@ == trimmed(s@),
;

/// `str::trim_end_matches` with the character `c` removes the run of `c` at
/// the end of the text, and nothing else.
#[verifier::external_body]
pub(crate) fn trim_end_char(s: &str, c: char) -> (r: &str)
    ensures
        r@ == without_trailing(s@, c),
{
    s.trim_end_matches(c)
}

/// `==` on string slices compares their characters.
pub assume_specification[ <str as PartialEq>::eq ](a: &str, b: &str) -> (r: bool)
    ensures
        r == (a@ == b@),
;

/// Whether two texts are the same.
pub fn same(a: &str, b: &str) -> (r: bool)
    ensures
        r == (a@ == b@),
{
    a.eq(b)
}

/// `String::push` appends one character.
pub assume_specification[ String::push ](s: &mut String, c: char)
    ensures
        final(s)@ == old(s)@.push(c),
;

/// Trimming leaves no white space at either end.
pub proof fn lemma_trimmed_ends(s: Seq<char>)
    ensures
        trimmed(s).len() > 0 ==> !is_white_space(trimmed(s)[0]) && !is_white_space(
            trimmed(s).last(),
        ),
{
    lemma_trimmed_start_head(s);
    lemma_trimmed_end_tail(trimmed_start(s));
}

proof fn lemma_trimmed_start_head(s: Seq<char>)
    ensures
        trimmed_start(s).len() > 0 ==> !is_white_space(trimmed_start(s)[0]),
    decreases s.len(),
{
    if s.len() > 0 && is_white_space(s[0]) {
        lemma_trimmed_start_head(s.drop_first());
    }
}

proof fn lemma_trimmed_end_tail(s: Seq<char>)
    ensures
        trimmed_end(s).len() <= s.len(),
        trimmed_end(s).len() > 0 ==> !is_white_space(trimmed_end(s).last()) && trimmed_end(s)[0]
            == s[0],
    decreases s.len(),
{
    if s.len() > 0 && is_white_space(s.last()) {
        lemma_trimmed_end_tail(s.drop_last());
    }
}

/// A character that is no white space, put behind one that is none either,
/// stays through trimming.
pub proof fn lemma_trimmed_push(s: Seq<char>, c: char)
    requires
        !is_white_space(c),
        s.len() > 0 ==> !is_white_space(s.last()),
    ensures
        trimmed(s.push(c)) == trimmed(s).push(c),
    decreases s.len(),
{
    if s.len() == 0 {
        assert(trimmed(s) =~= s);
        assert(trimmed_start(s.push(c)) == s.push(c));
    } else if is_white_space(s[0]) {
        assert(s.push(c).drop_first() =~= s.drop_first().push(c));
        if s.len() > 1 {
            assert(s.drop_first().last() == s.last());
        }
        lemma_trimmed_push(s.drop_first(), c);
    } else {
        assert(trimmed_start(s.push(c)) == s.push(c));
        assert(trimmed_start(s) == s);
    }
}

/// White space at both ends is trimmed, and nothing between.
pub proof fn lemma_trimmed_padded(before: Seq<char>, s: Seq<char>, after: Seq<char>)
    requires
        s.len() > 0,
        !is_white_space(s[0]),
        !is_white_space(s.last()),
        forall|i: int| 0 <= i < before.len() ==> is_white_space(#[trigger] before[i]),
        forall|i: int| 0 <= i < after.len() ==> is_white_space(#[trigger] after[i]),
    ensures
        trimmed(before + s + after) == s,
    decreases before.len() + after.len(),
{
    let t = before + s + after;
    if before.len() > 0 {
        let rest = before.drop_first();
        assert(is_white_space(before[0]));
        assert forall|i: int| 0 <= i < rest.len() implies is_white_space(#[trigger] rest[i]) by {
            assert(is_white_space(before[i + 1]));
        }
        lemma_trimmed_padded(rest, s, after);
        assert(t.drop_first() =~= rest + s + after);
    } else if after.len() > 0 {
        let rest = after.drop_last();
        assert(is_white_space(after[after.len() - 1]));
        assert forall|i: int| 0 <= i < rest.len() implies is_white_space(#[trigger] rest[i]) by {
            assert(is_white_space(after[i]));
        }
        lemma_trimmed_padded(before, s, rest);
        let u = before + s + rest;
        assert(t.drop_last() =~= u);
        assert(t[0] == s[0] && u[0] == s[0]);
        assert(trimmed_start(t) == t && trimmed_start(u) == u);
        assert(t.last() == after.last());
    } else {
        assert(t =~= s);
    }
}

/// Stripping the run of `c` keeps a prefix, which does not end in `c`.
pub proof fn lemma_without_trailing(s: Seq<char>, c: char)
    ensures
        without_trailing(s, c).len() <= s.len(),
        without_trailing(s, c) == s.take(without_trailing(s, c).len() as int),
        without_trailing(s, c).len() > 0 ==> without_trailing(s, c).last() != c,
    decreases s.len(),
{
    if s.len() > 0 && s.last() == c {
        lemma_without_trailing(s.drop_last(), c);
        let n = without_trailing(s, c).len() as int;
        assert(s.drop_last().take(n) =~= s.take(n));
    } else {
        assert(s.take(s.len() as int) =~= s);
    }
}

// ---- Joining ---------------------------------------------------------------

/// The parts one after the other, with `sep` between neighbours.
pub open spec fn joined(parts: Seq<Seq<char>>, sep: Seq<char>) -> Seq<char>
    decreases parts.len(),
{
    if parts.len() == 0 {
        Seq::empty()
    } else if parts.len() == 1 {
        parts[0]
    } else {
        joined(parts.drop_last(), sep) + sep + parts.last()
    }
}

/// Joins `parts` with `sep` between neighbours.
pub fn join(parts: &Vec<String>, sep: &str) -> (r: String)
    ensures
        r@ == joined(parts.deep_view(), sep@),
{
    let mut out = String::new();
    let mut i: usize = 0;
    assert(parts.deep_view().take(0) =~= Seq::empty());
    while i < parts.len()
        invariant
            i <= parts@.len(),
            out@ == joined(parts.deep_view().take(i as int), sep@),
        decreases parts@.len() - i,
    {
        proof {
            let now = parts.deep_view().take(i as int);
            let next = parts.deep_view().take(i + 1);
            assert(next.drop_last() =~= now);
            assert(next.last() == parts[i as int]@);
        }
        if i > 0 {
            out.append(sep);
        }
        out.append(parts[i].as_str());
        i = i + 1;
    }
    assert(parts.deep_view().take(i as int) =~= parts.deep_view());
    out
}

// ---- Numbers ---------------------------------------------------------------

/// The decimal digit for `d`.
pub open spec fn digit(d: int) -> char {
    (0x30 + d) as char
}

/// `n` in decimal, without leading zeros.
pub open spec fn decimal(n: nat) -> Seq<char>
    decreases n,
{
    if n < 10 {
        seq![digit(n as int)]
    } else {
        decimal(n / 10).push(digit((n % 10) as int))
    }
}

/// `n` in decimal, with a minus sign where it is negative.
pub open spec fn signed_decimal(n: int) -> Seq<char> {
    if n < 0 {
        seq!['-'] + decimal((-n) as nat)
    } else {
        decimal(n as nat)
    }
}

fn digit_char(d: u8) -> (c: char)
    requires
        d < 10,
    ensures
        c == digit(d as int),
{
    (48u8 + d) as char
}

/// Appends `n` in decimal.
pub fn push_decimal(out: &mut String, n: u64)
    ensures
        final(out)@ == old(out)@ + decimal(n as nat),
    decreases n,
{
    if n < 10 {
        out.push(digit_char(n as u8));
    } else {
        push_decimal(out, n / 10);
        out.push(digit_char((n % 10) as u8));
    }
    assert(out@ =~= old(out)@ + decimal(n as nat));
}

/// Appends `n` in decimal, with a minus sign where it is negative.
pub fn push_signed_decimal(out: &mut String, n: i32)
    ensures
        final(out)@ == old(out)@ + signed_decimal(n as int),
{
    if n < 0 {
        out.push('-');
        let magnitude: i64 = -(n as i64);
        push_decimal(out, magnitude as u64);
        assert(out@ =~= old(out)@ + signed_decimal(n as int));
    } else {
        push_decimal(out, n as u64);
    }
}

// ---- Clipping --------------------------------------------------------------

/// The number of bytes that `s` takes in UTF-8.
pub open spec fn utf8_len(s: Seq<char>) -> nat {
    vstd::utf8::encode_utf8(s).len()
}

/// The longest prefix of `s` that takes at most `max` bytes in UTF-8.
pub open spec fn clipped(s: Seq<char>, max: nat) -> Seq<char>
    decreases s.len(),
{
    if s.len() == 0 || utf8_len(s) <= max {
        s
    } else {
        clipped(s.drop_last(), max)
    }
}

/// Appending a character adds the length of its encoding.
proof fn lemma_utf8_len_push(s: Seq<char>, c: char)
    ensures
        utf8_len(s.push(c)) == utf8_len(s) + vstd::utf8::encode_scalar(c as u32).len(),
    decreases s.len(),
{
    reveal_with_fuel(vstd::utf8::encode_utf8, 2);
    if s.len() == 0 {
        assert(s.push(c).drop_first() =~= s);
    } else {
        assert(s.push(c).drop_first() =~= s.drop_first().push(c));
        lemma_utf8_len_push(s.drop_first(), c);
    }
}

/// A prefix is no longer than the whole.
proof fn lemma_utf8_len_prefix(s: Seq<char>, n: int)
    requires
        0 <= n <= s.len(),
    ensures
        utf8_len(s.take(n)) <= utf8_len(s),
    decreases s.len() - n,
{
    if n < s.len() {
        lemma_utf8_len_push(s.take(n), s[n]);
        assert(s.take(n).push(s[n]) =~= s.take(n + 1));
        lemma_utf8_len_prefix(s, n + 1);
    } else {
        assert(s.take(n) =~= s);
    }
}

/// A prefix that fits, and whose extension by one character does not, is the
/// longest one that fits.
proof fn lemma_clipped(s: Seq<char>, n: int, max: nat)
    requires
        0 <= n <= s.len(),
        utf8_len(s.take(n)) <= max,
        n < s.len() ==> utf8_len(s.take(n + 1)) > max,
    ensures
        clipped(s, max) == s.take(n),
    decreases s.len(),
{
    if n == s.len() {
        assert(s.take(n) =~= s);
    } else {
        lemma_utf8_len_prefix(s, n + 1);
        let t = s.drop_last();
        assert(t.take(n) =~= s.take(n));
        if n < t.len() {
            assert(t.take(n + 1) =~= s.take(n + 1));
        }
        lemma_clipped(t, n, max);
    }
}

fn utf8_width(c: char) -> (w: usize)
    ensures
        w == vstd::utf8::encode_scalar(c as u32).len(),
        1 <= w <= 4,
{
    let u: u32 = c as u32;
    if u <= 0x7f {
        1
    } else if u <= 0x7ff {
        2
    } else if u <= 0xffff {
        3
    } else {
        4
    }
}

/// The longest prefix of `s` of at most `max` bytes, so that one oversized
/// payload cannot flood a message. A character is never cut in two.
pub fn truncate_for_log<'a>(s: &'a str, max: usize) -> (r: &'a str)
    ensures
        r@ == clipped(s@, max as nat),
{
    let mut kept: usize = 0;
    let mut used: usize = 0;
    for c in it: s.chars()
        invariant
            it.seq() == s@,
            kept == it.index(),
            kept <= used <= max,
            kept <= s@.len(),
            used == utf8_len(s@.take(kept as int)),
    {
        let width: usize = utf8_width(c);
        proof {
            lemma_utf8_len_push(s@.take(kept as int), c);
            assert(s@.take(kept as int).push(c) =~= s@.take(kept + 1));
        }
        if width > max - used {
            proof {
                lemma_clipped(s@, kept as int, max as nat);
            }
            return s.substring_char(0, kept);
        }
        kept = kept + 1;
        used = used + width;
    }
    proof {
        lemma_clipped(s@, kept as int, max as nat);
        assert(s@.take(kept as int) =~= s@);
    }
    s
}

// ---- Laws ------------------------------------------------------------------

/// Trimming takes white space off both ends, all of it, and nothing else.
pub proof fn law_trimming_takes_white_space(s: Seq<char>) -> (cut: (Seq<char>, Seq<char>))
    ensures
        s == cut.0 + trimmed(s) + cut.1,
        forall|i: int| 0 <= i < cut.0.len() ==> is_white_space(#[trigger] cut.0[i]),
        forall|i: int| 0 <= i < cut.1.len() ==> is_white_space(#[trigger] cut.1[i]),
        trimmed(s).len() > 0 ==> !is_white_space(trimmed(s)[0]) && !is_white_space(
            trimmed(s).last(),
        ),
    decreases s.len(),
{
    lemma_trimmed_ends(s);
    if s.len() > 0 && is_white_space(s[0]) {
        let rest = s.drop_first();
        let cut = law_trimming_takes_white_space(rest);
        let front = seq![s[0]] + cut.0;
        assert forall|i: int| 0 <= i < front.len() implies is_white_space(#[trigger] front[i]) by {
            if i > 0 {
                assert(is_white_space(cut.0[i - 1]));
            }
        }
        assert(s =~= seq![s[0]] + rest);
        assert(seq![s[0]] + (cut.0 + trimmed(s) + cut.1) =~= front + trimmed(s) + cut.1);
        (front, cut.1)
    } else {
        let back = lemma_cut_end(s);
        assert(s =~= Seq::<char>::empty() + trimmed(s) + back);
        (Seq::empty(), back)
    }
}

proof fn lemma_cut_end(s: Seq<char>) -> (back: Seq<char>)
    ensures
        s == trimmed_end(s) + back,
        forall|i: int| 0 <= i < back.len() ==> is_white_space(#[trigger] back[i]),
    decreases s.len(),
{
    if s.len() > 0 && is_white_space(s.last()) {
        let back = lemma_cut_end(s.drop_last());
        let all = back.push(s.last());
        assert forall|i: int| 0 <= i < all.len() implies is_white_space(#[trigger] all[i]) by {
            if i < back.len() {
                assert(is_white_space(back[i]));
            }
        }
        assert(s =~= s.drop_last().push(s.last()));
        assert((trimmed_end(s) + back).push(s.last()) =~= trimmed_end(s) + all);
        all
    } else {
        assert(s =~= s + Seq::<char>::empty());
        Seq::empty()
    }
}

/// Nothing is left of a text exactly where it is all white space.
pub proof fn law_blank_text_is_trimmed_away(s: Seq<char>)
    ensures
        trimmed(s).len() == 0 <==> forall|i: int|
            0 <= i < s.len() ==> is_white_space(#[trigger] s[i]),
{
    let cut = law_trimming_takes_white_space(s);
    if trimmed(s).len() == 0 {
        assert forall|i: int| 0 <= i < s.len() implies is_white_space(#[trigger] s[i]) by {
            if i < cut.0.len() {
                assert(is_white_space(cut.0[i]));
            } else {
                assert(is_white_space(cut.1[i - cut.0.len()]));
            }
        }
    } else {
        assert(s[cut.0.len() as int] == trimmed(s)[0]);
    }
}

/// Taking off the run of `c` leaves a text that does not end in `c`, and only
/// `c` was taken off.
pub proof fn law_only_the_run_is_taken(s: Seq<char>, c: char) -> (run: Seq<char>)
    ensures
        s == without_trailing(s, c) + run,
        forall|i: int| 0 <= i < run.len() ==> #[trigger] run[i] == c,
        without_trailing(s, c).len() > 0 ==> without_trailing(s, c).last() != c,
    decreases s.len(),
{
    lemma_without_trailing(s, c);
    if s.len() > 0 && s.last() == c {
        let run = law_only_the_run_is_taken(s.drop_last(), c);
        assert(s =~= s.drop_last().push(c));
        assert((without_trailing(s, c) + run).push(c) =~= without_trailing(s, c) + run.push(c));
        run.push(c)
    } else {
        assert(s =~= s + Seq::<char>::empty());
        Seq::empty()
    }
}

/// A text between two runs is found again: the white space around it and the
/// run of `c` at its end are taken off, and nothing of the text.
pub proof fn law_text_without_run_is_kept(s: Seq<char>, c: char, run: Seq<char>)
    requires
        s.len() > 0 ==> s.last() != c,
        forall|i: int| 0 <= i < run.len() ==> #[trigger] run[i] == c,
    ensures
        without_trailing(s + run, c) == s,
    decreases run.len(),
{
    if run.len() > 0 {
        assert(run[run.len() - 1] == c);
        assert((s + run).drop_last() =~= s + run.drop_last());
        law_text_without_run_is_kept(s, c, run.drop_last());
    } else {
        assert(s + run =~= s);
    }
}

/// Joining puts the separator between neighbours and nowhere else.
pub proof fn law_joined(parts: Seq<Seq<char>>, part: Seq<char>, sep: Seq<char>)
    ensures
        joined(Seq::empty(), sep) == Seq::<char>::empty(),
        parts.len() == 0 ==> joined(parts.push(part), sep) == part,
        parts.len() > 0 ==> joined(parts.push(part), sep) == joined(parts, sep) + sep + part,
{
    assert(parts.push(part).drop_last() =~= parts);
}

/// The number that decimal digits stand for.
pub open spec fn number_of(digits: Seq<char>) -> int
    decreases digits.len(),
{
    if digits.len() == 0 {
        0
    } else {
        10 * number_of(digits.drop_last()) + (digits.last() as int - '0' as int)
    }
}

/// A number in decimal is made of digits that stand for it, without leading
/// zeros.
pub proof fn law_decimal_stands_for_its_number(n: nat)
    ensures
        number_of(decimal(n)) == n,
        decimal(n).len() > 0,
        forall|i: int| 0 <= i < decimal(n).len() ==> '0' <= #[trigger] decimal(n)[i] <= '9',
        decimal(n)[0] == '0' ==> n == 0 && decimal(n).len() == 1,
    decreases n,
{
    if n < 10 {
        assert(decimal(n).drop_last() =~= Seq::empty());
        assert(number_of(decimal(n).drop_last()) == 0);
    } else {
        law_decimal_stands_for_its_number(n / 10);
        assert(decimal(n).drop_last() =~= decimal(n / 10));
        assert(decimal(n)[0] == decimal(n / 10)[0]);
    }
}

/// A number with a sign is its magnitude, behind a minus sign where it is
/// negative.
pub proof fn law_signed_decimal(n: int)
    ensures
        n >= 0 ==> signed_decimal(n) == decimal(n as nat),
        n < 0 ==> signed_decimal(n) == seq!['-'] + decimal((-n) as nat),
{
}

/// What is left of a text is its longest prefix of at most `max` bytes: it
/// fits, and with one character more it would not. A text that fits stays
/// whole.
pub proof fn law_clipped_is_the_longest_that_fits(s: Seq<char>, max: nat)
    ensures
        ({
            let n = clipped(s, max).len() as int;
            &&& n <= s.len()
            &&& clipped(s, max) == s.take(n)
            &&& vstd::utf8::encode_utf8(s.take(n)).len() <= max
            &&& n < s.len() ==> vstd::utf8::encode_utf8(s.take(n + 1)).len() > max
        }),
    decreases s.len(),
{
    reveal_with_fuel(vstd::utf8::encode_utf8, 1);
    if s.len() == 0 || utf8_len(s) <= max {
        assert(s.take(s.len() as int) =~= s);
    } else {
        let t = s.drop_last();
        law_clipped_is_the_longest_that_fits(t, max);
        let n = clipped(t, max).len() as int;
        assert(t.take(n) =~= s.take(n));
        if n < t.len() {
            assert(t.take(n + 1) =~= s.take(n + 1));
        } else {
            assert(s.take(n + 1) =~= s);
        }
    }
}

} // verus!
