//! Building text.
use vstd::prelude::*;
use vstd::string::StringExecFns;

verus! {

/// `String::push`: `c` is added at the end of `s`. Taken on trust from the
/// documentation of std.
#[verifier::external_body]
pub(crate) fn push_char(s: &mut String, c: char)
    ensures
        final(s)@ == old(s)@.push(c),
{
    s.push(c);
}

/// Adds `part` at the end of `s`.
pub(crate) fn push_text(s: &mut String, part: &str)
    ensures
        final(s)@ == old(s)@ + part@,
{
    s.append(part);
}

/// The character of a decimal digit.
pub open spec fn digit_char(d: int) -> char {
    if d == 0 {
        '0'
    } else if d == 1 {
        '1'
    } else if d == 2 {
        '2'
    } else if d == 3 {
        '3'
    } else if d == 4 {
        '4'
    } else if d == 5 {
        '5'
    } else if d == 6 {
        '6'
    } else if d == 7 {
        '7'
    } else if d == 8 {
        '8'
    } else {
        '9'
    }
}

/// The decimal digits of `n`, without leading zeros.
pub open spec fn nat_text(n: nat) -> Seq<char>
    decreases n,
{
    if n < 10 {
        seq![digit_char(n as int)]
    } else {
        nat_text(n / 10).push(digit_char((n % 10) as int))
    }
}

/// The digits of `n / divisor`, `n / (divisor / 10) % 10`, and so on down to
/// the last digit of `n` that is not zero: a decimal fraction without
/// trailing zeros.
pub open spec fn fraction_text(n: nat, divisor: nat) -> Seq<char>
    decreases divisor,
{
    if n == 0 || divisor == 0 {
        Seq::empty()
    } else {
        seq![digit_char(((n / divisor) % 10) as int)] + fraction_text(n % divisor, divisor / 10)
    }
}

pub(crate) fn digit(d: u64) -> (c: char)
    requires
        d < 10,
    ensures
        c == digit_char(d as int),
{
    if d == 0 {
        '0'
    } else if d == 1 {
        '1'
    } else if d == 2 {
        '2'
    } else if d == 3 {
        '3'
    } else if d == 4 {
        '4'
    } else if d == 5 {
        '5'
    } else if d == 6 {
        '6'
    } else if d == 7 {
        '7'
    } else if d == 8 {
        '8'
    } else {
        '9'
    }
}

/// Adds the decimal digits of `n` at the end of `s`.
pub(crate) fn push_nat(s: &mut String, n: u64)
    ensures
        final(s)@ == old(s)@ + nat_text(n as nat),
    decreases n,
{
    if n >= 10 {
        push_nat(s, n / 10);
    }
    push_char(s, digit(n % 10));
}

/// Adds the digits of the fraction `n / (10 * divisor)` at the end of `s`.
pub(crate) fn push_fraction(s: &mut String, n: u64, divisor: u64)
    ensures
        final(s)@ == old(s)@ + fraction_text(n as nat, divisor as nat),
    decreases divisor,
{
    if n != 0 && divisor != 0 {
        push_char(s, digit((n / divisor) % 10));
        push_fraction(s, n % divisor, divisor / 10);
    }
}

/// The characters of each of some texts.
pub open spec fn texts_view(texts: Seq<String>) -> Seq<Seq<char>> {
    Seq::new(texts.len(), |i: int| texts[i]@)
}

/// Some texts in a row with `separator` between each two of them.
pub open spec fn joined(parts: Seq<Seq<char>>, separator: Seq<char>) -> Seq<char>
    decreases parts.len(),
{
    if parts.len() == 0 {
        Seq::empty()
    } else if parts.len() == 1 {
        parts[0]
    } else {
        joined(parts.drop_last(), separator) + separator + parts.last()
    }
}

/// `itertools::join`: the texts in a row with `separator` between each two
/// of them. Taken on trust from the documentation of `itertools`.
#[verifier::external_body]
pub(crate) fn join_texts(parts: &Vec<String>, separator: &str) -> (r: String)
    ensures
        r@ == joined(texts_view(parts@), separator@),
{
    itertools::join(parts.iter(), separator)
}

/// Whether a character is a letter or a digit, as Unicode has it.
pub uninterp spec fn is_alphanumeric(c: char) -> bool;

/// `char::is_alphanumeric`. Taken on trust to depend on `c` alone.
#[verifier::external_body]
pub(crate) fn char_is_alphanumeric(c: char) -> (r: bool)
    ensures
        r == is_alphanumeric(c),
{
    c.is_alphanumeric()
}

} // verus!
