//! Numbers of the language: IEEE 754 binary64 values, held by their bit pattern.
//!
//! A number is a `u64`: one sign bit, eleven exponent bits, fifty-two fraction
//! bits. Sign, order, equality and negation are decided on the bits here.
//! Sums, differences, products, quotients and the conversions from and to
//! decimal text are computed by `rustc_apfloat`, a software implementation of
//! IEEE 754 arithmetic; each of those results has a name in this module, and
//! nothing more is claimed of it than that the same operands give the same
//! result.
use crate::text::exponent;
use crate::text::has_minus;
use crate::text::laid_out;
use crate::text::lay_out;
use crate::text::significand;
use crate::text::split_scientific;
use crate::text::EXPONENT_LIMIT;
use rustc_apfloat::ieee::Double;
use rustc_apfloat::Float;
use vstd::prelude::*;
use vstd::string::StringExecFns;

verus! {

/// The sign bit of a binary64 pattern.
pub const SIGN_BIT: u64 = 0x8000_0000_0000_0000;

/// Every bit of a binary64 pattern but the sign.
pub const MAGNITUDE_MASK: u64 = 0x7fff_ffff_ffff_ffff;

/// The magnitude of an infinity: all exponent bits set, no fraction bit.
pub const INFINITY_BITS: u64 = 0x7ff0_0000_0000_0000;

/// The number of significant digits to which a number is expanded before
/// its shortest numeral is sought. Seventeen digits tell any two binary64
/// numbers apart; the three beyond show to which side a shorter numeral
/// is to be rounded.
pub const TEXT_PRECISION_LIMIT: usize = 20;

/// The pattern without its sign.
pub open spec fn magnitude(bits: u64) -> u64 {
    bits & MAGNITUDE_MASK
}

/// The sign bit is set. This holds of negative zero and of some NaNs too.
pub open spec fn is_negative(bits: u64) -> bool {
    bits & SIGN_BIT != 0
}

/// The pattern is not a number: all exponent bits set and some fraction bit.
pub open spec fn is_nan(bits: u64) -> bool {
    magnitude(bits) > INFINITY_BITS
}

/// The pattern is positive or negative infinity.
pub open spec fn is_infinite(bits: u64) -> bool {
    magnitude(bits) == INFINITY_BITS
}

/// The pattern is positive or negative zero.
pub open spec fn is_zero(bits: u64) -> bool {
    magnitude(bits) == 0
}

/// Where a pattern that is no NaN stands among the others: the patterns
/// ordered by `rank` are the numbers ordered by value, and the two zeros share
/// rank 0.
pub open spec fn rank(bits: u64) -> int {
    if is_negative(bits) {
        -(magnitude(bits) as int)
    } else {
        magnitude(bits) as int
    }
}

/// IEEE 754 equality: a NaN equals nothing, the two zeros are equal.
pub open spec fn same_number(a: u64, b: u64) -> bool {
    !is_nan(a) && !is_nan(b) && rank(a) == rank(b)
}

/// IEEE 754 `<`: false as soon as one side is a NaN.
pub open spec fn less(a: u64, b: u64) -> bool {
    !is_nan(a) && !is_nan(b) && rank(a) < rank(b)
}

/// IEEE 754 `<=`: false as soon as one side is a NaN.
pub open spec fn less_or_equal(a: u64, b: u64) -> bool {
    !is_nan(a) && !is_nan(b) && rank(a) <= rank(b)
}

/// The negated number: the same pattern with the sign bit flipped.
pub open spec fn negated(bits: u64) -> u64 {
    bits ^ SIGN_BIT
}

/// The sum of two numbers, rounded to nearest, ties to even.
pub uninterp spec fn sum_bits(a: u64, b: u64) -> u64;

/// The difference of two numbers, rounded to nearest, ties to even.
pub uninterp spec fn difference_bits(a: u64, b: u64) -> u64;

/// The product of two numbers, rounded to nearest, ties to even.
pub uninterp spec fn product_bits(a: u64, b: u64) -> u64;

/// The quotient of two numbers, rounded to nearest, ties to even.
pub uninterp spec fn quotient_bits(a: u64, b: u64) -> u64;

/// The number that a decimal text denotes, where it denotes one.
pub uninterp spec fn decimal_bits(text: Seq<char>) -> Option<u64>;

/// The decimal text of a number with at most `precision` significant digits,
/// written without exponent as long as that takes at most `padding` zeros.
pub uninterp spec fn formatted_bits(bits: u64, precision: nat, padding: nat) -> Seq<char>;

/// An ASCII decimal digit.
pub open spec fn is_digit(c: char) -> bool {
    '0' <= c <= '9'
}

/// Every character of `s` from `from` on is a decimal digit.
pub open spec fn all_digits(s: Seq<char>, from: int) -> bool {
    forall|i: int| from <= i < s.len() ==> is_digit(#[trigger] s[i])
}

/// The text is digits up to `dot`, at least one, and either ends there or
/// goes on with a dot and one or more digits.
pub open spec fn splits_at(s: Seq<char>, dot: int) -> bool {
    &&& 0 < dot <= s.len()
    &&& forall|i: int| 0 <= i < dot ==> is_digit(#[trigger] s[i])
    &&& dot < s.len() ==> s[dot] == '.' && dot + 1 < s.len() && all_digits(s, dot + 1)
}

/// The shape of a number as it is written in source text: one or more
/// digits, then optionally a dot and one or more digits.
pub open spec fn is_decimal_literal(s: Seq<char>) -> bool {
    exists|dot: int| splits_at(s, dot)
}

/// The digit after `c`; `c` itself where `c` is no digit below nine.
pub open spec fn next_digit(c: char) -> char {
    if '0' <= c <= '8' {
        ((c as u8) + 1) as char
    } else {
        c
    }
}

/// The digits of the number that is greater by one in the last place. Where
/// all the digits are nines there is one digit more: a one, then zeros.
pub open spec fn incremented(digits: Seq<char>) -> Seq<char>
    decreases digits.len(),
{
    if digits.len() == 0 {
        seq!['1']
    } else if digits.last() == '9' {
        incremented(digits.drop_last()).push('0')
    } else {
        digits.drop_last().push(next_digit(digits.last()))
    }
}

/// The numeral of the number cut behind its first `p` significant digits:
/// rounded towards zero, or away from zero where `up` holds.
pub open spec fn rounded(negative: bool, digits: Seq<char>, exponent: int, p: int, up: bool) -> Seq<
    char,
> {
    let kept = digits.subrange(0, p);
    if up {
        let raised = incremented(kept);
        laid_out(negative, raised, exponent + raised.len() - p)
    } else {
        laid_out(negative, kept, exponent)
    }
}

/// The numeral with the fewest significant digits, `p` at least, that reads
/// back as `bits`. The number is given by its sign, its significant digits
/// and its exponent of ten, and is cut behind ever more of its digits; at
/// each length the rounding to the nearer side is tried first. Where no
/// shorter numeral reads back, the result is the numeral of all the digits.
pub open spec fn shortest_numeral(
    bits: u64,
    negative: bool,
    digits: Seq<char>,
    exponent: int,
    p: int,
) -> Seq<char>
    decreases digits.len() - p,
{
    if p < 1 || p >= digits.len() {
        laid_out(negative, digits, exponent)
    } else {
        let up = digits[p] >= '5';
        let nearer = rounded(negative, digits, exponent, p, up);
        let farther = rounded(negative, digits, exponent, p, !up);
        if decimal_bits(nearer) == Some(bits) {
            nearer
        } else if decimal_bits(farther) == Some(bits) {
            farther
        } else {
            shortest_numeral(bits, negative, digits, exponent, p + 1)
        }
    }
}

/// The text of a finite number with all the digits that it may take, in
/// scientific notation.
pub open spec fn full_text(bits: u64) -> Seq<char> {
    formatted_bits(bits, TEXT_PRECISION_LIMIT as nat, 0)
}

/// The text of a finite number: the shortest numeral without exponent that
/// reads back as the number. (Should no such numeral read back, the text is
/// the full text in scientific notation.)
pub open spec fn finite_text(bits: u64) -> Seq<char> {
    let full = full_text(bits);
    let numeral = shortest_numeral(bits, has_minus(full), significand(full), exponent(full), 1);
    if decimal_bits(numeral) == Some(bits) {
        numeral
    } else {
        full
    }
}

/// The text of a number: `NaN`, `inf`, `-inf`, or the decimal text of a
/// finite number.
pub open spec fn number_text(bits: u64) -> Seq<char> {
    if is_nan(bits) {
        "NaN"@
    } else if is_infinite(bits) {
        if is_negative(bits) {
            "-inf"@
        } else {
            "inf"@
        }
    } else {
        finite_text(bits)
    }
}

/// `rustc_apfloat::ieee::Double`'s `+`: both patterns are read with
/// `Float::from_bits`, added, and the sum is written with `Float::to_bits`.
/// The contract gives the result its name and claims no more.
#[verifier::external_body]
pub(crate) fn sum(a: u64, b: u64) -> (r: u64)
    ensures
        r == sum_bits(a, b),
{
    (Double::from_bits(a as u128) + Double::from_bits(b as u128)).value.to_bits() as u64
}

/// `rustc_apfloat::ieee::Double`'s `-`, on patterns as in [`sum`].
/// The contract gives the result its name and claims no more.
#[verifier::external_body]
pub(crate) fn difference(a: u64, b: u64) -> (r: u64)
    ensures
        r == difference_bits(a, b),
{
    (Double::from_bits(a as u128) - Double::from_bits(b as u128)).value.to_bits() as u64
}

/// `rustc_apfloat::ieee::Double`'s `*`, on patterns as in [`sum`].
/// The contract gives the result its name and claims no more.
#[verifier::external_body]
pub(crate) fn product(a: u64, b: u64) -> (r: u64)
    ensures
        r == product_bits(a, b),
{
    (Double::from_bits(a as u128) * Double::from_bits(b as u128)).value.to_bits() as u64
}

/// `rustc_apfloat::ieee::Double`'s `/`, on patterns as in [`sum`].
/// The contract gives the result its name and claims no more.
#[verifier::external_body]
pub(crate) fn quotient(a: u64, b: u64) -> (r: u64)
    ensures
        r == quotient_bits(a, b),
{
    (Double::from_bits(a as u128) / Double::from_bits(b as u128)).value.to_bits() as u64
}

/// `rustc_apfloat::ieee::Double`'s `FromStr::from_str`, which reads a decimal
/// text and rounds to nearest, ties to even. The contract names the result,
/// `None` where the text is refused, and claims one thing more: a text of
/// digits with at most one dot between them is never refused (the crate
/// refuses an empty text, a text without digits, a second dot and a character
/// that is neither digit, dot nor exponent mark).
#[verifier::external_body]
pub(crate) fn parse_decimal(text: &str) -> (r: Option<u64>)
    ensures
        r == decimal_bits(text@),
        is_decimal_literal(text@) ==> r is Some,
{
    match text.parse::<Double>() {
        Ok(value) => Some(value.to_bits() as u64),
        Err(_) => None,
    }
}

/// `rustc_apfloat::ieee::Double`'s `Display::fmt`, with `precision` as the
/// formatter's precision and `padding` as its width. The contract names the
/// result and claims no more. Both arguments are bounded because the
/// formatter refuses widths and precisions beyond sixteen bits.
#[verifier::external_body]
fn format_number(bits: u64, precision: usize, padding: usize) -> (r: String)
    requires
        1 <= precision <= 1000,
        padding <= 1000,
    ensures
        r@ == formatted_bits(bits, precision as nat, padding as nat),
{
    format!("{:1$.2$}", Double::from_bits(bits as u128), padding, precision)
}

/// Whether the pattern is a NaN.
pub fn nan(bits: u64) -> (r: bool)
    ensures
        r == is_nan(bits),
{
    bits & MAGNITUDE_MASK > INFINITY_BITS
}

/// Whether the pattern is an infinity.
pub fn infinite(bits: u64) -> (r: bool)
    ensures
        r == is_infinite(bits),
{
    bits & MAGNITUDE_MASK == INFINITY_BITS
}

/// Whether the pattern is one of the two zeros.
pub fn zero(bits: u64) -> (r: bool)
    ensures
        r == is_zero(bits),
{
    bits & MAGNITUDE_MASK == 0
}

/// Whether the sign bit is set.
pub fn negative(bits: u64) -> (r: bool)
    ensures
        r == is_negative(bits),
{
    bits & SIGN_BIT != 0
}

/// The negated number.
pub fn negate(bits: u64) -> (r: u64)
    ensures
        r == negated(bits),
{
    bits ^ SIGN_BIT
}

/// IEEE 754 equality of two numbers.
pub fn equal(a: u64, b: u64) -> (r: bool)
    ensures
        r == same_number(a, b),
{
    if nan(a) || nan(b) {
        false
    } else {
        let ma: u64 = a & MAGNITUDE_MASK;
        let mb: u64 = b & MAGNITUDE_MASK;
        ma == mb && (ma == 0 || negative(a) == negative(b))
    }
}

/// IEEE 754 `<` of two numbers.
pub fn less_than(a: u64, b: u64) -> (r: bool)
    ensures
        r == less(a, b),
{
    if nan(a) || nan(b) {
        false
    } else {
        let ma: u64 = a & MAGNITUDE_MASK;
        let mb: u64 = b & MAGNITUDE_MASK;
        if negative(a) {
            if negative(b) {
                mb < ma
            } else {
                ma != 0 || mb != 0
            }
        } else {
            !negative(b) && ma < mb
        }
    }
}

/// IEEE 754 `<=` of two numbers.
pub fn at_most(a: u64, b: u64) -> (r: bool)
    ensures
        r == less_or_equal(a, b),
{
    if nan(a) || nan(b) {
        false
    } else {
        let ma: u64 = a & MAGNITUDE_MASK;
        let mb: u64 = b & MAGNITUDE_MASK;
        if negative(a) {
            if negative(b) {
                mb <= ma
            } else {
                true
            }
        } else {
            if negative(b) {
                ma == 0 && mb == 0
            } else {
                ma <= mb
            }
        }
    }
}

/// The first `p` of the digits.
fn prefix(digits: &Vec<char>, p: usize) -> (r: Vec<char>)
    requires
        p <= digits@.len(),
    ensures
        r@ == digits@.subrange(0, p as int),
{
    let mut r: Vec<char> = Vec::new();
    let mut i: usize = 0;
    while i < p
        invariant
            i <= p <= digits@.len(),
            r@ == digits@.subrange(0, i as int),
        decreases p - i,
    {
        r.push(digits[i]);
        i += 1;
        assert(r@ =~= digits@.subrange(0, i as int));
    }
    r
}

/// The first `p` of the digits, as a number made greater by one in the last place.
fn incremented_prefix(digits: &Vec<char>, p: usize) -> (r: Vec<char>)
    requires
        p <= digits@.len(),
    ensures
        r@ == incremented(digits@.subrange(0, p as int)),
        p <= r@.len() <= p + 1,
    decreases p,
{
    if p == 0 {
        let mut r: Vec<char> = Vec::new();
        r.push('1');
        assert(r@ =~= seq!['1']);
        r
    } else {
        assert(digits@.subrange(0, p as int).drop_last() =~= digits@.subrange(0, p - 1));
        let last = digits[p - 1];
        if last == '9' {
            let mut r = incremented_prefix(digits, p - 1);
            r.push('0');
            r
        } else {
            let mut r = prefix(digits, p - 1);
            if '0' <= last && last <= '8' {
                r.push(((last as u8) + 1) as char);
            } else {
                r.push(last);
            }
            r
        }
    }
}

/// The numeral of the number cut behind its first `p` significant digits.
fn rounded_text(negative: bool, digits: &Vec<char>, exponent: i64, p: usize, up: bool) -> (r: String)
    requires
        p <= digits@.len(),
        -(EXPONENT_LIMIT as int) <= exponent <= EXPONENT_LIMIT as int,
    ensures
        r@ == rounded(negative, digits@, exponent as int, p as int, up),
{
    if up {
        let raised = incremented_prefix(digits, p);
        let grown: i64 = if raised.len() > p {
            1
        } else {
            0
        };
        lay_out(negative, &raised, exponent + grown)
    } else {
        let kept = prefix(digits, p);
        lay_out(negative, &kept, exponent)
    }
}

/// The numeral with the fewest significant digits that reads back as `bits`.
fn shortest(bits: u64, negative: bool, digits: &Vec<char>, exponent: i64) -> (r: String)
    requires
        -(EXPONENT_LIMIT as int) <= exponent <= EXPONENT_LIMIT as int,
    ensures
        r@ == shortest_numeral(bits, negative, digits@, exponent as int, 1),
{
    let mut p: usize = 1;
    while p < digits.len()
        invariant
            1 <= p,
            -(EXPONENT_LIMIT as int) <= exponent <= EXPONENT_LIMIT as int,
            shortest_numeral(bits, negative, digits@, exponent as int, 1) == shortest_numeral(
                bits,
                negative,
                digits@,
                exponent as int,
                p as int,
            ),
        decreases digits.len() - p,
    {
        let c = digits[p];
        let up = c >= '5';
        let nearer = rounded_text(negative, digits, exponent, p, up);
        if parse_decimal(nearer.as_str()) == Some(bits) {
            return nearer;
        }
        let farther = rounded_text(negative, digits, exponent, p, !up);
        if parse_decimal(farther.as_str()) == Some(bits) {
            return farther;
        }
        p += 1;
    }
    lay_out(negative, digits, exponent)
}

/// The text of a number, as the print statement and the tree printer write it.
pub fn to_text(bits: u64) -> (r: String)
    ensures
        r@ == number_text(bits),
{
    if nan(bits) {
        String::from_str("NaN")
    } else if infinite(bits) {
        if negative(bits) {
            String::from_str("-inf")
        } else {
            String::from_str("inf")
        }
    } else {
        let full = format_number(bits, TEXT_PRECISION_LIMIT, 0);
        let (minus, digits, exponent) = split_scientific(full.as_str());
        let numeral = shortest(bits, minus, &digits, exponent);
        if parse_decimal(numeral.as_str()) == Some(bits) {
            numeral
        } else {
            full
        }
    }
}

/// Whatever `p` the search starts from, what it finds reads back as `bits`
/// as soon as the numeral of all the digits does.
proof fn lemma_shortest_reads_back(bits: u64, negative: bool, digits: Seq<char>, exponent: int, p: int)
    requires
        decimal_bits(laid_out(negative, digits, exponent)) == Some(bits),
    ensures
        decimal_bits(shortest_numeral(bits, negative, digits, exponent, p)) == Some(bits),
    decreases digits.len() - p,
{
    if 1 <= p < digits.len() {
        let up = digits[p] >= '5';
        let nearer = rounded(negative, digits, exponent, p, up);
        let farther = rounded(negative, digits, exponent, p, !up);
        if decimal_bits(nearer) != Some(bits) && decimal_bits(farther) != Some(bits) {
            lemma_shortest_reads_back(bits, negative, digits, exponent, p + 1);
        }
    }
}

/// The text of a finite number reads back as the number, as soon as its
/// full text does, in scientific notation or laid out without exponent.
pub proof fn lemma_text_reads_back(bits: u64)
    requires
        !is_nan(bits),
        !is_infinite(bits),
        decimal_bits(full_text(bits)) == Some(bits) || decimal_bits(
            laid_out(
                has_minus(full_text(bits)),
                significand(full_text(bits)),
                exponent(full_text(bits)),
            ),
        ) == Some(bits),
    ensures
        decimal_bits(number_text(bits)) == Some(bits),
{
    let full = full_text(bits);
    if decimal_bits(laid_out(has_minus(full), significand(full), exponent(full))) == Some(bits) {
        lemma_shortest_reads_back(bits, has_minus(full), significand(full), exponent(full), 1);
    }
}

} // verus!
