//! Building texts character by character.
use vstd::prelude::*;
use vstd::string::StrSliceExecFns;

verus! {

/// `String::push`: the character is appended to the text.
pub assume_specification[ std::string::String::push ](s: &mut std::string::String, ch: char)
    ensures
        final(s)@ == old(s)@.push(ch),
;

/// The character of a decimal digit.
pub open spec fn digit_char(d: nat) -> char
    recommends
        d < 10,
{
    ((d + 48) as u8) as char
}

/// The decimal numeral of a natural number, without leading zeros.
pub open spec fn decimal(n: nat) -> Seq<char>
    decreases n,
{
    if n < 10 {
        seq![digit_char(n)]
    } else {
        decimal(n / 10).push(digit_char(n % 10))
    }
}

/// Appends the decimal numeral of `n` to `s`.
pub fn push_decimal(s: &mut String, n: u32)
    ensures
        final(s)@ == old(s)@ + decimal(n as nat),
    decreases n,
{
    if n >= 10 {
        push_decimal(s, n / 10);
    }
    let d: u8 = (n % 10) as u8;
    s.push((d + 48) as char);
}

/// The greatest exponent of ten, by magnitude, that a numeral is read with;
/// a greater one counts as this one.
pub const EXPONENT_LIMIT: usize = 1000;

/// The place of the first `E` in `s` from `from` on; the end of `s` where there is none.
pub open spec fn exponent_mark(s: Seq<char>, from: int) -> int
    decreases s.len() - from,
{
    if from < 0 || from >= s.len() {
        s.len() as int
    } else if s[from] == 'E' {
        from
    } else {
        exponent_mark(s, from + 1)
    }
}

/// The decimal digits among the characters of `s` from `from` up to, not including, `to`.
pub open spec fn digits_in(s: Seq<char>, from: int, to: int) -> Seq<char>
    decreases to - from,
{
    if to <= from || from < 0 || to > s.len() {
        Seq::empty()
    } else if '0' <= s[to - 1] <= '9' {
        digits_in(s, from, to - 1).push(s[to - 1])
    } else {
        digits_in(s, from, to - 1)
    }
}

/// The digits without the zeros at their end.
pub open spec fn without_trailing_zeros(digits: Seq<char>) -> Seq<char>
    decreases digits.len(),
{
    if digits.len() > 0 && digits.last() == '0' {
        without_trailing_zeros(digits.drop_last())
    } else {
        digits
    }
}

/// The number that the digits denote, or [`EXPONENT_LIMIT`] if that is less.
pub open spec fn capped_value(digits: Seq<char>) -> nat
    decreases digits.len(),
{
    if digits.len() == 0 {
        0
    } else {
        let value = capped_value(digits.drop_last()) * 10 + (digits.last() as nat - 48);
        if value > EXPONENT_LIMIT as nat {
            EXPONENT_LIMIT as nat
        } else {
            value as nat
        }
    }
}

/// `n` zeros.
pub open spec fn zeros(n: nat) -> Seq<char> {
    Seq::new(n, |i: int| '0')
}

/// Whether a numeral in scientific notation has a minus sign in front.
pub open spec fn has_minus(text: Seq<char>) -> bool {
    text.len() > 0 && text[0] == '-'
}

/// The significant digits of a numeral in scientific notation: the digits in
/// front of its `E`.
pub open spec fn significand(text: Seq<char>) -> Seq<char> {
    digits_in(text, 0, exponent_mark(text, 0))
}

/// The exponent of ten of a numeral in scientific notation: the number
/// behind its `E`, with its sign; 0 where there is none.
pub open spec fn exponent(text: Seq<char>) -> int {
    let mark = exponent_mark(text, 0);
    let magnitude = capped_value(digits_in(text, mark + 1, text.len() as int));
    if mark + 1 < text.len() && text[mark + 1] == '-' {
        -magnitude
    } else {
        magnitude as int
    }
}

/// The numeral, without exponent, of the number whose significant digits are
/// `digits` without the zeros at their end, the first digit standing
/// `exponent` places to the left of the units. No digits at all stand for
/// zero. The digits `125` give `125` with the exponent 2, `1.25` with 0,
/// `0.00125` with -3 and `12500` with 4.
pub open spec fn laid_out(negative: bool, digits: Seq<char>, exponent: int) -> Seq<char> {
    let sign = if negative {
        seq!['-']
    } else {
        Seq::empty()
    };
    let kept = without_trailing_zeros(digits);
    if kept.len() == 0 {
        sign + seq!['0']
    } else if exponent < 0 {
        sign + seq!['0', '.'] + zeros((-exponent - 1) as nat) + kept
    } else if kept.len() <= exponent + 1 {
        sign + kept + zeros((exponent + 1 - kept.len()) as nat)
    } else {
        sign + kept.subrange(0, exponent + 1) + seq!['.'] + kept.subrange(
            exponent + 1,
            kept.len() as int,
        )
    }
}

/// Appends `n` zeros to `s`.
fn push_zeros(s: &mut String, n: usize)
    ensures
        final(s)@ == old(s)@ + zeros(n as nat),
{
    let mut i: usize = 0;
    proof {
        assert(s@ =~= old(s)@ + zeros(0));
    }
    while i < n
        invariant
            i <= n,
            s@ == old(s)@ + zeros(i as nat),
        decreases n - i,
    {
        s.push('0');
        i += 1;
        assert(s@ =~= old(s)@ + zeros(i as nat));
    }
}

/// Appends the characters of `digits` from `from` up to, not including, `to` to `s`.
fn push_range(s: &mut String, digits: &Vec<char>, from: usize, to: usize)
    requires
        from <= to <= digits@.len(),
    ensures
        final(s)@ == old(s)@ + digits@.subrange(from as int, to as int),
{
    let mut i: usize = from;
    proof {
        assert(s@ =~= old(s)@ + digits@.subrange(from as int, from as int));
    }
    while i < to
        invariant
            from <= i <= to <= digits@.len(),
            s@ == old(s)@ + digits@.subrange(from as int, i as int),
        decreases to - i,
    {
        s.push(digits[i]);
        i += 1;
        assert(s@ =~= old(s)@ + digits@.subrange(from as int, i as int));
    }
}

/// The sign, the significant digits and the exponent of a numeral in
/// scientific notation.
pub(crate) fn split_scientific(text: &str) -> (r: (bool, Vec<char>, i64))
    ensures
        r.0 == has_minus(text@),
        r.1@ == significand(text@),
        r.2 == exponent(text@),
        -(EXPONENT_LIMIT as int) <= r.2 <= EXPONENT_LIMIT as int,
{
    let n = text.unicode_len();
    let negative = n > 0 && text.get_char(0) == '-';
    let mut digits: Vec<char> = Vec::new();
    let mut i: usize = 0;
    while i < n && text.get_char(i) != 'E'
        invariant
            n == text@.len(),
            i <= n,
            exponent_mark(text@, 0) == exponent_mark(text@, i as int),
            digits@ == digits_in(text@, 0, i as int),
        decreases n - i,
    {
        let c = text.get_char(i);
        if '0' <= c && c <= '9' {
            digits.push(c);
        }
        i += 1;
    }
    let mark = i;
    let exponent_negative = mark < n && mark + 1 < n && text.get_char(mark + 1) == '-';
    let mut magnitude: i64 = 0;
    let mut j: usize = if mark < n {
        mark + 1
    } else {
        n
    };
    while j < n
        invariant
            n == text@.len(),
            mark <= n,
            mark + 1 <= j <= n || (mark == n && j == n),
            0 <= magnitude <= EXPONENT_LIMIT,
            magnitude == capped_value(digits_in(text@, mark + 1, j as int)),
        decreases n - j,
    {
        let c = text.get_char(j);
        if '0' <= c && c <= '9' {
            let ghost before = digits_in(text@, mark + 1, j as int);
            assert(digits_in(text@, mark + 1, j + 1).drop_last() =~= before);
            let value: i64 = magnitude * 10 + (c as i64 - 48);
            magnitude = if value > 1000 {
                1000
            } else {
                value
            };
        }
        j += 1;
    }
    if exponent_negative {
        (negative, digits, -magnitude)
    } else {
        (negative, digits, magnitude)
    }
}

/// The numeral without exponent of the number with the sign, the significant
/// digits and the exponent given.
pub(crate) fn lay_out(negative: bool, digits: &Vec<char>, exponent: i64) -> (r: String)
    requires
        -2000 <= exponent <= 2000,
    ensures
        r@ == laid_out(negative, digits@, exponent as int),
{
    let mut count: usize = digits.len();
    proof {
        assert(digits@.subrange(0, count as int) =~= digits@);
    }
    while count > 0 && digits[count - 1] == '0'
        invariant
            count <= digits@.len(),
            without_trailing_zeros(digits@) == without_trailing_zeros(
                digits@.subrange(0, count as int),
            ),
        decreases count,
    {
        assert(digits@.subrange(0, count as int).drop_last() =~= digits@.subrange(0, count - 1));
        count -= 1;
    }
    let ghost kept = digits@.subrange(0, count as int);
    assert(without_trailing_zeros(digits@) == kept);
    let mut r = String::new();
    if negative {
        r.push('-');
    }
    if count == 0 {
        r.push('0');
    } else if exponent < 0 {
        r.push('0');
        r.push('.');
        push_zeros(&mut r, (-exponent - 1) as usize);
        push_range(&mut r, digits, 0, count);
    } else if count <= (exponent + 1) as usize {
        push_range(&mut r, digits, 0, count);
        push_zeros(&mut r, (exponent + 1) as usize - count);
    } else {
        let point = (exponent + 1) as usize;
        push_range(&mut r, digits, 0, point);
        r.push('.');
        push_range(&mut r, digits, point, count);
        proof {
            assert(kept.subrange(0, point as int) =~= digits@.subrange(0, point as int));
            assert(kept.subrange(point as int, kept.len() as int) =~= digits@.subrange(
                point as int,
                count as int,
            ));
        }
    }
    assert(r@ =~= laid_out(negative, digits@, exponent as int));
    r
}

} // verus!
