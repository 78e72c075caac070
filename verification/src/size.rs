//! Human-readable sizes: a decimal number, optionally with a fraction,
//! followed by an optional unit with base-1024 multipliers.

use vstd::arithmetic::div_mod::{
    lemma_div_denominator, lemma_fundamental_div_mod, lemma_fundamental_div_mod_converse,
};
use vstd::prelude::*;
use crate::text::{lower, lower_char, to_chars};

verus! {

/// A decimal digit.
pub open spec fn is_digit(c: char) -> bool {
    '0' <= c && c <= '9'
}

/// A blank, a tab or a line end.
pub open spec fn is_space(c: char) -> bool {
    c == ' ' || c == '\t' || c == '\n' || c == '\r'
}

/// The value of a decimal digit.
pub open spec fn digit_value(c: char) -> nat {
    (c as u8 - '0' as u8) as nat
}

/// The first index at or behind `from` that holds no digit.
pub open spec fn digits_end(s: Seq<char>, from: int) -> int
    decreases s.len() - from,
{
    if 0 <= from < s.len() && is_digit(s[from]) {
        digits_end(s, from + 1)
    } else {
        from
    }
}

/// The first index at or behind `from` that holds no white space.
pub open spec fn spaces_end(s: Seq<char>, from: int) -> int
    decreases s.len() - from,
{
    if 0 <= from < s.len() && is_space(s[from]) {
        spaces_end(s, from + 1)
    } else {
        from
    }
}

/// The index behind the last character that is no white space; `floor`
/// where everything from `floor` on is white space.
pub open spec fn text_end(s: Seq<char>, floor: int, to: int) -> int
    decreases to - floor,
{
    if floor < to <= s.len() && is_space(s[to - 1]) {
        text_end(s, floor, to - 1)
    } else {
        to
    }
}

/// The number that the digits of `s` from `from` up to `to` spell.
pub open spec fn digits_number(s: Seq<char>, from: int, to: int) -> nat
    decreases to - from,
{
    if to <= from {
        0
    } else {
        digits_number(s, from, to - 1) * 10 + digit_value(s[to - 1])
    }
}

/// The whole part of the product of `mult` and the fraction whose digits
/// are those of `s` from `from` up to `to`: worked out from the last digit
/// to the first, each step adding the digit's share and dropping one
/// decimal place.
pub open spec fn scaled_fraction(s: Seq<char>, from: int, to: int, mult: nat) -> nat
    decreases to - from,
{
    if to <= from {
        0
    } else {
        (digit_value(s[from]) * mult + scaled_fraction(s, from + 1, to, mult)) / 10
    }
}

/// The multiplier of `k`.
pub const KIB: u64 = 1024;

/// The multiplier of `m`.
pub const MIB: u64 = 1_048_576;

/// The multiplier of `g`.
pub const GIB: u64 = 1_073_741_824;

/// The multiplier of `t`.
pub const TIB: u64 = 1_099_511_627_776;

/// The multiplier of a unit: none or `b` for bytes, `k`, `m`, `g` and `t`,
/// each with or without a `b` behind it, for the powers of 1024.
pub open spec fn unit_multiplier(unit: Seq<char>) -> Option<u64> {
    if unit.len() == 0 {
        Some(1u64)
    } else if unit.len() == 1 && unit[0] == 'b' {
        Some(1u64)
    } else if unit.len() == 1 || (unit.len() == 2 && unit[1] == 'b') {
        if unit[0] == 'k' {
            Some(KIB)
        } else if unit[0] == 'm' {
            Some(MIB)
        } else if unit[0] == 'g' {
            Some(GIB)
        } else if unit[0] == 't' {
            Some(TIB)
        } else {
            None
        }
    } else {
        None
    }
}

/// `text` with ASCII upper case folded to lower case.
pub open spec fn folded(text: Seq<char>) -> Seq<char> {
    Seq::new(text.len(), |i: int| lower_char(text[i]))
}

/// The number of bytes that `text` stands for, or `None` where it is no
/// size.
///
/// Around the text white space is dropped, and ASCII case does not count.
/// What is left must be: digits; optionally a dot and more digits;
/// optionally white space; optionally a unit. The value is the number times
/// the unit's multiplier, rounded down, and `u64::MAX` where that does not
/// fit.
#[verifier::opaque]
pub open spec fn size_of_text(text: Seq<char>) -> Option<u64> {
    let s = folded(text);
    let start = spaces_end(s, 0);
    let end = text_end(s, start, s.len() as int);
    let whole_end = digits_end(s, start);
    let fraction_start = whole_end + 1;
    let has_fraction = whole_end < end && s[whole_end] == '.';
    let fraction_end = if has_fraction {
        digits_end(s, fraction_start)
    } else {
        whole_end
    };
    let unit_start = if spaces_end(s, fraction_end) > end {
        end
    } else {
        spaces_end(s, fraction_end)
    };
    if whole_end == start || whole_end > end || (has_fraction && fraction_end == fraction_start)
        || fraction_end > end {
        None
    } else {
        match unit_multiplier(s.subrange(unit_start, end)) {
            None => None,
            Some(mult) => {
                let whole = digits_number(s, start, whole_end) * mult;
                let part = if has_fraction {
                    scaled_fraction(s, fraction_start, fraction_end, mult as nat)
                } else {
                    0
                };
                if whole + part > u64::MAX {
                    Some(u64::MAX)
                } else {
                    Some((whole + part) as u64)
                }
            },
        }
    }
}

fn digit_at(s: &Vec<char>, i: usize) -> (r: bool)
    requires
        i < s.len(),
    ensures
        r == is_digit(s@[i as int]),
{
    '0' <= s[i] && s[i] <= '9'
}

fn space_at(s: &Vec<char>, i: usize) -> (r: bool)
    requires
        i < s.len(),
    ensures
        r == is_space(s@[i as int]),
{
    s[i] == ' ' || s[i] == '\t' || s[i] == '\n' || s[i] == '\r'
}

fn value_at(s: &Vec<char>, i: usize) -> (r: u64)
    requires
        i < s.len(),
        is_digit(s@[i as int]),
    ensures
        r == digit_value(s@[i as int]),
        r <= 9,
{
    let b: u8 = s[i] as u8;
    (b - 48) as u64
}

fn scan_digits(s: &Vec<char>, from: usize) -> (r: usize)
    requires
        from <= s.len(),
    ensures
        r == digits_end(s@, from as int),
        from <= r <= s.len(),
        forall|k: int| from <= k < r ==> is_digit(s@[k]),
{
    let mut i: usize = from;
    while i < s.len() && digit_at(s, i)
        invariant
            from <= i <= s.len(),
            digits_end(s@, from as int) == digits_end(s@, i as int),
            forall|k: int| from <= k < i ==> is_digit(s@[k]),
        decreases s.len() - i,
    {
        i = i + 1;
    }
    i
}

fn scan_spaces(s: &Vec<char>, from: usize) -> (r: usize)
    requires
        from <= s.len(),
    ensures
        r == spaces_end(s@, from as int),
        from <= r <= s.len(),
{
    let mut i: usize = from;
    while i < s.len() && space_at(s, i)
        invariant
            from <= i <= s.len(),
            spaces_end(s@, from as int) == spaces_end(s@, i as int),
        decreases s.len() - i,
    {
        i = i + 1;
    }
    i
}

fn scan_back(s: &Vec<char>, floor: usize) -> (r: usize)
    requires
        floor <= s.len(),
    ensures
        r == text_end(s@, floor as int, s@.len() as int),
        floor <= r <= s.len(),
{
    let mut i: usize = s.len();
    while i > floor && space_at(s, i - 1)
        invariant
            floor <= i <= s.len(),
            text_end(s@, floor as int, s@.len() as int) == text_end(s@, floor as int, i as int),
        decreases i,
    {
        i = i - 1;
    }
    i
}

/// The number that the digits from `from` up to `to` spell, capped at
/// `u64::MAX`.
fn whole_number(s: &Vec<char>, from: usize, to: usize) -> (r: u64)
    requires
        from <= to <= s.len(),
        forall|k: int| from <= k < to ==> is_digit(s@[k]),
    ensures
        digits_number(s@, from as int, to as int) <= u64::MAX ==> r == digits_number(
            s@,
            from as int,
            to as int,
        ),
        digits_number(s@, from as int, to as int) > u64::MAX ==> r == u64::MAX,
{
    let mut acc: u128 = 0;
    let cap: u128 = u64::MAX as u128;
    let mut i: usize = from;
    while i < to
        invariant
            from <= i <= to <= s.len(),
            cap == u64::MAX,
            acc <= cap,
            forall|k: int| from <= k < to ==> is_digit(s@[k]),
            digits_number(s@, from as int, i as int) <= u64::MAX ==> acc == digits_number(
                s@,
                from as int,
                i as int,
            ),
            digits_number(s@, from as int, i as int) > u64::MAX ==> acc == cap,
        decreases to - i,
    {
        let d = value_at(s, i) as u128;
        let next = acc * 10 + d;
        acc = if next > cap {
            cap
        } else {
            next
        };
        i = i + 1;
    }
    acc as u64
}

/// The whole part of `mult` times the fraction spelled by the digits from
/// `from` up to `to`.
fn fraction_part(s: &Vec<char>, from: usize, to: usize, mult: u64) -> (r: u64)
    requires
        from <= to <= s.len(),
        forall|k: int| from <= k < to ==> is_digit(s@[k]),
        mult <= TIB,
    ensures
        r == scaled_fraction(s@, from as int, to as int, mult as nat),
        r <= mult,
{
    let mut carry: u64 = 0;
    let mut i: usize = to;
    while i > from
        invariant
            from <= i <= to <= s.len(),
            forall|k: int| from <= k < to ==> is_digit(s@[k]),
            mult <= TIB,
            carry <= mult,
            carry == scaled_fraction(s@, i as int, to as int, mult as nat),
        decreases i,
    {
        let d = value_at(s, i - 1);
        assert(d * mult <= 9 * TIB) by (nonlinear_arith)
            requires
                d <= 9,
                mult <= TIB,
        ;
        let t = d * mult + carry;
        assert(t / 10 <= mult) by (nonlinear_arith)
            requires
                t == d * mult + carry,
                d <= 9,
                carry <= mult,
        ;
        carry = t / 10;
        i = i - 1;
    }
    carry
}

fn multiplier(s: &Vec<char>, from: usize, to: usize) -> (r: Option<u64>)
    requires
        from <= to <= s.len(),
    ensures
        r == unit_multiplier(s@.subrange(from as int, to as int)),
        r matches Some(m) ==> 1 <= m <= TIB,
{
    let n = to - from;
    let ghost unit = s@.subrange(from as int, to as int);
    if n == 0 {
        return Some(1);
    }
    assert(unit[0] == s@[from as int]);
    if n == 1 && s[from] == 'b' {
        return Some(1);
    }
    if n == 2 {
        assert(unit[1] == s@[from + 1]);
    }
    if n == 1 || (n == 2 && s[from + 1] == 'b') {
        let c = s[from];
        if c == 'k' {
            Some(KIB)
        } else if c == 'm' {
            Some(MIB)
        } else if c == 'g' {
            Some(GIB)
        } else if c == 't' {
            Some(TIB)
        } else {
            None
        }
    } else {
        None
    }
}

fn fold_case(text: &Vec<char>) -> (r: Vec<char>)
    ensures
        r@ == folded(text@),
{
    let mut r: Vec<char> = Vec::new();
    let mut i: usize = 0;
    while i < text.len()
        invariant
            i <= text.len(),
            r@ == folded(text@).take(i as int),
        decreases text.len() - i,
    {
        r.push(lower(text[i]));
        i = i + 1;
    }
    assert(folded(text@).take(text.len() as int) == folded(text@));
    r
}

/// Reads a size such as `10kb`, `1.5 MB` or `2048`. `None` for a text that
/// is no size.
pub fn parse_size(text: &str) -> (r: Option<u64>)
    ensures
        r == size_of_text(text@),
{
    reveal(size_of_text);
    let raw = to_chars(text);
    let s = fold_case(&raw);
    let start = scan_spaces(&s, 0);
    let end = scan_back(&s, start);
    let whole_end = scan_digits(&s, start);
    if whole_end == start || whole_end > end {
        return None;
    }
    let has_fraction = whole_end < end && s[whole_end] == '.';
    let fraction_start = if has_fraction {
        whole_end + 1
    } else {
        whole_end
    };
    let fraction_end = if has_fraction {
        scan_digits(&s, fraction_start)
    } else {
        whole_end
    };
    if (has_fraction && fraction_end == fraction_start) || fraction_end > end {
        return None;
    }
    let after_spaces = scan_spaces(&s, fraction_end);
    let unit_start = if after_spaces > end {
        end
    } else {
        after_spaces
    };
    let mult = match multiplier(&s, unit_start, end) {
        Some(m) => m,
        None => {
            return None;
        },
    };
    let number = whole_number(&s, start, whole_end);
    let part = if has_fraction {
        fraction_part(&s, fraction_start, fraction_end, mult)
    } else {
        0
    };
    let ghost exact = digits_number(s@, start as int, whole_end as int);
    assert(number * mult <= u64::MAX * TIB) by (nonlinear_arith)
        requires
            number <= u64::MAX,
            mult <= TIB,
    ;
    assert(exact > u64::MAX ==> exact * mult + part > u64::MAX) by (nonlinear_arith)
        requires
            mult >= 1,
            part >= 0,
    ;
    let total: u128 = (number as u128) * (mult as u128) + (part as u128);
    assert(exact > u64::MAX ==> total >= u64::MAX) by (nonlinear_arith)
        requires
            total == number * mult + part,
            exact > u64::MAX ==> number == u64::MAX,
            mult >= 1,
            part >= 0,
    ;
    if total > u64::MAX as u128 {
        Some(u64::MAX)
    } else {
        Some(total as u64)
    }
}

/// Ten to the power of `n`.
pub open spec fn pow10(n: nat) -> nat
    decreases n,
{
    if n == 0 {
        1
    } else {
        10 * pow10((n - 1) as nat)
    }
}

proof fn lemma_pow10_positive(n: nat)
    ensures
        pow10(n) > 0,
    decreases n,
{
    if n > 0 {
        lemma_pow10_positive((n - 1) as nat);
    }
}

/// A number is its first digit, shifted, plus the number of the digits
/// behind it.
proof fn lemma_first_digit(s: Seq<char>, from: int, to: int)
    requires
        0 <= from < to <= s.len(),
    ensures
        digits_number(s, from, to) == digit_value(s[from]) * pow10((to - from - 1) as nat)
            + digits_number(s, from + 1, to),
    decreases to - from,
{
    if to - 1 > from {
        lemma_first_digit(s, from, to - 1);
        let d = digit_value(s[from]) as int;
        let p = pow10((to - from - 2) as nat) as int;
        let rest = digits_number(s, from + 1, to - 1) as int;
        let last = digit_value(s[to - 1]) as int;
        assert(digits_number(s, from, to) == digits_number(s, from, to - 1) * 10 + last);
        assert(digits_number(s, from + 1, to) == rest * 10 + last);
        assert(pow10((to - from - 1) as nat) == 10 * p);
        assert((d * p + rest) * 10 + last == d * (10 * p) + (rest * 10 + last)) by (nonlinear_arith);
    } else {
        assert(digits_number(s, from, from) == 0);
        assert(digits_number(s, from + 1, to) == 0);
        assert(pow10(0) == 1);
        assert(digits_number(s, from, to) == 0 * 10 + digit_value(s[from]));
        assert(digit_value(s[from]) * 1 == digit_value(s[from])) by (nonlinear_arith);
    }
}

/// The scaled fraction is the product of the multiplier and the fraction,
/// rounded down: with `k` digits that spell the number `f`, it is
/// `mult * f / 10^k`.
pub proof fn lemma_scaled_fraction_is_rounded_product(s: Seq<char>, from: int, to: int, mult: nat)
    requires
        0 <= from <= to <= s.len(),
    ensures
        scaled_fraction(s, from, to, mult) == (mult * digits_number(s, from, to)) / pow10(
            (to - from) as nat,
        ),
    decreases to - from,
{
    if from < to {
        lemma_scaled_fraction_is_rounded_product(s, from + 1, to, mult);
        lemma_first_digit(s, from, to);
        let d = digit_value(s[from]) as int;
        let m = mult as int;
        let p = pow10((to - from - 1) as nat) as int;
        let v = digits_number(s, from + 1, to) as int;
        lemma_pow10_positive((to - from - 1) as nat);
        let a = m * v;
        let q = a / p;
        let r = a % p;
        lemma_fundamental_div_mod(a, p);
        assert(0 <= r < p) by {
            vstd::arithmetic::div_mod::lemma_mod_bound(a, p);
        }
        assert(a >= 0) by (nonlinear_arith)
            requires
                a == m * v,
                m >= 0,
                v >= 0,
        ;
        let x = d * m + q;
        let whole = m * (d * p + v);
        assert(whole == x * p + r) by (nonlinear_arith)
            requires
                whole == m * (d * p + v),
                x == d * m + q,
                m * v == p * q + r,
        ;
        assert(q >= 0) by {
            vstd::arithmetic::div_mod::lemma_div_pos_is_pos(a, p);
        }
        assert(x >= 0) by (nonlinear_arith)
            requires
                x == d * m + q,
                d >= 0,
                m >= 0,
                q >= 0,
        ;
        lemma_fundamental_div_mod_converse(whole, p, x, r);
        assert(whole >= 0) by (nonlinear_arith)
            requires
                whole == x * p + r,
                x >= 0,
                p > 0,
                r >= 0,
        ;
        lemma_div_denominator(whole, p, 10);
        assert(p * 10 == pow10((to - from) as nat));
        assert(scaled_fraction(s, from, to, mult) == x / 10);
    } else {
        assert(mult * 0 == 0) by (nonlinear_arith);
    }
}

} // verus!
