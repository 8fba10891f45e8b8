//! Fixed-point decimal numbers with six fractional digits, and the reading of
//! unsigned decimal text.
//!
//! Every measured quantity of the crate (latencies in milliseconds, rates in
//! requests per second, percentages) is held as a whole number of millionths.

use vstd::prelude::*;
use crate::text::{
    decimal_digits, digit_char, length_without_trailing, push_chars, push_decimal, slice_chars,
    without_trailing,
};

verus! {

/// Millionths per unit.
pub const SCALE: u64 = 1_000_000;

/// A non-negative number held as a whole count of millionths.
#[derive(Clone, Copy, Debug, PartialEq, Eq, Structural)]
pub struct Decimal {
    pub micros: u64,
}

/// `n`, or `u64::MAX` where `n` does not fit.
pub open spec fn clamp_u64(n: nat) -> u64 {
    if n > u64::MAX {
        u64::MAX
    } else {
        n as u64
    }
}

/// Ten to the power of `n`.
pub open spec fn pow10(n: nat) -> nat
    decreases n,
{
    if n == 0 {
        1
    } else {
        10 * pow10((n - 1) as nat)
    }
}

/// An ASCII digit.
pub open spec fn is_digit(c: char) -> bool {
    '0' <= c && c <= '9'
}

/// The number that an ASCII digit stands for.
pub open spec fn digit_value(c: char) -> nat {
    (c as u32 - '0' as u32) as nat
}

/// Every character is an ASCII digit.
pub open spec fn all_digits(s: Seq<char>) -> bool {
    forall|i: int| 0 <= i < s.len() ==> is_digit(#[trigger] s[i])
}

/// The number that a run of ASCII digits writes in base ten; 0 for the empty run.
pub open spec fn digits_value(s: Seq<char>) -> nat
    decreases s.len(),
{
    if s.len() == 0 {
        0
    } else {
        digits_value(s.drop_last()) * 10 + digit_value(s.last())
    }
}

/// What a run of digits amounts to: its value cut off at `u64::MAX`, and
/// whether it went beyond.
pub struct DigitRun {
    pub value: u64,
    pub overflow: bool,
}

/// What `s` amounts to as a run of digits; nothing where it holds anything
/// else.
pub open spec fn digit_run_of(s: Seq<char>) -> Option<DigitRun> {
    if all_digits(s) {
        Some(DigitRun { value: clamp_u64(digits_value(s)), overflow: digits_value(s) > u64::MAX })
    } else {
        None
    }
}

/// Reads the characters `s[from..to]` as a run of ASCII digits.
pub fn read_digits(s: &Vec<char>, from: usize, to: usize) -> (r: Option<DigitRun>)
    requires
        from <= to <= s.len(),
    ensures
        r == digit_run_of(s@.subrange(from as int, to as int)),
{
    let ghost run = s@.subrange(from as int, to as int);
    let mut value: u64 = 0;
    let mut overflow = false;
    let mut i: usize = from;
    while i < to
        invariant
            from <= i <= to <= s.len(),
            run == s@.subrange(from as int, to as int),
            all_digits(run.subrange(0, i - from)),
            value == clamp_u64(digits_value(run.subrange(0, i - from))),
            overflow == (digits_value(run.subrange(0, i - from)) > u64::MAX),
        decreases to - i,
    {
        let c = s[i];
        let ghost before = run.subrange(0, i - from);
        let ghost after = run.subrange(0, i - from + 1);
        assert(after.drop_last() == before);
        assert(after.last() == c);
        if !(c >= '0' && c <= '9') {
            assert(run[i - from] == c);
            return None;
        }
        let d: u64 = (c as u32 - '0' as u32) as u64;
        let wide: u128 = value as u128 * 10 + d as u128;
        if overflow || wide > u64::MAX as u128 {
            value = u64::MAX;
            overflow = true;
        } else {
            value = wide as u64;
        }
        assert forall|k: int| 0 <= k < after.len() implies is_digit(#[trigger] after[k]) by {
            if k < before.len() {
                assert(after[k] == before[k]);
            }
        }
        i += 1;
    }
    assert(run.subrange(0, to - from) == run);
    Some(DigitRun { value, overflow })
}

/// The whole number that `s` writes: `s` is a non-empty run of ASCII digits
/// whose value fits in 64 bits. Anything else reads as nothing.
pub open spec fn parse_u64_spec(s: Seq<char>) -> Option<u64> {
    if s.len() > 0 && all_digits(s) && digits_value(s) <= u64::MAX {
        Some(digits_value(s) as u64)
    } else {
        None
    }
}

/// Reads a whole number written in ASCII digits.
pub fn parse_u64(s: &Vec<char>) -> (r: Option<u64>)
    ensures
        r == parse_u64_spec(s@),
{
    assert(s@.subrange(0, s.len() as int) == s@);
    if s.len() == 0 {
        return None;
    }
    match read_digits(s, 0, s.len()) {
        Some(run) => if run.overflow {
            None
        } else {
            Some(run.value)
        },
        None => None,
    }
}

/// As `parse_u64_spec`, for a value that must fit in 32 bits.
pub open spec fn parse_u32_spec(s: Seq<char>) -> Option<u32> {
    match parse_u64_spec(s) {
        Some(v) => if v <= u32::MAX {
            Some(v as u32)
        } else {
            None
        },
        None => None,
    }
}

/// Reads a whole number of at most 32 bits written in ASCII digits.
pub fn parse_u32(s: &Vec<char>) -> (r: Option<u32>)
    ensures
        r == parse_u32_spec(s@),
{
    match parse_u64(s) {
        Some(v) => if v <= u32::MAX as u64 {
            Some(v as u32)
        } else {
            None
        },
        None => None,
    }
}

/// The number of characters before the first `.` of `s`; its length where it
/// holds none.
pub open spec fn first_dot(s: Seq<char>) -> int
    decreases s.len(),
{
    if s.len() == 0 || s[0] == '.' {
        0
    } else {
        1 + first_dot(s.drop_first())
    }
}

/// A place is `first_dot` where it holds a point, or is the end, and no
/// place before it holds one.
pub proof fn lemma_first_dot(s: Seq<char>, d: int)
    requires
        0 <= d <= s.len(),
        forall|i: int| 0 <= i < d ==> s[i] != '.',
        d < s.len() ==> s[d] == '.',
    ensures
        first_dot(s) == d,
    decreases d,
{
    if d > 0 {
        lemma_first_dot(s.drop_first(), d - 1);
    }
}

/// The digits before the point of a decimal text.
pub open spec fn whole_part(s: Seq<char>) -> Seq<char> {
    s.subrange(0, first_dot(s))
}

/// The digits after the point of a decimal text; empty where it has no point.
pub open spec fn fraction_part(s: Seq<char>) -> Seq<char> {
    if first_dot(s) < s.len() {
        s.subrange(first_dot(s) + 1, s.len() as int)
    } else {
        Seq::empty()
    }
}

/// The first six digits of a fraction: the ones that count.
pub open spec fn kept_fraction(frac: Seq<char>) -> Seq<char> {
    if frac.len() <= 6 {
        frac
    } else {
        frac.subrange(0, 6)
    }
}

/// A decimal text is digits, optionally a point and more digits, with at
/// least one digit in all.
pub open spec fn is_decimal_text(s: Seq<char>) -> bool {
    &&& all_digits(whole_part(s))
    &&& all_digits(fraction_part(s))
    &&& whole_part(s).len() + fraction_part(s).len() > 0
}

/// The millionths that a decimal text amounts to. Digits after the sixth
/// fractional one are dropped.
pub open spec fn decimal_text_micros(s: Seq<char>) -> nat {
    let kept = kept_fraction(fraction_part(s));
    digits_value(whole_part(s)) * (SCALE as nat) + digits_value(kept) * pow10(
        (6 - kept.len()) as nat,
    )
}

/// The number that a decimal text writes, cut off at `u64::MAX` millionths;
/// nothing for any other text.
pub open spec fn parse_decimal_spec(s: Seq<char>) -> Option<Decimal> {
    if is_decimal_text(s) {
        Some(Decimal { micros: clamp_u64(decimal_text_micros(s)) })
    } else {
        None
    }
}

/// The powers of ten up to a million.
pub proof fn lemma_pow10_values()
    ensures
        pow10(0) == 1,
        pow10(1) == 10,
        pow10(2) == 100,
        pow10(3) == 1_000,
        pow10(4) == 10_000,
        pow10(5) == 100_000,
        pow10(6) == 1_000_000,
{
    reveal_with_fuel(pow10, 8);
}

/// A run of `n` digits writes a number below `10^n`.
pub proof fn lemma_digits_value_bound(s: Seq<char>)
    requires
        all_digits(s),
    ensures
        digits_value(s) < pow10(s.len()),
    decreases s.len(),
{
    if s.len() > 0 {
        let init = s.drop_last();
        assert forall|i: int| 0 <= i < init.len() implies is_digit(#[trigger] init[i]) by {
            assert(init[i] == s[i]);
        }
        lemma_digits_value_bound(init);
        assert(is_digit(s[s.len() - 1]));
        assert(digit_value(s.last()) <= 9);
    }
}

fn fraction_pad(kept_len: usize) -> (r: u64)
    requires
        kept_len <= 6,
    ensures
        r == pow10((6 - kept_len) as nat),
{
    proof {
        lemma_pow10_values();
    }
    if kept_len == 0 {
        1_000_000
    } else if kept_len == 1 {
        100_000
    } else if kept_len == 2 {
        10_000
    } else if kept_len == 3 {
        1_000
    } else if kept_len == 4 {
        100
    } else if kept_len == 5 {
        10
    } else {
        1
    }
}

/// Reads an unsigned decimal text into millionths, cutting the result off at
/// `u64::MAX` millionths.
pub fn parse_decimal(s: &Vec<char>) -> (r: Option<Decimal>)
    ensures
        r == parse_decimal_spec(s@),
{
    let n = s.len();
    let mut d: usize = 0;
    while d < n && s[d] != '.'
        invariant
            d <= n == s.len(),
            forall|i: int| 0 <= i < d ==> s@[i] != '.',
        decreases n - d,
    {
        d += 1;
    }
    proof {
        lemma_first_dot(s@, d as int);
    }
    let frac_from: usize = if d < n { d + 1 } else { n };
    let ghost frac = fraction_part(s@);
    assert(frac == s@.subrange(frac_from as int, n as int));
    let whole = match read_digits(s, 0, d) {
        Some(run) => run,
        None => { return None; },
    };
    if read_digits(s, frac_from, n).is_none() {
        return None;
    }
    if d + (n - frac_from) == 0 {
        return None;
    }
    let kept_to: usize = if n - frac_from <= 6 { n } else { frac_from + 6 };
    let ghost kept = kept_fraction(frac);
    assert(kept == s@.subrange(frac_from as int, kept_to as int));
    assert forall|i: int| 0 <= i < kept.len() implies is_digit(#[trigger] kept[i]) by {
        assert(kept[i] == frac[i]);
    }
    let kept_run = match read_digits(s, frac_from, kept_to) {
        Some(run) => run,
        None => { return None; },
    };
    let pad = fraction_pad(kept_to - frac_from);
    proof {
        lemma_digits_value_bound(kept);
        lemma_pow10_values();
        assert(pow10(kept.len()) <= 1_000_000) by {
            reveal_with_fuel(pow10, 8);
        }
    }
    assert(pad <= 1_000_000 && kept_run.value < 1_000_000) by {
        lemma_pow10_values();
    }
    assert(kept_run.value * pad <= 1_000_000 * 1_000_000) by (nonlinear_arith)
        requires
            kept_run.value < 1_000_000,
            pad <= 1_000_000,
    ;
    assert(kept_run.value * pad == digits_value(kept) * pow10((6 - kept.len()) as nat));
    let wide: u128 = whole.value as u128 * SCALE as u128 + kept_run.value as u128 * pad as u128;
    assert(whole.overflow ==> wide > u64::MAX);
    assert(!whole.overflow ==> wide == decimal_text_micros(s@));
    if whole.overflow || wide > u64::MAX as u128 {
        Some(Decimal { micros: u64::MAX })
    } else {
        Some(Decimal { micros: wide as u64 })
    }
}

/// `n / d` rounded to the nearest whole number; a tie goes to the even one.
pub open spec fn round_half_even(n: nat, d: nat) -> nat
    recommends
        d > 0,
{
    let q = n / d;
    let r = n % d;
    if 2 * r > d || (2 * r == d && q % 2 == 1) {
        q + 1
    } else {
        q
    }
}

/// Divides and rounds to the nearest whole number, a tie to the even one.
pub fn rounded_ratio(n: u64, d: u64) -> (r: u64)
    requires
        d >= 2,
    ensures
        r == round_half_even(n as nat, d as nat),
{
    let q = n / d;
    let rest = n % d;
    assert(q <= n / 2) by (nonlinear_arith)
        requires
            q == n / d,
            d >= 2,
    ;
    if rest > d - rest || (rest == d - rest && q % 2 == 1) {
        q + 1
    } else {
        q
    }
}

/// A number of tenths written with one decimal place.
pub open spec fn tenths_text(tenths: nat) -> Seq<char> {
    decimal_digits(tenths / 10) + seq!['.'] + decimal_digits(tenths % 10)
}

/// Appends a number of tenths, written with one decimal place.
pub fn push_tenths(out: &mut Vec<char>, tenths: u64)
    ensures
        final(out)@ == old(out)@ + tenths_text(tenths as nat),
{
    push_decimal(out, tenths / 10);
    out.push('.');
    push_decimal(out, tenths % 10);
    assert(out@ =~= old(out)@ + tenths_text(tenths as nat));
}

impl Decimal {
    /// The number rounded to a whole number, in digits.
    pub open spec fn whole_text(self) -> Seq<char> {
        decimal_digits(round_half_even(self.micros as nat, 1_000_000))
    }

    /// The number rounded to one decimal place, in digits.
    pub open spec fn one_place_text(self) -> Seq<char> {
        tenths_text(round_half_even(self.micros as nat, 100_000))
    }

    /// Appends the number, rounded to a whole number.
    pub fn push_whole(&self, out: &mut Vec<char>)
        ensures
            final(out)@ == old(out)@ + self.whole_text(),
    {
        push_decimal(out, rounded_ratio(self.micros, 1_000_000));
    }

    /// Appends the number, rounded to one decimal place.
    pub fn push_one_place(&self, out: &mut Vec<char>)
        ensures
            final(out)@ == old(out)@ + self.one_place_text(),
    {
        push_tenths(out, rounded_ratio(self.micros, 100_000));
    }
}

/// A number of hundredths written with two decimal places.
pub open spec fn hundredths_text(hundredths: nat) -> Seq<char> {
    decimal_digits(hundredths / 100) + seq![
        '.',
        digit_char(hundredths / 10 % 10),
        digit_char(hundredths % 10),
    ]
}

/// A number below a million in exactly six digits.
pub open spec fn six_digits(n: nat) -> Seq<char>
    recommends
        n < 1_000_000,
{
    seq![
        digit_char(n / 100_000),
        digit_char(n / 10_000 % 10),
        digit_char(n / 1_000 % 10),
        digit_char(n / 100 % 10),
        digit_char(n / 10 % 10),
        digit_char(n % 10),
    ]
}

fn digit_of(d: u64) -> (r: char)
    requires
        d < 10,
    ensures
        r == digit_char(d as nat),
{
    (48u8 + d as u8) as char
}

impl Decimal {
    /// The number rounded to two decimal places, in digits.
    pub open spec fn two_places_text(self) -> Seq<char> {
        hundredths_text(round_half_even(self.micros as nat, 10_000))
    }

    /// The number in full: its whole part, and behind a point the decimal
    /// places it has, without zeros at the end.
    pub open spec fn plain_text(self) -> Seq<char> {
        if self.micros % SCALE == 0 {
            decimal_digits((self.micros / SCALE) as nat)
        } else {
            decimal_digits((self.micros / SCALE) as nat) + seq!['.'] + without_trailing(
                six_digits((self.micros % SCALE) as nat),
                '0',
            )
        }
    }

    /// The number rounded to a whole number, in digits.
    pub fn whole_chars(&self) -> (r: Vec<char>)
        ensures
            r@ == self.whole_text(),
    {
        let mut out: Vec<char> = Vec::new();
        self.push_whole(&mut out);
        assert(out@ =~= self.whole_text());
        out
    }

    /// The number rounded to one decimal place, in digits.
    pub fn one_place_chars(&self) -> (r: Vec<char>)
        ensures
            r@ == self.one_place_text(),
    {
        let mut out: Vec<char> = Vec::new();
        self.push_one_place(&mut out);
        assert(out@ =~= self.one_place_text());
        out
    }

    /// The number rounded to two decimal places, in digits.
    pub fn two_places_chars(&self) -> (r: Vec<char>)
        ensures
            r@ == self.two_places_text(),
    {
        let hundredths = rounded_ratio(self.micros, 10_000);
        let mut out: Vec<char> = Vec::new();
        push_decimal(&mut out, hundredths / 100);
        out.push('.');
        out.push(digit_of(hundredths / 10 % 10));
        out.push(digit_of(hundredths % 10));
        assert(out@ =~= self.two_places_text());
        out
    }

    /// The number in full.
    pub fn plain_chars(&self) -> (r: Vec<char>)
        ensures
            r@ == self.plain_text(),
    {
        let mut out: Vec<char> = Vec::new();
        push_decimal(&mut out, self.micros / SCALE);
        let rest = self.micros % SCALE;
        if rest != 0 {
            let mut places: Vec<char> = Vec::new();
            places.push(digit_of(rest / 100_000));
            places.push(digit_of(rest / 10_000 % 10));
            places.push(digit_of(rest / 1_000 % 10));
            places.push(digit_of(rest / 100 % 10));
            places.push(digit_of(rest / 10 % 10));
            places.push(digit_of(rest % 10));
            assert(places@ =~= six_digits(rest as nat));
            let kept = length_without_trailing(&places, '0');
            let shown = slice_chars(&places, 0, kept);
            out.push('.');
            push_chars(&mut out, &shown);
        }
        assert(out@ =~= self.plain_text());
        out
    }
}

} // verus!
