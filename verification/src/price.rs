//! Fixed-point prices.
//!
//! A price is held as an `i64` count of units of `1 / PRICE_SCALE` of the
//! quoted currency, so that threshold comparisons and the legacy tolerance
//! band are exact integer arithmetic.

use vstd::prelude::*;
use vstd::string::{StrSliceExecFns, StringExecFns};
use crate::text::{digit_char, digit_str};

verus! {

/// Price units per 1.0 of the quoted currency.
pub const PRICE_SCALE: i64 = 100000;

/// Number of decimal digits a price string may carry after the point;
/// `PRICE_SCALE` is ten to this power.
pub const PRICE_FRACTION_DIGITS: usize = 5;

/// Relative tolerance of the legacy band, as the fraction
/// `BAND_TOLERANCE_NUM / BAND_TOLERANCE_DEN`.
pub const BAND_TOLERANCE_NUM: i64 = 1;

/// Denominator of the legacy band's tolerance fraction.
pub const BAND_TOLERANCE_DEN: i64 = 100000;

/// The symmetric tolerance band of a legacy alert:
/// `level * (1 - tol) <= quote <= level * (1 + tol)`, multiplied through by
/// `BAND_TOLERANCE_DEN` so that it is stated over integers.
pub open spec fn within_band(level: int, quote: int) -> bool {
    &&& level * ((BAND_TOLERANCE_DEN - BAND_TOLERANCE_NUM) as int) <= quote * (
    BAND_TOLERANCE_DEN as int)
    &&& quote * (BAND_TOLERANCE_DEN as int) <= level * ((BAND_TOLERANCE_DEN
        + BAND_TOLERANCE_NUM) as int)
}

/// Decides `within_band` for machine prices; the products are taken in
/// 128 bits, which cannot overflow.
pub fn within_band_check(level: i64, quote: i64) -> (r: bool)
    ensures
        r == within_band(level as int, quote as int),
{
    proof {
        assert((level as int) * ((BAND_TOLERANCE_DEN - BAND_TOLERANCE_NUM) as int)
            <= i128::MAX as int && i128::MIN as int <= (level as int) * ((BAND_TOLERANCE_DEN
            - BAND_TOLERANCE_NUM) as int)) by (nonlinear_arith)
            requires
                i64::MIN <= level <= i64::MAX,
        ;
        assert((level as int) * ((BAND_TOLERANCE_DEN + BAND_TOLERANCE_NUM) as int)
            <= i128::MAX as int && i128::MIN as int <= (level as int) * ((BAND_TOLERANCE_DEN
            + BAND_TOLERANCE_NUM) as int)) by (nonlinear_arith)
            requires
                i64::MIN <= level <= i64::MAX,
        ;
        assert((quote as int) * (BAND_TOLERANCE_DEN as int) <= i128::MAX as int
            && i128::MIN as int <= (quote as int) * (BAND_TOLERANCE_DEN as int))
            by (nonlinear_arith)
            requires
                i64::MIN <= quote <= i64::MAX,
        ;
    }
    let lo: i128 = (level as i128) * ((BAND_TOLERANCE_DEN - BAND_TOLERANCE_NUM) as i128);
    let hi: i128 = (level as i128) * ((BAND_TOLERANCE_DEN + BAND_TOLERANCE_NUM) as i128);
    let q: i128 = (quote as i128) * (BAND_TOLERANCE_DEN as i128);
    lo <= q && q <= hi
}

/// Largest whole-unit count whose scaled value stays at or below `2^63`;
/// one more whole unit pushes the magnitude past every `i64`.
const MAX_WHOLE_UNITS: u64 = 92233720368547;

/// Whether `c` is a decimal digit.
pub open spec fn is_digit(c: char) -> bool {
    48 <= c as u32 && c as u32 <= 57
}

/// The numeric value of a decimal digit.
pub open spec fn digit_value(c: char) -> int {
    c as u32 - 48
}

/// Whether every character of `s` is a decimal digit.
pub open spec fn all_digits(s: Seq<char>) -> bool {
    forall|i: int| 0 <= i < s.len() ==> is_digit(#[trigger] s[i])
}

/// The value of a digit string read in base ten.
pub open spec fn digits_value(s: Seq<char>) -> int
    decreases s.len(),
{
    if s.len() == 0 {
        0
    } else {
        digits_value(s.drop_last()) * 10 + digit_value(s.last())
    }
}

/// Ten to the power `n`.
pub open spec fn pow10(n: nat) -> int
    decreases n,
{
    if n == 0 {
        1
    } else {
        10 * pow10((n - 1) as nat)
    }
}

/// The index of the first `'.'` in `s`, if any.
pub open spec fn dot_position(s: Seq<char>) -> Option<int>
    decreases s.len(),
{
    if s.len() == 0 {
        None
    } else if s[0] == '.' {
        Some(0)
    } else {
        match dot_position(s.drop_first()) {
            Some(i) => Some(i + 1),
            None => None,
        }
    }
}

/// The value, in price units, written by an unsigned price string: a
/// non-empty run of digits, optionally followed by `'.'` and at most
/// `PRICE_FRACTION_DIGITS` digits. `None` when `t` is not of that shape.
pub open spec fn price_magnitude(t: Seq<char>) -> Option<int> {
    match dot_position(t) {
        None => if t.len() >= 1 && all_digits(t) {
            Some(digits_value(t) * (PRICE_SCALE as int))
        } else {
            None
        },
        Some(i) => {
            let ip = t.take(i);
            let fp = t.skip(i + 1);
            if ip.len() >= 1 && all_digits(ip) && fp.len() <= PRICE_FRACTION_DIGITS as int
                && all_digits(fp) {
                Some(
                    digits_value(ip) * (PRICE_SCALE as int) + digits_value(fp) * pow10(
                        (PRICE_FRACTION_DIGITS - fp.len()) as nat,
                    ),
                )
            } else {
                None
            }
        },
    }
}

/// The signed value, in price units, written by a price string.
pub open spec fn price_value(s: Seq<char>) -> Option<int> {
    if s.len() >= 1 && s[0] == '-' {
        match price_magnitude(s.drop_first()) {
            Some(v) => Some(-v),
            None => None,
        }
    } else {
        price_magnitude(s)
    }
}

/// What `parse_price` returns: the written value when the string is a
/// well-formed price and the value fits a machine price.
pub open spec fn parse_price_spec(s: Seq<char>) -> Option<int> {
    match price_value(s) {
        Some(v) => if i64::MIN as int <= v && v <= i64::MAX as int {
            Some(v)
        } else {
            None
        },
        None => None,
    }
}

proof fn lemma_dot_position_none(s: Seq<char>)
    requires
        forall|j: int| 0 <= j < s.len() ==> s[j] != '.',
    ensures
        dot_position(s) is None,
    decreases s.len(),
{
    if s.len() > 0 {
        lemma_dot_position_none(s.drop_first());
    }
}

/// The first dot, when there is one, is a dot and has no dot before it.
proof fn lemma_dot_position_props(s: Seq<char>)
    ensures
        match dot_position(s) {
            Some(i) => 0 <= i < s.len() && s[i] == '.' && (forall|j: int|
                0 <= j < i ==> s[j] != '.'),
            None => forall|j: int| 0 <= j < s.len() ==> s[j] != '.',
        },
    decreases s.len(),
{
    if s.len() > 0 && s[0] != '.' {
        lemma_dot_position_props(s.drop_first());
        match dot_position(s.drop_first()) {
            Some(i) => {
                assert(s.drop_first()[i] == s[i + 1]);
                assert forall|j: int| 0 <= j < i + 1 implies s[j] != '.' by {
                    if j > 0 {
                        assert(s.drop_first()[j - 1] == s[j]);
                    }
                }
            },
            None => {
                assert forall|j: int| 0 <= j < s.len() implies s[j] != '.' by {
                    if j > 0 {
                        assert(s.drop_first()[j - 1] == s[j]);
                    }
                }
            },
        }
    }
}

proof fn lemma_dot_position_first(s: Seq<char>, i: int)
    requires
        0 <= i < s.len(),
        s[i] == '.',
        forall|j: int| 0 <= j < i ==> s[j] != '.',
    ensures
        dot_position(s) == Some(i),
    decreases i,
{
    if i > 0 {
        lemma_dot_position_first(s.drop_first(), i - 1);
    }
}

proof fn lemma_digits_value_nonneg(s: Seq<char>)
    requires
        all_digits(s),
    ensures
        digits_value(s) >= 0,
    decreases s.len(),
{
    if s.len() > 0 {
        lemma_digits_value_nonneg(s.drop_last());
    }
}

proof fn lemma_digits_value_bound(s: Seq<char>)
    requires
        all_digits(s),
    ensures
        0 <= digits_value(s) < pow10(s.len()),
    decreases s.len(),
{
    if s.len() > 0 {
        lemma_digits_value_bound(s.drop_last());
    }
}

/// A string whose first character is not a digit writes no magnitude.
proof fn lemma_magnitude_bad_start(t: Seq<char>)
    requires
        t.len() == 0 || !is_digit(t[0]),
    ensures
        price_magnitude(t) is None,
{
    if t.len() > 0 {
        lemma_dot_position_props(t);
        match dot_position(t) {
            None => {
                assert(!all_digits(t));
            },
            Some(i) => {
                if i == 0 {
                    assert(t.take(0).len() == 0);
                } else {
                    assert(t.take(i)[0] == t[0]);
                    assert(!all_digits(t.take(i)));
                }
            },
        }
    }
}

/// Whether `c` is a decimal digit.
fn is_digit_char(c: char) -> (r: bool)
    ensures
        r == is_digit(c),
{
    let u = c as u32;
    48 <= u && u <= 57
}

/// The first position at or after `from` that does not hold a digit.
fn scan_digits(s: &str, from: usize) -> (j: usize)
    requires
        from <= s@.len(),
    ensures
        from <= j <= s@.len(),
        forall|k: int| from <= k < j ==> is_digit(#[trigger] s@[k]),
        j < s@.len() ==> !is_digit(s@[j as int]),
{
    let n = s.unicode_len();
    let mut j = from;
    while j < n && is_digit_char(s.get_char(j))
        invariant
            from <= j <= n,
            n == s@.len(),
            from <= s@.len(),
            forall|k: int| from <= k < j ==> is_digit(#[trigger] s@[k]),
        decreases n - j,
    {
        j += 1;
    }
    j
}

/// Reads an unsigned price string. `Some(m)` is its exact value in price
/// units; `None` means the string is not a well-formed price, or its value
/// is beyond the magnitude of any machine price.
fn parse_magnitude(t: &str) -> (r: Option<u64>)
    ensures
        match r {
            Some(m) => price_magnitude(t@) == Some(m as int),
            None => match price_magnitude(t@) {
                Some(v) => v > 0x8000_0000_0000_0000,
                None => true,
            },
        },
{
    let n = t.unicode_len();
    let int_end = scan_digits(t, 0);
    if int_end == 0 {
        proof {
            lemma_magnitude_bad_start(t@);
        }
        return None;
    }
    let ghost ip: Seq<char> = t@.subrange(0, int_end as int);

    // Accumulate the whole units, saturating once they cannot fit.
    let mut acc: u64 = 0;
    let mut big: bool = false;
    let mut k: usize = 0;
    while k < int_end
        invariant
            0 <= k <= int_end <= n,
            n == t@.len(),
            forall|q: int| 0 <= q < int_end ==> is_digit(#[trigger] t@[q]),
            !big ==> acc as int == digits_value(t@.subrange(0, k as int)) && acc
                <= MAX_WHOLE_UNITS,
            big ==> digits_value(t@.subrange(0, k as int)) > MAX_WHOLE_UNITS,
        decreases int_end - k,
    {
        let c = t.get_char(k);
        let d: u64 = (c as u32 - 48) as u64;
        proof {
            assert(t@.subrange(0, k as int + 1).drop_last() =~= t@.subrange(0, k as int));
            assert(t@.subrange(0, k as int + 1).last() == t@[k as int]);
            lemma_digits_value_nonneg(t@.subrange(0, k as int));
        }
        if big {
        } else {
            let na = acc * 10 + d;
            if na > MAX_WHOLE_UNITS {
                big = true;
            } else {
                acc = na;
            }
        }
        k += 1;
    }
    proof {
        assert(forall|q: int| 0 <= q < ip.len() ==> ip[q] == t@[q]);
        assert(all_digits(ip));
        lemma_digits_value_nonneg(ip);
    }

    if int_end == n {
        // Nothing follows the whole units.
        proof {
            lemma_dot_position_none(t@);
            assert(ip =~= t@);
        }
        if big {
            proof {
                assert(digits_value(t@) * (PRICE_SCALE as int) > 0x8000_0000_0000_0000)
                    by (nonlinear_arith)
                    requires
                        digits_value(t@) > MAX_WHOLE_UNITS as int,
                        MAX_WHOLE_UNITS == 92233720368547u64,
                        PRICE_SCALE == 100000i64,
                ;
            }
            return None;
        }
        proof {
            assert(acc as int * (PRICE_SCALE as int) <= 9223372036854700000)
                by (nonlinear_arith)
                requires
                    0 <= acc as int <= MAX_WHOLE_UNITS as int,
                    MAX_WHOLE_UNITS == 92233720368547u64,
                    PRICE_SCALE == 100000i64,
            ;
        }
        return Some(acc * (PRICE_SCALE as u64));
    }

    if t.get_char(int_end) != '.' {
        // A stray character ends the whole units.
        proof {
            lemma_dot_position_props(t@);
            match dot_position(t@) {
                None => {
                    assert(!is_digit(t@[int_end as int]));
                    assert(!all_digits(t@));
                },
                Some(p) => {
                    // The first dot lies beyond the stray character: the
                    // digits before it are no dots, and the stray character
                    // is none either.
                    if p < int_end {
                        assert(is_digit(t@[p]));
                        assert(t@[p] as u32 != '.' as u32);
                        assert(false);
                    }
                    assert(p > int_end);
                    assert(t@.take(p)[int_end as int] == t@[int_end as int]);
                    assert(!all_digits(t@.take(p)));
                },
            }
        }
        return None;
    }
    proof {
        lemma_dot_position_first(t@, int_end as int);
        assert(t@.take(int_end as int) =~= ip);
    }
    let fstart = int_end + 1;
    let fend = scan_digits(t, fstart);
    let ghost fp: Seq<char> = t@.skip(fstart as int);
    if fend != n {
        // A stray character sits among the fraction digits.
        proof {
            assert(fp[fend - fstart] == t@[fend as int]);
            assert(!all_digits(fp));
        }
        return None;
    }
    if n - fstart > PRICE_FRACTION_DIGITS {
        return None;
    }
    let frac_len = n - fstart;
    proof {
        assert(forall|q: int| 0 <= q < fp.len() ==> fp[q] == t@[fstart + q]);
        assert(all_digits(fp));
        lemma_digits_value_bound(fp);
    }

    // Read the fraction digits, then pad them out to full precision.
    let mut frac: u64 = 0;
    let mut k2: usize = fstart;
    while k2 < n
        invariant
            fstart <= k2 <= n,
            n == t@.len(),
            fstart >= 1,
            n - fstart <= PRICE_FRACTION_DIGITS,
            fp == t@.skip(fstart as int),
            all_digits(fp),
            frac as int == digits_value(fp.take(k2 - fstart)),
            (frac as int) < pow10((k2 - fstart) as nat),
        decreases n - k2,
    {
        let c = t.get_char(k2);
        proof {
            assert(fp[k2 - fstart] == t@[k2 as int]);
            assert(is_digit(c));
            assert(fp.take(k2 - fstart + 1).drop_last() =~= fp.take(k2 - fstart));
            assert(fp.take(k2 - fstart + 1).last() == fp[k2 - fstart]);
            lemma_pow10_small();
            assert(pow10((k2 - fstart) as nat) <= pow10(PRICE_FRACTION_DIGITS as nat)) by {
                lemma_pow10_mono((k2 - fstart) as nat, PRICE_FRACTION_DIGITS as nat);
            }
        }
        let d: u64 = (c as u32 - 48) as u64;
        frac = frac * 10 + d;
        k2 += 1;
    }
    proof {
        assert(fp.take(n - fstart) =~= fp);
        lemma_pow10_small();
        assert((frac_len - frac_len) as nat == 0nat);
        assert(pow10(0) == 1);
        assert(frac as int == digits_value(fp));
        assert(digits_value(fp) * pow10(0) == digits_value(fp)) by (nonlinear_arith)
            requires
                pow10(0) == 1,
        ;
        lemma_digits_value_bound(fp);
        assert((frac as int) < pow10(frac_len as nat));
    }

    let mut pad: usize = frac_len;
    while pad < PRICE_FRACTION_DIGITS
        invariant
            frac_len <= pad <= PRICE_FRACTION_DIGITS,
            frac as int == digits_value(fp) * pow10((pad - frac_len) as nat),
            (frac as int) < pow10(pad as nat),
            frac_len == fp.len(),
            all_digits(fp),
        decreases PRICE_FRACTION_DIGITS - pad,
    {
        proof {
            lemma_pow10_small();
            lemma_digits_value_nonneg(fp);
            lemma_pow10_mono(pad as nat, (PRICE_FRACTION_DIGITS - 1) as nat);
            assert(pow10((pad + 1 - frac_len) as nat) == 10 * pow10((pad - frac_len) as nat));
            assert(digits_value(fp) * pow10((pad + 1 - frac_len) as nat) == (digits_value(fp)
                * pow10((pad - frac_len) as nat)) * 10) by (nonlinear_arith)
                requires
                    pow10((pad + 1 - frac_len) as nat) == 10 * pow10((pad - frac_len) as nat),
            ;
        }
        frac = frac * 10;
        pad += 1;
    }
    proof {
        lemma_pow10_small();
    }

    if big {
        proof {
            lemma_digits_value_nonneg(fp);
            assert(digits_value(ip) * (PRICE_SCALE as int) + frac as int
                > 0x8000_0000_0000_0000) by (nonlinear_arith)
                requires
                    digits_value(ip) > MAX_WHOLE_UNITS as int,
                    MAX_WHOLE_UNITS == 92233720368547u64,
                    PRICE_SCALE == 100000i64,
                    frac as int >= 0,
            ;
        }
        return None;
    }
    proof {
        assert(acc as int * (PRICE_SCALE as int) <= 9223372036854700000) by (nonlinear_arith)
            requires
                0 <= acc as int <= MAX_WHOLE_UNITS as int,
                MAX_WHOLE_UNITS == 92233720368547u64,
                PRICE_SCALE == 100000i64,
        ;
        assert(frac as int * pow10(0) == frac as int);
    }
    Some(acc * (PRICE_SCALE as u64) + frac)
}

proof fn lemma_pow10_small()
    ensures
        pow10(0) == 1,
        pow10(1) == 10,
        pow10(2) == 100,
        pow10(3) == 1000,
        pow10(4) == 10000,
        pow10(5) == 100000,
{
    reveal_with_fuel(pow10, 7);
}

proof fn lemma_pow10_mono(a: nat, b: nat)
    requires
        a <= b,
    ensures
        pow10(a) <= pow10(b),
        pow10(a) >= 1,
    decreases b,
{
    if b == 0 {
    } else if a == b {
        lemma_pow10_mono((a - 1) as nat, (b - 1) as nat);
    } else {
        lemma_pow10_mono(a, (b - 1) as nat);
    }
}

/// The magnitude of a machine price.
pub open spec fn magnitude_of(p: i64) -> int {
    if p >= 0 {
        p as int
    } else {
        -(p as int)
    }
}

/// The decimal digits writing a value, most significant first.
pub open spec fn decimal_of(n: int) -> Seq<char>
    decreases n,
{
    if n < 10 {
        seq![digit_char(n)]
    } else {
        decimal_of(n / 10).push(digit_char(n % 10))
    }
}

/// The exactly-`width` decimal digits writing a value below ten to the
/// `width`, most significant first, padded with leading zeros.
pub open spec fn fixed_decimal_of(n: int, width: nat) -> Seq<char>
    decreases width,
{
    if width == 0 {
        Seq::empty()
    } else {
        fixed_decimal_of(n / 10, (width - 1) as nat).push(digit_char(n % 10))
    }
}

proof fn lemma_decimal_of_props(n: int)
    requires
        n >= 0,
    ensures
        all_digits(decimal_of(n)),
        digits_value(decimal_of(n)) == n,
        decimal_of(n).len() >= 1,
    decreases n,
{
    assert(digits_value(Seq::<char>::empty()) == 0);
    if n < 10 {
        assert(decimal_of(n) =~= seq![digit_char(n)]);
        assert(seq![digit_char(n)].drop_last() =~= Seq::<char>::empty());
        assert(seq![digit_char(n)].last() == digit_char(n));
        assert(digits_value(seq![digit_char(n)]) == digit_value(digit_char(n)));
    } else {
        lemma_decimal_of_props(n / 10);
        assert(decimal_of(n).drop_last() =~= decimal_of(n / 10));
        assert(decimal_of(n).last() == digit_char(n % 10));
    }
}

proof fn lemma_fixed_decimal_props(n: int, width: nat)
    requires
        0 <= n < pow10(width),
    ensures
        all_digits(fixed_decimal_of(n, width)),
        digits_value(fixed_decimal_of(n, width)) == n,
        fixed_decimal_of(n, width).len() == width,
    decreases width,
{
    if width > 0 {
        assert(pow10(width) == 10 * pow10((width - 1) as nat));
        assert(n / 10 < pow10((width - 1) as nat)) by (nonlinear_arith)
            requires
                0 <= n,
                n < 10 * pow10((width - 1) as nat),
        ;
        lemma_fixed_decimal_props(n / 10, (width - 1) as nat);
        assert(fixed_decimal_of(n, width).drop_last() =~= fixed_decimal_of(
            n / 10,
            (width - 1) as nat,
        ));
    }
}

/// Appends the decimal digits of `n`.
fn push_decimal(n: u64, out: &mut String)
    ensures
        final(out)@ == old(out)@ + decimal_of(n as int),
    decreases n,
{
    if n >= 10 {
        push_decimal(n / 10, out);
    }
    out.append(digit_str((n % 10) as u8));
    proof {
        if n >= 10 {
            assert(final(out)@ =~= old(out)@ + decimal_of(n as int));
        } else {
            assert(decimal_of(n as int) =~= seq![digit_char(n as int)]);
            assert(final(out)@ =~= old(out)@ + decimal_of(n as int));
        }
    }
}

/// Appends exactly `width` decimal digits of `n`, zero-padded.
fn push_fixed_decimal(n: u64, width: usize, out: &mut String)
    ensures
        final(out)@ == old(out)@ + fixed_decimal_of(n as int, width as nat),
    decreases width,
{
    if width > 0 {
        push_fixed_decimal(n / 10, width - 1, out);
        out.append(digit_str((n % 10) as u8));
        proof {
            assert(final(out)@ =~= old(out)@ + fixed_decimal_of(n as int, width as nat));
        }
    } else {
        proof {
            assert(final(out)@ =~= old(out)@ + fixed_decimal_of(n as int, 0));
        }
    }
}

/// The canonical text of a machine price: an optional minus sign, the whole
/// units, a point, and exactly `PRICE_FRACTION_DIGITS` fraction digits.
pub open spec fn price_text_of(p: i64) -> Seq<char> {
    (if p < 0 {
        seq!['-']
    } else {
        Seq::<char>::empty()
    }) + decimal_of(magnitude_of(p) / (PRICE_SCALE as int)) + seq!['.'] + fixed_decimal_of(
        magnitude_of(p) % (PRICE_SCALE as int),
        PRICE_FRACTION_DIGITS as nat,
    )
}

/// Writes a machine price as its canonical text.
pub fn format_price(p: i64) -> (r: String)
    ensures
        r@ == price_text_of(p),
{
    proof {
        reveal_strlit("-");
        reveal_strlit(".");
    }
    let mut out = String::new();
    if p < 0 {
        out.append("-");
    }
    let mag: u64 = if p < 0 {
        (-(p as i128)) as u64
    } else {
        p as u64
    };
    proof {
        assert(mag as int == magnitude_of(p));
        assert("-"@ =~= seq!['-']);
        assert("."@ =~= seq!['.']);
    }
    push_decimal(mag / (PRICE_SCALE as u64), &mut out);
    out.append(".");
    push_fixed_decimal(mag % (PRICE_SCALE as u64), PRICE_FRACTION_DIGITS, &mut out);
    proof {
        assert((mag / 100000) as int == magnitude_of(p) / (PRICE_SCALE as int));
        assert((mag % 100000) as int == magnitude_of(p) % (PRICE_SCALE as int));
        assert(out@ =~= price_text_of(p));
    }
    out
}

/// Every character of a price's canonical text is ASCII: a minus sign, a
/// point, or a decimal digit.
pub proof fn lemma_price_text_ascii(p: i64)
    ensures
        forall|i: int|
            0 <= i < price_text_of(p).len() ==> (#[trigger] price_text_of(p)[i] as u32) < 128,
{
    let mag = magnitude_of(p);
    let q = mag / (PRICE_SCALE as int);
    let rm = mag % (PRICE_SCALE as int);
    lemma_pow10_small();
    lemma_decimal_of_props(q);
    lemma_fixed_decimal_props(rm, PRICE_FRACTION_DIGITS as nat);
    let sign: Seq<char> = if p < 0 {
        seq!['-']
    } else {
        Seq::<char>::empty()
    };
    let ip = decimal_of(q);
    let fp = fixed_decimal_of(rm, PRICE_FRACTION_DIGITS as nat);
    let t = price_text_of(p);
    assert forall|i: int| 0 <= i < t.len() implies (#[trigger] t[i] as u32) < 128 by {
        if i < sign.len() {
            assert(t[i] == '-');
        } else if i < sign.len() + ip.len() {
            assert(t[i] == ip[i - sign.len()]);
            assert(is_digit(ip[i - sign.len()]));
        } else if i == sign.len() + ip.len() {
            assert(t[i] == '.');
        } else {
            assert(t[i] == fp[i - sign.len() - ip.len() - 1]);
            assert(is_digit(fp[i - sign.len() - ip.len() - 1]));
        }
    }
}

/// Writing a price and reading it back yields the price: the parser
/// accepts every formatted price and returns its exact value.
pub proof fn lemma_format_parse_round_trip(p: i64)
    ensures
        parse_price_spec(price_text_of(p)) == Some(p as int),
{
    let mag = magnitude_of(p);
    let q = mag / (PRICE_SCALE as int);
    let rm = mag % (PRICE_SCALE as int);
    lemma_pow10_small();
    lemma_decimal_of_props(q);
    lemma_fixed_decimal_props(rm, PRICE_FRACTION_DIGITS as nat);
    let ip = decimal_of(q);
    let fp = fixed_decimal_of(rm, PRICE_FRACTION_DIGITS as nat);
    let t = ip + seq!['.'] + fp;
    assert(t[ip.len() as int] == '.');
    assert forall|j: int| 0 <= j < ip.len() implies t[j] != '.' by {
        assert(t[j] == ip[j]);
        assert(is_digit(ip[j]));
    }
    lemma_dot_position_first(t, ip.len() as int);
    assert(t.take(ip.len() as int) =~= ip);
    assert(t.skip(ip.len() as int + 1) =~= fp);
    assert(price_magnitude(t) == Some(
        digits_value(ip) * (PRICE_SCALE as int) + digits_value(fp) * pow10(0),
    ));
    assert(q * (PRICE_SCALE as int) + rm == mag);
    if p < 0 {
        let s = price_text_of(p);
        assert(s =~= seq!['-'] + t);
        assert(s[0] == '-');
        assert(s.drop_first() =~= t);
        assert(price_value(s) == Some(-mag));
        assert(-mag == p as int);
    } else {
        let s = price_text_of(p);
        assert(s =~= t);
        assert(s[0] == ip[0]);
        assert(is_digit(ip[0]));
        assert(s[0] != '-');
        assert(price_value(s) == Some(mag));
    }
}

/// Reads a price string: an optional `'-'`, whole-unit digits, and an
/// optional fraction of at most `PRICE_FRACTION_DIGITS` digits, yielding the
/// written value in fixed-point units. `None` exactly when the string is not
/// of that shape or the value does not fit a machine price.
pub fn parse_price(s: &str) -> (r: Option<i64>)
    ensures
        match r {
            Some(p) => parse_price_spec(s@) == Some(p as int),
            None => parse_price_spec(s@) is None,
        },
{
    let n = s.unicode_len();
    if n >= 1 && s.get_char(0) == '-' {
        let rest = s.substring_char(1, n);
        proof {
            assert(rest@ =~= s@.drop_first());
        }
        match parse_magnitude(rest) {
            Some(mag) => {
                if mag > 0x8000_0000_0000_0000u64 {
                    None
                } else if mag == 0x8000_0000_0000_0000u64 {
                    Some(i64::MIN)
                } else {
                    Some(-(mag as i64))
                }
            },
            None => None,
        }
    } else {
        match parse_magnitude(s) {
            Some(mag) => {
                if mag > i64::MAX as u64 {
                    None
                } else {
                    Some(mag as i64)
                }
            },
            None => None,
        }
    }
}

} // verus!
