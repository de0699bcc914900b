//! Integer and decimal text as the SXF reader accepts it, and exact
//! comparison of decimals with fixed bounds.

use vstd::prelude::*;
use crate::model::Decimal;
use crate::text::{digit_char, int_text, is_ascii_digit, is_digit_spec, nat_text};

verus! {

pub open spec fn digit_val(c: char) -> int {
    (c as u32) as int - 48
}

/// Decimal value of a digit string.
pub open spec fn digits_value(s: Seq<char>) -> int
    decreases s.len(),
{
    if s.len() == 0 {
        0
    } else {
        digits_value(s.drop_last()) * 10 + digit_val(s.last())
    }
}

pub open spec fn all_digits(s: Seq<char>) -> bool {
    forall|i: int| 0 <= i < s.len() ==> is_digit_spec(#[trigger] s[i])
}

/// An optional leading `-` or `+`: whether it was `-`, and the rest.
pub open spec fn sign_split(s: Seq<char>) -> (bool, Seq<char>) {
    if s.len() > 0 && s[0] == '-' {
        (true, s.drop_first())
    } else if s.len() > 0 && s[0] == '+' {
        (false, s.drop_first())
    } else {
        (false, s)
    }
}

/// `str::parse::<i64>`: an optional sign, one or more ASCII digits, in range.
pub open spec fn parse_int_spec(s: Seq<char>) -> Option<int> {
    let (neg, body) = sign_split(s);
    if body.len() == 0 || !all_digits(body) {
        None
    } else {
        let v = if neg {
            -digits_value(body)
        } else {
            digits_value(body)
        };
        if i64::MIN <= v <= i64::MAX {
            Some(v)
        } else {
            None
        }
    }
}

proof fn lemma_digit_char(d: int)
    requires
        0 <= d < 10,
    ensures
        is_digit_spec(digit_char(d)),
        digit_val(digit_char(d)) == d,
{
    assert((d + 48) as char as u32 == (d + 48) as u32);
}

/// The decimal text of `n` is digits whose value is `n`.
pub proof fn lemma_nat_text_digits(n: nat)
    ensures
        nat_text(n).len() > 0,
        all_digits(nat_text(n)),
        digits_value(nat_text(n)) == n,
    decreases n,
{
    if n < 10 {
        lemma_digit_char(n as int);
        let t = nat_text(n);
        assert(t.drop_last() =~= Seq::<char>::empty());
        assert(t.last() == digit_char(n as int));
        assert(digits_value(t) == digits_value(t.drop_last()) * 10 + digit_val(t.last()));
    } else {
        lemma_nat_text_digits(n / 10);
        lemma_digit_char((n % 10) as int);
        let t = nat_text(n);
        assert(t.drop_last() =~= nat_text(n / 10));
        assert(t.last() == digit_char((n % 10) as int));
        assert(digits_value(t) == digits_value(t.drop_last()) * 10 + digit_val(t.last()));
        assert((n / 10) * 10 + n % 10 == n);
        assert forall|i: int| 0 <= i < t.len() implies is_digit_spec(#[trigger] t[i]) by {
            if i < t.len() - 1 {
                assert(t[i] == nat_text(n / 10)[i]);
            }
        }
    }
}

/// Reading back the decimal text of an integer gives the integer.
pub proof fn lemma_int_text_reads_back(n: i64)
    ensures
        parse_int_spec(int_text(n as int)) == Some(n as int),
{
    let m: nat = if n < 0 {
        (-(n as int)) as nat
    } else {
        n as nat
    };
    lemma_nat_text_digits(m);
    let t = nat_text(m);
    assert(is_digit_spec(t[0]));
    if n < 0 {
        assert((seq!['-'] + t).drop_first() =~= t);
    }
}

pub proof fn lemma_digits_value_nonneg(s: Seq<char>)
    requires
        all_digits(s),
    ensures
        digits_value(s) >= 0,
    decreases s.len(),
{
    if s.len() > 0 {
        assert(all_digits(s.drop_last()));
        lemma_digits_value_nonneg(s.drop_last());
        assert(is_digit_spec(s[s.len() - 1]));
    }
}

/// A digit string is worth at least any of its prefixes.
pub proof fn lemma_digits_value_prefix(s: Seq<char>, k: int)
    requires
        all_digits(s),
        0 <= k <= s.len(),
    ensures
        digits_value(s) >= digits_value(s.subrange(0, k)),
    decreases s.len(),
{
    if k < s.len() {
        assert(all_digits(s.drop_last()));
        assert(s.drop_last().subrange(0, k) =~= s.subrange(0, k));
        lemma_digits_value_prefix(s.drop_last(), k);
        lemma_digits_value_nonneg(s.drop_last());
        assert(is_digit_spec(s[s.len() - 1]));
    } else {
        assert(s.subrange(0, k) =~= s);
    }
}

pub proof fn lemma_digits_value_step(s: Seq<char>, i: int)
    requires
        0 <= i < s.len(),
    ensures
        digits_value(s.subrange(0, i + 1)) == digits_value(s.subrange(0, i)) * 10 + digit_val(
            s[i],
        ),
{
    assert(s.subrange(0, i + 1).drop_last() =~= s.subrange(0, i));
}

/// Parses `s[lo..hi]` as an `i64` the way `str::parse::<i64>` does.
pub fn parse_int_range(s: &Vec<char>, lo: usize, hi: usize) -> (r: Option<i64>)
    requires
        lo <= hi <= s.len(),
    ensures
        r matches Some(v) ==> parse_int_spec(s@.subrange(lo as int, hi as int)) == Some(v as int),
        r is None ==> parse_int_spec(s@.subrange(lo as int, hi as int)) is None,
{
    let ghost t = s@.subrange(lo as int, hi as int);
    let mut start: usize = lo;
    let mut neg = false;
    if lo < hi && s[lo] == '-' {
        neg = true;
        start = lo + 1;
    } else if lo < hi && s[lo] == '+' {
        start = lo + 1;
    }
    let ghost body = s@.subrange(start as int, hi as int);
    assert(sign_split(t) == (neg, body)) by {
        if lo < hi {
            assert(t.drop_first() =~= s@.subrange(lo + 1, hi as int));
        } else {
            assert(body =~= t);
        }
        if start == lo {
            assert(body =~= t);
        }
    }
    if start == hi {
        return None;
    }
    let limit: i128 = 9223372036854775808;
    let mut acc: i128 = 0;
    let mut i: usize = start;
    while i < hi
        invariant
            lo <= start <= i <= hi <= s.len(),
            body == s@.subrange(start as int, hi as int),
            sign_split(s@.subrange(lo as int, hi as int)) == (neg, body),
            body.len() > 0,
            all_digits(body.subrange(0, i - start)),
            acc == digits_value(body.subrange(0, i - start)),
            0 <= acc <= limit,
            limit == 9223372036854775808,
        decreases hi - i,
    {
        let c = s[i];
        assert(body[i - start] == c);
        if !is_ascii_digit(c) {
            assert(!is_digit_spec(body[i - start]));
            assert(!all_digits(body));
            return None;
        }
        proof {
            lemma_digits_value_step(body, i - start);
            assert(body.subrange(0, i - start + 1) =~= body.subrange(0, i - start).push(c));
        }
        let d: i128 = (c as u32) as i128 - 48;
        acc = acc * 10 + d;
        i = i + 1;
        if acc > limit {
            proof {
                if all_digits(body) {
                    lemma_digits_value_prefix(body, i - start);
                }
            }
            return None;
        }
    }
    assert(body.subrange(0, i - start) =~= body);
    if neg {
        let v: i128 = -acc;
        Some(v as i64)
    } else {
        if acc > 9223372036854775807 {
            return None;
        }
        Some(acc as i64)
    }
}

/// Left-to-right reading of an unsigned decimal body (digits and at most one
/// dot): the value of the digits kept, whether a dot was seen, the number of
/// digits kept after it, the number of digits, the number of digits dropped
/// before the dot, and whether digits are being dropped. Digits are kept
/// while the value fits an `i128`; from the first that does not fit on, the
/// rest are dropped (the value is cut toward zero, its scale kept).
pub open spec fn decimal_scan(s: Seq<char>) -> Option<(int, bool, int, int, int, bool)>
    decreases s.len(),
{
    if s.len() == 0 {
        Some((0, false, 0, 0, 0, false))
    } else {
        match decimal_scan(s.drop_last()) {
            None => None,
            Some((m, dot, frac, n, extra, full)) => {
                let c = s.last();
                if is_digit_spec(c) {
                    if !full && m * 10 + digit_val(c) <= i128::MAX {
                        Some((m * 10 + digit_val(c), dot, if dot { frac + 1 } else { frac }, n + 1, extra, false))
                    } else {
                        Some((m, dot, frac, n + 1, if dot { extra } else { extra + 1 }, true))
                    }
                } else if c == '.' {
                    if dot {
                        None
                    } else {
                        Some((m, true, frac, n, extra, full))
                    }
                } else {
                    None
                }
            },
        }
    }
}

/// A decimal literal as SFC writes it in a string: an optional sign, digits
/// with at most one dot, at least one digit. Digits beyond what an `i128`
/// mantissa holds are dropped (toward zero); the exponent keeps the scale.
pub open spec fn decimal_body_spec(t: Seq<char>) -> Option<Decimal> {
    let (neg, body) = sign_split(t);
    if body.len() == 0 {
        None
    } else {
        match decimal_scan(body) {
            None => None,
            Some((m, dot, frac, n, extra, full)) => if n == 0 || frac > i64::MAX || extra > i64::MAX {
                None
            } else {
                Some(
                    Decimal {
                        mantissa: (if neg {
                            -m
                        } else {
                            m
                        }) as i128,
                        exponent: (extra - frac) as i64,
                    },
                )
            },
        }
    }
}

/// Signs of integer text: digits with no sign read as a number at or above
/// zero; a leading `-` reads as its negation wherever the digits fit, and a
/// leading `+` as the digits themselves.
pub proof fn lemma_int_sign(b: Seq<char>)
    requires
        b.len() == 0 || (b[0] != '-' && b[0] != '+'),
    ensures
        parse_int_spec(b) matches Some(v) ==> v >= 0,
        parse_int_spec(b) matches Some(v) ==> parse_int_spec(seq!['-'] + b) == Some(-v),
        parse_int_spec(seq!['-'] + b) matches Some(v) ==> v <= 0,
        parse_int_spec(seq!['+'] + b) == parse_int_spec(b),
{
    assert((seq!['-'] + b).drop_first() =~= b);
    assert((seq!['+'] + b).drop_first() =~= b);
    if all_digits(b) {
        lemma_digits_value_nonneg(b);
    }
}

/// The mantissa `decimal_scan` keeps is a natural number within `i128`.
proof fn lemma_decimal_scan_mantissa(s: Seq<char>)
    requires
        decimal_scan(s) is Some,
    ensures
        decimal_scan(s) matches Some((m, _, _, _, _, _)) && 0 <= m <= i128::MAX,
    decreases s.len(),
{
    if s.len() > 0 {
        lemma_decimal_scan_mantissa(s.drop_last());
        if is_digit_spec(s.last()) {
            assert(0 <= digit_val(s.last()));
        }
    }
}

/// The decimal `d` with its sign turned.
pub open spec fn negated(d: Decimal) -> Decimal {
    Decimal { mantissa: (-d.mantissa) as i128, exponent: d.exponent }
}

/// Signs of decimal text: digits with no sign read as a number at or above
/// zero; a leading `-` reads as the negation of the digits after it, and a
/// leading `+` as those digits themselves.
pub proof fn lemma_decimal_sign(b: Seq<char>)
    requires
        b.len() == 0 || (b[0] != '-' && b[0] != '+'),
    ensures
        decimal_body_spec(b) matches Some(d) ==> d.mantissa >= 0,
        decimal_body_spec(seq!['-'] + b) == (match decimal_body_spec(b) {
            Some(d) => Some(negated(d)),
            None => None::<Decimal>,
        }),
        decimal_body_spec(seq!['+'] + b) == decimal_body_spec(b),
{
    assert((seq!['-'] + b).drop_first() =~= b);
    assert((seq!['+'] + b).drop_first() =~= b);
    if b.len() > 0 && decimal_scan(b) is Some {
        lemma_decimal_scan_mantissa(b);
    }
}

pub proof fn lemma_decimal_scan_grows(s: Seq<char>, k: int)
    requires
        0 <= k <= s.len(),
        decimal_scan(s) is Some,
    ensures
        decimal_scan(s.subrange(0, k)) is Some,
    decreases s.len(),
{
    if s.len() > 0 {
        lemma_decimal_scan_grows(s.drop_last(), if k < s.len() { k } else { s.len() - 1 });
        if k == s.len() {
            assert(s.subrange(0, k) =~= s);
        } else {
            assert(s.drop_last().subrange(0, k) =~= s.subrange(0, k));
        }
    } else {
        assert(s.subrange(0, k) =~= s);
    }
}

/// Parses `s[lo..hi]` (already trimmed) as an SFC decimal.
pub fn parse_decimal_range(s: &Vec<char>, lo: usize, hi: usize) -> (r: Option<Decimal>)
    requires
        lo <= hi <= s.len(),
    ensures
        r == decimal_body_spec(s@.subrange(lo as int, hi as int)),
{
    let ghost t = s@.subrange(lo as int, hi as int);
    let mut start: usize = lo;
    let mut neg = false;
    if lo < hi && s[lo] == '-' {
        neg = true;
        start = lo + 1;
    } else if lo < hi && s[lo] == '+' {
        start = lo + 1;
    }
    let ghost body = s@.subrange(start as int, hi as int);
    assert(sign_split(t) == (neg, body)) by {
        if lo < hi {
            assert(t.drop_first() =~= s@.subrange(lo + 1, hi as int));
        }
        if start == lo {
            assert(body =~= t);
        }
    }
    if start == hi {
        return None;
    }
    let mut m: i128 = 0;
    let mut dot = false;
    let mut frac: usize = 0;
    let mut n: usize = 0;
    let mut extra: usize = 0;
    let mut full = false;
    let mut i: usize = start;
    assert(body.subrange(0, 0) =~= Seq::<char>::empty());
    while i < hi
        invariant
            lo <= start <= i <= hi <= s.len(),
            body == s@.subrange(start as int, hi as int),
            sign_split(s@.subrange(lo as int, hi as int)) == (neg, body),
            body.len() > 0,
            decimal_scan(body.subrange(0, i - start)) == Some(
                (m as int, dot, frac as int, n as int, extra as int, full),
            ),
            0 <= m,
            0 <= frac <= i - start,
            0 <= extra <= i - start,
            n <= i - start,
        decreases hi - i,
    {
        let c = s[i];
        let ghost pre = body.subrange(0, i - start);
        let ghost next = body.subrange(0, i - start + 1);
        assert(next.drop_last() =~= pre);
        assert(next.last() == c);
        if is_ascii_digit(c) {
            let d: i128 = (c as u32) as i128 - 48;
            if !full && m <= (170141183460469231731687303715884105727 - d) / 10 {
                assert(m * 10 + d <= 170141183460469231731687303715884105727) by (nonlinear_arith)
                    requires
                        m <= (170141183460469231731687303715884105727 - d) / 10,
                        0 <= d <= 9,
                ;
                m = m * 10 + d;
                if dot {
                    frac = frac + 1;
                }
            } else {
                if !full {
                    assert(m * 10 + d > 170141183460469231731687303715884105727) by (nonlinear_arith)
                        requires
                            m > (170141183460469231731687303715884105727 - d) / 10,
                            0 <= d <= 9,
                    ;
                }
                if !dot {
                    extra = extra + 1;
                }
                full = true;
            }
            n = n + 1;
        } else if c == '.' {
            if dot {
                proof {
                    if decimal_scan(body) is Some {
                        lemma_decimal_scan_grows(body, i - start + 1);
                    }
                }
                return None;
            }
            dot = true;
        } else {
            proof {
                if decimal_scan(body) is Some {
                    lemma_decimal_scan_grows(body, i - start + 1);
                }
            }
            return None;
        }
        i = i + 1;
    }
    assert(body.subrange(0, i - start) =~= body);
    if n == 0 || frac as u64 > 9223372036854775807u64 || extra as u64 > 9223372036854775807u64 {
        return None;
    }
    let fe: i64 = frac as i64;
    let xe: i64 = extra as i64;
    let mantissa: i128 = if neg {
        -m
    } else {
        m
    };
    Some(Decimal { mantissa, exponent: xe - fe })
}

/// `10^k`.
pub open spec fn pow10(k: nat) -> int
    decreases k,
{
    if k == 0 {
        1
    } else {
        10 * pow10((k - 1) as nat)
    }
}

pub proof fn lemma_pow10_pos(k: nat)
    ensures
        pow10(k) >= 1,
    decreases k,
{
    if k > 0 {
        lemma_pow10_pos((k - 1) as nat);
    }
}

pub proof fn lemma_pow10_add(a: nat, b: nat)
    ensures
        pow10(a + b) == pow10(a) * pow10(b),
    decreases b,
{
    if b > 0 {
        lemma_pow10_add(a, (b - 1) as nat);
        assert(pow10(a + b) == 10 * pow10((a + b - 1) as nat));
        assert(pow10(a) * pow10(b) == pow10(a) * (10 * pow10((b - 1) as nat)));
        assert(pow10(a) * (10 * pow10((b - 1) as nat)) == 10 * (pow10(a) * pow10(
            (b - 1) as nat,
        ))) by (nonlinear_arith);
    }
}

pub open spec fn sgn(x: int) -> int {
    if x > 0 {
        1
    } else if x < 0 {
        -1
    } else {
        0
    }
}

/// The sign of `d - p / 10^k`, computed exactly.
pub open spec fn dec_order(d: Decimal, p: int, k: nat) -> int {
    let e = d.exponent + k;
    if e >= 0 {
        sgn(d.mantissa * pow10(e as nat) - p)
    } else {
        sgn(d.mantissa - p * pow10((-e) as nat))
    }
}


/// `sgn(x0 * 10^e - p)`.
fn order_scaled(x0: i128, e: u64, p: i128) -> (r: i8)
    ensures
        r as int == sgn(x0 * pow10(e as nat) - p),
{
    if x0 == 0 {
        return if p < 0 {
            1
        } else if p > 0 {
            -1
        } else {
            0
        };
    }
    let mut x: i128 = x0;
    let mut j: u64 = 0;
    while j < e
        invariant
            j <= e,
            x as int == x0 * pow10(j as nat),
            x != 0,
        decreases e - j,
    {
        proof {
            lemma_pow10_add(j as nat, 1);
            assert(x0 * pow10((j + 1) as nat) == x * 10) by (nonlinear_arith)
                requires
                    x == x0 * pow10(j as nat),
                    pow10((j + 1) as nat) == pow10(j as nat) * 10,
            ;
        }
        match x.checked_mul(10) {
            Some(z) => {
                x = z;
                j = j + 1;
            },
            None => {
                proof {
                    let rest = (e - j - 1) as nat;
                    lemma_pow10_pos(rest);
                    lemma_pow10_add((j + 1) as nat, rest);
                    assert(pow10(e as nat) == pow10((j + 1) as nat) * pow10(rest));
                    assert(x0 * pow10(e as nat) == (x * 10) * pow10(rest)) by (nonlinear_arith)
                        requires
                            x0 * pow10((j + 1) as nat) == x * 10,
                            pow10(e as nat) == pow10((j + 1) as nat) * pow10(rest),
                    ;
                    if x > 0 {
                        assert((x * 10) * pow10(rest) >= x * 10) by (nonlinear_arith)
                            requires
                                x > 0,
                                pow10(rest) >= 1,
                        ;
                    } else {
                        assert((x * 10) * pow10(rest) <= x * 10) by (nonlinear_arith)
                            requires
                                x < 0,
                                pow10(rest) >= 1,
                        ;
                    }
                }
                return if x > 0 {
                    1
                } else {
                    -1
                };
            },
        }
    }
    if x > p {
        1
    } else if x < p {
        -1
    } else {
        0
    }
}

/// Compares `d` with `p / 10^k` exactly: `1`, `0` or `-1` as `d` is greater, equal or less.
pub fn compare_decimal(d: Decimal, p: i128, k: u32) -> (r: i8)
    ensures
        r as int == dec_order(d, p as int, k as nat),
{
    let e: i128 = d.exponent as i128 + k as i128;
    if e >= 0 {
        order_scaled(d.mantissa, e as u64, p)
    } else {
        let ne: u64 = (-e) as u64;
        let r = order_scaled(p, ne, d.mantissa);
        proof {
            assert(sgn(d.mantissa - p * pow10(ne as nat)) == -sgn(p * pow10(ne as nat)
                - d.mantissa));
        }
        -r
    }
}

pub open spec fn abs(x: int) -> int {
    if x < 0 {
        -x
    } else {
        x
    }
}

/// The value of `d` when it is a whole number.
pub open spec fn dec_integer(d: Decimal) -> Option<int> {
    if d.exponent >= 0 {
        Some(d.mantissa * pow10(d.exponent as nat))
    } else {
        let q = pow10((-d.exponent) as nat);
        let a = abs(d.mantissa as int);
        if a % q == 0 {
            Some(
                if d.mantissa < 0 {
                    -(a / q)
                } else {
                    a / q
                },
            )
        } else {
            None
        }
    }
}

/// A number converted to `i64` the way `f64 as i64` does: saturating at the bounds.
pub open spec fn saturate_i64(v: int) -> i64 {
    if v > i64::MAX {
        i64::MAX
    } else if v < i64::MIN {
        i64::MIN
    } else {
        v as i64
    }
}

proof fn lemma_pow10_step(r: nat)
    requires
        r >= 1,
    ensures
        pow10(r) == 10 * pow10((r - 1) as nat),
        pow10((r - 1) as nat) >= 1,
{
    lemma_pow10_pos((r - 1) as nat);
}

proof fn lemma_strip_zero(a: int, r: nat)
    requires
        a >= 0,
        r >= 1,
        a % 10 == 0,
    ensures
        (a % pow10(r) == 0) == ((a / 10) % pow10((r - 1) as nat) == 0),
        (a / 10) / pow10((r - 1) as nat) == a / pow10(r),
{
    lemma_pow10_step(r);
    let p = pow10((r - 1) as nat);
    vstd::arithmetic::div_mod::lemma_breakdown(a, 10, p);
    vstd::arithmetic::div_mod::lemma_div_denominator(a, 10, p);
}

proof fn lemma_nonzero_digit(a: int, r: nat)
    requires
        a >= 0,
        r >= 1,
        a % 10 != 0,
    ensures
        a % pow10(r) != 0,
{
    lemma_pow10_step(r);
    let p = pow10((r - 1) as nat);
    vstd::arithmetic::div_mod::lemma_breakdown(a, 10, p);
    vstd::arithmetic::div_mod::lemma_mod_pos_bound(a / 10, p);
    vstd::arithmetic::div_mod::lemma_mod_pos_bound(a, 10);
}

fn saturate_magnitude(neg: bool, a: u128) -> (r: i64)
    ensures
        r == saturate_i64(if neg { -(a as int) } else { a as int }),
{
    if neg {
        if a > 9223372036854775808u128 {
            i64::MIN
        } else {
            let v: i128 = -(a as i128);
            v as i64
        }
    } else {
        if a > 9223372036854775807u128 {
            i64::MAX
        } else {
            a as i64
        }
    }
}

/// The whole-number value of `d` as an `i64` code, saturating, or `None` when
/// `d` has a fractional part.
pub fn decimal_to_code(d: Decimal) -> (r: Option<i64>)
    ensures
        r == (match dec_integer(d) {
            Some(v) => Some(saturate_i64(v)),
            None => None,
        }),
{
    let m = d.mantissa;
    if d.exponent >= 0 {
        let e: u64 = d.exponent as u64;
        let mut x: i128 = m;
        let mut j: u64 = 0;
        while j < e
            invariant
                j <= e,
                m == d.mantissa,
                d.exponent >= 0,
                e as int == d.exponent,
                x as int == m * pow10(j as nat),
            decreases e - j,
        {
            if x == 0 {
                proof {
                    lemma_pow10_add(j as nat, (e - j) as nat);
                    assert(m * pow10(e as nat) == x * pow10((e - j) as nat)) by (nonlinear_arith)
                        requires
                            x == m * pow10(j as nat),
                            pow10(e as nat) == pow10(j as nat) * pow10((e - j) as nat),
                    ;
                }
                return Some(0);
            }
            if x > 9223372036854775807 || x < -9223372036854775808 {
                proof {
                    lemma_pow10_pos((e - j) as nat);
                    lemma_pow10_add(j as nat, (e - j) as nat);
                    assert(m * pow10(e as nat) == x * pow10((e - j) as nat)) by (nonlinear_arith)
                        requires
                            x == m * pow10(j as nat),
                            pow10(e as nat) == pow10(j as nat) * pow10((e - j) as nat),
                    ;
                    if x > 0 {
                        assert(x * pow10((e - j) as nat) >= x) by (nonlinear_arith)
                            requires
                                x > 0,
                                pow10((e - j) as nat) >= 1,
                        ;
                    } else {
                        assert(x * pow10((e - j) as nat) <= x) by (nonlinear_arith)
                            requires
                                x < 0,
                                pow10((e - j) as nat) >= 1,
                        ;
                    }
                }
                return Some(
                    if x > 0 {
                        i64::MAX
                    } else {
                        i64::MIN
                    },
                );
            }
            proof {
                lemma_pow10_add(j as nat, 1);
                assert(m * pow10((j + 1) as nat) == x * 10) by (nonlinear_arith)
                    requires
                        x == m * pow10(j as nat),
                        pow10((j + 1) as nat) == pow10(j as nat) * 10,
                ;
            }
            x = x * 10;
            j = j + 1;
        }
        if x > 9223372036854775807 {
            Some(i64::MAX)
        } else if x < -9223372036854775808 {
            Some(i64::MIN)
        } else {
            Some(x as i64)
        }
    } else {
        let k: u64 = (-(d.exponent as i128)) as u64;
        let neg = m < 0;
        let a0: u128 = if m == i128::MIN {
            170141183460469231731687303715884105728u128
        } else if neg {
            (-m) as u128
        } else {
            m as u128
        };
        let ghost q = pow10(k as nat);
        let mut a: u128 = a0;
        let mut j: u64 = 0;
        proof {
            lemma_pow10_pos(k as nat);
        }
        while j < k
            invariant
                j <= k,
                m == d.mantissa,
                neg == (m < 0),
                d.exponent < 0,
                k as int == -d.exponent,
                a0 as int == abs(m as int),
                q == pow10(k as nat),
                q >= 1,
                (a0 as int % q == 0) == (a as int % pow10((k - j) as nat) == 0),
                a0 as int % q == 0 ==> a0 as int / q == a as int / pow10((k - j) as nat),
            decreases k - j,
        {
            if a == 0 {
                proof {
                    lemma_pow10_pos((k - j) as nat);
                    vstd::arithmetic::div_mod::lemma_small_mod(0, pow10((k - j) as nat) as nat);
                    vstd::arithmetic::div_mod::lemma_basic_div(0, pow10((k - j) as nat));
                }
                return Some(0);
            }
            if a % 10 != 0 {
                proof {
                    lemma_nonzero_digit(a as int, (k - j) as nat);
                }
                return None;
            }
            proof {
                lemma_strip_zero(a as int, (k - j) as nat);
            }
            a = a / 10;
            j = j + 1;
        }
        proof {
            assert(pow10(0) == 1);
        }
        Some(saturate_magnitude(neg, a))
    }
}

} // verus!
