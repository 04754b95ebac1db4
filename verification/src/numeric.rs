//! Exact decimal numbers and the IEEE-style comparisons the signal rules use.
//!
//! Weather readings and user thresholds reach the library as the shortest
//! decimal text of a double (`25`, `0.1`, `-0.12`, `NaN`, `inf`, `-inf`).
//! `parse_number` turns that text into a [`Number`]; the comparisons below
//! then decide `>=` and `<=` exactly as the double comparisons would, with
//! NaN comparing false and the infinities at the ends of the order.

use vstd::prelude::*;
use crate::text::{chars_of, push_char};

verus! {

/// `mantissa * 10^exponent`.
#[derive(Clone, Copy, Debug, PartialEq, Eq, Structural)]
pub struct Decimal {
    pub mantissa: i64,
    pub exponent: i32,
}

/// A double-precision reading: finite (held exactly as a decimal), an
/// infinity, or not-a-number.
#[derive(Clone, Copy, Debug, PartialEq, Eq, Structural)]
pub enum Number {
    Finite(Decimal),
    PosInf,
    NegInf,
    NaN,
}

/// `10^n`.
pub open spec fn pow10(n: nat) -> int
    decreases n,
{
    if n == 0 {
        1
    } else {
        10 * pow10((n - 1) as nat)
    }
}

/// `d` written as a multiple of `10^base` (meaningful for `base <= d.exponent`).
pub open spec fn scaled(d: Decimal, base: int) -> int {
    d.mantissa * pow10((d.exponent - base) as nat)
}

pub open spec fn min_int(a: int, b: int) -> int {
    if a <= b {
        a
    } else {
        b
    }
}

/// The value of `a` is at most the value of `b`.
pub open spec fn dec_le(a: Decimal, b: Decimal) -> bool {
    let base = min_int(a.exponent as int, b.exponent as int);
    scaled(a, base) <= scaled(b, base)
}

/// `x >= t` as doubles compare: false when either side is NaN.
pub open spec fn num_ge(x: Number, t: Number) -> bool {
    match (x, t) {
        (Number::NaN, _) => false,
        (_, Number::NaN) => false,
        (Number::PosInf, _) => true,
        (_, Number::NegInf) => true,
        (Number::NegInf, _) => false,
        (_, Number::PosInf) => false,
        (Number::Finite(a), Number::Finite(b)) => dec_le(b, a),
    }
}

/// `x <= t` as doubles compare.
pub open spec fn num_le(x: Number, t: Number) -> bool {
    num_ge(t, x)
}

/// The whole number `n` as a finite reading.
pub open spec fn whole(n: int) -> Number {
    Number::Finite(Decimal { mantissa: n as i64, exponent: 0 })
}

pub proof fn lemma_pow10_positive(n: nat)
    ensures
        pow10(n) >= 1,
    decreases n,
{
    if n > 0 {
        lemma_pow10_positive((n - 1) as nat);
    }
}

pub proof fn lemma_pow10_monotone(a: nat, b: nat)
    requires
        a <= b,
    ensures
        pow10(a) <= pow10(b),
    decreases b,
{
    if a < b {
        lemma_pow10_monotone(a, (b - 1) as nat);
        lemma_pow10_positive((b - 1) as nat);
    }
}

/// Beyond nineteen powers of ten, no `i64` reaches `10^k`.
proof fn lemma_pow10_exceeds_i64(k: nat)
    requires
        k >= 19,
    ensures
        pow10(k) > i64::MAX,
{
    lemma_pow10_monotone(19, k);
    reveal_with_fuel(pow10, 20);
}

proof fn lemma_pow10_add(a: nat, b: nat)
    ensures
        pow10(a + b) == pow10(a) * pow10(b),
    decreases b,
{
    if b > 0 {
        lemma_pow10_add(a, (b - 1) as nat);
        assert(pow10(a + b) == 10 * pow10((a + b - 1) as nat));
        assert(pow10(a) * (10 * pow10((b - 1) as nat)) == 10 * (pow10(a) * pow10(
            (b - 1) as nat,
        ))) by (nonlinear_arith);
    }
}

proof fn lemma_scaled_rebase(d: Decimal, base: int, lower: int)
    requires
        lower <= base <= d.exponent,
    ensures
        scaled(d, lower) == scaled(d, base) * pow10((base - lower) as nat),
{
    lemma_pow10_add((d.exponent - base) as nat, (base - lower) as nat);
    assert(((d.exponent - base) as nat + (base - lower) as nat) as nat == (d.exponent - lower) as nat);
    let p = pow10((d.exponent - base) as nat);
    let q = pow10((base - lower) as nat);
    assert(d.mantissa * (p * q) == (d.mantissa * p) * q) by (nonlinear_arith);
}

/// `dec_le` read at any common base at or below both exponents.
proof fn lemma_dec_le_at(a: Decimal, b: Decimal, lower: int)
    requires
        lower <= a.exponent,
        lower <= b.exponent,
    ensures
        dec_le(a, b) <==> scaled(a, lower) <= scaled(b, lower),
{
    let m = min_int(a.exponent as int, b.exponent as int);
    lemma_scaled_rebase(a, m, lower);
    lemma_scaled_rebase(b, m, lower);
    lemma_pow10_positive((m - lower) as nat);
    let f = pow10((m - lower) as nat);
    let x = scaled(a, m);
    let y = scaled(b, m);
    assert(x <= y <==> x * f <= y * f) by (nonlinear_arith)
        requires
            f >= 1,
    ;
}

/// `>=` on readings is transitive.
pub proof fn lemma_num_ge_transitive(x: Number, y: Number, z: Number)
    requires
        num_ge(x, y),
        num_ge(y, z),
    ensures
        num_ge(x, z),
{
    match (x, y, z) {
        (Number::Finite(a), Number::Finite(b), Number::Finite(c)) => {
            let lower = min_int(min_int(a.exponent as int, b.exponent as int), c.exponent as int);
            lemma_dec_le_at(b, a, lower);
            lemma_dec_le_at(c, b, lower);
            lemma_dec_le_at(c, a, lower);
        },
        _ => {},
    }
}

/// `10^k` for `k <= 18`.
fn pow10_exec(k: u32) -> (p: i128)
    requires
        k <= 18,
    ensures
        p == pow10(k as nat),
        1 <= p <= 1_000_000_000_000_000_000,
{
    let mut p: i128 = 1;
    let mut i: u32 = 0;
    while i < k
        invariant
            i <= k <= 18,
            p == pow10(i as nat),
            1 <= p <= pow10(i as nat),
        decreases k - i,
    {
        proof {
            lemma_pow10_monotone(i as nat, 17);
            reveal_with_fuel(pow10, 18);
        }
        p = p * 10;
        i = i + 1;
    }
    proof {
        lemma_pow10_monotone(k as nat, 18);
        reveal_with_fuel(pow10, 19);
    }
    p
}

/// Decides `m * 10^k <= n`.
fn scaled_at_most(m: i64, k: u64, n: i64) -> (r: bool)
    ensures
        r == (m * pow10(k as nat) <= n),
{
    if m == 0 {
        return 0 <= n;
    }
    if k >= 19 {
        proof {
            lemma_pow10_exceeds_i64(k as nat);
            let p = pow10(k as nat);
            if m > 0 {
                assert(m * p >= p) by (nonlinear_arith)
                    requires
                        m >= 1,
                        p >= 1,
                ;
            } else {
                assert(m * p <= -p) by (nonlinear_arith)
                    requires
                        m <= -1,
                        p >= 1,
                ;
            }
        }
        return m < 0;
    }
    let p = pow10_exec(k as u32);
    proof {
        let mi = m as int;
        assert(mi * p <= 9_223_372_036_854_775_807 * 1_000_000_000_000_000_000) by (nonlinear_arith)
            requires
                mi <= 9_223_372_036_854_775_807,
                1 <= p <= 1_000_000_000_000_000_000,
        ;
        assert(mi * p >= -9_223_372_036_854_775_808 * 1_000_000_000_000_000_000) by (nonlinear_arith)
            requires
                -9_223_372_036_854_775_808 <= mi,
                1 <= p <= 1_000_000_000_000_000_000,
        ;
    }
    (m as i128) * p <= n as i128
}

/// Decides `n <= m * 10^k`.
fn at_most_scaled(n: i64, m: i64, k: u64) -> (r: bool)
    ensures
        r == (n <= m * pow10(k as nat)),
{
    if m == 0 {
        return n <= 0;
    }
    if k >= 19 {
        proof {
            lemma_pow10_exceeds_i64(k as nat);
            let p = pow10(k as nat);
            if m > 0 {
                assert(m * p >= p) by (nonlinear_arith)
                    requires
                        m >= 1,
                        p >= 1,
                ;
            } else {
                assert(m * p <= -p) by (nonlinear_arith)
                    requires
                        m <= -1,
                        p >= 1,
                ;
            }
        }
        return m > 0;
    }
    let p = pow10_exec(k as u32);
    proof {
        let mi = m as int;
        assert(mi * p <= 9_223_372_036_854_775_807 * 1_000_000_000_000_000_000) by (nonlinear_arith)
            requires
                mi <= 9_223_372_036_854_775_807,
                1 <= p <= 1_000_000_000_000_000_000,
        ;
        assert(mi * p >= -9_223_372_036_854_775_808 * 1_000_000_000_000_000_000) by (nonlinear_arith)
            requires
                -9_223_372_036_854_775_808 <= mi,
                1 <= p <= 1_000_000_000_000_000_000,
        ;
    }
    n as i128 <= (m as i128) * p
}

/// Decides whether the value of `a` is at most the value of `b`, exactly.
pub fn decimal_le(a: Decimal, b: Decimal) -> (r: bool)
    ensures
        r == dec_le(a, b),
{
    let ea = a.exponent as i64;
    let eb = b.exponent as i64;
    if ea >= eb {
        let k = (ea - eb) as u64;
        proof {
            assert(scaled(b, eb as int) == b.mantissa * pow10(0)) by {
                assert((b.exponent - eb) as nat == 0);
            }
        }
        scaled_at_most(a.mantissa, k, b.mantissa)
    } else {
        let k = (eb - ea) as u64;
        proof {
            assert(scaled(a, ea as int) == a.mantissa * pow10(0)) by {
                assert((a.exponent - ea) as nat == 0);
            }
        }
        at_most_scaled(a.mantissa, b.mantissa, k)
    }
}

/// Decides `x >= t` with the double comparison rules.
pub fn number_ge(x: Number, t: Number) -> (r: bool)
    ensures
        r == num_ge(x, t),
{
    match (x, t) {
        (Number::NaN, _) => false,
        (_, Number::NaN) => false,
        (Number::PosInf, _) => true,
        (_, Number::NegInf) => true,
        (Number::NegInf, _) => false,
        (_, Number::PosInf) => false,
        (Number::Finite(a), Number::Finite(b)) => decimal_le(b, a),
    }
}

/// Decides `x <= t` with the double comparison rules.
pub fn number_le(x: Number, t: Number) -> (r: bool)
    ensures
        r == num_le(x, t),
{
    number_ge(t, x)
}

/// The whole number `n` as a finite reading.
pub fn whole_number(n: i64) -> (r: Number)
    ensures
        r == whole(n as int),
{
    Number::Finite(Decimal { mantissa: n, exponent: 0 })
}

// ---------------------------------------------------------------------------
// Decimal text
// ---------------------------------------------------------------------------

pub open spec fn is_digit(c: char) -> bool {
    '0' <= c && c <= '9'
}

pub open spec fn digit_value(c: char) -> int {
    c as int - '0' as int
}

pub open spec fn all_digits(s: Seq<char>) -> bool {
    forall|i: int| 0 <= i < s.len() ==> is_digit(#[trigger] s[i])
}

/// The whole number written by the digit string `s`.
pub open spec fn digits_value(s: Seq<char>) -> int
    decreases s.len(),
{
    if s.len() == 0 {
        0
    } else {
        digits_value(s.drop_last()) * 10 + digit_value(s.last())
    }
}

/// The zeros at the front of the digit string `s` (all of it when every
/// digit is a zero).
pub open spec fn leading_zeros(s: Seq<char>) -> nat
    decreases s.len(),
{
    if s.len() == 0 {
        0
    } else {
        let l = leading_zeros(s.drop_last());
        if l == s.len() - 1 && s.last() == '0' {
            l + 1
        } else {
            l
        }
    }
}

/// The zeros at the end of the digit string `s`.
pub open spec fn trailing_zeros(s: Seq<char>) -> nat
    decreases s.len(),
{
    if s.len() > 0 && s.last() == '0' {
        trailing_zeros(s.drop_last()) + 1
    } else {
        0
    }
}

/// How many significant digits the digit string `s` has: those from its
/// first to its last non-zero digit; none when every digit is a zero.
pub open spec fn significant_digits(s: Seq<char>) -> int {
    if leading_zeros(s) == s.len() {
        0
    } else {
        s.len() - leading_zeros(s) - trailing_zeros(s)
    }
}

proof fn lemma_zeros_push(s: Seq<char>, c: char)
    ensures
        leading_zeros(s) <= s.len(),
        trailing_zeros(s) <= s.len(),
        leading_zeros(s.push(c)) == (if leading_zeros(s) == s.len() && c == '0' {
            s.len() + 1
        } else {
            leading_zeros(s)
        }),
        trailing_zeros(s.push(c)) == (if c == '0' {
            trailing_zeros(s) + 1
        } else {
            0
        }),
    decreases s.len(),
{
    assert(s.push(c).drop_last() =~= s);
    if s.len() > 0 {
        lemma_zeros_push(s.drop_last(), s.last());
        assert(s.drop_last().push(s.last()) =~= s);
    }
}

proof fn lemma_significant_push(s: Seq<char>, c: char)
    ensures
        significant_digits(s.push(c)) >= significant_digits(s),
        leading_zeros(s) < s.len() && c == '0' ==> significant_digits(s.push(c))
            == significant_digits(s),
        leading_zeros(s) < s.len() && c != '0' ==> significant_digits(s.push(c))
            == significant_digits(s) + trailing_zeros(s) + 1,
        leading_zeros(s) == s.len() && c != '0' ==> significant_digits(s.push(c)) == 1,
{
    lemma_zeros_push(s, c);
}

/// The number the digit string `s` writes once its trailing zeros are
/// dropped: the significant digits as a whole number.
pub open spec fn significant_value(s: Seq<char>) -> int {
    digits_value(s.take(s.len() - trailing_zeros(s)))
}

proof fn lemma_value_push(s: Seq<char>, c: char)
    ensures
        c == '0' ==> significant_value(s.push(c)) == significant_value(s),
        c != '0' ==> significant_value(s.push(c)) == digits_value(s) * 10 + digit_value(c),
{
    lemma_zeros_push(s, c);
    let t = s.push(c);
    if c == '0' {
        assert(t.take(t.len() - trailing_zeros(t)) =~= s.take(s.len() - trailing_zeros(s)));
    } else {
        assert(t.take(t.len() - trailing_zeros(t)) =~= t);
        assert(t.drop_last() =~= s);
    }
}

proof fn lemma_value_at_most_digits(s: Seq<char>)
    requires
        all_digits(s),
    ensures
        0 <= significant_value(s) <= digits_value(s),
    decreases s.len(),
{
    if s.len() > 0 {
        let p = s.drop_last();
        assert(all_digits(p)) by {
            assert forall|i: int| 0 <= i < p.len() implies is_digit(#[trigger] p[i]) by {
                assert(p[i] == s[i]);
            }
        }
        lemma_value_at_most_digits(p);
        assert(p.push(s.last()) =~= s);
        lemma_value_push(p, s.last());
        assert(is_digit(s[s.len() - 1]));
    } else {
        assert(s.take(0) =~= Seq::<char>::empty());
    }
}

proof fn lemma_value_extend(x: Seq<char>, y: Seq<char>)
    requires
        all_digits(x + y),
    ensures
        significant_value(x + y) >= significant_value(x),
    decreases y.len(),
{
    if y.len() > 0 {
        let z = x + y.drop_last();
        assert(z.push(y.last()) =~= x + y);
        assert(all_digits(z)) by {
            assert forall|i: int| 0 <= i < z.len() implies is_digit(#[trigger] z[i]) by {
                assert(z[i] == (x + y)[i]);
            }
        }
        assert(x + y.drop_last() == z);
        assert(all_digits(x + y.drop_last()));
        lemma_value_extend(x, y.drop_last());
        lemma_value_push(z, y.last());
        lemma_value_at_most_digits(z);
        assert(is_digit((x + y)[(x + y).len() - 1]));
    } else {
        assert(x + y =~= x);
    }
}

proof fn lemma_significant_extend(x: Seq<char>, y: Seq<char>)
    ensures
        significant_digits(x + y) >= significant_digits(x),
    decreases y.len(),
{
    if y.len() > 0 {
        lemma_significant_extend(x, y.drop_last());
        lemma_significant_push(x + y.drop_last(), y.last());
        assert((x + y.drop_last()).push(y.last()) =~= x + y);
    } else {
        assert(x + y =~= x);
    }
}

/// Position of the first `.` in `u`, or `u.len()` when there is none.
pub open spec fn dot_position(u: Seq<char>) -> int
    decreases u.len(),
{
    if u.len() == 0 {
        0
    } else if u[0] == '.' {
        0
    } else {
        1 + dot_position(u.drop_first())
    }
}

pub open spec fn is_negative_text(s: Seq<char>) -> bool {
    s.len() > 0 && s[0] == '-'
}

/// The text after an optional leading minus sign.
pub open spec fn unsigned_part(s: Seq<char>) -> Seq<char> {
    if is_negative_text(s) {
        s.drop_first()
    } else {
        s
    }
}

pub open spec fn integer_digits(s: Seq<char>) -> Seq<char> {
    let u = unsigned_part(s);
    u.take(dot_position(u))
}

pub open spec fn fraction_digits(s: Seq<char>) -> Seq<char> {
    let u = unsigned_part(s);
    if dot_position(u) < u.len() {
        u.skip(dot_position(u) + 1)
    } else {
        Seq::empty()
    }
}

/// `s` is `-?D+(.D+)?` with decimal digits `D`.
pub open spec fn is_decimal_text(s: Seq<char>) -> bool {
    let u = unsigned_part(s);
    &&& integer_digits(s).len() > 0
    &&& all_digits(integer_digits(s))
    &&& dot_position(u) < u.len() ==> fraction_digits(s).len() > 0 && all_digits(
        fraction_digits(s),
    )
}

/// The digits of a decimal text without its point.
pub open spec fn text_digits(s: Seq<char>) -> Seq<char> {
    integer_digits(s) + fraction_digits(s)
}

proof fn lemma_not_decimal_when_first_not_digit(s: Seq<char>)
    requires
        unsigned_part(s).len() > 0,
        !is_digit(unsigned_part(s)[0]),
    ensures
        !is_decimal_text(s),
{
    let u = unsigned_part(s);
    if u[0] != '.' {
        lemma_dot_position_bounds(u.drop_first());
        assert(integer_digits(s)[0] == u[0]);
    }
}

proof fn lemma_decimal_text_digits(s: Seq<char>)
    requires
        is_decimal_text(s),
    ensures
        all_digits(text_digits(s)),
{
    let a = integer_digits(s);
    let b = fraction_digits(s);
    assert forall|i: int| 0 <= i < (a + b).len() implies is_digit(#[trigger] (a + b)[i]) by {
        if i < a.len() {
            assert((a + b)[i] == a[i]);
        } else {
            assert((a + b)[i] == b[i - a.len()]);
        }
    }
}

/// The decimal text `s` denotes `numerator / 10^fraction_digits(s).len()`.
pub open spec fn text_numerator(s: Seq<char>) -> int {
    if is_negative_text(s) {
        -digits_value(text_digits(s))
    } else {
        digits_value(text_digits(s))
    }
}

/// `d` has exactly the value written by the decimal text `s`.
pub open spec fn denotes(s: Seq<char>, d: Decimal) -> bool {
    let f = fraction_digits(s).len() as int;
    &&& d.exponent + f >= 0
    &&& d.mantissa * pow10((d.exponent + f) as nat) == text_numerator(s)
}

pub open spec fn nan_text() -> Seq<char> {
    seq!['N', 'a', 'N']
}

pub open spec fn inf_text() -> Seq<char> {
    seq!['i', 'n', 'f']
}

pub open spec fn neg_inf_text() -> Seq<char> {
    seq!['-', 'i', 'n', 'f']
}

proof fn lemma_digits_value_bound(s: Seq<char>)
    requires
        all_digits(s),
    ensures
        0 <= digits_value(s) < pow10(s.len()),
    decreases s.len(),
{
    if s.len() > 0 {
        let p = s.drop_last();
        assert(all_digits(p)) by {
            assert forall|i: int| 0 <= i < p.len() implies is_digit(#[trigger] p[i]) by {
                assert(p[i] == s[i]);
            }
        }
        lemma_digits_value_bound(p);
        assert(is_digit(s[s.len() - 1]));
        let v = digits_value(p);
        let q = pow10(p.len());
        assert(v * 10 + digit_value(s.last()) < 10 * q) by (nonlinear_arith)
            requires
                0 <= v < q,
                0 <= digit_value(s.last()) <= 9,
        ;
        assert(v * 10 >= 0) by (nonlinear_arith)
            requires
                v >= 0,
        ;
    }
}

proof fn lemma_dot_position_bounds(u: Seq<char>)
    ensures
        0 <= dot_position(u) <= u.len(),
        dot_position(u) < u.len() ==> u[dot_position(u)] == '.',
        forall|i: int| 0 <= i < dot_position(u) ==> u[i] != '.',
    decreases u.len(),
{
    if u.len() > 0 && u[0] != '.' {
        lemma_dot_position_bounds(u.drop_first());
        assert forall|i: int| 0 <= i < dot_position(u) implies u[i] != '.' by {
            if i > 0 {
                assert(u[i] == u.drop_first()[i - 1]);
            }
        }
    }
}

/// Digits `m` followed by at least 18 zeros and one more digit exceed
/// `i64::MAX`.
proof fn lemma_value_beyond_i64(m: int, e: nat, d: int)
    requires
        m >= 1,
        e >= 19,
        0 <= d <= 9,
    ensures
        m * pow10(e) + d > 9_223_372_036_854_775_807,
{
    lemma_pow10_monotone(19, e);
    reveal_with_fuel(pow10, 20);
    let f = pow10(e);
    assert(m * f >= f) by (nonlinear_arith)
        requires
            m >= 1,
            f >= 1,
    ;
}

/// Digits `m` (fewer than `10^k`) followed by `e - 1` zeros and one more
/// digit stay below `10^(k + e)`.
proof fn lemma_shifted_digits_bound(m: int, e: nat, d: int, k: nat)
    requires
        1 <= m < pow10(k),
        e >= 1,
        0 <= d <= 9,
    ensures
        m * pow10(e) + d < pow10(k + e),
{
    lemma_pow10_add(k, e);
    lemma_pow10_monotone(1, e);
    reveal_with_fuel(pow10, 2);
    let q = pow10(k);
    let f = pow10(e);
    assert(m * f + d < q * f) by (nonlinear_arith)
        requires
            1 <= m < q,
            10 <= f,
            0 <= d <= 9,
    ;
}

/// A value above `i64::MAX` below `10^k` has more than 18 digits.
proof fn lemma_beyond_i64_needs_19_digits(t: int, k: nat)
    requires
        t > 9_223_372_036_854_775_807,
        t < pow10(k),
    ensures
        k > 18,
{
    if k <= 18 {
        lemma_pow10_monotone(k, 18);
        reveal_with_fuel(pow10, 19);
    }
}

/// Folds one more digit into `digits_value(read) == m * 10^p`, where `p`
/// counts the trailing zeros not yet multiplied in. `None` when the
/// significant digits no longer fit in an `i64`, which takes more than 18
/// of them.
fn accumulate_digit(m: i64, p: u64, c: char, Ghost(read): Ghost<Seq<char>>) -> (r: Option<(i64, u64)>)
    requires
        is_digit(c),
        all_digits(read),
        m >= 0,
        p <= read.len() < 1_000_000_000,
        m != 0 ==> p < read.len(),
        digits_value(read) == m * pow10(p as nat),
        (m == 0) == (leading_zeros(read) == read.len()),
        m != 0 ==> p == trailing_zeros(read) && significant_digits(read) >= 1 && m < pow10(
            significant_digits(read) as nat,
        ),
        m == significant_value(read),
    ensures
        match r {
            Some((m2, p2)) => {
                let r2 = read.push(c);
                &&& m2 >= 0
                &&& p2 <= r2.len()
                &&& m2 != 0 ==> p2 < r2.len()
                &&& digits_value(r2) == m2 * pow10(p2 as nat)
                &&& (m2 == 0) == (leading_zeros(r2) == r2.len())
                &&& m2 != 0 ==> p2 == trailing_zeros(r2) && significant_digits(r2) >= 1 && m2
                    < pow10(significant_digits(r2) as nat)
                &&& m2 == significant_value(r2)
            },
            None => significant_digits(read.push(c)) > 18 && significant_value(read.push(c))
                > 9_223_372_036_854_775_807,
        },
{
    let r2 = Ghost(read.push(c));
    assert(r2@.drop_last() =~= read);
    assert(digits_value(r2@) == digits_value(read) * 10 + digit_value(c));
    proof {
        lemma_zeros_push(read, c);
        lemma_significant_push(read, c);
        lemma_value_push(read, c);
    }
    if c == '0' {
        proof {
            assert(m * pow10(p as nat) * 10 == m * pow10((p + 1) as nat)) by (nonlinear_arith)
                requires
                    pow10((p + 1) as nat) == 10 * pow10(p as nat),
            ;
        }
        return Some((m, p + 1));
    }
    let d = (c as u32 - '0' as u32) as i64;
    let ghost sig = significant_digits(read);
    let ghost sig2 = significant_digits(r2@);
    if m != 0 && p + 1 > 18 {
        proof {
            assert(m * pow10(p as nat) * 10 == m * pow10((p + 1) as nat)) by (nonlinear_arith)
                requires
                    pow10((p + 1) as nat) == 10 * pow10(p as nat),
            ;
            assert(significant_value(r2@) == m * pow10((p + 1) as nat) + d);
            lemma_value_beyond_i64(m as int, (p + 1) as nat, d as int);
        }
        return None;
    }
    let f: i128 = if m == 0 {
        1
    } else {
        pow10_exec((p + 1) as u32)
    };
    proof {
        if m != 0 {
            let mi = m as int;
            assert(mi * f <= 9_223_372_036_854_775_807 * 1_000_000_000_000_000_000) by (nonlinear_arith)
                requires
                    0 <= mi <= 9_223_372_036_854_775_807,
                    1 <= f <= 1_000_000_000_000_000_000,
            ;
            assert(mi * f >= 0) by (nonlinear_arith)
                requires
                    0 <= mi,
                    1 <= f,
            ;
            assert(m * pow10(p as nat) * 10 == m * pow10((p + 1) as nat)) by (nonlinear_arith)
                requires
                    pow10((p + 1) as nat) == 10 * pow10(p as nat),
            ;
        } else {
            assert(digits_value(read) == 0) by (nonlinear_arith)
                requires
                    digits_value(read) == m * pow10(p as nat),
                    m == 0,
            ;
        }
    }
    let t: i128 = (m as i128) * f + d as i128;
    assert(t == digits_value(r2@));
    proof {
        // The new significant digits run from the first non-zero digit to
        // `c`: `t` has no more than `sig2` of them.
        if m != 0 {
            lemma_shifted_digits_bound(m as int, (p + 1) as nat, d as int, sig as nat);
        } else {
            reveal_with_fuel(pow10, 2);
        }
    }
    if t > 9_223_372_036_854_775_807 {
        proof {
            lemma_beyond_i64_needs_19_digits(t as int, sig2 as nat);
        }
        return None;
    }
    proof {
        if m != 0 {
            assert(p + 1 <= 18);
        }
        assert(significant_value(r2@) == t);
    }
    Some((t as i64, 0))
}

proof fn lemma_all_digits_push(read: Seq<char>, c: char)
    requires
        all_digits(read),
        is_digit(c),
    ensures
        all_digits(read.push(c)),
{
    assert forall|i: int| 0 <= i < read.push(c).len() implies is_digit(#[trigger] read.push(c)[i]) by {
        if i < read.len() {
            assert(read.push(c)[i] == read[i]);
        }
    }
}

/// Reads the shortest decimal text of a double: `NaN`, `inf`, `-inf`, or
/// `-?D+(.D+)?`. A finite text is held exactly; `None` for any other text
/// and for a text whose significant digits do not fit in an `i64`, which
/// takes more than 18 of them (a double's shortest text has at most 17).
pub fn parse_number(s: &str) -> (r: Option<Number>)
    ensures
        (r == Some(Number::NaN)) <==> s@ == nan_text(),
        (r == Some(Number::PosInf)) <==> s@ == inf_text(),
        (r == Some(Number::NegInf)) <==> s@ == neg_inf_text(),
        r matches Some(Number::Finite(d)) ==> is_decimal_text(s@) && denotes(s@, d),
        is_decimal_text(s@) && s@.len() < 1_000_000_000 ==> (r is Some <==> significant_value(
            text_digits(s@),
        ) <= 9_223_372_036_854_775_807),
        is_decimal_text(s@) && significant_digits(text_digits(s@)) <= 18 && s@.len()
            < 1_000_000_000 ==> r is Some,
{
    let cs = chars_of(s);
    let n = cs.len();
    if n == 3 && cs[0] == 'N' && cs[1] == 'a' && cs[2] == 'N' {
        assert(cs@ =~= nan_text());
        proof {
            lemma_not_decimal_when_first_not_digit(s@);
        }
        return Some(Number::NaN);
    }
    if n == 3 && cs[0] == 'i' && cs[1] == 'n' && cs[2] == 'f' {
        assert(cs@ =~= inf_text());
        proof {
            lemma_not_decimal_when_first_not_digit(s@);
        }
        return Some(Number::PosInf);
    }
    if n == 4 && cs[0] == '-' && cs[1] == 'i' && cs[2] == 'n' && cs[3] == 'f' {
        assert(cs@ =~= neg_inf_text());
        proof {
            assert(unsigned_part(s@) =~= inf_text());
            lemma_not_decimal_when_first_not_digit(s@);
        }
        return Some(Number::NegInf);
    }
    assert(s@ != nan_text() && s@ != inf_text() && s@ != neg_inf_text()) by {
        if s@ == nan_text() {
            assert(cs@[0] == 'N' && cs@[1] == 'a' && cs@[2] == 'N');
        }
        if s@ == inf_text() {
            assert(cs@[0] == 'i' && cs@[1] == 'n' && cs@[2] == 'f');
        }
        if s@ == neg_inf_text() {
            assert(cs@[0] == '-' && cs@[1] == 'i' && cs@[2] == 'n' && cs@[3] == 'f');
        }
    }
    let negative = n > 0 && cs[0] == '-';
    let start: usize = if negative {
        1
    } else {
        0
    };
    let ghost u = unsigned_part(s@);
    assert(u =~= s@.skip(start as int));
    proof {
        lemma_dot_position_bounds(u);
    }
    let ghost dot = dot_position(u);
    if n >= 1_000_000_000 {
        return None;
    }
    // Integer digits.
    let mut mantissa: i64 = 0;
    let mut pending: u64 = 0;
    let mut i: usize = start;
    let ghost mut read: Seq<char> = Seq::empty();
    assert(read.take(0) =~= read);
    while i < n && cs[i] != '.'
        invariant
            start <= i <= n < 1_000_000_000,
            n == cs@.len(),
            s@ != nan_text() && s@ != inf_text() && s@ != neg_inf_text(),
            cs@ == s@,
            u == s@.skip(start as int),
            u == unsigned_part(s@),
            dot == dot_position(u),
            0 <= dot <= u.len(),
            dot < u.len() ==> u[dot] == '.',
            forall|j: int| 0 <= j < dot ==> u[j] != '.',
            forall|j: int| start <= j < i ==> cs@[j] != '.',
            i - start <= dot,
            read == u.take(i - start),
            all_digits(read),
            mantissa >= 0,
            pending <= read.len(),
            mantissa != 0 ==> pending < read.len(),
            digits_value(read) == mantissa * pow10(pending as nat),
            (mantissa == 0) == (leading_zeros(read) == read.len()),
            mantissa != 0 ==> pending == trailing_zeros(read) && significant_digits(read) >= 1
                && mantissa < pow10(significant_digits(read) as nat),
            mantissa == significant_value(read),
        decreases n - i,
    {
        let c = cs[i];
        assert(u[i - start] == c);
        assert(i - start < dot) by {
            if i - start >= dot {
                assert(cs@[start + dot] == u[dot]);
            }
        }
        if !('0' <= c && c <= '9') {
            proof {
                assert(integer_digits(s@) == u.take(dot));
                assert(integer_digits(s@)[i - start] == c);
            }
            return None;
        }
        match accumulate_digit(mantissa, pending, c, Ghost(read)) {
            Some((m2, p2)) => {
                mantissa = m2;
                pending = p2;
            },
            None => {
                proof {
                    let td = text_digits(s@);
                    let k = read.len() as int + 1;
                    assert(integer_digits(s@) == u.take(dot));
                    assert(read.push(c) =~= td.take(k));
                    assert(td =~= td.take(k) + td.skip(k));
                    lemma_significant_extend(read.push(c), td.skip(k));
                    if is_decimal_text(s@) {
                        lemma_decimal_text_digits(s@);
                        lemma_value_extend(read.push(c), td.skip(k));
                    }
                }
                return None;
            },
        }
        proof {
            lemma_all_digits_push(read, c);
            read = read.push(c);
            assert(read =~= u.take(i + 1 - start));
        }
        i = i + 1;
    }
    let int_end = i;
    let ghost int_read = read;
    assert(i - start == dot) by {
        if i - start < dot {
            if i < n {
                assert(u[i - start] == cs@[i as int]);
            }
        }
    }
    assert(integer_digits(s@) =~= read);
    if int_end == start {
        return None;
    }
    let mut frac_len: u64 = 0;
    if i < n {
        // cs[i] is the point.
        assert(dot < u.len());
        i = i + 1;
        if i == n {
            assert(fraction_digits(s@).len() == 0);
            return None;
        }
        let ghost fd = fraction_digits(s@);
        assert(fd =~= u.skip(dot + 1));
        while i < n
            invariant
                int_end < i <= n < 1_000_000_000,
                n == cs@.len(),
                s@ != nan_text() && s@ != inf_text() && s@ != neg_inf_text(),
                start <= int_end,
                cs@ == s@,
                int_end - start == dot,
                u == s@.skip(start as int),
                fd == u.skip(dot + 1),
                fd == fraction_digits(s@),
                u == unsigned_part(s@),
                dot == dot_position(u),
                dot < u.len(),
                int_read == integer_digits(s@),
                all_digits(int_read),
                read == int_read + fd.take(i - int_end - 1),
                frac_len == i - int_end - 1,
                all_digits(read),
                mantissa >= 0,
                pending <= read.len(),
                mantissa != 0 ==> pending < read.len(),
                digits_value(read) == mantissa * pow10(pending as nat),
                (mantissa == 0) == (leading_zeros(read) == read.len()),
                mantissa != 0 ==> pending == trailing_zeros(read) && significant_digits(read)
                    >= 1 && mantissa < pow10(significant_digits(read) as nat),
                mantissa == significant_value(read),
            decreases n - i,
        {
            let c = cs[i];
            assert(u[i - start] == cs@[i as int]);
            assert(fd[i - int_end - 1] == u[i - start]);
            if !('0' <= c && c <= '9') {
                proof {
                    assert(!is_digit(fd[i - int_end - 1]));
                }
                return None;
            }
            match accumulate_digit(mantissa, pending, c, Ghost(read)) {
                Some((m2, p2)) => {
                    mantissa = m2;
                    pending = p2;
                },
                None => {
                    proof {
                        let td = text_digits(s@);
                        let k = read.len() as int + 1;
                        assert(td == int_read + fd);
                        assert(read.push(c) =~= td.take(k));
                        assert(td =~= td.take(k) + td.skip(k));
                        lemma_significant_extend(read.push(c), td.skip(k));
                        if is_decimal_text(s@) {
                            lemma_decimal_text_digits(s@);
                            lemma_value_extend(read.push(c), td.skip(k));
                        }
                    }
                    return None;
                },
            }
            proof {
                lemma_all_digits_push(read, c);
                read = read.push(c);
                assert(read =~= int_read + fd.take(i + 1 - int_end - 1));
            }
            i = i + 1;
            frac_len = frac_len + 1;
        }
        assert(fd.take(i - int_end - 1) =~= fd);
        assert(all_digits(fd)) by {
            assert forall|k: int| 0 <= k < fd.len() implies is_digit(#[trigger] fd[k]) by {
                assert(fd[k] == read[int_read.len() + k]);
            }
        }
        assert(read =~= text_digits(s@));
    } else {
        assert(fraction_digits(s@) =~= Seq::<char>::empty());
        assert(read =~= text_digits(s@));
    }
    // value = mantissa * 10^(pending - frac_len)
    let exponent = pending as i64 - frac_len as i64;
    let signed = if negative {
        -mantissa
    } else {
        mantissa
    };
    let d = Decimal { mantissa: signed, exponent: exponent as i32 };
    proof {
        assert(fraction_digits(s@).len() == frac_len);
        assert(d.exponent + frac_len == pending);
        if negative {
            assert(signed * pow10(pending as nat) == -(mantissa * pow10(pending as nat)))
                by (nonlinear_arith)
                requires
                    signed == -mantissa,
            ;
        }
    }
    Some(Number::Finite(d))
}

// ---------------------------------------------------------------------------
// Writing numbers
// ---------------------------------------------------------------------------

pub open spec fn digit_char(d: int) -> char {
    ('0' as int + d) as char
}

/// Decimal digits of a natural number, most significant first.
pub open spec fn nat_text(n: nat) -> Seq<char>
    decreases n,
{
    if n < 10 {
        seq![digit_char(n as int)]
    } else {
        nat_text(n / 10).push(digit_char((n % 10) as int))
    }
}

/// Decimal text of an integer, with a leading `-` when negative.
pub open spec fn int_text(i: int) -> Seq<char> {
    if i < 0 {
        seq!['-'] + nat_text((-i) as nat)
    } else {
        nat_text(i as nat)
    }
}

/// Appends the decimal digits of `n`.
pub fn push_nat(out: &mut String, n: u64)
    ensures
        final(out)@ == old(out)@ + nat_text(n as nat),
    decreases n,
{
    if n < 10 {
        push_char(out, ((n as u8) + 48u8) as char);
        proof {
            assert(((n as u8) + 48u8) as char == digit_char(n as int));
        }
    } else {
        push_nat(out, n / 10);
        push_char(out, (((n % 10) as u8) + 48u8) as char);
        proof {
            assert((((n % 10) as u8) + 48u8) as char == digit_char((n % 10) as int));
            assert(old(out)@ + nat_text((n / 10) as nat) + seq![digit_char((n % 10) as int)]
                =~= old(out)@ + nat_text(n as nat));
        }
    }
}

/// Appends the decimal text of `i`.
pub fn push_int(out: &mut String, i: i64)
    ensures
        final(out)@ == old(out)@ + int_text(i as int),
{
    if i < 0 {
        push_char(out, '-');
        let magnitude: u64 = if i == i64::MIN {
            9_223_372_036_854_775_808u64
        } else {
            (-i) as u64
        };
        push_nat(out, magnitude);
        proof {
            assert(old(out)@.push('-') + nat_text(magnitude as nat) =~= old(out)@ + int_text(
                i as int,
            ));
        }
    } else {
        push_nat(out, i as u64);
    }
}

/// Text of a reading that the standard double parser reads back as the same
/// value: `NaN`, `inf`, `-inf`, or `<mantissa>e<exponent>`.
pub open spec fn number_text(x: Number) -> Seq<char> {
    match x {
        Number::NaN => nan_text(),
        Number::PosInf => inf_text(),
        Number::NegInf => neg_inf_text(),
        Number::Finite(d) => int_text(d.mantissa as int) + seq!['e'] + int_text(
            d.exponent as int,
        ),
    }
}

/// Writes `x` as [`number_text`] describes.
pub fn number_to_text(x: Number) -> (r: String)
    ensures
        r@ == number_text(x),
{
    let mut out = String::new();
    match x {
        Number::NaN => {
            push_char(&mut out, 'N');
            push_char(&mut out, 'a');
            push_char(&mut out, 'N');
            assert(out@ =~= nan_text());
        },
        Number::PosInf => {
            push_char(&mut out, 'i');
            push_char(&mut out, 'n');
            push_char(&mut out, 'f');
            assert(out@ =~= inf_text());
        },
        Number::NegInf => {
            push_char(&mut out, '-');
            push_char(&mut out, 'i');
            push_char(&mut out, 'n');
            push_char(&mut out, 'f');
            assert(out@ =~= neg_inf_text());
        },
        Number::Finite(d) => {
            push_int(&mut out, d.mantissa);
            push_char(&mut out, 'e');
            push_int(&mut out, d.exponent as i64);
            assert(out@ =~= number_text(x));
        },
    }
    out
}

} // verus!
