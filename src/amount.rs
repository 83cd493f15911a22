//! Exact decimal amounts.
//!
//! An [`Amount`] is a decimal number held as an integer mantissa and a
//! base-10 scale, in the same range as `rust_decimal::Decimal`: the value is
//! `mantissa / 10^scale`, with `|mantissa| < 2^96` and `scale <= 28`.
//! Every such value is a whole number of units of `10^-28`; [`Amount::units`]
//! gives that number and is the model that contracts speak of.
//!
//! Addition and subtraction are carried out by `rust_decimal`. When the exact
//! result fits at the larger of the two scales it is returned exactly; when its
//! magnitude reaches `2^96` the operation fails; in between, `rust_decimal`
//! rounds to a smaller scale, and the result is named by [`decimal_sum`] and
//! [`decimal_difference`]. Results are normalised (trailing zeros of the
//! mantissa removed), so that equal values come back equal.
use vstd::prelude::*;

verus! {

/// Largest mantissa magnitude: `2^96 - 1`.
pub const MAX_MANTISSA: i128 = 79228162514264337593543950335;

/// Largest number of fractional digits.
pub const MAX_SCALE: u32 = 28;

/// `10^n`.
pub open spec fn pow10(n: nat) -> int
    decreases n,
{
    if n == 0 {
        1
    } else {
        10 * pow10((n - 1) as nat)
    }
}

/// The value `m / 10^s`, counted in units of `10^-28`.
pub open spec fn units_of(m: int, s: int) -> int {
    m * pow10((MAX_SCALE - s) as nat)
}

/// `v` units of `10^-28` can be written with `s` fractional digits and a
/// mantissa of at most `MAX_MANTISSA` in magnitude.
pub open spec fn fits_at(v: int, s: int) -> bool {
    -(MAX_MANTISSA as int) * pow10((MAX_SCALE - s) as nat) <= v
        <= (MAX_MANTISSA as int) * pow10((MAX_SCALE - s) as nat)
}

/// `v` units of `10^-28` are `2^96` or more in magnitude: no decimal holds them.
pub open spec fn beyond_range(v: int) -> bool {
    v >= (MAX_MANTISSA as int + 1) * pow10(MAX_SCALE as nat) || v <= -(MAX_MANTISSA as int + 1)
        * pow10(MAX_SCALE as nat)
}

/// Strips trailing zeros from the mantissa `m` at scale `s`: the shortest
/// way to write the same value.
pub open spec fn normalize(m: int, s: int) -> (int, int)
    decreases s,
{
    if s > 0 && m % 10 == 0 {
        normalize(m / 10, s - 1)
    } else {
        (m, s)
    }
}

/// The normalised amount whose value is `v` units of `10^-28`.
pub open spec fn canonical(v: int) -> Amount {
    let p = normalize(v, MAX_SCALE as int);
    Amount { mantissa: p.0 as i128, scale: p.1 as u32 }
}

/// The normalised form of a pair (mantissa, scale).
pub open spec fn normalized(p: (int, int)) -> Amount {
    let q = normalize(p.0, p.1);
    Amount { mantissa: q.0 as i128, scale: q.1 as u32 }
}

/// What `rust_decimal` returns for `a + b`, as (mantissa, scale), given
/// each operand as (mantissa, scale).
pub uninterp spec fn decimal_sum(a: (int, int), b: (int, int)) -> Option<(int, int)>;

/// What `rust_decimal` returns for `a - b`, as (mantissa, scale), given
/// each operand as (mantissa, scale).
pub uninterp spec fn decimal_difference(a: (int, int), b: (int, int)) -> Option<(int, int)>;

/// The text `rust_decimal` prints for the decimal (mantissa, scale) rounded
/// to `dp` fractional digits and written with exactly `dp` of them.
pub uninterp spec fn rounded_text(a: (int, int), dp: int) -> Seq<char>;

/// A decimal number: `mantissa / 10^scale`.
#[derive(Clone, Copy, Debug)]
pub struct Amount {
    pub mantissa: i128,
    pub scale: u32,
}

pub open spec fn max_scale(a: Amount, b: Amount) -> int {
    if a.scale >= b.scale {
        a.scale as int
    } else {
        b.scale as int
    }
}

/// The outcome of the checked sum `a + b`.
pub open spec fn sum_of(a: Amount, b: Amount) -> Option<Amount> {
    let e = a.units() + b.units();
    if fits_at(e, max_scale(a, b)) {
        Some(canonical(e))
    } else if beyond_range(e) {
        None
    } else {
        match decimal_sum(a.parts(), b.parts()) {
            Some(p) => Some(normalized(p)),
            None => None,
        }
    }
}

/// The outcome of the checked difference `a - b`.
pub open spec fn difference_of(a: Amount, b: Amount) -> Option<Amount> {
    let e = a.units() - b.units();
    if fits_at(e, max_scale(a, b)) {
        Some(canonical(e))
    } else if beyond_range(e) {
        None
    } else {
        match decimal_difference(a.parts(), b.parts()) {
            Some(p) => Some(normalized(p)),
            None => None,
        }
    }
}

impl Amount {
    /// Mantissa and scale are within the range of a decimal.
    pub open spec fn wf(self) -> bool {
        -MAX_MANTISSA <= self.mantissa <= MAX_MANTISSA && self.scale <= MAX_SCALE
    }

    pub open spec fn parts(self) -> (int, int) {
        (self.mantissa as int, self.scale as int)
    }

    /// The value in units of `10^-28`.
    pub open spec fn units(self) -> int {
        units_of(self.mantissa as int, self.scale as int)
    }

    /// The amount `mantissa / 10^scale`, if it is within range.
    pub fn from_parts(mantissa: i128, scale: u32) -> (r: Option<Amount>)
        ensures
            r is Some <==> (-MAX_MANTISSA <= mantissa <= MAX_MANTISSA && scale <= MAX_SCALE),
            r matches Some(a) ==> a.mantissa == mantissa && a.scale == scale,
    {
        if -MAX_MANTISSA <= mantissa && mantissa <= MAX_MANTISSA && scale <= MAX_SCALE {
            Some(Amount { mantissa, scale })
        } else {
            None
        }
    }

    /// Zero.
    pub fn zero() -> (r: Amount)
        ensures
            r.wf(),
            r.units() == 0,
            r == canonical(0),
    {
        proof {
            lemma_normalize_zero(MAX_SCALE as int);
        }
        Amount { mantissa: 0, scale: 0 }
    }

    /// The value is below zero.
    pub fn is_negative(&self) -> (r: bool)
        ensures
            r == (self.units() < 0),
    {
        proof {
            lemma_units_sign(self.mantissa as int, self.scale as int);
        }
        self.mantissa < 0
    }

    /// `self + other`, or `None` where no decimal holds the result.
    pub fn checked_add(self, other: Amount) -> (r: Option<Amount>)
        requires
            self.wf(),
            other.wf(),
        ensures
            r == sum_of(self, other),
            r matches Some(x) ==> x.wf(),
    {
        match decimal_checked_add(self, other) {
            Some(x) => {
                let n = x.normalize();
                proof {
                    let e = self.units() + other.units();
                    if fits_at(e, max_scale(self, other)) {
                        lemma_normalize_units(x.mantissa as int, x.scale as int);
                    }
                }
                Some(n)
            },
            None => None,
        }
    }

    /// `self - other`, or `None` where no decimal holds the result.
    pub fn checked_sub(self, other: Amount) -> (r: Option<Amount>)
        requires
            self.wf(),
            other.wf(),
        ensures
            r == difference_of(self, other),
            r matches Some(x) ==> x.wf(),
    {
        match decimal_checked_sub(self, other) {
            Some(x) => {
                let n = x.normalize();
                proof {
                    let e = self.units() - other.units();
                    if fits_at(e, max_scale(self, other)) {
                        lemma_normalize_units(x.mantissa as int, x.scale as int);
                    }
                }
                Some(n)
            },
            None => None,
        }
    }

    /// The same value without trailing zeros in the mantissa.
    pub fn normalize(self) -> (r: Amount)
        requires
            self.wf(),
        ensures
            r == normalized(self.parts()),
            r.wf(),
            r.units() == self.units(),
    {
        let mut m: i128 = self.mantissa;
        let mut s: u32 = self.scale;
        while s > 0 && m % 10 == 0
            invariant
                -MAX_MANTISSA <= m <= MAX_MANTISSA,
                s <= MAX_SCALE,
                normalize(m as int, s as int) == normalize(self.mantissa as int, self.scale as int),
                units_of(m as int, s as int) == self.units(),
            decreases s,
        {
            proof {
                lemma_drop_zero_units(m as int, s as int);
            }
            m = m / 10;
            s = s - 1;
        }
        proof {
            lemma_normalize_units(self.mantissa as int, self.scale as int);
        }
        Amount { mantissa: m, scale: s }
    }

    /// The value rounded to four fractional digits and written with exactly four.
    pub fn to_four_places(&self) -> (r: String)
        requires
            self.wf(),
        ensures
            r@ == rounded_text(self.parts(), 4),
    {
        decimal_rounded_text(*self, 4)
    }
}

// Facts about the model.

/// The sign of the value is the sign of the mantissa.
pub proof fn lemma_units_sign(m: int, s: int)
    ensures
        units_of(m, s) < 0 <==> m < 0,
        units_of(m, s) == 0 <==> m == 0,
{
    lemma_pow10_positive((MAX_SCALE - s) as nat);
    vstd::arithmetic::mul::lemma_mul_strictly_positive(m, pow10((MAX_SCALE - s) as nat));
    assert(m < 0 ==> units_of(m, s) < 0) by (nonlinear_arith)
        requires
            pow10((MAX_SCALE - s) as nat) > 0,
            units_of(m, s) == m * pow10((MAX_SCALE - s) as nat),
    ;
    assert(m == 0 ==> units_of(m, s) == 0) by (nonlinear_arith)
        requires
            units_of(m, s) == m * pow10((MAX_SCALE - s) as nat),
    ;
}

pub proof fn lemma_pow10_positive(n: nat)
    ensures
        pow10(n) > 0,
    decreases n,
{
    if n > 0 {
        lemma_pow10_positive((n - 1) as nat);
    }
}

/// Normalising zero gives the mantissa 0 at scale 0.
pub proof fn lemma_normalize_zero(s: int)
    requires
        s >= 0,
    ensures
        normalize(0, s) == (0int, 0int),
    decreases s,
{
    if s > 0 {
        lemma_normalize_zero(s - 1);
    }
}

/// Dropping a trailing zero keeps the value.
proof fn lemma_drop_zero_units(m: int, s: int)
    requires
        0 < s <= MAX_SCALE,
        m % 10 == 0,
    ensures
        units_of(m / 10, s - 1) == units_of(m, s),
{
    let k = (MAX_SCALE - s) as nat;
    assert(pow10((MAX_SCALE - (s - 1)) as nat) == 10 * pow10(k));
    assert(m == (m / 10) * 10);
    assert((m / 10) * (10 * pow10(k)) == ((m / 10) * 10) * pow10(k)) by (nonlinear_arith);
}

/// Scaling a mantissa up by a power of ten does not change its normal form.
proof fn lemma_normalize_scaled(m: int, s: int, k: nat)
    requires
        s >= 0,
    ensures
        normalize(m * pow10(k), s + k) == normalize(m, s),
    decreases k,
{
    if k > 0 {
        let j = (k - 1) as nat;
        lemma_normalize_scaled(m, s, j);
        let w = m * pow10(j);
        assert(m * pow10(k) == w * 10) by (nonlinear_arith)
            requires
                pow10(k) == 10 * pow10(j),
                w == m * pow10(j),
        ;
        assert((w * 10) % 10 == 0) by (nonlinear_arith);
        assert((w * 10) / 10 == w) by (nonlinear_arith);
    }
}

/// Normalising (m, s) shortens the mantissa, keeps the value, and gives the
/// same result as normalising the value written at the largest scale.
pub proof fn lemma_normalize_units(m: int, s: int)
    requires
        0 <= s <= MAX_SCALE,
        -MAX_MANTISSA <= m <= MAX_MANTISSA,
    ensures
        normalize(m, s) == normalize(units_of(m, s), MAX_SCALE as int),
        -MAX_MANTISSA <= normalize(m, s).0 <= MAX_MANTISSA,
        0 <= normalize(m, s).1 <= s,
        units_of(normalize(m, s).0, normalize(m, s).1) == units_of(m, s),
{
    lemma_normalize_scaled(m, s, (MAX_SCALE - s) as nat);
    lemma_normalize_shrinks(m, s);
}

proof fn lemma_normalize_shrinks(m: int, s: int)
    requires
        0 <= s <= MAX_SCALE,
        -MAX_MANTISSA <= m <= MAX_MANTISSA,
    ensures
        -MAX_MANTISSA <= normalize(m, s).0 <= MAX_MANTISSA,
        0 <= normalize(m, s).1 <= s,
        units_of(normalize(m, s).0, normalize(m, s).1) == units_of(m, s),
    decreases s,
{
    if s > 0 && m % 10 == 0 {
        lemma_drop_zero_units(m, s);
        lemma_normalize_shrinks(m / 10, s - 1);
    }
}

proof fn lemma_pow10_add(x: nat, y: nat)
    ensures
        pow10(x + y) == pow10(x) * pow10(y),
    decreases x,
{
    if x > 0 {
        lemma_pow10_add((x - 1) as nat, y);
        assert(pow10(x + y) == 10 * pow10((x - 1 + y) as nat));
        assert(10 * (pow10((x - 1) as nat) * pow10(y)) == (10 * pow10((x - 1) as nat)) * pow10(y))
            by (nonlinear_arith);
    }
}

/// The value of `a`, written as a mantissa at the larger scale `s`.
proof fn lemma_align(a: Amount, s: int) -> (m: int)
    requires
        a.wf(),
        a.scale <= s <= MAX_SCALE,
    ensures
        a.units() == units_of(m, s),
        m == a.mantissa * pow10((s - a.scale) as nat),
{
    let k = (MAX_SCALE - s) as nat;
    let j = (s - a.scale) as nat;
    lemma_pow10_add(j, k);
    assert((MAX_SCALE - a.scale) as nat == j + k);
    let m = a.mantissa * pow10(j);
    assert(a.mantissa * (pow10(j) * pow10(k)) == (a.mantissa * pow10(j)) * pow10(k))
        by (nonlinear_arith);
    m
}

/// A mantissa at scale `s` whose value fits at `s` is within range.
proof fn lemma_fits_mantissa(m: int, s: int)
    requires
        0 <= s <= MAX_SCALE,
        fits_at(units_of(m, s), s),
    ensures
        -MAX_MANTISSA <= m <= MAX_MANTISSA,
{
    let p = pow10((MAX_SCALE - s) as nat);
    lemma_pow10_positive((MAX_SCALE - s) as nat);
    let x = MAX_MANTISSA as int;
    assert(m <= x) by (nonlinear_arith)
        requires
            p > 0,
            m * p <= x * p,
    ;
    assert(-x <= m) by (nonlinear_arith)
        requires
            p > 0,
            -x * p <= m * p,
    ;
}

/// The normal form of a value written as mantissa `m` at scale `s`, within range.
pub proof fn lemma_canonical_of(m: int, s: int)
    requires
        0 <= s <= MAX_SCALE,
        -MAX_MANTISSA <= m <= MAX_MANTISSA,
    ensures
        canonical(units_of(m, s)) == normalized((m, s)),
        canonical(units_of(m, s)).wf(),
        canonical(units_of(m, s)).units() == units_of(m, s),
        canonical(units_of(m, s)).scale <= s,
{
    lemma_normalize_units(m, s);
}

proof fn lemma_pow10_monotone(n: nat, k: nat)
    ensures
        pow10(n) <= pow10(n + k),
    decreases k,
{
    if k > 0 {
        lemma_pow10_monotone(n, (k - 1) as nat);
        lemma_pow10_positive((n + k - 1) as nat);
        assert(pow10(n + k) == 10 * pow10((n + k - 1) as nat));
    }
}

/// What fits at a scale fits at every smaller one.
pub proof fn lemma_fits_at_smaller_scale(v: int, s: int, t: int)
    requires
        0 <= t <= s <= MAX_SCALE,
        fits_at(v, s),
    ensures
        fits_at(v, t),
{
    let a = (MAX_SCALE - s) as nat;
    let b = (MAX_SCALE - t) as nat;
    lemma_pow10_monotone(a, (b - a) as nat);
    let x = MAX_MANTISSA as int;
    assert(x * pow10(a) <= x * pow10(b)) by (nonlinear_arith)
        requires
            x >= 0,
            pow10(a) <= pow10(b),
    ;
}

/// Where `a + b` fits at the larger scale, the checked sum is its exact value.
pub proof fn lemma_sum_exact(a: Amount, b: Amount)
    requires
        a.wf(),
        b.wf(),
        fits_at(a.units() + b.units(), max_scale(a, b)),
    ensures
        sum_of(a, b) == Some(canonical(a.units() + b.units())),
        canonical(a.units() + b.units()).wf(),
        canonical(a.units() + b.units()).units() == a.units() + b.units(),
        canonical(a.units() + b.units()).scale <= max_scale(a, b),
{
    let s = max_scale(a, b);
    let ma = lemma_align(a, s);
    let mb = lemma_align(b, s);
    let k = pow10((MAX_SCALE - s) as nat);
    assert(ma * k + mb * k == (ma + mb) * k) by (nonlinear_arith);
    lemma_fits_mantissa(ma + mb, s);
    lemma_canonical_of(ma + mb, s);
}

/// Where `a - b` fits at the larger scale, the checked difference is its exact value.
pub proof fn lemma_difference_exact(a: Amount, b: Amount)
    requires
        a.wf(),
        b.wf(),
        fits_at(a.units() - b.units(), max_scale(a, b)),
    ensures
        difference_of(a, b) == Some(canonical(a.units() - b.units())),
        canonical(a.units() - b.units()).wf(),
        canonical(a.units() - b.units()).units() == a.units() - b.units(),
        canonical(a.units() - b.units()).scale <= max_scale(a, b),
{
    let s = max_scale(a, b);
    let ma = lemma_align(a, s);
    let mb = lemma_align(b, s);
    let k = pow10((MAX_SCALE - s) as nat);
    assert(ma * k - mb * k == (ma - mb) * k) by (nonlinear_arith);
    lemma_fits_mantissa(ma - mb, s);
    lemma_canonical_of(ma - mb, s);
}

// Calls into rust_decimal.

/// Relies on `rust_decimal::Decimal::checked_add`: the sum is exact where it
/// fits at the larger scale of the operands, and fails where its magnitude
/// is `2^96` or more; otherwise it is rounded to a smaller scale.
/// `Decimal::from_i128_with_scale` builds the operands (it accepts every
/// in-range pair) and `mantissa`/`scale` read the result.
#[verifier::external_body]
fn decimal_checked_add(a: Amount, b: Amount) -> (r: Option<Amount>)
    requires
        a.wf(),
        b.wf(),
    ensures
        match r {
            Some(x) => x.wf() && decimal_sum(a.parts(), b.parts()) == Some(x.parts()),
            None => decimal_sum(a.parts(), b.parts()) is None,
        },
        fits_at(a.units() + b.units(), max_scale(a, b)) ==> (r is Some && r->0.units() == a.units() + b.units()),
        beyond_range(a.units() + b.units()) ==> r is None,
{
    let x = rust_decimal::Decimal::from_i128_with_scale(a.mantissa, a.scale);
    let y = rust_decimal::Decimal::from_i128_with_scale(b.mantissa, b.scale);
    match x.checked_add(y) {
        Some(d) => Some(Amount { mantissa: d.mantissa(), scale: d.scale() }),
        None => None,
    }
}

/// Relies on `rust_decimal::Decimal::checked_sub`, as `decimal_checked_add`
/// does on `checked_add`.
#[verifier::external_body]
fn decimal_checked_sub(a: Amount, b: Amount) -> (r: Option<Amount>)
    requires
        a.wf(),
        b.wf(),
    ensures
        match r {
            Some(x) => x.wf() && decimal_difference(a.parts(), b.parts()) == Some(x.parts()),
            None => decimal_difference(a.parts(), b.parts()) is None,
        },
        fits_at(a.units() - b.units(), max_scale(a, b)) ==> (r is Some && r->0.units() == a.units() - b.units()),
        beyond_range(a.units() - b.units()) ==> r is None,
{
    let x = rust_decimal::Decimal::from_i128_with_scale(a.mantissa, a.scale);
    let y = rust_decimal::Decimal::from_i128_with_scale(b.mantissa, b.scale);
    match x.checked_sub(y) {
        Some(d) => Some(Amount { mantissa: d.mantissa(), scale: d.scale() }),
        None => None,
    }
}

/// Relies on `Ord for rust_decimal::Decimal`, which compares values.
#[verifier::external_body]
pub(crate) fn decimal_at_least(a: Amount, b: Amount) -> (r: bool)
    requires
        a.wf(),
        b.wf(),
    ensures
        r == (a.units() >= b.units()),
{
    let x = rust_decimal::Decimal::from_i128_with_scale(a.mantissa, a.scale);
    let y = rust_decimal::Decimal::from_i128_with_scale(b.mantissa, b.scale);
    x >= y
}

/// Relies on `rust_decimal::Decimal::round_dp` and its `Display` with a
/// precision: the text depends on mantissa, scale and `dp` alone.
#[verifier::external_body]
fn decimal_rounded_text(a: Amount, dp: u32) -> (r: String)
    requires
        a.wf(),
        dp <= MAX_SCALE,
    ensures
        r@ == rounded_text(a.parts(), dp as int),
{
    let x = rust_decimal::Decimal::from_i128_with_scale(a.mantissa, a.scale);
    format!("{:.*}", dp as usize, x.round_dp(dp))
}

} // verus!
