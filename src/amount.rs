//! Fixed-point decimal amounts for prices, sizes, balances and fee rates.
use rust_decimal::Decimal;
use std::str::FromStr;
use vstd::prelude::*;

verus! {

/// Number of decimal places an `Amount` keeps.
pub const AMOUNT_DECIMALS: u32 = 10;

/// Units in one whole: `10^AMOUNT_DECIMALS`.
pub const AMOUNT_ONE: i128 = 10_000_000_000;

/// Bound on the magnitude of a decimal mantissa (96 bits).
pub const MANTISSA_BOUND: i128 = 79_228_162_514_264_337_593_543_950_336;

/// Largest scale a decimal can carry.
pub const MAX_SCALE: u32 = 28;

/// A signed decimal with `AMOUNT_DECIMALS` places: the value is
/// `units / AMOUNT_ONE`.
#[derive(Clone, Copy, Debug, PartialEq, Eq, Structural, Hash)]
pub struct Amount {
    pub units: i128,
}

pub open spec fn pow10(n: nat) -> int
    decreases n,
{
    if n == 0 {
        1
    } else {
        10 * pow10((n - 1) as nat)
    }
}

pub open spec fn in_i128(x: int) -> bool {
    i128::MIN <= x <= i128::MAX
}

/// Division rounding toward zero, for a positive divisor.
pub open spec fn div_trunc(x: int, d: int) -> int {
    if x >= 0 {
        x / d
    } else {
        -((-x) / d)
    }
}

/// The units of the decimal `mantissa * 10^-scale`, where that value has at
/// most `AMOUNT_DECIMALS` places and fits.
pub open spec fn units_of_parts(mantissa: int, scale: nat) -> Option<int> {
    if scale <= AMOUNT_DECIMALS {
        let u = mantissa * pow10((AMOUNT_DECIMALS - scale) as nat);
        if in_i128(u) {
            Some(u)
        } else {
            None
        }
    } else if mantissa % pow10((scale - AMOUNT_DECIMALS) as nat) == 0 {
        Some(mantissa / pow10((scale - AMOUNT_DECIMALS) as nat))
    } else {
        None
    }
}

/// The mantissa and scale that rust_decimal's `Decimal::from_str` reads
/// from a string.
pub uninterp spec fn decimal_parts_of(s: Seq<char>) -> Option<(int, nat)>;

/// Relies on rust_decimal's `Decimal::from_str`, with `mantissa()` and
/// `scale()` of the result; a `Decimal` has a 96-bit mantissa and a scale
/// of at most 28.
#[verifier::external_body]
fn parse_decimal(s: &str) -> (r: Option<(i128, u32)>)
    ensures
        match r {
            Some((m, sc)) => decimal_parts_of(s@) == Some((m as int, sc as nat)) && sc
                <= MAX_SCALE && -MANTISSA_BOUND < m < MANTISSA_BOUND,
            None => decimal_parts_of(s@) is None,
        },
{
    Decimal::from_str(s).ok().map(|d| (d.mantissa(), d.scale()))
}

proof fn lemma_pow10_positive(n: nat)
    ensures
        pow10(n) >= 1,
    decreases n,
{
    if n > 0 {
        lemma_pow10_positive((n - 1) as nat);
    }
}

fn pow10_exec(n: u32) -> (r: i128)
    requires
        n <= MAX_SCALE,
    ensures
        r == pow10(n as nat),
{
    let mut r: i128 = 1;
    let mut i: u32 = 0;
    proof {
        lemma_pow10_max_scale();
    }
    while i < n
        invariant
            i <= n <= MAX_SCALE,
            r == pow10(i as nat),
            pow10(MAX_SCALE as nat) == 10_000_000_000_000_000_000_000_000_000,
        decreases n - i,
    {
        assert(pow10((i + 1) as nat) == 10 * pow10(i as nat));
        proof {
            lemma_pow10_mono((i + 1) as nat, MAX_SCALE as nat);
            lemma_pow10_positive(i as nat);
        }
        r = r * 10;
        i = i + 1;
    }
    r
}

proof fn lemma_pow10_max_scale()
    ensures
        pow10(MAX_SCALE as nat) == 10_000_000_000_000_000_000_000_000_000,
{
    reveal_with_fuel(pow10, 29);
}

proof fn lemma_pow10_mono(a: nat, b: nat)
    requires
        a <= b,
    ensures
        pow10(a) <= pow10(b),
    decreases b,
{
    if a < b {
        lemma_pow10_mono(a, (b - 1) as nat);
        lemma_pow10_positive((b - 1) as nat);
    }
}

impl Amount {
    pub fn zero() -> (r: Amount)
        ensures
            r.units == 0,
    {
        Amount { units: 0 }
    }

    /// The whole number `n`.
    pub fn from_int(n: i64) -> (r: Amount)
        ensures
            r.units == n * AMOUNT_ONE,
    {
        assert(i64::MIN * AMOUNT_ONE <= n * AMOUNT_ONE <= i64::MAX * AMOUNT_ONE) by (nonlinear_arith)
            requires
                i64::MIN <= n <= i64::MAX,
        ;
        Amount { units: (n as i128) * AMOUNT_ONE }
    }

    /// The decimal `mantissa * 10^-scale`, where it has at most
    /// `AMOUNT_DECIMALS` places and fits; `None` otherwise.
    pub fn from_parts(mantissa: i128, scale: u32) -> (r: Option<Amount>)
        requires
            scale <= MAX_SCALE,
            -MANTISSA_BOUND < mantissa < MANTISSA_BOUND,
        ensures
            match r {
                Some(a) => units_of_parts(mantissa as int, scale as nat) == Some(a.units as int),
                None => units_of_parts(mantissa as int, scale as nat) is None,
            },
    {
        if scale <= AMOUNT_DECIMALS {
            let f = pow10_exec(AMOUNT_DECIMALS - scale);
            match mantissa.checked_mul(f) {
                Some(u) => Some(Amount { units: u }),
                None => None,
            }
        } else {
            let p = pow10_exec(scale - AMOUNT_DECIMALS);
            proof {
                lemma_pow10_positive((scale - AMOUNT_DECIMALS) as nat);
            }
            let neg = mantissa < 0;
            let a: i128 = if neg { -mantissa } else { mantissa };
            if a % p != 0 {
                proof {
                    lemma_mod_neg(mantissa as int, p as int);
                }
                None
            } else {
                let q = a / p;
                proof {
                    lemma_mod_neg(mantissa as int, p as int);
                    lemma_div_neg(mantissa as int, p as int);
                }
                Some(Amount { units: if neg { -q } else { q } })
            }
        }
    }

    /// The decimal written in `s`, as rust_decimal reads it, where it has at
    /// most `AMOUNT_DECIMALS` places and fits.
    pub fn parse(s: &str) -> (r: Option<Amount>)
        ensures
            match decimal_parts_of(s@) {
                Some((m, sc)) => match r {
                    Some(a) => units_of_parts(m, sc) == Some(a.units as int),
                    None => units_of_parts(m, sc) is None,
                },
                None => r is None,
            },
    {
        match parse_decimal(s) {
            Some((m, sc)) => Amount::from_parts(m, sc),
            None => None,
        }
    }

    /// `self + o`, where it fits.
    pub fn checked_add(self, o: Amount) -> (r: Option<Amount>)
        ensures
            match r {
                Some(a) => a.units == self.units + o.units,
                None => !in_i128(self.units + o.units),
            },
    {
        match self.units.checked_add(o.units) {
            Some(u) => Some(Amount { units: u }),
            None => None,
        }
    }

    /// `self - o`, where it fits.
    pub fn checked_sub(self, o: Amount) -> (r: Option<Amount>)
        ensures
            match r {
                Some(a) => a.units == self.units - o.units,
                None => !in_i128(self.units - o.units),
            },
    {
        match self.units.checked_sub(o.units) {
            Some(u) => Some(Amount { units: u }),
            None => None,
        }
    }

    /// `self * o`, rounded toward zero to `AMOUNT_DECIMALS` places, where
    /// the exact product of the units fits.
    pub fn checked_mul(self, o: Amount) -> (r: Option<Amount>)
        ensures
            match r {
                Some(a) => in_i128(self.units * o.units) && a.units == div_trunc(
                    self.units * o.units,
                    AMOUNT_ONE as int,
                ),
                None => !in_i128(self.units * o.units),
            },
    {
        match self.units.checked_mul(o.units) {
            Some(p) => {
                let q = p / AMOUNT_ONE;
                Some(Amount { units: q })
            },
            None => None,
        }
    }

    /// `self / d` for a positive whole `d`, rounded toward zero.
    pub fn div_whole(self, d: i128) -> (r: Amount)
        requires
            d > 0,
        ensures
            r.units == div_trunc(self.units as int, d as int),
    {
        Amount { units: self.units / d }
    }

    /// Whether the amount has no fractional part.
    pub fn is_whole(self) -> (r: bool)
        ensures
            r == (self.units % AMOUNT_ONE == 0),
    {
        proof {
            lemma_mod_neg(self.units as int, AMOUNT_ONE as int);
        }
        if self.units >= 0 {
            self.units % AMOUNT_ONE == 0
        } else if self.units == i128::MIN {
            proof {
                lemma_min_not_whole();
            }
            false
        } else {
            (-self.units) % AMOUNT_ONE == 0
        }
    }

    /// The whole part of a non-negative amount.
    pub fn whole_part(self) -> (r: i128)
        requires
            self.units >= 0,
        ensures
            r == self.units / AMOUNT_ONE,
    {
        self.units / AMOUNT_ONE
    }
}

proof fn lemma_min_not_whole()
    ensures
        (i128::MIN as int) % (AMOUNT_ONE as int) != 0,
{
    let q: int = -17_014_118_346_046_923_173_168_730_372;
    let r: int = 4_115_894_272;
    assert(i128::MIN as int == q * (AMOUNT_ONE as int) + r);
    vstd::arithmetic::div_mod::lemma_mod_multiples_vanish(q, r, AMOUNT_ONE as int);
    vstd::arithmetic::div_mod::lemma_small_mod(r as nat, AMOUNT_ONE as nat);
}

proof fn lemma_mod_neg(m: int, p: int)
    requires
        p > 0,
    ensures
        (m % p == 0) <==> ((if m < 0 { -m } else { m }) % p == 0),
{
    if m < 0 {
        let q = (-m) / p;
        let r = (-m) % p;
        vstd::arithmetic::div_mod::lemma_fundamental_div_mod(-m, p);
        assert(-m == q * p + r) by (nonlinear_arith)
            requires
                -m == p * q + r,
        ;
        if r == 0 {
            assert(m == (-q) * p) by (nonlinear_arith)
                requires
                    -m == q * p + r,
                    r == 0,
            ;
            vstd::arithmetic::div_mod::lemma_mod_multiples_basic(-q, p);
        } else {
            assert(m == (-q - 1) * p + (p - r)) by (nonlinear_arith)
                requires
                    -m == q * p + r,
            ;
            vstd::arithmetic::div_mod::lemma_mod_multiples_vanish(-q - 1, p - r, p);
            vstd::arithmetic::div_mod::lemma_small_mod((p - r) as nat, p as nat);
        }
    }
}

proof fn lemma_div_neg(m: int, p: int)
    requires
        p > 0,
        m % p == 0,
    ensures
        m / p == (if m < 0 { -((-m) / p) } else { m / p }),
{
    if m < 0 {
        let q = m / p;
        vstd::arithmetic::div_mod::lemma_fundamental_div_mod(m, p);
        assert(-m == (-q) * p) by (nonlinear_arith)
            requires
                m == p * q + m % p,
                m % p == 0,
        ;
        vstd::arithmetic::div_mod::lemma_div_multiples_vanish(-q, p);
    }
}

} // verus!
