//! Exact decimal numbers.
//!
//! The weather service reports temperature, humidity, pressure and wind
//! speed as JSON numbers with a few decimal places. The library keeps
//! them exact: a [`Decimal`] is a sign, an integer mantissa and a scale,
//! standing for `(-1)^neg * mantissa / 10^scale`. A well-formed decimal
//! is bounded so that every computation below fits in `u64`.

use vstd::prelude::*;

verus! {

/// Largest number of fractional digits a well-formed decimal may carry.
pub const MAX_SCALE: u8 = 6;

/// Largest mantissa a well-formed decimal may carry.
pub const MANTISSA_MAX: u64 = 1000000000000000;

/// `(-1)^neg * mantissa / 10^scale`, exactly.
#[derive(Clone, Copy, Debug, PartialEq, Eq, Structural)]
pub struct Decimal {
    pub neg: bool,
    pub mantissa: u64,
    pub scale: u8,
}

/// `10^n`.
pub open spec fn pow10(n: nat) -> nat
    decreases n,
{
    if n == 0 {
        1
    } else {
        10 * pow10((n - 1) as nat)
    }
}

pub proof fn lemma_pow10_pos(n: nat)
    ensures
        pow10(n) >= 1,
    decreases n,
{
    if n > 0 {
        lemma_pow10_pos((n - 1) as nat);
    }
}

pub proof fn lemma_pow10_add(a: nat, b: nat)
    ensures
        pow10(a + b) == pow10(a) * pow10(b),
    decreases a,
{
    if a == 0 {
        assert(pow10(b) == 1 * pow10(b)) by (nonlinear_arith);
    } else {
        lemma_pow10_add((a - 1) as nat, b);
        assert(pow10(a + b) == 10 * pow10((a + b - 1) as nat));
        assert(10 * (pow10((a - 1) as nat) * pow10(b)) == (10 * pow10((a - 1) as nat)) * pow10(b))
            by (nonlinear_arith);
    }
}

impl Decimal {
    /// Bounds under which all arithmetic on the decimal fits in `u64`.
    pub open spec fn wf(self) -> bool {
        self.scale <= MAX_SCALE && self.mantissa <= MANTISSA_MAX
    }

    /// The decimal is strictly below the whole number `k`.
    pub open spec fn lt(self, k: nat) -> bool {
        if self.neg {
            self.mantissa > 0 || k > 0
        } else {
            (self.mantissa as nat) < k * pow10(self.scale as nat)
        }
    }

    /// The magnitude rounded to tenths, half away from zero.
    pub open spec fn tenths(self) -> nat {
        (((self.mantissa as nat) * 10 + pow10(self.scale as nat) / 2) as nat) / pow10(
            self.scale as nat,
        )
    }
}

/// The ASCII decimal digits of `n`, most significant first.
pub open spec fn dec_digits(n: nat) -> Seq<u8>
    decreases n,
{
    if n < 10 {
        seq![(48 + n) as u8]
    } else {
        dec_digits(n / 10).push((48 + n % 10) as u8)
    }
}

/// The rendering of a decimal to exactly one fractional digit, rounded
/// half away from zero: sign, whole part, `.`, one digit.
pub open spec fn fmt_decimal(d: Decimal) -> Seq<u8> {
    let t = d.tenths();
    let sign: Seq<u8> = if d.neg {
        seq![45u8]
    } else {
        Seq::empty()
    };
    sign + dec_digits(t / 10) + seq![46u8] + seq![(48 + t % 10) as u8]
}

/// `10^n` for the scales a well-formed decimal allows.
pub fn pow10_x(n: u8) -> (r: u64)
    requires
        n <= MAX_SCALE,
    ensures
        r as nat == pow10(n as nat),
        1 <= r <= 1000000,
{
    proof {
        reveal_with_fuel(pow10, 8);
    }
    match n {
        0 => 1,
        1 => 10,
        2 => 100,
        3 => 1000,
        4 => 10000,
        5 => 100000,
        _ => 1000000,
    }
}

/// Append the decimal digits of `n` to `out`.
pub fn push_dec(out: &mut Vec<u8>, n: u64)
    ensures
        final(out)@ == old(out)@ + dec_digits(n as nat),
    decreases n,
{
    if n < 10 {
        out.push((48 + n) as u8);
        proof {
            assert(final(out)@ =~= old(out)@ + dec_digits(n as nat));
        }
    } else {
        push_dec(out, n / 10);
        out.push((48 + n % 10) as u8);
        proof {
            assert(final(out)@ =~= old(out)@ + dec_digits(n as nat));
        }
    }
}

/// Render a well-formed decimal to one fractional digit.
pub fn fmt_decimal_x(d: &Decimal) -> (r: Vec<u8>)
    requires
        d.wf(),
    ensures
        r@ == fmt_decimal(*d),
{
    let p = pow10_x(d.scale);
    let t = (d.mantissa * 10 + p / 2) / p;
    let mut out: Vec<u8> = Vec::new();
    if d.neg {
        out.push(45);
    }
    push_dec(&mut out, t / 10);
    out.push(46);
    out.push((48 + t % 10) as u8);
    proof {
        assert(t as nat == d.tenths());
        assert(out@ =~= fmt_decimal(*d));
    }
    out
}

/// The decimal is strictly below the whole number `k`.
pub fn lt_whole(d: &Decimal, k: u64) -> (r: bool)
    requires
        d.wf(),
        k <= 1000,
    ensures
        r == d.lt(k as nat),
{
    if d.neg {
        d.mantissa > 0 || k > 0
    } else {
        let p = pow10_x(d.scale);
        proof {
            assert(k * p <= 1000 * 1000000) by (nonlinear_arith)
                requires
                    k <= 1000,
                    p <= 1000000,
            ;
        }
        d.mantissa < k * p
    }
}

} // verus!
