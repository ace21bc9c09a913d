//! Single-precision numbers as their bit patterns: a confidence or a score is
//! carried and compared exactly, without arithmetic on it.

use vstd::arithmetic::power2::{lemma_pow2_pos, lemma_pow2_strictly_increases, lemma_pow2_unfold, pow2};
use vstd::prelude::*;

verus! {

/// A number in the IEEE 754 binary32 format.
#[derive(Debug, Clone, Copy, PartialEq, Eq, Structural)]
pub struct Single {
    pub bits: u32,
}

impl DeepView for Single {
    type V = Single;

    open spec fn deep_view(&self) -> Single {
        *self
    }
}

/// The bit pattern of zero.
pub const ZERO: u32 = 0x0000_0000;

/// The bit pattern of one half.
pub const HALF: u32 = 0x3f00_0000;

/// The bit pattern of one.
pub const ONE: u32 = 0x3f80_0000;

/// The pattern without its sign bit.
pub open spec fn magnitude(bits: u32) -> int {
    if bits >= 0x8000_0000 {
        bits - 0x8000_0000
    } else {
        bits as int
    }
}

/// The absolute value that a magnitude stands for, counted in units of the
/// smallest subnormal. Infinity counts as the next value after the largest
/// finite one.
pub open spec fn size(m: int) -> int {
    let exponent = m / 0x80_0000;
    let fraction = m % 0x80_0000;
    if exponent == 0 {
        fraction
    } else {
        (0x80_0000 + fraction) * pow2((exponent - 1) as nat)
    }
}

impl Single {
    pub open spec fn is_nan(self) -> bool {
        magnitude(self.bits) > 0x7f80_0000
    }

    /// The number, counted in units of the smallest subnormal.
    pub open spec fn units(self) -> int {
        if self.bits >= 0x8000_0000 {
            -size(magnitude(self.bits))
        } else {
            size(magnitude(self.bits))
        }
    }

    /// The order of the numbers; nothing is ordered against a NaN.
    pub open spec fn reaches(self, bar: Single) -> bool {
        !self.is_nan() && !bar.is_nan() && self.units() >= bar.units()
    }

    /// The number, or the nearer end of the range from zero to one where it
    /// lies outside. A NaN stays as it is.
    pub open spec fn clamped(self) -> Single {
        if !self.is_nan() && self.units() < (Single { bits: ZERO }).units() {
            Single { bits: ZERO }
        } else if !self.is_nan() && self.units() > (Single { bits: ONE }).units() {
            Single { bits: ONE }
        } else {
            self
        }
    }

    pub fn at_least(self, bar: Single) -> (r: bool)
        ensures
            r == self.reaches(bar),
    {
        let (down, a) = self.split();
        let (bar_down, b) = bar.split();
        proof {
            lemma_size_order(a as int, b as int);
            lemma_size_order(0, a as int);
            lemma_size_order(0, b as int);
        }
        if a > 0x7f80_0000 || b > 0x7f80_0000 {
            false
        } else if !down && !bar_down {
            a >= b
        } else if down && bar_down {
            a <= b
        } else if bar_down {
            true
        } else {
            a == 0 && b == 0
        }
    }

    /// The sign bit and the rest of the pattern.
    fn split(self) -> (r: (bool, u32))
        ensures
            r.0 == (self.bits >= 0x8000_0000),
            r.1 == magnitude(self.bits),
    {
        if self.bits >= 0x8000_0000 {
            (true, self.bits - 0x8000_0000)
        } else {
            (false, self.bits)
        }
    }

    pub fn clamp_unit(self) -> (r: Single)
        ensures
            r == self.clamped(),
    {
        let zero = Single { bits: ZERO };
        let one = Single { bits: ONE };
        let (_, m) = self.split();
        if m > 0x7f80_0000 {
            self
        } else if !self.at_least(zero) {
            zero
        } else if !one.at_least(self) {
            one
        } else {
            self
        }
    }
}

/// The pattern order of magnitudes is the order of the values they stand for.
pub proof fn lemma_size_order(a: int, b: int)
    requires
        0 <= a,
        0 <= b,
    ensures
        a < b ==> size(a) < size(b),
        a == b ==> size(a) == size(b),
        a > b ==> size(a) > size(b),
        size(0) == 0,
{
    if a < b {
        lemma_size_less(a, b);
    } else if b < a {
        lemma_size_less(b, a);
    }
}

proof fn lemma_size_less(a: int, b: int)
    requires
        0 <= a < b,
    ensures
        size(a) < size(b),
{
    let (ea, fa) = (a / 0x80_0000, a % 0x80_0000);
    let (eb, fb) = (b / 0x80_0000, b % 0x80_0000);
    assert(ea <= eb);
    if ea == eb {
        assert(fa < fb);
        if ea > 0 {
            let p = pow2((ea - 1) as nat) as int;
            lemma_pow2_pos((ea - 1) as nat);
            assert((0x80_0000 + fa) * p < (0x80_0000 + fb) * p) by (nonlinear_arith)
                requires
                    fa < fb,
                    p > 0,
            ;
        }
    } else {
        let q = pow2((eb - 1) as nat) as int;
        lemma_pow2_pos((eb - 1) as nat);
        assert((0x80_0000 + fb) * q >= 0x80_0000 * q) by (nonlinear_arith)
            requires
                fb >= 0,
                q > 0,
        ;
        if ea == 0 {
            assert(0x80_0000 * q >= 0x80_0000) by (nonlinear_arith)
                requires
                    q > 0,
            ;
        } else {
            let p = pow2((ea - 1) as nat) as int;
            lemma_pow2_pos((ea - 1) as nat);
            lemma_pow2_unfold(ea as nat);
            assert(pow2(ea as nat) == 2 * p);
            if ea < eb - 1 {
                lemma_pow2_strictly_increases(ea as nat, (eb - 1) as nat);
            }
            assert(q >= 2 * p);
            assert((0x80_0000 + fa) * p < 0x80_0000 * q) by (nonlinear_arith)
                requires
                    fa < 0x80_0000,
                    p > 0,
                    q >= 2 * p,
            ;
        }
    }
}

} // verus!
