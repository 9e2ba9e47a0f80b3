//! Exponential moving averages over integer samples, with a running
//! variance and its integer square root.
use vstd::prelude::*;

verus! {

/// The integer square root: `r * r <= v < (r + 1) * (r + 1)`.
pub open spec fn is_isqrt(v: int, r: int) -> bool {
    0 <= r && r * r <= v && v < (r + 1) * (r + 1)
}

pub fn isqrt(v: u128) -> (r: u64)
    ensures
        is_isqrt(v as int, r as int),
{
    let mut lo: u128 = 0;
    let mut hi: u128 = 0x1_0000_0000_0000_0000;
    assert(0x1_0000_0000_0000_0000int * 0x1_0000_0000_0000_0000int == 0x1_0000_0000_0000_0000_0000_0000_0000_0000int);
    while hi - lo > 1
        invariant
            lo < hi <= 0x1_0000_0000_0000_0000,
            lo * lo <= v,
            v < hi * hi,
        decreases hi - lo,
    {
        let mid: u128 = lo + (hi - lo) / 2;
        assert(mid * mid <= 0xFFFF_FFFF_FFFF_FFFFint * 0xFFFF_FFFF_FFFF_FFFFint) by (nonlinear_arith)
            requires
                mid < 0x1_0000_0000_0000_0000,
        ;
        assert(0xFFFF_FFFF_FFFF_FFFFint * 0xFFFF_FFFF_FFFF_FFFFint < 0x1_0000_0000_0000_0000_0000_0000_0000_0000int);
        if mid * mid <= v {
            lo = mid;
        } else {
            hi = mid;
        }
    }
    assert(hi == lo + 1);
    lo as u64
}

/// `2 * delta / (n + 1)`, rounded toward zero.
pub open spec fn ema_step(delta: int, n: nat) -> int {
    if delta >= 0 {
        (2 * delta) / ((n + 1) as int)
    } else {
        -((2 * -delta) / ((n + 1) as int))
    }
}

/// The next variance: `(n - 1) / (n + 1) * (variance + 2 * delta^2 / (n + 1))`,
/// rounding down at each division, and held at most `u64::MAX`.
pub open spec fn ema_variance(variance: nat, delta: int, n: nat) -> nat {
    let sum: int = variance + (delta * delta) / ((n + 1) as int) * 2;
    let v: int = sum / ((n + 1) as int) * (n - 1);
    if v > u64::MAX {
        u64::MAX as nat
    } else {
        v as nat
    }
}

/// `new` is `old` after taking in `sample`.
pub open spec fn ema_added(old: ExponentialMovingAverage, new: ExponentialMovingAverage, sample: i64) -> bool {
    &&& new.wf()
    &&& new.initialized
    &&& new.n == old.n
    &&& !old.initialized ==> new.value == sample && new.variance == old.variance
    &&& old.initialized ==> {
        let delta = sample - old.value;
        &&& new.value == old.value + ema_step(delta, old.n as nat)
        &&& new.variance == ema_variance(old.variance as nat, delta, old.n as nat)
    }
}

/// An exponential moving average over the last `n` samples (weight `2 / (n + 1)`).
#[derive(Debug, Clone, Copy)]
pub struct ExponentialMovingAverage {
    pub n: u64,
    pub initialized: bool,
    pub value: i64,
    pub variance: u64,
    pub standard_deviation: u64,
}

impl ExponentialMovingAverage {
    pub open spec fn window(&self) -> nat {
        self.n as nat
    }

    pub open spec fn is_initialized(&self) -> bool {
        self.initialized
    }

    pub open spec fn wf(&self) -> bool {
        self.window() >= 1 && is_isqrt(self.variance as int, self.standard_deviation as int)
    }

    pub fn new(n: u64) -> (e: ExponentialMovingAverage)
        requires
            n >= 1,
        ensures
            e.wf(),
            e.window() == n,
            !e.is_initialized(),
            e.value == 0,
            e.variance == 0,
    {
        ExponentialMovingAverage { n, initialized: false, value: 0, variance: 0, standard_deviation: 0 }
    }

    /// Takes in one sample. The first sample becomes the average.
    pub fn add(&mut self, sample: i64)
        requires
            old(self).wf(),
        ensures
            ema_added(*old(self), *final(self), sample),
    {
        if !self.initialized {
            self.value = sample;
            self.initialized = true;
            return;
        }
        let n1: u128 = self.n as u128 + 1;
        let delta: i128 = sample as i128 - self.value as i128;
        let mag: u128 = if delta >= 0 { delta as u128 } else { (-delta) as u128 };
        let step_mag: u128 = (2 * mag) / n1;
        assert(step_mag <= mag) by (nonlinear_arith)
            requires
                step_mag as int == (2 * mag as int) / (n1 as int),
                n1 >= 2,
        ;
        let new_value: i128 = if delta >= 0 {
            self.value as i128 + step_mag as i128
        } else {
            self.value as i128 - step_mag as i128
        };
        self.value = new_value as i64;
        assert(mag * mag <= 0xFFFF_FFFF_FFFF_FFFFint * 0xFFFF_FFFF_FFFF_FFFFint) by (nonlinear_arith)
            requires
                mag <= 0xFFFF_FFFF_FFFF_FFFF,
        ;
        assert(0xFFFF_FFFF_FFFF_FFFFint * 0xFFFF_FFFF_FFFF_FFFFint + 0xFFFF_FFFF_FFFF_FFFFint < 0x1_0000_0000_0000_0000_0000_0000_0000_0000int);
        let sq: u128 = mag * mag;
        assert(delta * delta == sq as int) by (nonlinear_arith)
            requires
                mag == (if delta >= 0 { delta as int } else { -delta }),
                sq as int == mag as int * mag as int,
        ;
        let part: u128 = sq / n1;
        assert(part * 2 <= sq) by (nonlinear_arith)
            requires
                part as int == sq as int / (n1 as int),
                n1 >= 2,
        ;
        let sum: u128 = self.variance as u128 + part * 2;
        let scaled: u128 = sum / n1;
        assert(scaled * (n1 - 2) <= sum) by (nonlinear_arith)
            requires
                scaled as int == sum as int / (n1 as int),
                n1 >= 2,
        ;
        let v: u128 = scaled * (n1 - 2);
        self.variance = if v > u64::MAX as u128 { u64::MAX } else { v as u64 };
        self.standard_deviation = isqrt(self.variance as u128);
    }
}

} // verus!
