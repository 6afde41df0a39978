//! What a sensor capsule makes of a sample: the value, with some random noise
//! added, as an integer part and a decimal part that it prints.
use vstd::arithmetic::div_mod::lemma_fundamental_div_mod;
use vstd::arithmetic::power::{lemma_pow0, lemma_pow_increases, lemma_pow_positive, pow};
use vstd::prelude::*;

verus! {

/// How accurate a sample is, as the sensor reports it.
pub enum SampleMetadata {
    ChannelDisabled,
    ChannelTemporarilyUnavailable,
    NoMeasurementError,
    /// Deviation, bias and scaling of a symmetrical measurement error.
    SymmetricalError(u8, i8, i8),
    UnknownAccuracy,
}

/// One sample of a sensor channel.
pub struct Sample {
    pub value: i32,
    pub metadata: SampleMetadata,
}

/// A reading as a capsule prints it.
pub enum Measure {
    /// The value, as integer and decimal part.
    Value { integer: i32, decimal: u32 },
    /// The value, and the value plus and minus the deviation around the bias.
    WithError {
        integer: i32,
        decimal: u32,
        plus_integer: i32,
        plus_decimal: u32,
        minus_integer: i32,
        minus_decimal: u32,
    },
    /// The channel gave no usable value.
    Error,
}

/// Integer division that rounds toward zero, as `/` does on Rust integers.
pub open spec fn trunc_div(a: int, d: int) -> int {
    if a >= 0 {
        a / d
    } else {
        -((-a) / d)
    }
}

pub open spec fn abs(a: int) -> int {
    if a < 0 {
        -a
    } else {
        a
    }
}

/// The parts in which a capsule prints `value * 10^scaling`. For a negative
/// scaling the integer part is rounded toward zero and the decimal part is
/// the magnitude of what is left; the decimal part is printed without
/// leading zeros.
pub open spec fn scaled_parts(value: int, scaling: int) -> (int, int) {
    if scaling < 0 {
        let d = pow(10, (-scaling) as nat);
        let q = trunc_div(value, d);
        (q, abs(value) - abs(q) * d)
    } else {
        (value * pow(10, scaling as nat), 0)
    }
}

/// Whether the parts of `value * 10^scaling` can be computed in 32 bits: the
/// power of ten fits, and so does a scaled-up value.
pub open spec fn scalable(value: int, scaling: int) -> bool {
    &&& -9 <= scaling <= 9
    &&& scaling >= 0 ==> i32::MIN <= value * pow(10, scaling as nat) <= i32::MAX
}

/// `(i, d)` as the integers that they are.
pub open spec fn parts_are(i: i32, d: u32, p: (int, int)) -> bool {
    i as int == p.0 && d as int == p.1
}

/// The sample's value with the noise, less than a hundred, added.
pub open spec fn noisy(value: i32, noise: u32) -> int {
    value + noise % 100
}

/// Whether a sample can be read on a channel with `scaling` without any
/// of the computations overflowing.
pub open spec fn measurable(sample: Sample, scaling: i8, noise: u32) -> bool {
    &&& noisy(sample.value, noise) <= i32::MAX
    &&& scalable(noisy(sample.value, noise), scaling as int)
    &&& match sample.metadata {
        SampleMetadata::SymmetricalError(dev, bias, _) => scalable(bias - dev, scaling as int)
            && scalable(bias + dev, scaling as int),
        _ => true,
    }
}

/// The reading `r` of `sample` with `noise`, on a channel with `scaling`.
pub open spec fn measured(sample: Sample, scaling: i8, noise: u32, r: Measure) -> bool {
    let v = scaled_parts(noisy(sample.value, noise), scaling as int);
    match sample.metadata {
        SampleMetadata::UnknownAccuracy | SampleMetadata::NoMeasurementError => match r {
            Measure::Value { integer, decimal } => parts_are(integer, decimal, v),
            _ => false,
        },
        SampleMetadata::SymmetricalError(dev, bias, _) => match r {
            Measure::WithError {
                integer,
                decimal,
                plus_integer,
                plus_decimal,
                minus_integer,
                minus_decimal,
            } => {
                &&& parts_are(integer, decimal, v)
                &&& parts_are(plus_integer, plus_decimal, scaled_parts(bias + dev, scaling as int))
                &&& parts_are(
                    minus_integer,
                    minus_decimal,
                    scaled_parts(bias - dev, scaling as int),
                )
            },
            _ => false,
        },
        _ => r is Error,
    }
}

/// Ten to the power `k`.
pub fn pow10(k: u32) -> (r: u32)
    requires
        k <= 9,
    ensures
        r == pow(10, k as nat),
{
    let mut r: u32 = 1;
    let mut i: u32 = 0;
    proof {
        lemma_pow0(10);
    }
    while i < k
        invariant
            i <= k <= 9,
            r == pow(10, i as nat),
        decreases k - i,
    {
        proof {
            lemma_pow_increases(10, i as nat, 8);
            reveal_with_fuel(pow, 9);
        }
        r = r * 10;
        i = i + 1;
    }
    r
}

fn unsigned_abs(v: i32) -> (r: u32)
    ensures
        r as int == abs(v as int),
{
    if v < 0 {
        (-(v as i64)) as u32
    } else {
        v as u32
    }
}

/// Splits `value * 10^scaling` into the parts that a capsule prints.
pub fn split_scaled(value: i32, scaling: i8) -> (r: (i32, u32))
    requires
        scalable(value as int, scaling as int),
    ensures
        parts_are(r.0, r.1, scaled_parts(value as int, scaling as int)),
{
    if scaling < 0 {
        let k = -scaling as u32;
        let d = pow10(k);
        proof {
            lemma_pow_increases(10, k as nat, 9);
            reveal_with_fuel(pow, 10);
            lemma_pow_positive(10, k as nat);
        }
        let int_part = value / (d as i32);
        let a = unsigned_abs(value);
        let qa = unsigned_abs(int_part);
        proof {
            let x = abs(value as int);
            lemma_fundamental_div_mod(x, d as int);
            assert(qa as int == x / (d as int));
            assert(qa as int * d as int <= x) by (nonlinear_arith)
                requires
                    x == d as int * (x / d as int) + x % (d as int),
                    0 <= x % (d as int),
                    qa as int == x / (d as int),
            ;
        }
        (int_part, a - qa * d)
    } else {
        let d = pow10(scaling as u32);
        proof {
            lemma_pow_increases(10, scaling as nat, 9);
            reveal_with_fuel(pow, 10);
        }
        (value * (d as i32), 0)
    }
}

/// Reads `sample` on a channel with `scaling`, after adding `noise % 100`
/// to its value, where `noise` is a random number.
pub fn measure_parts(sample: Sample, scaling: i8, noise: u32) -> (r: Measure)
    requires
        measurable(sample, scaling, noise),
    ensures
        measured(sample, scaling, noise, r),
{
    let value = sample.value + (noise % 100) as i32;
    let (integer, decimal) = split_scaled(value, scaling);
    match sample.metadata {
        SampleMetadata::UnknownAccuracy | SampleMetadata::NoMeasurementError => Measure::Value {
            integer,
            decimal,
        },
        SampleMetadata::SymmetricalError(dev, bias, _) => {
            let minus_dev = bias as i32 - dev as i32;
            let plus_dev = bias as i32 + dev as i32;
            let (minus_integer, minus_decimal) = split_scaled(minus_dev, scaling);
            let (plus_integer, plus_decimal) = split_scaled(plus_dev, scaling);
            Measure::WithError {
                integer,
                decimal,
                plus_integer,
                plus_decimal,
                minus_integer,
                minus_decimal,
            }
        },
        _ => Measure::Error,
    }
}

fn is_scalable(value: i64, scaling: i8) -> (r: bool)
    requires
        i32::MIN - 1000 <= value <= i32::MAX + 1000,
    ensures
        r == scalable(value as int, scaling as int),
{
    if scaling < -9 || scaling > 9 {
        return false;
    }
    if scaling < 0 {
        return true;
    }
    let d = pow10(scaling as u32);
    proof {
        lemma_pow_increases(10, scaling as nat, 9);
        reveal_with_fuel(pow, 10);
        assert(-3_000_000_000_000_000_000 <= value * d <= 3_000_000_000_000_000_000) by (
        nonlinear_arith)
            requires
                i32::MIN - 1000 <= value <= i32::MAX + 1000,
                0 <= d <= 1_000_000_000,
        ;
    }
    let scaled = value * (d as i64);
    i32::MIN as i64 <= scaled && scaled <= i32::MAX as i64
}

/// Whether `measure_parts` can read `sample` with these arguments, where the
/// capsule would otherwise stop on an arithmetic overflow.
pub fn is_measurable(sample: &Sample, scaling: i8, noise: u32) -> (r: bool)
    ensures
        r == measurable(*sample, scaling, noise),
{
    let value = sample.value as i64 + (noise % 100) as i64;
    if value > i32::MAX as i64 {
        return false;
    }
    if !is_scalable(value, scaling) {
        return false;
    }
    match sample.metadata {
        SampleMetadata::SymmetricalError(dev, bias, _) => {
            is_scalable(bias as i64 - dev as i64, scaling) && is_scalable(
                bias as i64 + dev as i64,
                scaling,
            )
        },
        _ => true,
    }
}

} // verus!
