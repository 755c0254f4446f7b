//! Coordinates and angles as the wire carries them.
//!
//! A coordinate travels as a signed 16-bit count of eighths of a unit, an
//! angle as a signed 8-bit count of 256ths of a full turn. Values on the
//! other side of the quantization are exact fractions.

use vstd::prelude::*;

verus! {

/// A coordinate on the wire: a count of eighths of a unit.
#[derive(Clone, Copy, Debug, PartialEq, Eq, Structural)]
pub struct Coord {
    pub eighths: i16,
}

/// An angle on the wire: a count of 256ths of a full turn.
#[derive(Clone, Copy, Debug, PartialEq, Eq, Structural)]
pub struct Angle {
    pub steps: i8,
}

/// Three coordinates: a point or a direction.
#[derive(Clone, Copy, Debug, PartialEq, Eq, Structural)]
pub struct CoordVector {
    pub x: Coord,
    pub y: Coord,
    pub z: Coord,
}

/// Three angles: pitch, yaw and roll.
#[derive(Clone, Copy, Debug, PartialEq, Eq, Structural)]
pub struct AngleVector {
    pub x: Angle,
    pub y: Angle,
    pub z: Angle,
}

/// The integer nearest to `n / d`, halves rounded away from zero.
pub open spec fn round_div(n: int, d: int) -> int
    recommends
        d > 0,
{
    if n >= 0 {
        (2 * n + d) / (2 * d)
    } else {
        -((2 * (-n) + d) / (2 * d))
    }
}

/// `v` held to the range from `lo` to `hi`.
pub open spec fn clamp(v: int, lo: int, hi: int) -> int {
    if v < lo {
        lo
    } else if v > hi {
        hi
    } else {
        v
    }
}

/// What the wire stores for the coordinate `num / den`: eight times the
/// value, rounded, held to 16 bits.
pub open spec fn coord_stored(num: int, den: int) -> int {
    clamp(round_div(8 * num, den), -32768, 32767)
}

/// What the wire stores for the angle of `num / den` degrees: the value in
/// 256ths of a turn, rounded, its low eight bits read as a signed number.
pub open spec fn angle_stored(num: int, den: int) -> int {
    let low = round_div(256 * num, 360 * den) % 256;
    if low >= 128 {
        low - 256
    } else {
        low
    }
}

/// An exact fraction with a positive denominator.
#[derive(Clone, Copy, Debug, PartialEq, Eq)]
pub struct Ratio {
    num: i32,
    den: u32,
}

impl Ratio {
    #[verifier::type_invariant]
    spec fn inv(self) -> bool {
        self.den > 0
    }

    /// The numerator.
    pub closed spec fn spec_num(self) -> int {
        self.num as int
    }

    /// The denominator, which is above zero.
    pub closed spec fn spec_den(self) -> int {
        self.den as int
    }

    /// The fraction `num / den`; none with a denominator of zero.
    pub fn new(num: i32, den: u32) -> (r: Option<Ratio>)
        ensures
            den == 0 ==> r is None,
            den > 0 ==> (r matches Some(v) && v.spec_num() == num && v.spec_den() == den),
    {
        if den == 0 {
            None
        } else {
            Some(Ratio { num, den })
        }
    }

    /// The numerator.
    pub fn num(self) -> (r: i32)
        ensures
            r == self.spec_num(),
    {
        self.num
    }

    /// The denominator, which is above zero.
    pub fn den(self) -> (r: u32)
        ensures
            r == self.spec_den(),
            r > 0,
    {
        proof {
            use_type_invariant(self);
        }
        self.den
    }
}

/// The integer nearest to `n / d`, halves rounded away from zero.
fn rounded(n: i64, d: i64) -> (r: i64)
    requires
        -0x100_0000_0000 <= n <= 0x100_0000_0000,
        0 < d <= 0x200_0000_0000,
    ensures
        r == round_div(n as int, d as int),
        -0x400_0000_0000 <= r <= 0x400_0000_0000,
{
    let twice: i64 = 2 * d;
    if n >= 0 {
        let q: i64 = (2 * n + d) / twice;
        proof {
            lemma_quotient_bound(2 * n + d, twice as int);
        }
        q
    } else {
        let q: i64 = (2 * (-n) + d) / twice;
        proof {
            lemma_quotient_bound(2 * (-n) + d, twice as int);
        }
        -q
    }
}

/// A quotient of a number that is not negative lies between zero and the
/// number.
proof fn lemma_quotient_bound(a: int, b: int)
    requires
        0 <= a,
        0 < b,
    ensures
        0 <= a / b <= a,
{
    assert(0 <= a / b <= a) by (nonlinear_arith)
        requires
            0 <= a,
            0 < b,
    ;
}

/// The low eight bits of a negative number, from those of its opposite.
proof fn lemma_low_of_negative(q: int)
    requires
        q < 0,
    ensures
        q % 256 == if (-q) % 256 == 0 {
            0
        } else {
            256 - (-q) % 256
        },
{
    let m = (-q) % 256;
    let k = (-q) / 256;
    assert(-q == 256 * k + m);
    if m == 0 {
        assert(q == 256 * (-k));
    } else {
        assert(q == 256 * (-k - 1) + (256 - m));
    }
}

/// Quantizes a coordinate: eight times the value, rounded to the nearest
/// integer, held to the 16 bits of the wire.
pub fn encode_coord(value: Ratio) -> (r: Coord)
    ensures
        r.eighths == coord_stored(value.spec_num(), value.spec_den()),
{
    let n: i64 = 8 * (value.num() as i64);
    let d: i64 = value.den() as i64;
    let q: i64 = rounded(n, d);
    if q < -32768 {
        Coord { eighths: -32768 }
    } else if q > 32767 {
        Coord { eighths: 32767 }
    } else {
        Coord { eighths: q as i16 }
    }
}

/// The value of a coordinate on the wire: its count over eight.
pub fn decode_coord(stored: Coord) -> (r: Ratio)
    ensures
        r.spec_num() == stored.eighths,
        r.spec_den() == 8,
{
    match Ratio::new(stored.eighths as i32, 8) {
        Some(v) => v,
        None => unreached(),
    }
}

/// Quantizes an angle in degrees: the value times 256 over 360, rounded to
/// the nearest integer, of which the wire keeps the low eight bits as a
/// signed number.
pub fn encode_angle(value: Ratio) -> (r: Angle)
    ensures
        r.steps == angle_stored(value.spec_num(), value.spec_den()),
{
    let n: i64 = 256 * (value.num() as i64);
    let d: i64 = 360 * (value.den() as i64);
    let q: i64 = rounded(n, d);
    let low: i64 = if q >= 0 {
        q % 256
    } else {
        let m: i64 = (-q) % 256;
        proof {
            lemma_low_of_negative(q as int);
        }
        if m == 0 {
            0
        } else {
            256 - m
        }
    };
    if low >= 128 {
        Angle { steps: (low - 256) as i8 }
    } else {
        Angle { steps: low as i8 }
    }
}

/// The value of an angle on the wire, in degrees: its count times 360 over
/// 256, which is 45 over 32.
pub fn decode_angle(stored: Angle) -> (r: Ratio)
    ensures
        r.spec_num() == 45 * stored.steps,
        r.spec_den() == 32,
{
    match Ratio::new(45 * (stored.steps as i32), 32) {
        Some(v) => v,
        None => unreached(),
    }
}

/// A rounded quotient is at most half a unit away from the exact one.
pub proof fn lemma_round_div_error(n: int, d: int)
    requires
        d > 0,
    ensures
        -d <= 2 * (n - d * round_div(n, d)) <= d,
{
    let a = if n >= 0 {
        2 * n + d
    } else {
        2 * (-n) + d
    };
    let b = 2 * d;
    let q = a / b;
    assert(b * q <= a < b * q + b) by (nonlinear_arith)
        requires
            a >= 0,
            b > 0,
            q == a / b,
    ;
    assert(b * q == 2 * (d * q)) by (nonlinear_arith)
        requires
            b == 2 * d,
    ;
    if n < 0 {
        assert(d * (-q) == -(d * q)) by (nonlinear_arith);
    }
}

/// A rounded quotient of an exact division is the quotient itself.
pub proof fn lemma_round_div_exact(k: int, d: int)
    requires
        d > 0,
    ensures
        round_div(k * d, d) == k,
{
    lemma_round_div_error(k * d, d);
    let r = round_div(k * d, d);
    assert(k * d - d * r == d * (k - r)) by (nonlinear_arith);
    assert(k == r) by (nonlinear_arith)
        requires
            d > 0,
            -d <= 2 * (d * (k - r)) <= d,
    ;
}

/// A coordinate that is a whole number of eighths and lies within 4096 units
/// of zero comes back from the wire exactly: the stored count over eight is
/// the value `num / den`.
pub proof fn lemma_coord_round_trip(num: int, den: int)
    requires
        den > 0,
        (8 * num) % den == 0,
        -4096 * den < num < 4096 * den,
    ensures
        coord_stored(num, den) * den == 8 * num,
{
    let k = (8 * num) / den;
    assert(8 * num == k * den) by (nonlinear_arith)
        requires
            den > 0,
            (8 * num) % den == 0,
            k == (8 * num) / den,
    ;
    lemma_round_div_exact(k, den);
    assert(-32768 < k < 32768) by (nonlinear_arith)
        requires
            den > 0,
            k * den == 8 * num,
            -4096 * den < num < 4096 * den,
    ;
}

/// An angle of `num / den` degrees comes back from the wire at most one
/// step of 360/256 degrees away from itself, and in fact at most half a
/// step, as long as its rounded count fits the eight bits of the wire.
/// (An angle of 360 degrees is one that does not fit: it comes back as
/// zero.)
pub proof fn lemma_angle_error(num: int, den: int)
    requires
        den > 0,
        -128 <= round_div(256 * num, 360 * den) <= 127,
    ensures
        -(45 * den) <= 2 * (45 * angle_stored(num, den) * den - 32 * num) <= 45 * den,
        -(45 * den) <= 45 * angle_stored(num, den) * den - 32 * num <= 45 * den,
{
    let r = round_div(256 * num, 360 * den);
    assert(angle_stored(num, den) == r);
    lemma_round_div_error(256 * num, 360 * den);
    assert((360 * den) * r == 8 * (45 * r * den)) by (nonlinear_arith);
}

/// The whole turns that the wire drops from the angle of `num / den`
/// degrees: the byte holds the rounded count less 256 for each of them.
pub open spec fn angle_turns(num: int, den: int) -> int {
    (round_div(256 * num, 360 * den) - angle_stored(num, den)) / 256
}

/// Every angle comes back from the wire at most one step of 360/256 degrees
/// away from itself, and in fact at most half a step, up to whole turns:
/// what comes back, with the turns that the wire dropped put back, is that
/// near to the angle. The byte always holds a count from -128 to 127.
pub proof fn lemma_angle_error_up_to_turns(num: int, den: int)
    requires
        den > 0,
    ensures
        -128 <= angle_stored(num, den) <= 127,
        angle_stored(num, den) + 256 * angle_turns(num, den) == round_div(256 * num, 360 * den),
        ({
            let back = angle_stored(num, den) + 256 * angle_turns(num, den);
            &&& -(45 * den) <= 2 * (45 * back * den - 32 * num) <= 45 * den
            &&& -(45 * den) <= 45 * back * den - 32 * num <= 45 * den
        }),
{
    let r = round_div(256 * num, 360 * den);
    let low = r % 256;
    assert(r == 256 * (r / 256) + low);
    if low >= 128 {
        assert(r - angle_stored(num, den) == 256 * (r / 256 + 1));
    } else {
        assert(r - angle_stored(num, den) == 256 * (r / 256));
    }
    lemma_round_div_error(256 * num, 360 * den);
    assert((360 * den) * r == 8 * (45 * r * den)) by (nonlinear_arith);
}

} // verus!
