//! Coordinate transformer: converts a layout rectangle expressed in the
//! frontend's units into the embedding platform's logical units, using the
//! host window's display scale factor.
//!
//! Two policies exist, one per build generation. Under `Policy::Physical`
//! (legacy) the caller supplies physical pixels and the transform divides by
//! the scale factor. Under `Policy::Logical` (current) the caller already
//! supplies logical (CSS) pixels and the transform is the identity. A build
//! picks exactly one policy for every geometry-bearing operation; the
//! lifecycle manager holds the policy as a fixed configuration value so that
//! create and reposition can never mix them.
//!
//! The scale factor is carried in hundredths of a unit (150 stands for 1.5x),
//! so every transform is exact integer arithmetic with a proved rounding
//! bound (see [`lemma_transform_round_trip`]).

use vstd::prelude::*;

verus! {

/// Which unit system the frontend layout engine reports rectangles in.
#[derive(Clone, Copy, PartialEq, Eq, Structural, Debug)]
pub enum Policy {
    /// Legacy generation: rectangles arrive in physical pixels and are
    /// divided by the scale factor.
    Physical,
    /// Current generation: rectangles arrive already in logical pixels and
    /// pass through unchanged.
    Logical,
}

/// Display scale factor in hundredths of a logical unit per physical pixel
/// ratio: `hundredths == 150` stands for a 1.5x display.
#[derive(Clone, Copy, PartialEq, Eq, Structural, Debug)]
pub struct Scale {
    pub hundredths: u32,
}

impl Scale {
    /// A readable scale is positive and within the range a real display can
    /// report; a value outside it is treated as an unreadable scale.
    pub open spec fn valid(self) -> bool {
        1 <= self.hundredths <= 100_000
    }
}

/// A rectangle `(x, y, width, height)`; the unit system is the caller's under
/// the build's policy, and the platform's logical units after the transform.
#[derive(Clone, Copy, PartialEq, Eq, Structural, Debug)]
pub struct Rect {
    pub x: i64,
    pub y: i64,
    pub width: i64,
    pub height: i64,
}

/// Bound on a coordinate the layout engine can meaningfully produce; it keeps
/// every intermediate product of the transform inside machine range.
pub open spec fn coord_in_range(v: int) -> bool {
    -0x4000_0000 <= v <= 0x4000_0000
}

impl Rect {
    pub open spec fn in_range(self) -> bool {
        &&& coord_in_range(self.x as int)
        &&& coord_in_range(self.y as int)
        &&& coord_in_range(self.width as int)
        &&& coord_in_range(self.height as int)
    }
}

/// `caller / scale`, rounded toward zero: the legacy physical-to-logical
/// division of one coordinate, with the scale in hundredths.
pub open spec fn spec_div_scale(v: int, h: int) -> int
    recommends
        h >= 1,
{
    if v >= 0 {
        (v * 100) / h
    } else {
        -((-v * 100) / h)
    }
}

/// `logical * scale`, rounded toward zero: the re-multiplication that takes a
/// logical coordinate back to the caller's physical units.
pub open spec fn spec_mul_scale(v: int, h: int) -> int
    recommends
        h >= 1,
{
    if v >= 0 {
        (v * h) / 100
    } else {
        -((-v * h) / 100)
    }
}

/// The transform is defined exactly when it does not need the scale factor or
/// the scale factor was read and is sane.
pub open spec fn transform_defined(policy: Policy, scale: Option<Scale>) -> bool {
    match policy {
        Policy::Logical => true,
        Policy::Physical => scale matches Some(s) && s.valid(),
    }
}

/// `lr` is the logical-unit image of caller rectangle `r` under the policy.
pub open spec fn is_logical_of(lr: Rect, r: Rect, policy: Policy, scale: Option<Scale>) -> bool {
    match policy {
        Policy::Logical => lr == r,
        Policy::Physical => scale matches Some(s) && s.valid() && {
            &&& lr.x as int == spec_div_scale(r.x as int, s.hundredths as int)
            &&& lr.y as int == spec_div_scale(r.y as int, s.hundredths as int)
            &&& lr.width as int == spec_div_scale(r.width as int, s.hundredths as int)
            &&& lr.height as int == spec_div_scale(r.height as int, s.hundredths as int)
        },
    }
}

/// The transform failed because the host window's scale factor could not be
/// read (or was nonsensical); no fallback scale is ever substituted.
#[derive(Clone, Copy, PartialEq, Eq, Structural, Debug)]
pub enum TransformError {
    ScaleUnavailable,
}

/// Divides one caller coordinate by the scale factor, rounding toward zero.
fn div_scale(v: i64, h: u32) -> (r: i64)
    requires
        coord_in_range(v as int),
        1 <= h <= 100_000,
    ensures
        r as int == spec_div_scale(v as int, h as int),
{
    if v >= 0 {
        let scaled: u64 = (v as u64) * 100;
        (scaled / (h as u64)) as i64
    } else {
        let neg: i64 = -v;
        let scaled: u64 = (neg as u64) * 100;
        let q: i64 = (scaled / (h as u64)) as i64;
        -q
    }
}

/// Transforms a caller rectangle into the embedding platform's logical units
/// under the build's policy. `scale` is the host window's scale factor as the
/// caller managed to read it; when the policy needs it and it is absent or
/// invalid the transform fails, and no default is substituted.
pub fn to_logical(r: Rect, policy: Policy, scale: Option<Scale>) -> (out: Result<
    Rect,
    TransformError,
>)
    requires
        r.in_range(),
    ensures
        out is Ok <==> transform_defined(policy, scale),
        out matches Ok(lr) ==> is_logical_of(lr, r, policy, scale),
        out matches Err(e) ==> e == TransformError::ScaleUnavailable,
{
    match policy {
        Policy::Logical => Ok(r),
        Policy::Physical => match scale {
            Some(s) => {
                if 1 <= s.hundredths && s.hundredths <= 100_000 {
                    Ok(
                        Rect {
                            x: div_scale(r.x, s.hundredths),
                            y: div_scale(r.y, s.hundredths),
                            width: div_scale(r.width, s.hundredths),
                            height: div_scale(r.height, s.hundredths),
                        },
                    )
                } else {
                    Err(TransformError::ScaleUnavailable)
                }
            },
            None => Err(TransformError::ScaleUnavailable),
        },
    }
}

/// Rounding bound for one coordinate: dividing by the scale and multiplying
/// back never overshoots and loses less than `h / 100 + 1` units.
proof fn lemma_round_trip_value_nonneg(v: int, h: int)
    requires
        0 <= v <= 0x4000_0000,
        1 <= h <= 100_000,
    ensures
        spec_div_scale(v, h) >= 0,
        0 <= spec_mul_scale(spec_div_scale(v, h), h) <= v,
        100 * (v - spec_mul_scale(spec_div_scale(v, h), h)) <= h + 98,
{
    let q = (v * 100) / h;
    let rm = (v * 100) % h;
    vstd::arithmetic::div_mod::lemma_fundamental_div_mod(v * 100, h);
    vstd::arithmetic::div_mod::lemma_mod_bound(v * 100, h);
    assert(v * 100 >= 0) by (nonlinear_arith)
        requires
            v >= 0,
    ;
    assert(q >= 0) by (nonlinear_arith)
        requires
            v * 100 == h * q + rm,
            0 <= rm < h,
            v * 100 >= 0,
    ;
    assert(spec_div_scale(v, h) == q);
    let p = (q * h) / 100;
    let s = (q * h) % 100;
    vstd::arithmetic::div_mod::lemma_fundamental_div_mod(q * h, 100);
    vstd::arithmetic::div_mod::lemma_mod_bound(q * h, 100);
    assert(q * h >= 0) by (nonlinear_arith)
        requires
            q >= 0,
            h >= 1,
    ;
    assert(p >= 0) by (nonlinear_arith)
        requires
            q * h == 100 * p + s,
            0 <= s < 100,
            q * h >= 0,
    ;
    assert(spec_mul_scale(q, h) == p);
    assert(h * q == q * h) by (nonlinear_arith);
    assert(100 * (v - p) == rm + s);
    assert(rm + s <= h + 98);
    assert(p <= v);
}

/// Under the legacy physical-pixel policy, transforming a rectangle at scale
/// `h` hundredths and re-multiplying by the same scale recovers the original
/// rectangle within the integer rounding tolerance: each coordinate is
/// recovered with an error below `h / 100 + 1` units and never grows in
/// magnitude.
pub proof fn lemma_transform_round_trip(r: Rect, s: Scale)
    requires
        r.in_range(),
        s.valid(),
    ensures
        ({
            let h = s.hundredths as int;
            &&& round_trip_close(r.x as int, h)
            &&& round_trip_close(r.y as int, h)
            &&& round_trip_close(r.width as int, h)
            &&& round_trip_close(r.height as int, h)
        }),
{
    let h = s.hundredths as int;
    lemma_round_trip_value(r.x as int, h);
    lemma_round_trip_value(r.y as int, h);
    lemma_round_trip_value(r.width as int, h);
    lemma_round_trip_value(r.height as int, h);
}

/// One coordinate survives the scale round trip up to rounding: the recovered
/// value sits between the original and the original shrunk by less than
/// `h / 100 + 1` units, on whichever side of zero the original lies.
pub open spec fn round_trip_close(v: int, h: int) -> bool {
    let recovered = spec_mul_scale(spec_div_scale(v, h), h);
    if v >= 0 {
        0 <= recovered <= v && 100 * (v - recovered) <= h + 98
    } else {
        v <= recovered <= 0 && 100 * (recovered - v) <= h + 98
    }
}

proof fn lemma_round_trip_value(v: int, h: int)
    requires
        coord_in_range(v),
        1 <= h <= 100_000,
    ensures
        round_trip_close(v, h),
{
    if v >= 0 {
        lemma_round_trip_value_nonneg(v, h);
    } else {
        lemma_round_trip_value_nonneg(-v, h);
        let q = spec_div_scale(-v, h);
        assert(spec_div_scale(v, h) == -q);
        if q == 0 {
            assert(0 * h == 0) by (nonlinear_arith);
            assert(spec_mul_scale(-q, h) == -spec_mul_scale(q, h));
        } else {
            assert(-q < 0);
            assert(spec_mul_scale(-q, h) == -((q * h) / 100));
            assert(spec_mul_scale(-q, h) == -spec_mul_scale(q, h));
        }
    }
}

} // verus!
