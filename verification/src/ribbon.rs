//! The shape of a ribbon: which way it runs at a point, and which way is
//! across it.
use vstd::prelude::*;

use crate::scalar::{Scalar, Vec3};

verus! {

/// `0.9`: how close to vertical a ribbon may run before the vertical axis is
/// no use for finding a direction across it.
pub const STEEP_BITS: u32 = 0x3f66_6666;

/// A piece of a ribbon, as the points it runs from and to.
#[derive(Clone, Copy, PartialEq, Eq, Structural, Debug)]
pub struct Segment {
    pub from: usize,
    pub to: usize,
}

/// The segments that give a ribbon its direction at a point. Where there are
/// two, their sum does.
#[derive(Clone, Copy, PartialEq, Eq, Structural, Debug)]
pub struct Tangent {
    pub incoming: Option<Segment>,
    pub outgoing: Option<Segment>,
}

/// The direction at point `i` of `n` comes from the segments that meet there:
/// both in the middle, the only one at the ends.
pub fn trail_direction(n: usize, i: usize) -> (tangent: Tangent)
    requires
        2 <= n,
        i < n,
    ensures
        tangent.incoming == if 0 < i {
            Some(Segment { from: (i - 1) as usize, to: i })
        } else {
            None
        },
        tangent.outgoing == if i < n - 1 {
            Some(Segment { from: i, to: (i + 1) as usize })
        } else {
            None
        },
{
    if i == 0 {
        Tangent { incoming: None, outgoing: Some(Segment { from: 0, to: 1 }) }
    } else if i == n - 1 {
        Tangent { incoming: Some(Segment { from: i - 1, to: i }), outgoing: None }
    } else {
        Tangent { incoming: Some(Segment { from: i - 1, to: i }), outgoing: Some(Segment { from: i, to: i + 1 }) }
    }
}

/// Whether every component is zero.
pub open spec fn vanishes(v: Vec3) -> bool {
    v.x.same(Scalar::zero()) && v.y.same(Scalar::zero()) && v.z.same(Scalar::zero())
}

fn is_zero(v: Vec3) -> (r: bool)
    ensures
        r == vanishes(v),
{
    v.x.num_eq(Scalar::zero()) && v.y.num_eq(Scalar::zero()) && v.z.num_eq(Scalar::zero())
}

/// The unit vector along the x axis.
pub open spec fn x_axis() -> Vec3 {
    Vec3 { x: Scalar::one(), y: Scalar::zero(), z: Scalar::zero() }
}

/// Whether a direction with vertical part `rise` is steep: at least 0.9 up or
/// down, or not a number.
pub open spec fn steep(rise: Scalar) -> bool {
    rise.nan() || STEEP_BITS <= rise.mag()
}

/// The direction across a ribbon: `facing`, which faces the camera, if there
/// is one; else across the vertical axis, or across the x axis where the ribbon
/// is steep; and the x axis when nothing else is left.
///
/// `rise` is the vertical part of the ribbon's direction; the candidates are
/// the cross products of that direction with the way to the camera and with
/// the two axes, normalized or zero.
pub fn right_vector(
    facing: Vec3,
    rise: Scalar,
    across_vertical: Vec3,
    across_x_axis: Vec3,
) -> (right: Vec3)
    ensures
        right == if !vanishes(facing) {
            facing
        } else {
            let fallback = if steep(rise) {
                across_x_axis
            } else {
                across_vertical
            };
            if !vanishes(fallback) {
                fallback
            } else {
                x_axis()
            }
        },
        !vanishes(right),
{
    if !is_zero(facing) {
        return facing;
    }
    let fallback = if rise.abs().lt(Scalar::from_bits(STEEP_BITS)) {
        across_vertical
    } else {
        across_x_axis
    };
    if !is_zero(fallback) {
        fallback
    } else {
        Vec3 { x: Scalar::one(), y: Scalar::zero(), z: Scalar::zero() }
    }
}

/// A vector vanishes exactly when each of its components is a zero, of either
/// sign.
pub proof fn law_only_zero_vanishes(v: Vec3)
    ensures
        vanishes(v) <==> {
            &&& v.x.bits == 0 || v.x.bits == 0x8000_0000
            &&& v.y.bits == 0 || v.y.bits == 0x8000_0000
            &&& v.z.bits == 0 || v.z.bits == 0x8000_0000
        },
{
}

/// A ribbon is steep exactly when its vertical part, up or down, is not a number
/// below 0.9.
pub proof fn law_steep_is_close_to_vertical(rise: Scalar)
    ensures
        steep(rise) <==> !(rise.bits % 0x8000_0000 < 0x3f66_6666),
        x_axis().x.bits == 0x3f80_0000,
        x_axis().y.bits == 0,
        x_axis().z.bits == 0,
{
}

} // verus!
