use vstd::prelude::*;
use crate::material::unit_color;
use crate::scalar::Scalar;
use crate::vector::Vector3;

verus! {

/// What `clamp` returns: `max` when `value` is above it, else `min` when
/// `value` is below it, else `value` itself.  A NaN `value` is above and below
/// nothing and comes back unchanged.
pub open spec fn clamped(value: Scalar, min: Scalar, max: Scalar) -> Scalar {
    if max.below(value) {
        max
    } else if value.below(min) {
        min
    } else {
        value
    }
}

pub fn clamp(value: Scalar, min: Scalar, max: Scalar) -> (r: Scalar)
    ensures
        r == clamped(value, min, max),
{
    if value.gt(max) {
        max
    } else if value.lt(min) {
        min
    } else {
        value
    }
}

/// With ordered bounds, the clamp of a number lies between them, and a number
/// already between them is left alone.
pub proof fn lemma_clamp_within_bounds(value: Scalar, min: Scalar, max: Scalar)
    requires
        !value.nan(),
        min.at_most(max),
    ensures
        min.at_most(clamped(value, min, max)),
        clamped(value, min, max).at_most(max),
        min.at_most(value) && value.at_most(max) ==> clamped(value, min, max) == value,
{
}

/// One channel brought into the range from zero to one: a number strictly
/// between the two is kept, one that is at least one becomes one, and all
/// else, a NaN too, becomes zero.
pub open spec fn saturated(value: Scalar) -> Scalar {
    if (Scalar { bits: 0 }).below(value) {
        if value.below(Scalar { bits: 0x3f80_0000 }) {
            value
        } else {
            Scalar { bits: 0x3f80_0000 }
        }
    } else {
        Scalar { bits: 0 }
    }
}

fn saturate_channel(value: Scalar) -> (r: Scalar)
    ensures
        r == saturated(value),
{
    if value.gt(Scalar::zero()) {
        if value.lt(Scalar::one()) {
            value
        } else {
            Scalar::one()
        }
    } else {
        Scalar::zero()
    }
}

/// Brings each channel of a colour into the range from zero to one.
pub fn saturate(value: Vector3) -> (r: Vector3)
    ensures
        r == (Vector3 { x: saturated(value.x), y: saturated(value.y), z: saturated(value.z) }),
{
    Vector3::new(
        saturate_channel(value.x),
        saturate_channel(value.y),
        saturate_channel(value.z),
    )
}

/// A saturated colour has every channel from zero to one, so it can be the
/// albedo of a surface.
pub proof fn lemma_saturated_is_unit_color(value: Vector3)
    ensures
        unit_color(
            Vector3 { x: saturated(value.x), y: saturated(value.y), z: saturated(value.z) },
        ),
{
    lemma_saturated_is_in_range(value.x);
    lemma_saturated_is_in_range(value.y);
    lemma_saturated_is_in_range(value.z);
}

/// A saturated channel is a number from zero to one, whatever went in, and
/// a number already in that range is the same number afterwards.
pub proof fn lemma_saturated_is_in_range(value: Scalar)
    ensures
        !saturated(value).nan(),
        (Scalar { bits: 0 }).at_most(saturated(value)),
        saturated(value).at_most(Scalar { bits: 0x3f80_0000 }),
        (Scalar { bits: 0 }).at_most(value) && value.at_most(Scalar { bits: 0x3f80_0000 })
            ==> saturated(value).same_number(value),
{
}

} // verus!
