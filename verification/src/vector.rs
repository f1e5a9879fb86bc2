use vstd::prelude::*;
use crate::scalar::Scalar;

verus! {

/// Three numbers: a point, a direction or a colour.
#[derive(Clone, Copy, Debug, PartialEq, Eq, Structural)]
pub struct Vector3 {
    pub x: Scalar,
    pub y: Scalar,
    pub z: Scalar,
}

impl Vector3 {
    pub fn new(x: Scalar, y: Scalar, z: Scalar) -> (v: Vector3)
        ensures
            v == (Vector3 { x, y, z }),
    {
        Vector3 { x, y, z }
    }

    /// The same number in all three places.
    pub fn splat(value: Scalar) -> (v: Vector3)
        ensures
            v == (Vector3 { x: value, y: value, z: value }),
    {
        Vector3 { x: value, y: value, z: value }
    }
}

} // verus!
