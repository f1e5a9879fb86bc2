use vstd::prelude::*;
use crate::hit::{Crossing, Hit};
use crate::material::Material;
use crate::scalar::Scalar;
use crate::vector::Vector3;

verus! {

/// Bit pattern of the determinant below which a ray counts as parallel to a
/// triangle's plane: one ten-millionth.
pub const PARALLEL_EPSILON_BITS: u32 = 0x33d6_bf95;

#[derive(Clone, Copy, Debug, PartialEq, Eq, Structural)]
pub struct Triangle {
    pub id: u32,
    pub vertex_a: Vector3,
    pub vertex_b: Vector3,
    pub vertex_c: Vector3,
    pub material: Material,
}

/// What the Möller–Trumbore computation of a ray against a triangle came to:
/// the determinant, the barycentric coordinates `u` and `v` with their sum,
/// and the crossing of the ray's line with the triangle's plane.
#[derive(Clone, Copy, Debug, PartialEq, Eq, Structural)]
pub struct TriangleProbe {
    pub determinant: Scalar,
    pub u: Scalar,
    pub v: Scalar,
    pub u_plus_v: Scalar,
    pub crossing: Crossing,
}

impl TriangleProbe {
    /// The ray runs along the plane, or meets it from behind so closely that
    /// it counts as doing so: `0 <= determinant < epsilon`.
    pub open spec fn parallel(self) -> bool {
        self.determinant.below(Scalar { bits: PARALLEL_EPSILON_BITS }) && (Scalar {
            bits: 0,
        }).at_most(self.determinant)
    }

    /// Neither coordinate shows the crossing to lie outside the triangle:
    /// not `u < 0`, not `u > 1`, not `v < 0`, not `u + v > 1`.
    pub open spec fn inside(self) -> bool {
        &&& !self.u.below(Scalar { bits: 0 })
        &&& !(Scalar { bits: 0x3f80_0000 }).below(self.u)
        &&& !self.v.below(Scalar { bits: 0 })
        &&& !(Scalar { bits: 0x3f80_0000 }).below(self.u_plus_v)
    }

    /// The crossing is in front of the ray's origin and neither before
    /// `t_min` nor at or beyond `t_max`.
    pub open spec fn in_range(self, t_min: Scalar, t_max: Scalar) -> bool {
        &&& !self.crossing.t.at_most(Scalar { bits: 0 })
        &&& !self.crossing.t.below(t_min)
        &&& !t_max.at_most(self.crossing.t)
    }

    /// The crossing, if it counts between `t_min` and `t_max`.
    pub open spec fn chosen(self, t_min: Scalar, t_max: Scalar) -> Option<Crossing> {
        if !self.parallel() && self.inside() && self.in_range(t_min, t_max) {
            Some(self.crossing)
        } else {
            None
        }
    }
}

impl Triangle {
    pub fn new(
        id: u32,
        vertex_a: Vector3,
        vertex_b: Vector3,
        vertex_c: Vector3,
        material: Material,
    ) -> (t: Triangle)
        ensures
            t == (Triangle { id, vertex_a, vertex_b, vertex_c, material }),
    {
        Triangle { id, vertex_a, vertex_b, vertex_c, material }
    }

    pub fn id(&self) -> (id: u32)
        ensures
            id == self.id,
    {
        self.id
    }

    /// What `hit` returns.
    pub open spec fn struck(self, probe: TriangleProbe, t_min: Scalar, t_max: Scalar) -> Option<
        Hit,
    > {
        match probe.chosen(t_min, t_max) {
            Some(crossing) => Some(crossing.on(self.material)),
            None => None,
        }
    }

    /// Decides from the probe of a ray whether the ray hits this triangle
    /// between `t_min` and `t_max`.
    pub fn hit(&self, probe: &TriangleProbe, t_min: Scalar, t_max: Scalar) -> (r: Option<Hit>)
        ensures
            r == self.struck(*probe, t_min, t_max),
    {
        let zero = Scalar::zero();
        let one = Scalar::one();
        let epsilon = Scalar::from_bits(PARALLEL_EPSILON_BITS);

        if probe.determinant.lt(epsilon) && probe.determinant.ge(zero) {
            return None;
        }
        if probe.u.lt(zero) || probe.u.gt(one) {
            return None;
        }
        if probe.v.lt(zero) || probe.u_plus_v.gt(one) {
            return None;
        }
        let t = probe.crossing.t;
        if t.le(zero) || t.lt(t_min) || t.ge(t_max) {
            return None;
        }
        Some(probe.crossing.to_hit(self.material))
    }
}

/// A ray along the triangle's plane, whose determinant is a zero of either
/// sign, hits nothing; nor does any ray whose determinant is at least zero
/// and below the epsilon.
pub proof fn lemma_parallel_ray_misses(
    triangle: Triangle,
    probe: TriangleProbe,
    t_min: Scalar,
    t_max: Scalar,
)
    requires
        probe.determinant.same_number(Scalar { bits: 0 }) || probe.parallel(),
    ensures
        triangle.struck(probe, t_min, t_max) is None,
{
}

/// A hit on a triangle has barycentric coordinates that are not negative and
/// sum to at most one, wherever they are numbers at all.
pub proof fn lemma_triangle_hit_is_inside(
    triangle: Triangle,
    probe: TriangleProbe,
    t_min: Scalar,
    t_max: Scalar,
)
    requires
        triangle.struck(probe, t_min, t_max) is Some,
        !probe.u.nan(),
        !probe.v.nan(),
        !probe.u_plus_v.nan(),
    ensures
        (Scalar { bits: 0 }).at_most(probe.u),
        (Scalar { bits: 0 }).at_most(probe.v),
        probe.u.at_most(Scalar { bits: 0x3f80_0000 }),
        probe.u_plus_v.at_most(Scalar { bits: 0x3f80_0000 }),
{
}

/// A hit on a triangle is the probe's crossing with the triangle's material.
/// Where its distance and the bounds are numbers, the distance is positive,
/// at least `t_min` and below `t_max`.
pub proof fn lemma_triangle_hit_in_bounds(
    triangle: Triangle,
    probe: TriangleProbe,
    t_min: Scalar,
    t_max: Scalar,
)
    requires
        triangle.struck(probe, t_min, t_max) is Some,
    ensures
        triangle.struck(probe, t_min, t_max) == Some(probe.crossing.on(triangle.material)),
        !probe.crossing.t.nan() ==> (Scalar { bits: 0 }).below(probe.crossing.t),
        !probe.crossing.t.nan() && !t_min.nan() ==> t_min.at_most(probe.crossing.t),
        !probe.crossing.t.nan() && !t_max.nan() ==> probe.crossing.t.below(t_max),
{
}

} // verus!
