use vstd::prelude::*;
use crate::hit::{Crossing, Hit};
use crate::material::Material;
use crate::scalar::Scalar;
use crate::vector::Vector3;

verus! {

#[derive(Clone, Copy, Debug, PartialEq, Eq, Structural)]
pub struct Sphere {
    pub id: u32,
    pub center: Vector3,
    pub radius: Scalar,
    pub material: Material,
}

/// What the quadratic of a ray against a sphere came to: its discriminant and
/// the crossings at the nearer root and at the farther one.
#[derive(Clone, Copy, Debug, PartialEq, Eq, Structural)]
pub struct SphereProbe {
    pub discriminant: Scalar,
    pub near: Crossing,
    pub far: Crossing,
}

impl SphereProbe {
    /// The crossing that counts between `t_min` and `t_max`: none unless the
    /// discriminant is positive; then the nearer root if it lies strictly
    /// between the bounds, else the farther root if that one does.
    pub open spec fn chosen(self, t_min: Scalar, t_max: Scalar) -> Option<Crossing> {
        if !(Scalar { bits: 0 }).below(self.discriminant) {
            None
        } else if self.near.within(t_min, t_max) {
            Some(self.near)
        } else if self.far.within(t_min, t_max) {
            Some(self.far)
        } else {
            None
        }
    }
}

impl Sphere {
    /// The sphere has a radius above zero and a material that a surface can
    /// have.
    pub open spec fn valid(self) -> bool {
        (Scalar { bits: 0 }).below(self.radius) && self.material.valid()
    }

    pub fn is_valid(&self) -> (r: bool)
        ensures
            r == self.valid(),
    {
        self.radius.gt(Scalar::zero()) && self.material.is_valid()
    }

    pub fn new(id: u32, center: Vector3, radius: Scalar, material: Material) -> (s: Sphere)
        ensures
            s == (Sphere { id, center, radius, material }),
    {
        Sphere { id, center, radius, material }
    }

    pub fn id(&self) -> (id: u32)
        ensures
            id == self.id,
    {
        self.id
    }

    /// What `hit` returns.
    pub open spec fn struck(self, probe: SphereProbe, t_min: Scalar, t_max: Scalar) -> Option<Hit> {
        match probe.chosen(t_min, t_max) {
            Some(crossing) => Some(crossing.on(self.material)),
            None => None,
        }
    }

    /// Decides from the probe of a ray whether the ray hits this sphere
    /// between `t_min` and `t_max`, and where.
    pub fn hit(&self, probe: &SphereProbe, t_min: Scalar, t_max: Scalar) -> (r: Option<Hit>)
        ensures
            r == self.struck(*probe, t_min, t_max),
    {
        if probe.discriminant.gt(Scalar::zero()) {
            if probe.near.is_within(t_min, t_max) {
                return Some(probe.near.to_hit(self.material));
            }
            if probe.far.is_within(t_min, t_max) {
                return Some(probe.far.to_hit(self.material));
            }
        }
        None
    }
}

/// A hit on a sphere lies strictly between the bounds, is one of the two
/// roots, and carries the sphere's material.  The farther root is taken only
/// when the nearer one is out of bounds.
pub proof fn lemma_sphere_hit_in_bounds(
    sphere: Sphere,
    probe: SphereProbe,
    t_min: Scalar,
    t_max: Scalar,
)
    ensures
        match sphere.struck(probe, t_min, t_max) {
            Some(hit) => {
                &&& t_min.below(hit.t)
                &&& hit.t.below(t_max)
                &&& (Scalar { bits: 0 }).below(probe.discriminant)
                &&& hit.material == sphere.material
                &&& hit == probe.near.on(sphere.material) || hit == probe.far.on(sphere.material)
                &&& probe.near.within(t_min, t_max) ==> hit == probe.near.on(sphere.material)
            },
            None => !(Scalar { bits: 0 }).below(probe.discriminant) || (!probe.near.within(
                t_min,
                t_max,
            ) && !probe.far.within(t_min, t_max)),
        },
{
}

/// Where the roots are in order, a hit is at the smallest root that lies
/// between the bounds.
pub proof fn lemma_sphere_hit_is_smallest_root(
    sphere: Sphere,
    probe: SphereProbe,
    t_min: Scalar,
    t_max: Scalar,
)
    requires
        probe.near.t.at_most(probe.far.t),
    ensures
        match sphere.struck(probe, t_min, t_max) {
            Some(hit) => {
                &&& probe.near.within(t_min, t_max) ==> hit.t.at_most(probe.near.t)
                &&& probe.far.within(t_min, t_max) ==> hit.t.at_most(probe.far.t)
            },
            None => true,
        },
{
}

} // verus!
