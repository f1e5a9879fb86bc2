use vstd::prelude::*;
use crate::hit::Hit;
use crate::scalar::Scalar;
use crate::vector::Vector3;

verus! {

/// Bit pattern of one half, the grey that new primitives are painted with.
pub const HALF_BITS: u32 = 0x3f00_0000;

/// A ray: where it starts and where it points.
#[derive(Clone, Copy, Debug, PartialEq, Eq, Structural)]
pub struct Ray {
    pub origin: Vector3,
    pub direction: Vector3,
}

/// A diffuse surface.
#[derive(Clone, Copy, Debug, PartialEq, Eq, Structural)]
pub struct LambertianMaterial {
    pub albedo: Vector3,
}

/// A mirror whose reflections are blurred by `fuzz`.
#[derive(Clone, Copy, Debug, PartialEq, Eq, Structural)]
pub struct MetalMaterial {
    pub albedo: Vector3,
    pub fuzz: Scalar,
}

/// A clear surface that reflects or refracts.
#[derive(Clone, Copy, Debug, PartialEq, Eq, Structural)]
pub struct DielectricMaterial {
    pub refract_index: Scalar,
}

#[derive(Clone, Copy, Debug, PartialEq, Eq, Structural)]
pub enum Material {
    LambertianMaterial(LambertianMaterial),
    MetalMaterial(MetalMaterial),
    DielectricMaterial(DielectricMaterial),
}

/// What a surface makes of an incoming ray.
#[derive(Clone, Copy, Debug, PartialEq, Eq, Structural)]
pub struct ScatterResult {
    pub attenuation: Vector3,
    pub scattered: Ray,
}

/// The mid-grey diffuse surface of a primitive that was given no other.
pub open spec fn default_material() -> Material {
    Material::LambertianMaterial(
        LambertianMaterial {
            albedo: Vector3 {
                x: Scalar { bits: HALF_BITS },
                y: Scalar { bits: HALF_BITS },
                z: Scalar { bits: HALF_BITS },
            },
        },
    )
}

/// Each channel of the colour is a number from zero to one.
pub open spec fn unit_color(color: Vector3) -> bool {
    &&& (Scalar { bits: 0 }).at_most(color.x) && color.x.at_most(Scalar { bits: 0x3f80_0000 })
    &&& (Scalar { bits: 0 }).at_most(color.y) && color.y.at_most(Scalar { bits: 0x3f80_0000 })
    &&& (Scalar { bits: 0 }).at_most(color.z) && color.z.at_most(Scalar { bits: 0x3f80_0000 })
}

/// Tells whether each channel of the colour is a number from zero to one.
pub fn is_unit_color(color: Vector3) -> (r: bool)
    ensures
        r == unit_color(color),
{
    let zero = Scalar::zero();
    let one = Scalar::one();
    color.x.ge(zero) && color.x.le(one) && color.y.ge(zero) && color.y.le(one) && color.z.ge(zero)
        && color.z.le(one)
}

impl Material {
    /// The material is one that a surface can have: an albedo with every
    /// channel from zero to one, a fuzz that is not negative, a refractive
    /// index above zero.
    pub open spec fn valid(self) -> bool {
        match self {
            Material::LambertianMaterial(m) => unit_color(m.albedo),
            Material::MetalMaterial(m) => unit_color(m.albedo) && (Scalar { bits: 0 }).at_most(
                m.fuzz,
            ),
            Material::DielectricMaterial(m) => (Scalar { bits: 0 }).below(m.refract_index),
        }
    }

    pub fn is_valid(&self) -> (r: bool)
        ensures
            r == self.valid(),
    {
        match self {
            Material::LambertianMaterial(m) => is_unit_color(m.albedo),
            Material::MetalMaterial(m) => is_unit_color(m.albedo) && m.fuzz.ge(Scalar::zero()),
            Material::DielectricMaterial(m) => m.refract_index.gt(Scalar::zero()),
        }
    }

    /// A diffuse surface of the given colour.
    pub fn lambert(albedo: Vector3) -> (m: Material)
        ensures
            m == Material::LambertianMaterial(LambertianMaterial { albedo }),
    {
        Material::LambertianMaterial(LambertianMaterial { albedo })
    }

    pub fn grey() -> (m: Material)
        ensures
            m == default_material(),
            m.valid(),
    {
        Material::lambert(Vector3::splat(Scalar::from_bits(HALF_BITS)))
    }
}

/// What becomes of a ray that could pass through a clear surface: the bent
/// direction, the share of light that the surface reflects at this angle,
/// and the random number in `[0, 1)` that is held against that share.
#[derive(Clone, Copy, Debug, PartialEq, Eq, Structural)]
pub struct Refraction {
    pub direction: Vector3,
    pub reflectance: Scalar,
    pub draw: Scalar,
}

/// What was measured at a hit for the material that was struck.
#[derive(Clone, Copy, Debug, PartialEq, Eq, Structural)]
pub enum ScatterSample {
    /// The direction of a diffuse bounce.
    Lambertian { direction: Vector3 },
    /// The blurred mirror direction, and how far it points along the normal.
    Metal { direction: Vector3, facing: Scalar },
    /// The mirror direction, and the refraction where there is one.
    Dielectric { reflected: Vector3, refraction: Option<Refraction> },
}

/// A ray that leaves the hit point in `direction`, with its colour weight.
pub open spec fn bounce(hit: Hit, direction: Vector3, attenuation: Vector3) -> ScatterResult {
    ScatterResult { attenuation, scattered: Ray { origin: hit.point, direction } }
}

/// White: a weight that takes nothing from the light.
pub open spec fn clear() -> Vector3 {
    Vector3 {
        x: Scalar { bits: 0x3f80_0000 },
        y: Scalar { bits: 0x3f80_0000 },
        z: Scalar { bits: 0x3f80_0000 },
    }
}

/// The bent direction of a ray through a surface, which exists where the
/// discriminant of Snell's law is not negative.
pub fn refract(discriminant: Scalar, bent: Vector3) -> (r: Option<Vector3>)
    ensures
        r == if (Scalar { bits: 0 }).at_most(discriminant) {
            Some(bent)
        } else {
            None
        },
{
    if discriminant.ge(Scalar::zero()) {
        Some(bent)
    } else {
        None
    }
}

impl LambertianMaterial {
    /// A diffuse surface scatters every ray, weighted by its albedo.
    pub fn scatter(&self, hit: &Hit, direction: Vector3) -> (r: Option<ScatterResult>)
        ensures
            r == Some(bounce(*hit, direction, self.albedo)),
    {
        Some(
            ScatterResult {
                attenuation: self.albedo,
                scattered: Ray { origin: hit.point, direction },
            },
        )
    }
}

impl MetalMaterial {
    /// What `scatter` returns: the bounce where the direction points away
    /// from the surface, nothing where it does not.
    pub open spec fn scattered(self, hit: Hit, direction: Vector3, facing: Scalar) -> Option<
        ScatterResult,
    > {
        if (Scalar { bits: 0 }).below(facing) {
            Some(bounce(hit, direction, self.albedo))
        } else {
            None
        }
    }

    /// A metal scatters a ray whose blurred mirror direction points away
    /// from the surface, and absorbs the others.  `facing` is the dot
    /// product of `direction` and the normal.
    pub fn scatter(&self, hit: &Hit, direction: Vector3, facing: Scalar) -> (r: Option<
        ScatterResult,
    >)
        ensures
            r == self.scattered(*hit, direction, facing),
    {
        if facing.gt(Scalar::zero()) {
            Some(
                ScatterResult {
                    attenuation: self.albedo,
                    scattered: Ray { origin: hit.point, direction },
                },
            )
        } else {
            None
        }
    }
}

impl DielectricMaterial {
    /// The direction that a ray takes at a clear surface: the mirror
    /// direction where there is no refraction or where the draw falls below
    /// the reflectance, the bent direction otherwise.
    pub open spec fn outgoing(reflected: Vector3, refraction: Option<Refraction>) -> Vector3 {
        match refraction {
            Some(r) => if r.draw.below(r.reflectance) {
                reflected
            } else {
                r.direction
            },
            None => reflected,
        }
    }

    /// The ray runs from the inside to the outside where it points along
    /// the outward normal: `along_normal`, the dot product of its direction
    /// and the normal, is positive.
    pub fn is_leaving(&self, along_normal: Scalar) -> (r: bool)
        ensures
            r == (Scalar { bits: 0 }).below(along_normal),
    {
        along_normal.gt(Scalar::zero())
    }

    /// A clear surface scatters every ray and takes nothing from it.
    pub fn scatter(&self, hit: &Hit, reflected: Vector3, refraction: Option<Refraction>) -> (r:
        Option<ScatterResult>)
        ensures
            r == Some(bounce(*hit, Self::outgoing(reflected, refraction), clear())),
    {
        let direction = match refraction {
            Some(r) => if r.draw.lt(r.reflectance) {
                reflected
            } else {
                r.direction
            },
            None => reflected,
        };
        Some(
            ScatterResult {
                attenuation: Vector3::splat(Scalar::one()),
                scattered: Ray { origin: hit.point, direction },
            },
        )
    }
}

impl Material {
    /// The sample was taken for a material of this kind.
    pub open spec fn fits(self, sample: ScatterSample) -> bool {
        match self {
            Material::LambertianMaterial(_) => sample is Lambertian,
            Material::MetalMaterial(_) => sample is Metal,
            Material::DielectricMaterial(_) => sample is Dielectric,
        }
    }

    /// What `scatter` returns.
    pub open spec fn scattered(self, hit: Hit, sample: ScatterSample) -> Option<ScatterResult> {
        match (self, sample) {
            (Material::LambertianMaterial(m), ScatterSample::Lambertian { direction }) => Some(
                bounce(hit, direction, m.albedo),
            ),
            (Material::MetalMaterial(m), ScatterSample::Metal { direction, facing }) => m.scattered(
                hit,
                direction,
                facing,
            ),
            (
                Material::DielectricMaterial(_),
                ScatterSample::Dielectric { reflected, refraction },
            ) => Some(bounce(hit, DielectricMaterial::outgoing(reflected, refraction), clear())),
            _ => None,
        }
    }

    /// Tells whether the sample was taken for a material of this kind.
    pub fn accepts(&self, sample: &ScatterSample) -> (r: bool)
        ensures
            r == self.fits(*sample),
    {
        match self {
            Material::LambertianMaterial(_) => match sample {
                ScatterSample::Lambertian { .. } => true,
                _ => false,
            },
            Material::MetalMaterial(_) => match sample {
                ScatterSample::Metal { .. } => true,
                _ => false,
            },
            Material::DielectricMaterial(_) => match sample {
                ScatterSample::Dielectric { .. } => true,
                _ => false,
            },
        }
    }

    /// How the material scatters the ray that made `hit`, or `None` where it
    /// absorbs the ray.  A sample that was taken for another kind of
    /// material scatters nothing.
    pub fn scatter(&self, hit: &Hit, sample: &ScatterSample) -> (r: Option<ScatterResult>)
        ensures
            r == self.scattered(*hit, *sample),
    {
        match self {
            Material::LambertianMaterial(m) => match sample {
                ScatterSample::Lambertian { direction } => m.scatter(hit, *direction),
                _ => None,
            },
            Material::MetalMaterial(m) => match sample {
                ScatterSample::Metal { direction, facing } => m.scatter(hit, *direction, *facing),
                _ => None,
            },
            Material::DielectricMaterial(m) => match sample {
                ScatterSample::Dielectric { reflected, refraction } => m.scatter(
                    hit,
                    *reflected,
                    *refraction,
                ),
                _ => None,
            },
        }
    }
}

/// A diffuse surface always scatters.  A metal absorbs the ray whenever the
/// scattered direction does not point away from the surface: its dot
/// product with the normal is zero, negative or no number.  A clear surface
/// always scatters, with a weight of exactly one in each channel.  Every
/// scattered ray starts at the hit point.
pub proof fn lemma_scatter_by_kind(material: Material, hit: Hit, sample: ScatterSample)
    requires
        material.fits(sample),
    ensures
        material is LambertianMaterial ==> material.scattered(hit, sample) is Some,
        material is DielectricMaterial ==> material.scattered(hit, sample) is Some
            && material.scattered(hit, sample).unwrap().attenuation == clear(),
        material is MetalMaterial && (sample->facing.at_most(Scalar { bits: 0 })
            || sample->facing.nan()) ==> material.scattered(hit, sample) is None,
        material is MetalMaterial && (Scalar { bits: 0 }).below(sample->facing)
            ==> material.scattered(hit, sample) is Some,
        material.scattered(hit, sample) is Some ==> material.scattered(
            hit,
            sample,
        ).unwrap().scattered.origin == hit.point,
{
}

} // verus!
