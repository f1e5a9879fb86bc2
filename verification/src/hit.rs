use vstd::prelude::*;
use crate::material::Material;
use crate::scalar::Scalar;
use crate::sphere::{Sphere, SphereProbe};
use crate::triangle::{Triangle, TriangleProbe};
use crate::vector::Vector3;

verus! {

/// Where a ray meets a surface: the distance along the ray, the point, the
/// outward normal there and the surface's material.
#[derive(Clone, Copy, Debug, PartialEq, Eq, Structural)]
pub struct Hit {
    pub t: Scalar,
    pub point: Vector3,
    pub normal: Vector3,
    pub material: Material,
}

/// One place where a ray's line meets a surface, before it is known whether
/// the place counts.
#[derive(Clone, Copy, Debug, PartialEq, Eq, Structural)]
pub struct Crossing {
    pub t: Scalar,
    pub point: Vector3,
    pub normal: Vector3,
}

impl Crossing {
    /// The hit that this crossing makes on a surface of `material`.
    pub open spec fn on(self, material: Material) -> Hit {
        Hit { t: self.t, point: self.point, normal: self.normal, material }
    }

    /// `t_min < t < t_max`.
    pub open spec fn within(self, t_min: Scalar, t_max: Scalar) -> bool {
        self.t.below(t_max) && t_min.below(self.t)
    }

    pub fn is_within(&self, t_min: Scalar, t_max: Scalar) -> (r: bool)
        ensures
            r == self.within(t_min, t_max),
    {
        self.t.lt(t_max) && self.t.gt(t_min)
    }

    pub fn to_hit(&self, material: Material) -> (h: Hit)
        ensures
            h == self.on(material),
    {
        Hit { t: self.t, point: self.point, normal: self.normal, material }
    }
}

/// A primitive of the scene.
#[derive(Clone, Copy, Debug, PartialEq, Eq, Structural)]
pub enum HitableShape {
    Triangle(Triangle),
    Sphere(Sphere),
}

/// What was measured of one ray against one primitive.
#[derive(Clone, Copy, Debug, PartialEq, Eq, Structural)]
pub enum Probe {
    Triangle(TriangleProbe),
    Sphere(SphereProbe),
}

impl HitableShape {
    /// The identifier that the primitive was made with.
    pub open spec fn ident(self) -> u32 {
        match self {
            HitableShape::Triangle(triangle) => triangle.id,
            HitableShape::Sphere(sphere) => sphere.id,
        }
    }

    pub open spec fn surface(self) -> Material {
        match self {
            HitableShape::Triangle(triangle) => triangle.material,
            HitableShape::Sphere(sphere) => sphere.material,
        }
    }

    /// The probe was taken of a primitive of this kind.
    pub open spec fn fits(self, probe: Probe) -> bool {
        match self {
            HitableShape::Triangle(_) => probe is Triangle,
            HitableShape::Sphere(_) => probe is Sphere,
        }
    }

    /// What `hit` returns.
    pub open spec fn struck(self, probe: Probe, t_min: Scalar, t_max: Scalar) -> Option<Hit> {
        match (self, probe) {
            (HitableShape::Triangle(triangle), Probe::Triangle(p)) => triangle.struck(
                p,
                t_min,
                t_max,
            ),
            (HitableShape::Sphere(sphere), Probe::Sphere(p)) => sphere.struck(p, t_min, t_max),
            _ => None,
        }
    }

    pub fn id(&self) -> (id: u32)
        ensures
            id == self.ident(),
    {
        match self {
            HitableShape::Triangle(triangle) => triangle.id(),
            HitableShape::Sphere(sphere) => sphere.id(),
        }
    }

    pub fn material(&self) -> (m: Material)
        ensures
            m == self.surface(),
    {
        match self {
            HitableShape::Triangle(triangle) => triangle.material,
            HitableShape::Sphere(sphere) => sphere.material,
        }
    }

    /// Tells whether the probe was taken of a primitive of this kind.
    pub fn accepts(&self, probe: &Probe) -> (r: bool)
        ensures
            r == self.fits(*probe),
    {
        match self {
            HitableShape::Triangle(_) => match probe {
                Probe::Triangle(_) => true,
                Probe::Sphere(_) => false,
            },
            HitableShape::Sphere(_) => match probe {
                Probe::Sphere(_) => true,
                Probe::Triangle(_) => false,
            },
        }
    }

    /// The primitive has a material that a surface can have and, if it is
    /// a sphere, a radius above zero.
    pub open spec fn valid(self) -> bool {
        match self {
            HitableShape::Triangle(triangle) => triangle.material.valid(),
            HitableShape::Sphere(sphere) => sphere.valid(),
        }
    }

    pub fn is_valid(&self) -> (r: bool)
        ensures
            r == self.valid(),
    {
        match self {
            HitableShape::Triangle(triangle) => triangle.material.is_valid(),
            HitableShape::Sphere(sphere) => sphere.is_valid(),
        }
    }

    pub fn is_sphere(&self) -> (r: bool)
        ensures
            r == (*self is Sphere),
    {
        match self {
            HitableShape::Triangle(_) => false,
            HitableShape::Sphere(_) => true,
        }
    }

    /// Decides from the probe of a ray whether the ray hits this primitive
    /// between `t_min` and `t_max`.  A probe that was taken of the other
    /// kind of primitive tells of no hit.
    pub fn hit(&self, probe: &Probe, t_min: Scalar, t_max: Scalar) -> (r: Option<Hit>)
        ensures
            r == self.struck(*probe, t_min, t_max),
    {
        match self {
            HitableShape::Triangle(triangle) => match probe {
                Probe::Triangle(p) => triangle.hit(p, t_min, t_max),
                Probe::Sphere(_) => None,
            },
            HitableShape::Sphere(sphere) => match probe {
                Probe::Sphere(p) => sphere.hit(p, t_min, t_max),
                Probe::Triangle(_) => None,
            },
        }
    }
}

/// `index` is where the first primitive with identifier `id` stands.
pub open spec fn first_with_id(shapes: Seq<HitableShape>, id: u32, index: int) -> bool {
    &&& 0 <= index < shapes.len()
    &&& shapes[index].ident() == id
    &&& forall|j: int| 0 <= j < index ==> shapes[j].ident() != id
}

/// Some primitive has identifier `id`.
pub open spec fn holds_id(shapes: Seq<HitableShape>, id: u32) -> bool {
    exists|i: int| 0 <= i < shapes.len() && shapes[i].ident() == id
}

/// Where the first primitive with identifier `id` stands, if any has it.
pub open spec fn first_position(shapes: Seq<HitableShape>, id: u32) -> Option<int> {
    if holds_id(shapes, id) {
        Some(choose|index: int| first_with_id(shapes, id, index))
    } else {
        None
    }
}

/// `first_position` is the one place that `first_with_id` holds of, and
/// there is such a place exactly where some primitive has the identifier.
pub proof fn lemma_first_position(shapes: Seq<HitableShape>, id: u32)
    ensures
        match first_position(shapes, id) {
            Some(index) => first_with_id(shapes, id, index),
            None => forall|i: int| 0 <= i < shapes.len() ==> shapes[i].ident() != id,
        },
        forall|index: int|
            first_with_id(shapes, id, index) ==> first_position(shapes, id) == Some(index),
{
    if holds_id(shapes, id) {
        let some = choose|i: int| 0 <= i < shapes.len() && shapes[i].ident() == id;
        lemma_some_is_first(shapes, id, some);
        let chosen = choose|index: int| first_with_id(shapes, id, index);
        assert forall|index: int| first_with_id(shapes, id, index) implies index == chosen by {
            if index < chosen {
            } else if chosen < index {
            }
        }
    }
}

/// Where some primitive has the identifier, one of them is the first.
proof fn lemma_some_is_first(shapes: Seq<HitableShape>, id: u32, at: int)
    requires
        0 <= at < shapes.len(),
        shapes[at].ident() == id,
    ensures
        exists|index: int| first_with_id(shapes, id, index),
    decreases at,
{
    if forall|j: int| 0 <= j < at ==> shapes[j].ident() != id {
        assert(first_with_id(shapes, id, at));
    } else {
        let earlier = choose|j: int| 0 <= j < at && shapes[j].ident() == id;
        lemma_some_is_first(shapes, id, earlier);
    }
}

/// The primitives whose identifier is not `id`, in their order.
pub open spec fn without_id(shapes: Seq<HitableShape>, id: u32) -> Seq<HitableShape> {
    shapes.filter(|shape: HitableShape| shape.ident() != id)
}

/// Each probe was taken of the primitive at its place.
pub open spec fn probed(shapes: Seq<HitableShape>, probes: Seq<Probe>) -> bool {
    &&& probes.len() == shapes.len()
    &&& forall|i: int| 0 <= i < shapes.len() ==> (#[trigger] shapes[i]).fits(probes[i])
}

/// The bound under which the next primitive is tried: the distance of the
/// hit found so far, or `t_max` while there is none.
pub open spec fn limit_after(found: Option<Hit>, t_max: Scalar) -> Scalar {
    match found {
        Some(hit) => hit.t,
        None => t_max,
    }
}

/// The hit that a scan of the primitives in their order arrives at.  Each
/// primitive is tried between `t_min` and the distance of the hit found
/// before it, and a primitive that is hit there replaces that hit.  Without
/// one probe for each primitive there is no hit.
pub open spec fn nearest(
    shapes: Seq<HitableShape>,
    probes: Seq<Probe>,
    t_min: Scalar,
    t_max: Scalar,
) -> Option<Hit>
    decreases shapes.len(),
{
    if shapes.len() == 0 || probes.len() != shapes.len() {
        None
    } else {
        let before = nearest(shapes.drop_last(), probes.drop_last(), t_min, t_max);
        match shapes.last().struck(probes.last(), t_min, limit_after(before, t_max)) {
            Some(hit) => Some(hit),
            None => before,
        }
    }
}

/// How many of the primitives are spheres.
pub open spec fn sphere_count(shapes: Seq<HitableShape>) -> int
    decreases shapes.len(),
{
    if shapes.len() == 0 {
        0
    } else {
        sphere_count(shapes.drop_last()) + if shapes.last() is Sphere {
            1int
        } else {
            0int
        }
    }
}

/// How many of the primitives are triangles.
pub open spec fn triangle_count(shapes: Seq<HitableShape>) -> int
    decreases shapes.len(),
{
    if shapes.len() == 0 {
        0
    } else {
        triangle_count(shapes.drop_last()) + if shapes.last() is Triangle {
            1int
        } else {
            0int
        }
    }
}

/// The decimal digits of a number, the most significant first, with no
/// zero in front.
pub open spec fn decimal(n: nat) -> Seq<char>
    decreases n,
{
    if n < 10 {
        seq![digit(n)]
    } else {
        decimal(n / 10).push(digit(n % 10))
    }
}

/// The character of a digit.
pub open spec fn digit(d: nat) -> char {
    if d == 0 {
        '0'
    } else if d == 1 {
        '1'
    } else if d == 2 {
        '2'
    } else if d == 3 {
        '3'
    } else if d == 4 {
        '4'
    } else if d == 5 {
        '5'
    } else if d == 6 {
        '6'
    } else if d == 7 {
        '7'
    } else if d == 8 {
        '8'
    } else {
        '9'
    }
}

/// The text of a report on `total` primitives, `spheres` of them spheres and
/// `triangles` of them triangles: three lines, the counts in decimal.
pub open spec fn stats_text(total: nat, spheres: nat, triangles: nat) -> Seq<char> {
    decimal(total) + " shapes:\n * "@ + decimal(spheres) + " spheres\n * "@ + decimal(triangles)
        + " triangles"@
}

/// Calls `format!` on the three counts, which writes each of them in
/// decimal between the words of the report.
#[verifier::external_body]
fn format_stats(total: usize, spheres: usize, triangles: usize) -> (text: String)
    ensures
        text@ == stats_text(total as nat, spheres as nat, triangles as nat),
{
    format!("{} shapes:\n * {} spheres\n * {} triangles", total, spheres, triangles)
}

/// The primitives of a scene, in the order in which they were added.
pub struct HitableList {
    list: Vec<HitableShape>,
}

impl View for HitableList {
    type V = Seq<HitableShape>;

    closed spec fn view(&self) -> Seq<HitableShape> {
        self.list@
    }
}

impl HitableList {
    pub fn new() -> (world: HitableList)
        ensures
            world@ == Seq::<HitableShape>::empty(),
    {
        HitableList { list: Vec::new() }
    }

    pub fn len(&self) -> (n: usize)
        ensures
            n == self@.len(),
    {
        self.list.len()
    }

    /// The primitive at `index` in the order of adding.
    pub fn nth(&self, index: usize) -> (r: Option<&HitableShape>)
        ensures
            r == if index < self@.len() {
                Some(&self@[index as int])
            } else {
                None
            },
    {
        if index < self.list.len() {
            Some(&self.list[index])
        } else {
            None
        }
    }

    /// Tells whether there is one probe for each primitive, taken of a
    /// primitive of its kind.
    pub fn probed_by(&self, probes: &Vec<Probe>) -> (r: bool)
        ensures
            r == probed(self@, probes@),
    {
        if probes.len() != self.list.len() {
            return false;
        }
        let mut i: usize = 0;
        while i < self.list.len()
            invariant
                i <= self.list@.len(),
                probes@.len() == self.list@.len(),
                forall|j: int| 0 <= j < i ==> (#[trigger] self.list@[j]).fits(probes@[j]),
            decreases self.list@.len() - i,
        {
            if !self.list[i].accepts(&probes[i]) {
                return false;
            }
            i += 1;
        }
        true
    }

    /// Appends a primitive.  Identifiers are the caller's: one may occur
    /// more than once.
    pub fn add(&mut self, hitable: HitableShape)
        ensures
            final(self)@ == old(self)@.push(hitable),
    {
        self.list.push(hitable);
    }

    /// Where the first primitive with identifier `id` stands, if there is
    /// one.
    pub fn position(&self, id: u32) -> (r: Option<usize>)
        ensures
            match r {
                Some(index) => first_position(self@, id) == Some(index as int),
                None => first_position(self@, id) is None,
            },
    {
        let mut i: usize = 0;
        while i < self.list.len()
            invariant
                i <= self.list@.len(),
                forall|j: int| 0 <= j < i ==> self.list@[j].ident() != id,
            decreases self.list@.len() - i,
        {
            if self.list[i].id() == id {
                proof {
                    lemma_first_position(self@, id);
                }
                return Some(i);
            }
            i += 1;
        }
        proof {
            lemma_first_position(self@, id);
        }
        None
    }

    /// Removes every primitive whose identifier is `id`; the others keep
    /// their order.
    pub fn remove(&mut self, id: u32)
        ensures
            final(self)@ == without_id(old(self)@, id),
    {
        let ghost keep = |shape: HitableShape| shape.ident() != id;
        let mut kept: Vec<HitableShape> = Vec::new();
        let mut i: usize = 0;
        proof {
            reveal(Seq::filter);
            assert(self.list@.take(0) =~= Seq::<HitableShape>::empty());
        }
        while i < self.list.len()
            invariant
                i <= self.list@.len(),
                keep == |shape: HitableShape| shape.ident() != id,
                kept@ == self.list@.take(i as int).filter(keep),
            decreases self.list@.len() - i,
        {
            let shape = self.list[i];
            proof {
                reveal(Seq::filter);
                assert(self.list@.take(i + 1).drop_last() =~= self.list@.take(i as int));
                assert(self.list@.take(i + 1).last() == shape);
            }
            if shape.id() != id {
                kept.push(shape);
            }
            i += 1;
        }
        proof {
            assert(self.list@.take(i as int) =~= self.list@);
        }
        self.list = kept;
    }

    /// The nearest hit of a ray between `t_min` and `t_max`, decided from
    /// the probes that were taken of the ray against each primitive, in the
    /// order of the primitives.
    pub fn hit(&self, probes: &Vec<Probe>, t_min: Scalar, t_max: Scalar) -> (r: Option<Hit>)
        ensures
            r == nearest(self@, probes@, t_min, t_max),
    {
        if probes.len() != self.list.len() {
            return None;
        }
        let mut closest_so_far = t_max;
        let mut closest_hit: Option<Hit> = None;
        let mut i: usize = 0;
        proof {
            assert(self.list@.take(0) =~= Seq::<HitableShape>::empty());
        }
        while i < self.list.len()
            invariant
                i <= self.list@.len(),
                probes@.len() == self.list@.len(),
                closest_hit == nearest(
                    self.list@.take(i as int),
                    probes@.take(i as int),
                    t_min,
                    t_max,
                ),
                closest_so_far == limit_after(closest_hit, t_max),
            decreases self.list@.len() - i,
        {
            proof {
                assert(self.list@.take(i + 1).drop_last() =~= self.list@.take(i as int));
                assert(probes@.take(i + 1).drop_last() =~= probes@.take(i as int));
                assert(self.list@.take(i + 1).last() == self.list@[i as int]);
                assert(probes@.take(i + 1).last() == probes@[i as int]);
            }
            let hit = self.list[i].hit(&probes[i], t_min, closest_so_far);
            if hit.is_some() {
                let hit = hit.unwrap();
                closest_so_far = hit.t;
                closest_hit = Some(hit);
            }
            i += 1;
        }
        proof {
            assert(self.list@.take(i as int) =~= self.list@);
            assert(probes@.take(i as int) =~= probes@);
        }
        closest_hit
    }

    /// How many of the primitives are spheres, and how many are triangles.
    pub fn counts(&self) -> (r: (usize, usize))
        ensures
            r.0 == sphere_count(self@),
            r.1 == triangle_count(self@),
            r.0 + r.1 == self@.len(),
    {
        let mut spheres: usize = 0;
        let mut triangles: usize = 0;
        let mut i: usize = 0;
        proof {
            assert(self.list@.take(0) =~= Seq::<HitableShape>::empty());
        }
        while i < self.list.len()
            invariant
                i <= self.list@.len(),
                spheres == sphere_count(self.list@.take(i as int)),
                triangles == triangle_count(self.list@.take(i as int)),
                spheres + triangles == i,
            decreases self.list@.len() - i,
        {
            proof {
                assert(self.list@.take(i + 1).drop_last() =~= self.list@.take(i as int));
                assert(self.list@.take(i + 1).last() == self.list@[i as int]);
            }
            match self.list[i] {
                HitableShape::Sphere(_) => spheres = spheres + 1,
                HitableShape::Triangle(_) => triangles = triangles + 1,
            }
            i += 1;
        }
        proof {
            assert(self.list@.take(i as int) =~= self.list@);
        }
        (spheres, triangles)
    }

    /// A short report: how many primitives there are, and how many of each
    /// kind.
    pub fn stats(&self) -> (text: String)
        ensures
            text@ == stats_text(
                self@.len(),
                sphere_count(self@) as nat,
                triangle_count(self@) as nat,
            ),
    {
        let (spheres, triangles) = self.counts();
        format_stats(self.list.len(), spheres, triangles)
    }

    /// The first primitive, in the order of adding, whose identifier is
    /// `id`.  What the caller writes through the reference replaces that
    /// primitive and nothing else.
    pub fn find(&mut self, id: u32) -> (r: Option<&mut HitableShape>)
        ensures
            match r {
                Some(shape) => {
                    &&& first_position(old(self)@, id) is Some
                    &&& *shape == old(self)@[first_position(old(self)@, id).unwrap()]
                    &&& final(self)@ == old(self)@.update(
                        first_position(old(self)@, id).unwrap(),
                        *final(shape),
                    )
                },
                None => first_position(old(self)@, id) is None && final(self)@ == old(self)@,
            },
    {
        let found = self.position(id);
        proof {
            lemma_first_position(self@, id);
        }
        match found {
            Some(index) => Some(&mut self.list[index]),
            None => None,
        }
    }
}

} // verus!
