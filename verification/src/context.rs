use vstd::prelude::*;
use crate::camera::Camera;
use crate::hit::{first_position, without_id, HitableShape};
use crate::material::{default_material, LambertianMaterial, Material};
use crate::pointlight::{first_light_position, without_light, PointLight};
use crate::scalar::Scalar;
use crate::sphere::Sphere;
use crate::tracer::PathTracer;
use crate::triangle::Triangle;
use crate::vector::Vector3;

verus! {

/// How many numbers describe one triangle of a model: three corners of
/// three coordinates each.
pub const NUMBERS_PER_TRIANGLE: usize = 9;

/// A rendering session: the pose of the camera, the number of samples for
/// each pixel, and the path tracer with its scene.
pub struct Context {
    pub camera_pos: Vector3,
    pub camera_rotation: Vector3,
    pub camera_fov: Scalar,
    pub sample_per_pixel: u16,
    pub pathtracer: PathTracer,
}

/// The primitive with the centre and radius replaced, if it is a sphere;
/// a triangle as it is.
pub open spec fn with_ball(shape: HitableShape, center: Vector3, radius: Scalar) -> HitableShape {
    match shape {
        HitableShape::Sphere(sphere) => HitableShape::Sphere(
            Sphere { center, radius, ..sphere },
        ),
        HitableShape::Triangle(_) => shape,
    }
}

/// The primitive with the corners replaced, if it is a triangle; a sphere
/// as it is.
pub open spec fn with_corners(shape: HitableShape, a: Vector3, b: Vector3, c: Vector3)
    -> HitableShape {
    match shape {
        HitableShape::Triangle(triangle) => HitableShape::Triangle(
            Triangle { vertex_a: a, vertex_b: b, vertex_c: c, ..triangle },
        ),
        HitableShape::Sphere(_) => shape,
    }
}

/// The primitive with another material.
pub open spec fn with_material(shape: HitableShape, material: Material) -> HitableShape {
    match shape {
        HitableShape::Triangle(triangle) => HitableShape::Triangle(
            Triangle { material, ..triangle },
        ),
        HitableShape::Sphere(sphere) => HitableShape::Sphere(Sphere { material, ..sphere }),
    }
}

/// The `k`-th triangle of a model: its corners are the nine numbers from
/// place `9 * k` on, and it is grey.
pub open spec fn model_triangle(id: u32, vertices: Seq<Scalar>, k: int) -> HitableShape {
    HitableShape::Triangle(
        Triangle {
            id,
            vertex_a: Vector3 {
                x: vertices[9 * k],
                y: vertices[9 * k + 1],
                z: vertices[9 * k + 2],
            },
            vertex_b: Vector3 {
                x: vertices[9 * k + 3],
                y: vertices[9 * k + 4],
                z: vertices[9 * k + 5],
            },
            vertex_c: Vector3 {
                x: vertices[9 * k + 6],
                y: vertices[9 * k + 7],
                z: vertices[9 * k + 8],
            },
            material: default_material(),
        },
    )
}

/// The triangles of a model, in the order of their numbers.
pub open spec fn model_triangles(id: u32, vertices: Seq<Scalar>) -> Seq<HitableShape> {
    Seq::new((vertices.len() / 9) as nat, |k: int| model_triangle(id, vertices, k))
}

impl Context {
    /// The primitives of the scene.
    pub open spec fn shapes(self) -> Seq<HitableShape> {
        self.pathtracer.world@
    }

    /// The lights of the scene.
    pub open spec fn lights(self) -> Seq<PointLight> {
        self.pathtracer.lights@
    }

    /// All but the primitives is as it is in `other`.
    pub open spec fn same_but_shapes(self, other: Context) -> bool {
        &&& self.camera_pos == other.camera_pos
        &&& self.camera_rotation == other.camera_rotation
        &&& self.camera_fov == other.camera_fov
        &&& self.sample_per_pixel == other.sample_per_pixel
        &&& self.pathtracer.rng == other.pathtracer.rng
        &&& self.pathtracer.camera == other.pathtracer.camera
        &&& self.pathtracer.samples == other.pathtracer.samples
        &&& self.lights() == other.lights()
    }

    /// All but the lights is as it is in `other`.
    pub open spec fn same_but_lights(self, other: Context) -> bool {
        &&& self.camera_pos == other.camera_pos
        &&& self.camera_rotation == other.camera_rotation
        &&& self.camera_fov == other.camera_fov
        &&& self.sample_per_pixel == other.sample_per_pixel
        &&& self.pathtracer.rng == other.pathtracer.rng
        &&& self.pathtracer.camera == other.pathtracer.camera
        &&& self.pathtracer.samples == other.pathtracer.samples
        &&& self.shapes() == other.shapes()
    }

    /// A session with an empty scene, one sample for each pixel, and the
    /// pose of the camera at zero.
    pub fn new(camera: Camera) -> (context: Context)
        ensures
            context.camera_pos == (Vector3 {
                x: Scalar { bits: 0 },
                y: Scalar { bits: 0 },
                z: Scalar { bits: 0 },
            }),
            context.camera_rotation == context.camera_pos,
            context.camera_fov == (Scalar { bits: 0 }),
            context.sample_per_pixel == 1,
            context.pathtracer.camera == camera,
            context.pathtracer.samples == 1,
            context.shapes() == Seq::<HitableShape>::empty(),
            context.lights() == Seq::<PointLight>::empty(),
    {
        Context {
            camera_pos: Vector3::splat(Scalar::zero()),
            camera_rotation: Vector3::splat(Scalar::zero()),
            camera_fov: Scalar::zero(),
            sample_per_pixel: 1,
            pathtracer: PathTracer::new(camera, 1),
        }
    }

    /// Makes the path tracer ready for a rendering: it gets the camera and
    /// the session's number of samples.
    pub fn prepare(&mut self, camera: Camera)
        ensures
            final(self).pathtracer.camera == camera,
            final(self).pathtracer.samples == old(self).sample_per_pixel,
            final(self).camera_pos == old(self).camera_pos,
            final(self).camera_rotation == old(self).camera_rotation,
            final(self).camera_fov == old(self).camera_fov,
            final(self).sample_per_pixel == old(self).sample_per_pixel,
            final(self).pathtracer.rng == old(self).pathtracer.rng,
            final(self).shapes() == old(self).shapes(),
            final(self).lights() == old(self).lights(),
    {
        self.pathtracer.camera = camera;
        self.pathtracer.samples = self.sample_per_pixel;
    }

    /// Moves the first light with identifier `id` to the position and gives
    /// it the intensity; where there is no such light, adds one.
    pub fn create_or_edit_light(&mut self, id: u32, x: Scalar, y: Scalar, z: Scalar, intensity: Scalar)
        ensures
            final(self).same_but_lights(*old(self)),
            final(self).lights() == match first_light_position(old(self).lights(), id) {
                Some(index) => old(self).lights().update(
                    index,
                    PointLight { id: old(self).lights()[index].id, intensity, position: Vector3 { x, y, z } },
                ),
                None => old(self).lights().push(
                    PointLight { id, intensity, position: Vector3 { x, y, z } },
                ),
            },
    {
        match self.pathtracer.lights.find(id) {
            Some(light) => {
                light.position.x = x;
                light.position.y = y;
                light.position.z = z;
                light.intensity = intensity;
            },
            None => {
                let light = PointLight::new(id, Vector3::new(x, y, z), intensity);
                self.pathtracer.lights.add(light);
            },
        }
    }

    /// Removes every light with identifier `id`.
    pub fn remove_light(&mut self, id: u32)
        ensures
            final(self).same_but_lights(*old(self)),
            final(self).lights() == without_light(old(self).lights(), id),
    {
        self.pathtracer.lights.remove(id);
    }

    /// Adds a grey sphere.
    pub fn add_sphere(&mut self, id: u32, x: Scalar, y: Scalar, z: Scalar, radius: Scalar)
        ensures
            final(self).same_but_shapes(*old(self)),
            final(self).shapes() == old(self).shapes().push(
                HitableShape::Sphere(
                    Sphere { id, center: Vector3 { x, y, z }, radius, material: default_material() },
                ),
            ),
    {
        let sphere = Sphere::new(id, Vector3::new(x, y, z), radius, Material::grey());
        self.pathtracer.world.add(HitableShape::Sphere(sphere));
    }

    /// Moves and resizes the first primitive with identifier `id` if it is
    /// a sphere.  Tells whether there is a primitive with the identifier,
    /// sphere or not.
    pub fn update_sphere(&mut self, id: u32, x: Scalar, y: Scalar, z: Scalar, radius: Scalar) -> (found:
        bool)
        ensures
            final(self).same_but_shapes(*old(self)),
            found == first_position(old(self).shapes(), id) is Some,
            final(self).shapes() == match first_position(old(self).shapes(), id) {
                Some(index) => old(self).shapes().update(
                    index,
                    with_ball(old(self).shapes()[index], Vector3 { x, y, z }, radius),
                ),
                None => old(self).shapes(),
            },
    {
        if let Some(shape) = self.pathtracer.world.find(id) {
            match shape {
                HitableShape::Sphere(sphere) => {
                    sphere.center.x = x;
                    sphere.center.y = y;
                    sphere.center.z = z;
                    sphere.radius = radius;
                },
                _ => (),
            }
            true
        } else {
            false
        }
    }

    /// Removes every primitive with identifier `id`.
    pub fn remove_sphere(&mut self, id: u32)
        ensures
            final(self).same_but_shapes(*old(self)),
            final(self).shapes() == without_id(old(self).shapes(), id),
    {
        self.pathtracer.world.remove(id);
    }

    /// Adds a grey triangle.
    pub fn add_triangle(
        &mut self,
        id: u32,
        a_x: Scalar,
        a_y: Scalar,
        a_z: Scalar,
        b_x: Scalar,
        b_y: Scalar,
        b_z: Scalar,
        c_x: Scalar,
        c_y: Scalar,
        c_z: Scalar,
    )
        ensures
            final(self).same_but_shapes(*old(self)),
            final(self).shapes() == old(self).shapes().push(
                HitableShape::Triangle(
                    Triangle {
                        id,
                        vertex_a: Vector3 { x: a_x, y: a_y, z: a_z },
                        vertex_b: Vector3 { x: b_x, y: b_y, z: b_z },
                        vertex_c: Vector3 { x: c_x, y: c_y, z: c_z },
                        material: default_material(),
                    },
                ),
            ),
    {
        let triangle = Triangle::new(
            id,
            Vector3::new(a_x, a_y, a_z),
            Vector3::new(b_x, b_y, b_z),
            Vector3::new(c_x, c_y, c_z),
            Material::grey(),
        );
        self.pathtracer.world.add(HitableShape::Triangle(triangle));
    }

    /// Moves the corners of the first primitive with identifier `id` if it
    /// is a triangle.  Tells whether there is a primitive with the
    /// identifier, triangle or not.
    pub fn update_triangle(
        &mut self,
        id: u32,
        a_x: Scalar,
        a_y: Scalar,
        a_z: Scalar,
        b_x: Scalar,
        b_y: Scalar,
        b_z: Scalar,
        c_x: Scalar,
        c_y: Scalar,
        c_z: Scalar,
    ) -> (found: bool)
        ensures
            final(self).same_but_shapes(*old(self)),
            found == first_position(old(self).shapes(), id) is Some,
            final(self).shapes() == match first_position(old(self).shapes(), id) {
                Some(index) => old(self).shapes().update(
                    index,
                    with_corners(
                        old(self).shapes()[index],
                        Vector3 { x: a_x, y: a_y, z: a_z },
                        Vector3 { x: b_x, y: b_y, z: b_z },
                        Vector3 { x: c_x, y: c_y, z: c_z },
                    ),
                ),
                None => old(self).shapes(),
            },
    {
        if let Some(shape) = self.pathtracer.world.find(id) {
            match shape {
                HitableShape::Triangle(triangle) => {
                    triangle.vertex_a.x = a_x;
                    triangle.vertex_a.y = a_y;
                    triangle.vertex_a.z = a_z;
                    triangle.vertex_b.x = b_x;
                    triangle.vertex_b.y = b_y;
                    triangle.vertex_b.z = b_z;
                    triangle.vertex_c.x = c_x;
                    triangle.vertex_c.y = c_y;
                    triangle.vertex_c.z = c_z;
                },
                _ => (),
            }
            true
        } else {
            false
        }
    }

    /// Removes every primitive with identifier `id`.
    pub fn remove_triangle(&mut self, id: u32)
        ensures
            final(self).same_but_shapes(*old(self)),
            final(self).shapes() == without_id(old(self).shapes(), id),
    {
        self.pathtracer.world.remove(id);
    }

    /// Replaces what the scene holds under `id` by the triangles of a
    /// model.  `vertices` gives nine numbers for each triangle: the three
    /// coordinates of each of its three corners.  The position and the
    /// index list are accepted and not used.
    pub fn add_model(
        &mut self,
        id: u32,
        x: Scalar,
        y: Scalar,
        z: Scalar,
        vertices: &Vec<Scalar>,
        triangles: &Vec<u16>,
    )
        requires
            vertices@.len() % 9 == 0,
        ensures
            final(self).same_but_shapes(*old(self)),
            final(self).shapes() == without_id(old(self).shapes(), id) + model_triangles(
                id,
                vertices@,
            ),
    {
        self.remove_model(id);
        let ghost base = self.shapes();
        let count: usize = vertices.len() / NUMBERS_PER_TRIANGLE;
        let mut k: usize = 0;
        proof {
            assert(base + model_triangles(id, vertices@).take(0) =~= base);
        }
        while k < count
            invariant
                k <= count,
                count == vertices@.len() / 9,
                vertices@.len() % 9 == 0,
                vertices@.len() <= usize::MAX,
                self.same_but_shapes(*old(self)),
                self.shapes() == base + model_triangles(id, vertices@).take(k as int),
            decreases count - k,
        {
            proof {
                assert(9 * k + 9 <= vertices@.len()) by (nonlinear_arith)
                    requires
                        k < count,
                        count == vertices@.len() / 9,
                        vertices@.len() % 9 == 0,
                ;
            }
            let at: usize = k * NUMBERS_PER_TRIANGLE;
            let triangle = Triangle::new(
                id,
                Vector3::new(vertices[at], vertices[at + 1], vertices[at + 2]),
                Vector3::new(vertices[at + 3], vertices[at + 4], vertices[at + 5]),
                Vector3::new(vertices[at + 6], vertices[at + 7], vertices[at + 8]),
                Material::grey(),
            );
            self.pathtracer.world.add(HitableShape::Triangle(triangle));
            proof {
                let all = model_triangles(id, vertices@);
                assert(all[k as int] == HitableShape::Triangle(triangle));
                assert(all.take(k + 1) =~= all.take(k as int).push(all[k as int]));
                assert(self.shapes() =~= base + all.take(k + 1));
            }
            k += 1;
        }
        proof {
            let all = model_triangles(id, vertices@);
            assert(all.take(k as int) =~= all);
        }
    }

    /// Replaces the model under `id` as `add_model` does, and tells that it
    /// did.
    pub fn update_model(
        &mut self,
        id: u32,
        x: Scalar,
        y: Scalar,
        z: Scalar,
        vertices: &Vec<Scalar>,
        triangles: &Vec<u16>,
    ) -> (done: bool)
        requires
            vertices@.len() % 9 == 0,
        ensures
            done,
            final(self).same_but_shapes(*old(self)),
            final(self).shapes() == without_id(old(self).shapes(), id) + model_triangles(
                id,
                vertices@,
            ),
    {
        self.remove_model(id);
        proof {
            crate::scene_laws::lemma_removal_is_idempotent(old(self).shapes(), id);
        }
        self.add_model(id, x, y, z, vertices, triangles);
        true
    }

    /// Removes every primitive with identifier `id`.
    pub fn remove_model(&mut self, id: u32)
        ensures
            final(self).same_but_shapes(*old(self)),
            final(self).shapes() == without_id(old(self).shapes(), id),
    {
        self.pathtracer.world.remove(id);
    }

    /// Paints the first primitive with identifier `id` as a diffuse surface
    /// of colour `albedo`.  Tells whether there is such a primitive.
    pub fn set_lambert(&mut self, id: u32, albedo: Vector3) -> (found: bool)
        ensures
            final(self).same_but_shapes(*old(self)),
            found == first_position(old(self).shapes(), id) is Some,
            final(self).shapes() == match first_position(old(self).shapes(), id) {
                Some(index) => old(self).shapes().update(
                    index,
                    with_material(
                        old(self).shapes()[index],
                        Material::LambertianMaterial(LambertianMaterial { albedo }),
                    ),
                ),
                None => old(self).shapes(),
            },
    {
        if let Some(shape) = self.pathtracer.world.find(id) {
            match shape {
                HitableShape::Sphere(sphere) => {
                    sphere.material = Material::lambert(albedo);
                },
                HitableShape::Triangle(triangle) => {
                    triangle.material = Material::lambert(albedo);
                },
            }
            true
        } else {
            false
        }
    }
}

} // verus!
