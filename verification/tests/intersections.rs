use nalgebra_glm::{cross, dot, normalize, vec3, Vec3};
use web_tracing::hit::{Crossing, Hit, HitableList, HitableShape, Probe};
use web_tracing::material::{LambertianMaterial, Material, MetalMaterial};
use web_tracing::scalar::Scalar;
use web_tracing::sphere::{Sphere, SphereProbe};
use web_tracing::triangle::{Triangle, TriangleProbe, PARALLEL_EPSILON_BITS};
use web_tracing::vector::Vector3;

fn s(value: f32) -> Scalar {
    Scalar::from_bits(value.to_bits())
}

fn f(value: Scalar) -> f32 {
    f32::from_bits(value.to_bits())
}

fn v(value: Vec3) -> Vector3 {
    Vector3::new(s(value.x), s(value.y), s(value.z))
}

fn g(value: Vector3) -> Vec3 {
    vec3(f(value.x), f(value.y), f(value.z))
}

fn grey() -> Material {
    Material::LambertianMaterial(LambertianMaterial { albedo: v(vec3(0.5, 0.5, 0.5)) })
}

fn steel() -> Material {
    Material::MetalMaterial(MetalMaterial { albedo: v(vec3(0.7, 0.6, 0.5)), fuzz: s(0.0) })
}

fn crossing(t: f32) -> Crossing {
    Crossing { t: s(t), point: v(vec3(0.0, 0.0, -t)), normal: v(vec3(0.0, 0.0, 1.0)) }
}

fn sphere_crossing(sphere: &Sphere, origin: Vec3, direction: Vec3, t: f32) -> Crossing {
    let point = origin + t * direction;
    let normal = normalize(&((point - g(sphere.center)) / f(sphere.radius)));
    Crossing { t: s(t), point: v(point), normal: v(normal) }
}

fn probe_sphere(sphere: &Sphere, origin: Vec3, direction: Vec3) -> SphereProbe {
    let oc = origin - g(sphere.center);
    let a = dot(&direction, &direction);
    let b = dot(&direction, &oc);
    let c = dot(&oc, &oc) - f(sphere.radius) * f(sphere.radius);
    let discriminant = b * b - a * c;
    let root = discriminant.sqrt();
    SphereProbe {
        discriminant: s(discriminant),
        near: sphere_crossing(sphere, origin, direction, (-b - root) / a),
        far: sphere_crossing(sphere, origin, direction, (-b + root) / a),
    }
}

fn probe_triangle(triangle: &Triangle, origin: Vec3, direction: Vec3) -> TriangleProbe {
    let v0v1 = g(triangle.vertex_b) - g(triangle.vertex_a);
    let v0v2 = g(triangle.vertex_c) - g(triangle.vertex_a);
    let plane = cross(&direction, &v0v2);
    let determinant = dot(&v0v1, &plane);
    let inverse = 1.0 / determinant;
    let from_a = origin - g(triangle.vertex_a);
    let u = inverse * dot(&from_a, &plane);
    let q = cross(&from_a, &v0v1);
    let w = inverse * dot(&direction, &q);
    let t = inverse * dot(&v0v2, &q);
    TriangleProbe {
        determinant: s(determinant),
        u: s(u),
        v: s(w),
        u_plus_v: s(u + w),
        crossing: Crossing {
            t: s(t),
            point: v(origin + t * direction),
            normal: v(normalize(&cross(&v0v1, &v0v2))),
        },
    }
}

fn unit_ball() -> Sphere {
    Sphere::new(1, v(vec3(0.0, 0.0, -1.0)), s(0.5), grey())
}

fn facing_triangle() -> Triangle {
    Triangle::new(
        2,
        v(vec3(-1.0, -1.0, -2.0)),
        v(vec3(1.0, -1.0, -2.0)),
        v(vec3(0.0, 1.0, -2.0)),
        steel(),
    )
}

#[test]
fn ray_through_the_center_has_symmetric_roots_and_an_outward_unit_normal() {
    let sphere = unit_ball();
    let origin = vec3(0.0, 0.0, 0.0);
    let direction = vec3(0.0, 0.0, -1.0);
    let probe = probe_sphere(&sphere, origin, direction);
    let projected = dot(&(g(sphere.center) - origin), &direction);
    assert_eq!(f(probe.near.t), 0.5);
    assert_eq!(f(probe.far.t), 1.5);
    assert_eq!(projected - f(probe.near.t), f(probe.far.t) - projected);
    let hit = sphere.hit(&probe, s(0.001), s(f32::INFINITY)).unwrap();
    assert_eq!(hit.t, s(0.5));
    assert_eq!(hit.point, v(vec3(0.0, 0.0, -0.5)));
    assert_eq!(hit.material, grey());
    let normal = g(hit.normal);
    assert!((dot(&normal, &normal) - 1.0).abs() < 1.0e-6);
    assert!(dot(&normal, &(g(hit.point) - g(sphere.center))) > 0.0);
}

#[test]
fn sphere_takes_the_far_root_when_the_near_one_is_out_of_bounds() {
    let sphere = unit_ball();
    let probe = probe_sphere(&sphere, vec3(0.0, 0.0, -1.0), vec3(0.0, 0.0, -1.0));
    assert_eq!(f(probe.near.t), -0.5);
    let hit = sphere.hit(&probe, s(0.001), s(f32::INFINITY)).unwrap();
    assert_eq!(hit.t, s(0.5));
    assert_eq!(hit.point, v(vec3(0.0, 0.0, -1.5)));
}

#[test]
fn sphere_bounds_are_strict() {
    let sphere = unit_ball();
    let probe = SphereProbe { discriminant: s(1.0), near: crossing(0.5), far: crossing(1.5) };
    assert_eq!(sphere.hit(&probe, s(0.5), s(1.5)), None);
    assert_eq!(sphere.hit(&probe, s(0.5), s(1.6)).map(|hit| hit.t), Some(s(1.5)));
    assert_eq!(sphere.hit(&probe, s(0.4), s(1.5)).map(|hit| hit.t), Some(s(0.5)));
    assert_eq!(sphere.hit(&probe, s(0.4), s(0.5)), None);
    assert_eq!(sphere.hit(&probe, s(0.4), s(f32::NAN)), None);
}

#[test]
fn sphere_needs_a_positive_discriminant() {
    let sphere = unit_ball();
    for discriminant in [0.0, -0.0, -1.0, f32::NAN] {
        let probe =
            SphereProbe { discriminant: s(discriminant), near: crossing(0.5), far: crossing(1.5) };
        assert_eq!(sphere.hit(&probe, s(0.001), s(f32::INFINITY)), None);
    }
    let missed = probe_sphere(&sphere, vec3(0.0, 0.0, 0.0), vec3(0.0, 1.0, 0.0));
    assert!(f(missed.discriminant) < 0.0);
    assert_eq!(sphere.hit(&missed, s(0.001), s(f32::INFINITY)), None);
}

#[test]
fn crossing_tells_whether_it_is_within_bounds() {
    assert!(crossing(1.0).is_within(s(0.5), s(1.5)));
    assert!(!crossing(1.0).is_within(s(1.0), s(1.5)));
    assert!(!crossing(1.0).is_within(s(0.5), s(1.0)));
    assert_eq!(
        crossing(1.0).to_hit(grey()),
        Hit {
            t: s(1.0),
            point: v(vec3(0.0, 0.0, -1.0)),
            normal: v(vec3(0.0, 0.0, 1.0)),
            material: grey()
        }
    );
}

#[test]
fn ray_at_the_centroid_hits_inside_the_triangle() {
    let triangle = facing_triangle();
    let centroid =
        (g(triangle.vertex_a) + g(triangle.vertex_b) + g(triangle.vertex_c)) / 3.0;
    let origin = vec3(0.0, 0.0, 0.0);
    let direction = normalize(&(centroid - origin));
    let probe = probe_triangle(&triangle, origin, direction);
    assert!(f(probe.u) >= 0.0);
    assert!(f(probe.v) >= 0.0);
    assert!(f(probe.u_plus_v) <= 1.0);
    assert!((f(probe.u) - 1.0 / 3.0).abs() < 1.0e-5);
    assert!((f(probe.v) - 1.0 / 3.0).abs() < 1.0e-5);
    let hit = triangle.hit(&probe, s(0.001), s(f32::INFINITY)).unwrap();
    assert_eq!(hit.t, probe.crossing.t);
    assert_eq!(hit.material, steel());
    assert_eq!(hit.normal, v(vec3(0.0, 0.0, 1.0)));
    assert!((g(hit.point) - centroid).norm() < 1.0e-5);
}

#[test]
fn ray_along_the_plane_misses_the_triangle() {
    let triangle = facing_triangle();
    let probe = probe_triangle(&triangle, vec3(0.0, 0.0, 0.0), vec3(1.0, 0.0, 0.0));
    assert_eq!(f(probe.determinant), 0.0);
    assert_eq!(triangle.hit(&probe, s(0.001), s(f32::INFINITY)), None);
    let inside = probe_triangle(&triangle, vec3(-5.0, -0.5, -2.0), vec3(1.0, 0.0, 0.0));
    assert_eq!(f(inside.determinant), 0.0);
    assert_eq!(triangle.hit(&inside, s(0.001), s(f32::INFINITY)), None);
}

fn triangle_probe(determinant: f32, u: f32, w: f32, t: f32) -> TriangleProbe {
    TriangleProbe {
        determinant: s(determinant),
        u: s(u),
        v: s(w),
        u_plus_v: s(u + w),
        crossing: crossing(t),
    }
}

#[test]
fn triangle_rejects_a_small_determinant_on_one_side_only() {
    let triangle = facing_triangle();
    let far = s(f32::INFINITY);
    assert_eq!(PARALLEL_EPSILON_BITS, 0.0000001f32.to_bits());
    assert!(triangle.hit(&triangle_probe(1.0, 0.25, 0.25, 2.0), s(0.001), far).is_some());
    assert!(triangle.hit(&triangle_probe(0.0000001, 0.25, 0.25, 2.0), s(0.001), far).is_some());
    assert!(triangle.hit(&triangle_probe(0.00000009, 0.25, 0.25, 2.0), s(0.001), far).is_none());
    assert!(triangle.hit(&triangle_probe(0.0, 0.25, 0.25, 2.0), s(0.001), far).is_none());
    assert!(triangle.hit(&triangle_probe(-0.0, 0.25, 0.25, 2.0), s(0.001), far).is_none());
    assert!(triangle.hit(&triangle_probe(-0.00000009, 0.25, 0.25, 2.0), s(0.001), far).is_some());
    assert!(triangle.hit(&triangle_probe(-1.0, 0.25, 0.25, 2.0), s(0.001), far).is_some());
}

#[test]
fn triangle_rejects_coordinates_outside() {
    let triangle = facing_triangle();
    let far = s(f32::INFINITY);
    assert!(triangle.hit(&triangle_probe(1.0, 0.0, 0.0, 2.0), s(0.001), far).is_some());
    assert!(triangle.hit(&triangle_probe(1.0, 1.0, 0.0, 2.0), s(0.001), far).is_some());
    assert!(triangle.hit(&triangle_probe(1.0, 0.0, 1.0, 2.0), s(0.001), far).is_some());
    assert!(triangle.hit(&triangle_probe(1.0, -0.01, 0.5, 2.0), s(0.001), far).is_none());
    assert!(triangle.hit(&triangle_probe(1.0, 1.01, 0.0, 2.0), s(0.001), far).is_none());
    assert!(triangle.hit(&triangle_probe(1.0, 0.5, -0.01, 2.0), s(0.001), far).is_none());
    assert!(triangle.hit(&triangle_probe(1.0, 0.5, 0.51, 2.0), s(0.001), far).is_none());
}

#[test]
fn triangle_bounds_take_t_min_and_leave_t_max() {
    let triangle = facing_triangle();
    let probe = triangle_probe(1.0, 0.25, 0.25, 2.0);
    assert!(triangle.hit(&probe, s(2.0), s(3.0)).is_some());
    assert!(triangle.hit(&probe, s(2.1), s(3.0)).is_none());
    assert!(triangle.hit(&probe, s(1.0), s(2.0)).is_none());
    assert!(triangle.hit(&probe, s(1.0), s(2.1)).is_some());
    let behind = triangle_probe(1.0, 0.25, 0.25, -2.0);
    assert!(triangle.hit(&behind, s(-3.0), s(3.0)).is_none());
    let at_origin = triangle_probe(1.0, 0.25, 0.25, 0.0);
    assert!(triangle.hit(&at_origin, s(-3.0), s(3.0)).is_none());
}

#[test]
fn shape_dispatches_on_its_kind() {
    let ball = HitableShape::Sphere(unit_ball());
    let flat = HitableShape::Triangle(facing_triangle());
    let ball_probe =
        Probe::Sphere(SphereProbe { discriminant: s(1.0), near: crossing(0.5), far: crossing(1.5) });
    let flat_probe = Probe::Triangle(triangle_probe(1.0, 0.25, 0.25, 2.0));
    assert!(ball.accepts(&ball_probe));
    assert!(!ball.accepts(&flat_probe));
    assert!(flat.accepts(&flat_probe));
    assert!(!flat.accepts(&ball_probe));
    let far = s(f32::INFINITY);
    assert_eq!(ball.hit(&ball_probe, s(0.001), far).map(|hit| hit.t), Some(s(0.5)));
    assert_eq!(flat.hit(&flat_probe, s(0.001), far).map(|hit| hit.t), Some(s(2.0)));
    assert_eq!(flat.hit(&flat_probe, s(0.001), far).map(|hit| hit.material), Some(steel()));
}

fn scene(shapes: Vec<HitableShape>) -> HitableList {
    let mut world = HitableList::new();
    for shape in shapes {
        world.add(shape);
    }
    world
}

fn probes_for(world: &HitableList, origin: Vec3, direction: Vec3) -> Vec<Probe> {
    let mut probes = Vec::new();
    let mut i = 0;
    while let Some(shape) = world.nth(i) {
        probes.push(match shape {
            HitableShape::Sphere(sphere) => Probe::Sphere(probe_sphere(sphere, origin, direction)),
            HitableShape::Triangle(triangle) => {
                Probe::Triangle(probe_triangle(triangle, origin, direction))
            }
        });
        i += 1;
    }
    probes
}

#[test]
fn nearest_hit_wins_in_any_order() {
    let near = HitableShape::Sphere(Sphere::new(1, v(vec3(0.0, 0.0, -1.0)), s(0.25), grey()));
    let middle = HitableShape::Triangle(facing_triangle());
    let far = HitableShape::Sphere(Sphere::new(3, v(vec3(0.0, 0.0, -5.0)), s(1.0), steel()));
    let origin = vec3(0.0, 0.0, 0.0);
    let direction = vec3(0.0, 0.0, -1.0);
    let orders = vec![
        vec![near, middle, far],
        vec![near, far, middle],
        vec![middle, near, far],
        vec![middle, far, near],
        vec![far, near, middle],
        vec![far, middle, near],
    ];
    for order in orders {
        let world = scene(order);
        let probes = probes_for(&world, origin, direction);
        assert!(world.probed_by(&probes));
        let hit = world.hit(&probes, s(0.001), s(f32::INFINITY)).unwrap();
        assert_eq!(hit.t, s(0.75));
        assert_eq!(hit.material, grey());
        let beyond = world.hit(&probes, s(1.5), s(f32::INFINITY)).unwrap();
        assert_eq!(beyond.t, s(2.0));
        assert_eq!(beyond.material, steel());
        assert_eq!(world.hit(&probes, s(0.001), s(0.5)), None);
    }
}

#[test]
fn empty_scene_is_never_hit() {
    let world = HitableList::new();
    assert!(world.probed_by(&vec![]));
    assert_eq!(world.hit(&vec![], s(0.001), s(f32::INFINITY)), None);
}

#[test]
fn probes_must_match_the_shapes() {
    let world = scene(vec![HitableShape::Sphere(unit_ball())]);
    let flat_probe = Probe::Triangle(triangle_probe(1.0, 0.25, 0.25, 2.0));
    assert!(!world.probed_by(&vec![]));
    assert!(!world.probed_by(&vec![flat_probe]));
    assert!(!world.probed_by(&probes_for(&scene(vec![]), vec3(0.0, 0.0, 0.0), vec3(0.0, 0.0, -1.0))));
    let good = probes_for(&world, vec3(0.0, 0.0, 0.0), vec3(0.0, 0.0, -1.0));
    assert!(world.probed_by(&good));
}

#[test]
fn probe_of_the_other_kind_tells_of_no_hit() {
    let ball = HitableShape::Sphere(unit_ball());
    let flat = HitableShape::Triangle(facing_triangle());
    let ball_probe =
        Probe::Sphere(SphereProbe { discriminant: s(1.0), near: crossing(0.5), far: crossing(1.5) });
    let flat_probe = Probe::Triangle(triangle_probe(1.0, 0.25, 0.25, 2.0));
    let far = s(f32::INFINITY);
    assert_eq!(ball.hit(&flat_probe, s(0.001), far), None);
    assert_eq!(flat.hit(&ball_probe, s(0.001), far), None);
}

#[test]
fn scene_without_a_probe_for_each_shape_is_not_hit() {
    let world = scene(vec![HitableShape::Sphere(unit_ball()), HitableShape::Sphere(unit_ball())]);
    let one =
        Probe::Sphere(SphereProbe { discriminant: s(1.0), near: crossing(0.5), far: crossing(1.5) });
    let far = s(f32::INFINITY);
    assert_eq!(world.hit(&vec![], s(0.001), far), None);
    assert_eq!(world.hit(&vec![one], s(0.001), far), None);
    assert_eq!(world.hit(&vec![one, one, one], s(0.001), far), None);
    assert_eq!(world.hit(&vec![one, one], s(0.001), far).map(|hit| hit.t), Some(s(0.5)));
    let flat_probe = Probe::Triangle(triangle_probe(1.0, 0.25, 0.25, 0.25));
    assert_eq!(world.hit(&vec![flat_probe, one], s(0.001), far).map(|hit| hit.t), Some(s(0.5)));
}

#[test]
fn equal_distances_keep_the_first_shape() {
    let first = HitableShape::Sphere(Sphere::new(1, v(vec3(0.0, 0.0, -1.0)), s(0.5), grey()));
    let second = HitableShape::Sphere(Sphere::new(2, v(vec3(0.0, 0.0, -1.0)), s(0.5), steel()));
    let world = scene(vec![first, second]);
    let probes = probes_for(&world, vec3(0.0, 0.0, 0.0), vec3(0.0, 0.0, -1.0));
    let hit = world.hit(&probes, s(0.001), s(f32::INFINITY)).unwrap();
    assert_eq!(hit.material, grey());
}

#[test]
fn shapes_tell_whether_they_are_valid() {
    assert!(unit_ball().is_valid());
    assert!(HitableShape::Sphere(unit_ball()).is_valid());
    assert!(HitableShape::Triangle(facing_triangle()).is_valid());
    for radius in [0.0, -0.5, f32::NAN] {
        let ball = Sphere::new(1, v(vec3(0.0, 0.0, -1.0)), s(radius), grey());
        assert!(!ball.is_valid());
        assert!(!HitableShape::Sphere(ball).is_valid());
    }
    let too_bright =
        Material::LambertianMaterial(LambertianMaterial { albedo: v(vec3(0.5, 1.5, 0.5)) });
    assert!(!Sphere::new(1, v(vec3(0.0, 0.0, -1.0)), s(0.5), too_bright).is_valid());
}
