use web_tracing::hit::Hit;
use web_tracing::material::{LambertianMaterial, Material, Ray, ScatterResult};
use web_tracing::scalar::Scalar;
use web_tracing::tracer::{
    classify, direct_lighting, in_unit_sphere, LightSample, PathEvent, PathState, MAX_DEPTH, SEED,
    T_MAX_BITS, T_MIN_BITS,
};
use web_tracing::vector::Vector3;

fn s(value: f32) -> Scalar {
    Scalar::from_bits(value.to_bits())
}

fn v(x: f32, y: f32, z: f32) -> Vector3 {
    Vector3::new(s(x), s(y), s(z))
}

fn some_hit() -> Hit {
    Hit {
        t: s(2.0),
        point: v(0.0, 1.0, -2.0),
        normal: v(0.0, 0.0, 1.0),
        material: Material::LambertianMaterial(LambertianMaterial { albedo: v(0.5, 0.5, 0.5) }),
    }
}

fn some_scatter() -> ScatterResult {
    ScatterResult {
        attenuation: v(0.5, 0.5, 0.5),
        scattered: Ray { origin: v(0.0, 1.0, -2.0), direction: v(0.0, 0.0, 1.0) },
    }
}

#[test]
fn limits_have_their_values() {
    assert_eq!(MAX_DEPTH, 10);
    assert_eq!(SEED, 0);
    assert_eq!(T_MIN_BITS, 0.001f32.to_bits());
    assert_eq!(T_MAX_BITS, f32::INFINITY.to_bits());
}

#[test]
fn path_enters_below_the_depth_limit_only() {
    assert_eq!(PathState::enter(0), PathState::Tracing { depth: 0 });
    assert_eq!(PathState::enter(9), PathState::Tracing { depth: 9 });
    assert_eq!(PathState::enter(10), PathState::TerminatedDepth);
    assert_eq!(PathState::enter(11), PathState::TerminatedDepth);
    assert_eq!(PathState::enter(i32::MAX), PathState::TerminatedDepth);
    assert_eq!(PathState::enter(-1), PathState::Tracing { depth: -1 });
}

#[test]
fn path_steps_on_each_event() {
    let tracing = PathState::Tracing { depth: 3 };
    assert_eq!(tracing.step(PathEvent::Miss), PathState::TerminatedMiss);
    assert_eq!(tracing.step(PathEvent::Absorbed), PathState::TerminatedAbsorption);
    assert_eq!(tracing.step(PathEvent::Scattered), PathState::Tracing { depth: 4 });
    assert_eq!(
        PathState::Tracing { depth: 9 }.step(PathEvent::Scattered),
        PathState::TerminatedDepth
    );
    assert_eq!(
        PathState::Tracing { depth: i32::MAX }.step(PathEvent::Scattered),
        PathState::TerminatedDepth
    );
}

#[test]
fn terminated_path_stays_terminated() {
    let ends =
        [PathState::TerminatedDepth, PathState::TerminatedMiss, PathState::TerminatedAbsorption];
    for end in ends {
        assert!(end.is_terminated());
        for event in [PathEvent::Miss, PathEvent::Absorbed, PathEvent::Scattered] {
            assert_eq!(end.step(event), end);
        }
    }
    assert!(!PathState::Tracing { depth: 0 }.is_terminated());
}

#[test]
fn path_ends_after_ten_bounces() {
    let mut state = PathState::enter(0);
    let mut bounces = 0;
    while !state.is_terminated() {
        state = state.step(PathEvent::Scattered);
        bounces += 1;
    }
    assert_eq!(bounces, 10);
    assert_eq!(state, PathState::TerminatedDepth);
}

#[test]
fn events_are_told_from_hit_and_scatter() {
    assert_eq!(classify(&None, &None), PathEvent::Miss);
    assert_eq!(classify(&None, &Some(some_scatter())), PathEvent::Miss);
    assert_eq!(classify(&Some(some_hit()), &None), PathEvent::Absorbed);
    assert_eq!(classify(&Some(some_hit()), &Some(some_scatter())), PathEvent::Scattered);
}

#[test]
fn direct_light_arrives_unless_something_is_in_the_way() {
    assert_eq!(direct_lighting(None), s(0.0));
    let clear = LightSample { occluder: None, unoccluded: s(2.5) };
    assert_eq!(direct_lighting(Some(clear)), s(2.5));
    let shadowed = LightSample { occluder: Some(some_hit()), unoccluded: s(2.5) };
    assert_eq!(direct_lighting(Some(shadowed)), s(0.0));
}

#[test]
fn unit_sphere_takes_squared_lengths_up_to_one() {
    assert!(in_unit_sphere(s(0.0)));
    assert!(in_unit_sphere(s(0.99)));
    assert!(in_unit_sphere(s(1.0)));
    assert!(!in_unit_sphere(s(1.0000001)));
    assert!(!in_unit_sphere(s(3.0)));
}
