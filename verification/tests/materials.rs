use web_tracing::hit::Hit;
use web_tracing::material::{
    is_unit_color, refract, DielectricMaterial, LambertianMaterial, Material, MetalMaterial, Ray, Refraction,
    ScatterResult, ScatterSample,
};
use web_tracing::scalar::Scalar;
use web_tracing::vector::Vector3;

fn s(value: f32) -> Scalar {
    Scalar::from_bits(value.to_bits())
}

fn v(x: f32, y: f32, z: f32) -> Vector3 {
    Vector3::new(s(x), s(y), s(z))
}

fn paper() -> LambertianMaterial {
    LambertianMaterial { albedo: v(0.4, 0.2, 0.1) }
}

fn steel() -> MetalMaterial {
    MetalMaterial { albedo: v(0.7, 0.6, 0.5), fuzz: s(0.3) }
}

fn glass() -> DielectricMaterial {
    DielectricMaterial { refract_index: s(1.5) }
}

fn hit(material: Material) -> Hit {
    Hit { t: s(2.0), point: v(0.0, 1.0, -2.0), normal: v(0.0, 0.0, 1.0), material }
}

fn leaving(direction: Vector3, attenuation: Vector3) -> Option<ScatterResult> {
    Some(ScatterResult { attenuation, scattered: Ray { origin: v(0.0, 1.0, -2.0), direction } })
}

#[test]
fn lambertian_always_scatters_with_its_albedo() {
    let at = hit(Material::LambertianMaterial(paper()));
    for direction in [v(0.1, 0.2, 0.9), v(0.0, 0.0, -1.0), v(f32::NAN, 0.0, 0.0)] {
        assert_eq!(paper().scatter(&at, direction), leaving(direction, v(0.4, 0.2, 0.1)));
    }
}

#[test]
fn metal_scatters_only_away_from_the_surface() {
    let at = hit(Material::MetalMaterial(steel()));
    let direction = v(0.3, 0.1, 0.8);
    assert_eq!(steel().scatter(&at, direction, s(0.8)), leaving(direction, v(0.7, 0.6, 0.5)));
    assert_eq!(steel().scatter(&at, direction, s(1.0e-30)), leaving(direction, v(0.7, 0.6, 0.5)));
    for facing in [0.0, -0.0, -1.0e-30, -0.8, f32::NEG_INFINITY, f32::NAN] {
        assert_eq!(steel().scatter(&at, direction, s(facing)), None);
    }
}

#[test]
fn dielectric_always_scatters_and_takes_nothing() {
    let at = hit(Material::DielectricMaterial(glass()));
    let reflected = v(0.0, 0.6, 0.8);
    let bent = v(0.0, 0.3, -0.95);
    let white = v(1.0, 1.0, 1.0);
    assert_eq!(glass().scatter(&at, reflected, None), leaving(reflected, white));
    let reflects = Refraction { direction: bent, reflectance: s(0.5), draw: s(0.25) };
    assert_eq!(glass().scatter(&at, reflected, Some(reflects)), leaving(reflected, white));
    let refracts = Refraction { direction: bent, reflectance: s(0.5), draw: s(0.75) };
    assert_eq!(glass().scatter(&at, reflected, Some(refracts)), leaving(bent, white));
    let at_the_edge = Refraction { direction: bent, reflectance: s(0.5), draw: s(0.5) };
    assert_eq!(glass().scatter(&at, reflected, Some(at_the_edge)), leaving(bent, white));
    let no_number = Refraction { direction: bent, reflectance: s(f32::NAN), draw: s(0.5) };
    assert_eq!(glass().scatter(&at, reflected, Some(no_number)), leaving(bent, white));
}

#[test]
fn dielectric_tells_a_leaving_ray() {
    assert!(glass().is_leaving(s(0.5)));
    assert!(!glass().is_leaving(s(0.0)));
    assert!(!glass().is_leaving(s(-0.5)));
    assert!(!glass().is_leaving(s(f32::NAN)));
}

#[test]
fn refraction_exists_where_the_discriminant_is_not_negative() {
    let bent = v(0.0, 0.3, -0.95);
    assert_eq!(refract(s(0.5), bent), Some(bent));
    assert_eq!(refract(s(0.0), bent), Some(bent));
    assert_eq!(refract(s(-0.0), bent), Some(bent));
    assert_eq!(refract(s(-0.5), bent), None);
    assert_eq!(refract(s(f32::NAN), bent), None);
}

#[test]
fn material_dispatches_on_its_kind() {
    let direction = v(0.3, 0.1, 0.8);
    let diffuse = ScatterSample::Lambertian { direction };
    let mirror = ScatterSample::Metal { direction, facing: s(0.8) };
    let dull = ScatterSample::Metal { direction, facing: s(-0.8) };
    let clear = ScatterSample::Dielectric { reflected: direction, refraction: None };

    let as_paper = Material::LambertianMaterial(paper());
    let as_steel = Material::MetalMaterial(steel());
    let as_glass = Material::DielectricMaterial(glass());

    assert!(as_paper.accepts(&diffuse) && !as_paper.accepts(&mirror) && !as_paper.accepts(&clear));
    assert!(!as_steel.accepts(&diffuse) && as_steel.accepts(&mirror) && !as_steel.accepts(&clear));
    assert!(!as_glass.accepts(&diffuse) && !as_glass.accepts(&mirror) && as_glass.accepts(&clear));

    assert_eq!(as_paper.scatter(&hit(as_paper), &diffuse), leaving(direction, v(0.4, 0.2, 0.1)));
    assert_eq!(as_steel.scatter(&hit(as_steel), &mirror), leaving(direction, v(0.7, 0.6, 0.5)));
    assert_eq!(as_steel.scatter(&hit(as_steel), &dull), None);
    assert_eq!(as_glass.scatter(&hit(as_glass), &clear), leaving(direction, v(1.0, 1.0, 1.0)));
}

#[test]
fn sample_of_another_kind_scatters_nothing() {
    let direction = v(0.3, 0.1, 0.8);
    let diffuse = ScatterSample::Lambertian { direction };
    let mirror = ScatterSample::Metal { direction, facing: s(0.8) };
    let clear = ScatterSample::Dielectric { reflected: direction, refraction: None };
    let as_paper = Material::LambertianMaterial(paper());
    let as_steel = Material::MetalMaterial(steel());
    let as_glass = Material::DielectricMaterial(glass());
    assert_eq!(as_paper.scatter(&hit(as_paper), &mirror), None);
    assert_eq!(as_paper.scatter(&hit(as_paper), &clear), None);
    assert_eq!(as_steel.scatter(&hit(as_steel), &diffuse), None);
    assert_eq!(as_steel.scatter(&hit(as_steel), &clear), None);
    assert_eq!(as_glass.scatter(&hit(as_glass), &diffuse), None);
    assert_eq!(as_glass.scatter(&hit(as_glass), &mirror), None);
}

#[test]
fn materials_tell_whether_they_are_valid() {
    assert!(is_unit_color(v(0.0, 0.5, 1.0)));
    assert!(is_unit_color(v(-0.0, 0.5, 1.0)));
    assert!(!is_unit_color(v(-0.1, 0.5, 1.0)));
    assert!(!is_unit_color(v(0.0, 0.5, 1.1)));
    assert!(!is_unit_color(v(0.0, f32::NAN, 1.0)));
    assert!(Material::grey().is_valid());
    assert!(Material::LambertianMaterial(paper()).is_valid());
    assert!(Material::MetalMaterial(steel()).is_valid());
    assert!(Material::DielectricMaterial(glass()).is_valid());
    assert!(!Material::lambert(v(2.0, 0.0, 0.0)).is_valid());
    let rough = MetalMaterial { albedo: v(0.7, 0.6, 0.5), fuzz: s(-0.1) };
    assert!(!Material::MetalMaterial(rough).is_valid());
    let smooth = MetalMaterial { albedo: v(0.7, 0.6, 0.5), fuzz: s(0.0) };
    assert!(Material::MetalMaterial(smooth).is_valid());
    for index in [0.0, -1.5, f32::NAN] {
        let none = DielectricMaterial { refract_index: s(index) };
        assert!(!Material::DielectricMaterial(none).is_valid());
    }
}
