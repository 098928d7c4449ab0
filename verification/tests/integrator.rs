use raytracing::hittable::{Nearest, Roots};
use raytracing::integrator::{exhausted, resolve, visible_hit, Verdict, MIN_DISTANCE_BITS};
use raytracing::material::ScatterResult;
use raytracing::ray::Ray;
use raytracing::scalar::Scalar;
use raytracing::vec3::Vec3;

fn s(x: f64) -> Scalar {
    Scalar::from_bits(x.to_bits())
}

fn v(x: f64, y: f64, z: f64) -> Vec3 {
    Vec3::new(s(x), s(y), s(z))
}

fn ray() -> Ray {
    Ray { origin: v(0.0, 0.0, -0.5), direction: v(0.0, 1.0, 1.0) }
}

fn roots(discriminant: f64, near: f64, far: f64) -> Roots {
    Roots { discriminant: s(discriminant), near: s(near), far: s(far) }
}

#[test]
fn a_ray_without_depth_is_black_whatever_it_meets() {
    assert_eq!(Verdict::Black, resolve(0, None));
    assert_eq!(Verdict::Black, resolve(0, Some(ScatterResult::Absorbed(ray()))));
    assert_eq!(
        Verdict::Black,
        resolve(0, Some(ScatterResult::Scattered(ray(), v(1.0, 1.0, 1.0))))
    );
    assert!(exhausted(0));
}

#[test]
fn a_ray_with_depth_is_not_exhausted() {
    for depth in 1..=255u8 {
        assert!(!exhausted(depth));
    }
}

#[test]
fn a_ray_that_meets_nothing_sees_the_sky() {
    for depth in 1..=255u8 {
        assert_eq!(Verdict::Sky, resolve(depth, None));
    }
}

#[test]
fn an_absorbed_ray_is_black() {
    assert_eq!(Verdict::Black, resolve(50, Some(ScatterResult::Absorbed(ray()))));
    assert_eq!(Verdict::Black, resolve(1, Some(ScatterResult::Absorbed(ray()))));
}

#[test]
fn a_scattered_ray_goes_on_with_one_bounce_less() {
    let attenuation = v(0.1, 0.2, 0.5);
    assert_eq!(
        Verdict::Bounce { ray: ray(), attenuation, depth: 49 },
        resolve(50, Some(ScatterResult::Scattered(ray(), attenuation)))
    );
    assert_eq!(
        Verdict::Bounce { ray: ray(), attenuation, depth: 0 },
        resolve(1, Some(ScatterResult::Scattered(ray(), attenuation)))
    );
    assert_eq!(
        Verdict::Bounce { ray: ray(), attenuation, depth: 254 },
        resolve(255, Some(ScatterResult::Scattered(ray(), attenuation)))
    );
}

#[test]
fn a_path_ends_after_as_many_bounces_as_its_depth() {
    let mut depth: u8 = 50;
    let mut bounces = 0;
    loop {
        match resolve(depth, Some(ScatterResult::Scattered(ray(), v(0.5, 0.5, 0.5)))) {
            Verdict::Bounce { depth: rest, .. } => {
                assert_eq!(depth - 1, rest);
                depth = rest;
                bounces += 1;
            }
            Verdict::Black => break,
            Verdict::Sky => panic!("a scattered ray met something"),
        }
    }
    assert_eq!(50, bounces);
    assert_eq!(0, depth);
}

#[test]
fn hits_nearer_than_the_minimum_distance_are_not_seen() {
    assert_eq!(0.001f64.to_bits(), MIN_DISTANCE_BITS);
    assert_eq!(None, visible_hit(&vec![roots(1.0, -2.0, 0.0009)]));
    assert_eq!(None, visible_hit(&vec![roots(1.0, -2.0, 0.0)]));
    assert_eq!(
        Some(Nearest { index: 0, t: s(0.001) }),
        visible_hit(&vec![roots(1.0, -2.0, 0.001)])
    );
    assert_eq!(
        Some(Nearest { index: 1, t: s(3.0) }),
        visible_hit(&vec![roots(1.0, 1e-9, 1e-4), roots(1.0, 3.0, 4.0)])
    );
}

#[test]
fn hits_are_seen_at_any_distance() {
    assert_eq!(
        Some(Nearest { index: 0, t: s(1e300) }),
        visible_hit(&vec![roots(1.0, 1e300, f64::INFINITY)])
    );
    assert_eq!(
        Some(Nearest { index: 0, t: s(f64::INFINITY) }),
        visible_hit(&vec![roots(1.0, -1.0, f64::INFINITY)])
    );
    assert_eq!(None, visible_hit(&Vec::new()));
}
