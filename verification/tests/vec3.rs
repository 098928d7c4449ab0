use raytracing::scalar::Scalar;
use raytracing::vec3::{Color, Point3, Vec3, NEAR_ZERO_BITS};

fn s(x: f64) -> Scalar {
    Scalar::from_bits(x.to_bits())
}

fn v(x: f64, y: f64, z: f64) -> Vec3 {
    Vec3::new(s(x), s(y), s(z))
}

#[test]
fn test_new() {
    assert_eq!(
        Vec3(s(1.0), s(2.0), s(3.0)),
        Vec3::new(s(f64::from(1)), s(f64::from(2)), s(f64::from(3)))
    );
    assert_eq!(Vec3(s(1.0), s(2.0), s(3.0)), Vec3::new(s(1.0), s(2.0), s(3.0)));
    assert_eq!(
        Vec3(s(1.0), s(2.0), s(3.0)),
        Vec3::new(s(f64::from(1)), s(2.0), s(f64::from(3)))
    );
}

#[test]
fn components_come_back_in_order() {
    let a = v(1.5, -2.0, 3.25);
    assert_eq!(s(1.5), a.x());
    assert_eq!(s(-2.0), a.y());
    assert_eq!(s(3.25), a.z());
}

#[test]
fn points_and_colors_are_vectors() {
    let p: Point3 = v(1.0, 2.0, 3.0);
    let c: Color = Color::new(s(1.0), s(2.0), s(3.0));
    assert_eq!(p, c);
}

#[test]
fn neg_negates_each_component() {
    assert_eq!(v(-1.0, 2.0, -0.0), v(1.0, -2.0, 0.0).neg());
    assert_eq!(v(1.0, -2.0, 0.0), v(1.0, -2.0, 0.0).neg().neg());
}

#[test]
fn near_zero_needs_every_component_under_the_threshold() {
    assert_eq!(1e-8f64.to_bits(), NEAR_ZERO_BITS);
    assert!(v(0.0, 0.0, 0.0).near_zero());
    assert!(v(1e-9, -1e-9, 9.9e-9).near_zero());
    assert!(v(-0.0, 5e-324, -9.999999e-9).near_zero());
    assert!(!v(1e-8, 0.0, 0.0).near_zero());
    assert!(!v(0.0, -1e-8, 0.0).near_zero());
    assert!(!v(0.0, 0.0, 1.0).near_zero());
    assert!(!v(0.0, f64::NAN, 0.0).near_zero());
    assert!(!v(f64::INFINITY, 0.0, 0.0).near_zero());
}

#[test]
fn near_zero_agrees_with_doubles() {
    let values = [0.0, -0.0, 1e-9, -1e-9, 9.999999999e-9, 1e-8, -1e-8, 1.0000001e-8, 0.5, f64::NAN];
    for &x in values.iter() {
        for &y in values.iter() {
            for &z in values.iter() {
                let expected = x.abs() < 1e-8 && y.abs() < 1e-8 && z.abs() < 1e-8;
                assert_eq!(expected, v(x, y, z).near_zero());
            }
        }
    }
}
