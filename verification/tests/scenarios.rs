use raytracing::hittable::{HitRecord, Roots, Sphere};
use raytracing::integrator::{exhausted, resolve, visible_hit, Verdict};
use raytracing::material::{Dielectric, Lambertian, Material, ScatterResult};
use raytracing::ray::Ray;
use raytracing::scalar::Scalar;
use raytracing::vec3::Vec3;

type V = [f64; 3];

fn s(x: f64) -> Scalar {
    Scalar::from_bits(x.to_bits())
}

fn f(x: Scalar) -> f64 {
    f64::from_bits(x.to_bits())
}

fn lib(a: V) -> Vec3 {
    Vec3::new(s(a[0]), s(a[1]), s(a[2]))
}

fn float(a: Vec3) -> V {
    [f(a.x()), f(a.y()), f(a.z())]
}

fn plus(a: V, b: V) -> V {
    [a[0] + b[0], a[1] + b[1], a[2] + b[2]]
}

fn minus(a: V, b: V) -> V {
    [a[0] - b[0], a[1] - b[1], a[2] - b[2]]
}

fn times(a: V, k: f64) -> V {
    [a[0] * k, a[1] * k, a[2] * k]
}

fn dot(a: V, b: V) -> f64 {
    a[0] * b[0] + a[1] * b[1] + a[2] * b[2]
}

fn cross(a: V, b: V) -> V {
    [a[1] * b[2] - a[2] * b[1], a[2] * b[0] - a[0] * b[2], a[0] * b[1] - a[1] * b[0]]
}

fn unit(a: V) -> V {
    times(a, 1.0 / dot(a, a).sqrt())
}

/// The ray through the place `(u, v)` of the image, for a pinhole camera.
fn camera_ray(lookfrom: V, lookat: V, vup: V, vfov: f64, aspect_ratio: f64, u: f64, v: f64) -> (V, V) {
    let h = (vfov.to_radians() / 2.0).tan();
    let viewport_height = 2.0 * h;
    let viewport_width = aspect_ratio * viewport_height;
    let w = unit(minus(lookfrom, lookat));
    let right = unit(cross(vup, w));
    let up = cross(w, right);
    let horizontal = times(right, viewport_width);
    let vertical = times(up, viewport_height);
    let corner = minus(minus(minus(lookfrom, times(horizontal, 0.5)), times(vertical, 0.5)), w);
    let direction = minus(plus(plus(corner, times(horizontal, u)), times(vertical, v)), lookfrom);
    (lookfrom, direction)
}

/// The crossings of a ray with a sphere, as the quadratic gives them.
fn crossings(center: V, radius: f64, origin: V, direction: V) -> Roots {
    let oc = minus(origin, center);
    let a = dot(direction, direction);
    let half_b = dot(oc, direction);
    let c = dot(oc, oc) - radius * radius;
    let discriminant = half_b * half_b - a * c;
    let sqrtd = discriminant.sqrt();
    Roots {
        discriminant: s(discriminant),
        near: s((-half_b - sqrtd) / a),
        far: s((-half_b + sqrtd) / a),
    }
}

fn record(sphere: &Sphere, origin: V, direction: V, t: Scalar) -> HitRecord {
    let p = plus(origin, times(direction, f(t)));
    let outward = times(minus(p, float(sphere.center)), 1.0 / f(sphere.radius));
    sphere.record(t, lib(p), lib(outward), s(dot(direction, outward)))
}

#[test]
fn the_image_centre_shows_the_sphere_in_front_of_the_ground() {
    let matte = Material::Lambertian(Lambertian::new(lib([0.1, 0.2, 0.5])));
    let ground = Material::Lambertian(Lambertian::new(lib([0.8, 0.8, 0.0])));
    let world = vec![
        Sphere::new(lib([0.0, 0.0, -1.0]), s(0.5), matte),
        Sphere::new(lib([0.0, -100.5, -1.0]), s(100.0), ground),
    ];
    let (origin, direction) =
        camera_ray([0.0, 0.0, 0.0], [0.0, 0.0, -1.0], [0.0, 1.0, 0.0], 90.0, 16.0 / 9.0, 0.5, 0.5);
    let roots: Vec<Roots> = world
        .iter()
        .map(|sphere| crossings(float(sphere.center), f(sphere.radius), origin, direction))
        .collect();

    let nearest = visible_hit(&roots).unwrap();
    assert_eq!(0, nearest.index);
    assert!((f(nearest.t) - 0.5).abs() < 1e-12);

    let rec = record(&world[nearest.index], origin, direction, nearest.t);
    assert_eq!(matte, rec.material);
    assert!(rec.front_face);
    assert!((f(rec.p.z()) + 0.5).abs() < 1e-12);
    assert!((f(rec.normal.z()) - 1.0).abs() < 1e-12);

    // One sample at depth 1: the sphere scatters the ray, and the scattered
    // ray has no bounce left.
    assert!(!exhausted(1));
    let Material::Lambertian(surface) = rec.material else {
        panic!("the sphere in front is matte");
    };
    let met = surface.scatter(&rec, lib([0.3, 0.2, 1.1]));
    let Verdict::Bounce { attenuation, depth, .. } = resolve(1, Some(met)) else {
        panic!("a matte surface scatters");
    };
    assert_eq!(lib([0.1, 0.2, 0.5]), attenuation);
    assert_eq!(0, depth);
    assert!(exhausted(depth));
}

#[test]
fn the_ground_shows_below_the_sphere() {
    let grey = Material::Lambertian(Lambertian::new(lib([0.5, 0.5, 0.5])));
    let world = vec![
        Sphere::new(lib([0.0, 0.0, -1.0]), s(0.5), grey),
        Sphere::new(lib([0.0, -100.5, -1.0]), s(100.0), grey),
    ];
    let (origin, direction) =
        camera_ray([0.0, 0.0, 0.0], [0.0, 0.0, -1.0], [0.0, 1.0, 0.0], 90.0, 16.0 / 9.0, 0.5, 0.1);
    let roots: Vec<Roots> = world
        .iter()
        .map(|sphere| crossings(float(sphere.center), f(sphere.radius), origin, direction))
        .collect();
    assert_eq!(1, visible_hit(&roots).unwrap().index);
}

#[test]
fn an_empty_scene_shows_the_sky() {
    let world: Vec<Sphere> = Vec::new();
    for &(u, v) in [(0.0, 0.0), (0.5, 0.5), (1.0, 1.0), (0.25, 0.9)].iter() {
        let (origin, direction) =
            camera_ray([13.0, 2.0, 3.0], [0.0, 0.0, 0.0], [0.0, 1.0, 0.0], 20.0, 16.0 / 9.0, u, v);
        let roots: Vec<Roots> = world
            .iter()
            .map(|sphere| crossings(float(sphere.center), f(sphere.radius), origin, direction))
            .collect();
        let met = visible_hit(&roots).map(|_| -> ScatterResult { unreachable!() });
        for depth in [1, 2, 50] {
            assert_eq!(Verdict::Sky, resolve(depth, met));
        }
    }
}

#[test]
fn glass_met_head_on_lets_the_ray_through() {
    let glass = Dielectric::new(s(1.5));
    let sphere = Sphere::new(lib([0.0, 0.0, -1.0]), s(0.5), Material::Dielectric(glass));
    let (origin, direction) = ([0.0, 0.0, 0.0], [0.0, 0.0, -1.0]);
    let roots = crossings(float(sphere.center), f(sphere.radius), origin, direction);
    let nearest = visible_hit(&vec![roots]).unwrap();
    let rec = record(&sphere, origin, direction, nearest.t);
    assert!(rec.front_face);

    let refraction_ratio = f(glass.refraction_ratio(rec.front_face, s(1.0 / 1.5)));
    assert_eq!(1.0 / 1.5, refraction_ratio);
    let unit_direction = unit(direction);
    let cos_theta = f(Dielectric::cos_theta(s(dot(times(unit_direction, -1.0), float(rec.normal)))));
    assert_eq!(1.0, cos_theta);
    let sin_theta = (1.0 - cos_theta * cos_theta).sqrt();
    assert_eq!(0.0, sin_theta);

    let sine_ratio = s(refraction_ratio * sin_theta);
    assert!(!Dielectric::cannot_refract(sine_ratio));
    // Schlick's reflectance at this angle is 0.04: a draw above it refracts.
    assert!(!Dielectric::reflects(sine_ratio, s(0.04), s(0.5)));

    let result = glass.scatter(&rec, lib(unit_direction));
    let ray = Ray { origin: rec.p, direction: lib(unit_direction) };
    assert_eq!(ScatterResult::Scattered(ray, lib([1.0, 1.0, 1.0])), result);
}

#[test]
fn a_ray_inside_a_hollow_glass_sphere_meets_its_front_face() {
    // The inner shell of a hollow glass ball has a negative radius: seen from
    // the hollow, its surface is the outside of the glass.
    let glass = Material::Dielectric(Dielectric::new(s(1.5)));
    let shell = Sphere::new(lib([0.0, 0.0, 0.0]), s(-0.4), glass);
    let (origin, direction) = ([0.0, 0.0, 0.0], [0.0, 1.0, 0.0]);
    let roots = crossings(float(shell.center), f(shell.radius), origin, direction);
    let nearest = visible_hit(&vec![roots]).unwrap();
    assert!((f(nearest.t) - 0.4).abs() < 1e-12);
    let rec = record(&shell, origin, direction, nearest.t);
    assert!(rec.front_face);
    assert!((f(rec.normal.y()) + 1.0).abs() < 1e-12);

    let solid = Sphere::new(lib([0.0, 0.0, 0.0]), s(0.4), glass);
    let rec = record(&solid, origin, direction, nearest.t);
    assert!(!rec.front_face);
    assert!((f(rec.normal.y()) + 1.0).abs() < 1e-12);
}

#[test]
fn a_ray_aimed_at_the_centre_hits_the_surface() {
    let grey = Material::Lambertian(Lambertian::new(lib([0.5, 0.5, 0.5])));
    let centre = [0.5, -1.0, 2.0];
    for &radius in [0.25, 1.0, 3.5].iter() {
        let sphere = Sphere::new(lib(centre), s(radius), grey);
        for &origin in [[9.0, 0.0, 0.0], [0.5, 12.0, 2.0], [-7.0, -6.0, -5.0], [0.5, -1.0, 40.0]].iter()
        {
            let direction = minus(centre, origin);
            let roots = crossings(centre, radius, origin, direction);
            let nearest = visible_hit(&vec![roots]).unwrap();
            assert_eq!(roots.near, nearest.t);
            let rec = record(&sphere, origin, direction, nearest.t);
            let from_centre = minus(float(rec.p), centre);
            assert!((dot(from_centre, from_centre).sqrt() - radius).abs() < 1e-9);
            assert!(rec.front_face);
        }
    }
}
