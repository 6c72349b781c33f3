use raytracer::{
    almost_equal_with_epsilon, closest_intersection, image_to_file, posunit_to_unit, render,
    trace_ray, AlmostEqual, Camera, Color, Image, Intersection, Radians, Ray, Sphere, UnitVector,
    Vector, EPSILON, SCALE,
};

/// Value to fixed-point raw units.
fn xfx(v: f64) -> i64 {
    (v * 1_000_000_000.0).round() as i64
}

fn xvec(x: f64, y: f64, z: f64) -> Vector {
    Vector { x: xfx(x), y: xfx(y), z: xfx(z) }
}

#[test]
fn test_vector_addition_commutes_concrete() {
    let a = xvec(1.5, -2.0, 3.25);
    let b = xvec(-0.5, 4.0, 0.125);
    assert!(a.add(&b).almost_equal(&b.add(&a)));
}

#[test]
fn test_vector_addition_associates_concrete() {
    let a = xvec(1.5, -2.0, 3.25);
    let b = xvec(-0.5, 4.0, 0.125);
    let c = xvec(7.0, 0.25, -1.0);
    assert!(a.add(&b).add(&c).almost_equal(&a.add(&b.add(&c))));
}

#[test]
fn test_vector_scale_distributes_concrete() {
    let a = xvec(1.5, -2.0, 3.25);
    let b = xvec(-0.5, 4.0, 0.125);
    let k = xfx(0.3);
    assert!(a.add(&b).scale(k).almost_equal(&a.scale(k).add(&b.scale(k))));
}

#[test]
fn test_vector_sub_self_is_zero() {
    let a = xvec(12.75, -3.5, 0.001);
    assert!(a.subtract(&a).almost_equal(&Vector::zero()));
}

#[test]
fn test_normalized_has_unit_length_concrete() {
    assert!(xvec(1.0, 2.0, 3.0).normalized().0.is_normalized());
    assert!(xvec(0.05, -0.02, 0.01).normalized().0.is_normalized());
    assert!(xvec(-900.0, 30.0, 0.5).normalized().0.is_normalized());
}

#[test]
fn test_normalized_is_parallel_concrete() {
    let v = xvec(3.0, -4.0, 5.0);
    let n = v.normalized();
    assert!(n.0.cross(&v).almost_equal(&Vector::zero()));
}

#[test]
fn test_posunit_to_unit_values() {
    assert_eq!(posunit_to_unit(xfx(0.0)), xfx(-1.0));
    assert_eq!(posunit_to_unit(xfx(0.25)), xfx(-0.5));
    assert_eq!(posunit_to_unit(xfx(0.5)), xfx(0.0));
    assert_eq!(posunit_to_unit(xfx(1.0)), xfx(1.0));
}

#[test]
fn test_almost_equal_with_epsilon_is_strict() {
    assert!(almost_equal_with_epsilon(0, EPSILON - 1, EPSILON));
    assert!(!almost_equal_with_epsilon(0, EPSILON, EPSILON));
}

#[test]
fn test_closest_intersection_empty_scene() {
    let spheres: [Sphere; 0] = [];
    let expected: Option<Intersection> = None;
    let ray = Ray { pos: Vector::zero(), dir: Vector::unitx() };
    assert!(closest_intersection(&spheres, &ray).almost_equal(&expected));
}

#[test]
fn test_trace_ray_miss_is_black() {
    let spheres = [Sphere {
        center: xvec(0.0, 0.0, -5.0),
        radius: xfx(1.0),
        color: Color::new_red(),
    }];
    let ray = Ray { pos: Vector::zero(), dir: Vector::unitz() };
    let expected: Option<Color> = Some(Color::new_black());
    assert!(trace_ray(&spheres, &ray, 3).almost_equal(&expected));
}

#[test]
fn test_trace_ray_rejects_negative_brightness() {
    // A direction of length two is not a unit vector; the brightness term
    // comes out far below zero and the lighting model's precondition fails.
    let spheres = [Sphere {
        center: Vector::zero(),
        radius: xfx(1.0),
        color: Color::new_red(),
    }];
    let ray = Ray { pos: xvec(0.0, 0.0, 10.0), dir: UnitVector(xvec(0.0, 0.0, -2.0)) };
    assert!(trace_ray(&spheres, &ray, 0).is_none());
}

#[test]
fn test_color_addition_clamps_at_white() {
    let bright = Color { r: xfx(0.9), g: xfx(0.9), b: xfx(0.9) };
    let sum = bright.add(&bright);
    assert!(sum.almost_equal(&Color::new_white()));
}

#[test]
fn test_channel_bytes_truncate() {
    // 0.5 * 255 = 127.5, and the serializer truncates rather than rounds.
    let mut image = Image::new(1, 1);
    image.set_color(0, 0, Color { r: xfx(0.5), g: xfx(0.999), b: xfx(0.004) });
    let got = String::from_utf8(image_to_file(&image)).unwrap();
    assert_eq!(got, "P3\n1 1\n255\n127 254 1 \n");
}

#[test]
fn test_image_new_is_black() {
    let image = Image::new(4, 3);
    assert_eq!(image.width(), 4);
    assert_eq!(image.height(), 3);
    for x in 0..4 {
        for y in 0..3 {
            assert!(image.get_color(x, y).almost_equal(&Color::new_black()));
        }
    }
}

#[test]
fn test_render_matches_traced_pixels() {
    let spheres = [Sphere {
        center: xvec(0.0, 0.0, -5.0),
        radius: xfx(2.0),
        color: Color::new_blue(),
    }];
    let camera = Camera {
        position: Vector::zero(),
        forward: Vector::unitz().negate(),
        up: Vector::unity(),
        aspect_ratio: xfx(1.0),
        fovx: Radians(xfx((90.0f64).to_radians())),
    };
    let image = render(&spheres, &camera, 2, 2, 1).unwrap();
    assert_eq!(image.width(), 2);
    assert_eq!(image.height(), 2);
    // With two pixels per axis the screen coordinates are exactly 0 and 1.
    let coords = [xfx(0.0), xfx(1.0)];
    for i in 0..2 {
        for j in 0..2 {
            let ray = camera.screen_ray(coords[i], coords[j]);
            let expected = trace_ray(&spheres, &ray, 1).unwrap();
            assert!(image.get_color(i, j).almost_equal(&expected));
        }
    }
}
