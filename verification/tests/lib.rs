use raytracer::{
    closest_intersection, image_to_file, AlmostEqual, Camera, Color, Hit, Image, Intersection,
    Radians, Ray, Sphere, UnitVector, Vector,
};

/// Value to fixed-point raw units.
fn lfx(v: f64) -> i64 {
    (v * 1_000_000_000.0).round() as i64
}

fn lvec(x: f64, y: f64, z: f64) -> Vector {
    Vector { x: lfx(x), y: lfx(y), z: lfx(z) }
}

#[test]
fn test_add() {
    assert_eq!(3, 3);
}

#[test]
fn lib_test_vector_addition() {
    assert!(lvec(1.0, 1.0, 1.0).add(&lvec(1.0, 2.0, 3.0)).almost_equal(&lvec(2.0, 3.0, 4.0)));
}

#[test]
fn lib_test_vector_subtraction() {
    assert!(lvec(5.0, 5.0, 5.0).subtract(&lvec(1.0, 2.0, 3.0)).almost_equal(&lvec(4.0, 3.0, 2.0)));
}

#[test]
fn lib_test_vector_scalar_multiplication() {
    let initial_vector = lvec(1.0, 2.0, 3.0);
    let expected_vector = lvec(2.0, 4.0, 6.0);
    assert!(initial_vector.scale(lfx(2.0)).almost_equal(&expected_vector));
    assert!(initial_vector.scale(lfx(2.0)).almost_equal(&expected_vector));
}

#[test]
fn lib_test_vector_scalar_division() {
    assert!(lvec(1.0, 2.0, 3.0).divide(lfx(2.0)).almost_equal(&lvec(0.5, 1.0, 1.5)));
}

#[test]
fn lib_test_vector_dot_product() {
    assert!(lvec(1.0, 0.0, 0.0).dot(&lvec(0.0, 1.0, 1.0)).almost_equal(&lfx(0.0)));
    assert!(lvec(1.0, 0.0, 0.0).dot(&lvec(1.0, 0.0, 0.0)).almost_equal(&lfx(1.0)));
}

#[test]
fn lib_test_vector_cross_product() {
    let va = lvec(1.0, 0.0, 0.0);
    let vb = lvec(0.0, 1.0, 0.0);
    assert!(va.cross(&vb).almost_equal(&lvec(0.0, 0.0, 1.0)));
}

#[test]
fn lib_test_vector_normalization() {
    let original = lvec(1.0, 2.0, 3.0);
    assert!(original.normalized().0.almost_equal(
        &lvec(0.2672612419124244, 0.5345224838248488, 0.8017837257372732)
    ));
}

#[test]
fn lib_test_sphere_ray_intersection() {
    let sphere = Sphere { center: Vector::zero(), radius: lfx(1.0), color: Color::new_black() };

    let outside_pointing_away = Ray {
        pos: lvec(0.0, 0.0, 10.0),
        dir: UnitVector(lvec(0.0, 0.0, 1.0)),
    };
    let expected_away: Option<Hit> = None;
    assert!(sphere.intersect_ray(&outside_pointing_away).almost_equal(&expected_away));

    let outside_pointing_towards = Ray {
        pos: lvec(0.0, 0.0, 10.0),
        dir: UnitVector(lvec(0.0, 0.0, -1.0)),
    };
    let expected_towards: Option<Hit> = Some(Hit {
        position: lvec(0.0, 0.0, 1.0),
        normal: Vector::unitz(),
    });
    assert!(sphere.intersect_ray(&outside_pointing_towards).almost_equal(&expected_towards));

    let inside = Ray { pos: Vector::zero(), dir: UnitVector(lvec(1.0, 0.0, 0.0)) };
    let expected_inside: Option<Hit> = None;
    assert!(sphere.intersect_ray(&inside).almost_equal(&expected_inside));
}

#[test]
fn lib_test_camera_screen_ray() {
    let camera = Camera {
        position: Vector::zero(),
        forward: Vector::unitz().negate(),
        up: Vector::unity(),
        aspect_ratio: lfx(2.0 / 1.0),
        fovx: Radians(lfx((90.0f64).to_radians())),
    };

    assert!(camera.screen_ray(lfx(0.0), lfx(0.0)).almost_equal(&Ray {
        pos: Vector::zero(),
        dir: lvec(-1.0, 0.5, -1.0).normalized(),
    }));

    assert!(camera.screen_ray(lfx(0.5), lfx(0.5)).almost_equal(&Ray {
        pos: Vector::zero(),
        dir: Vector::unitz().negate(),
    }));

    assert!(camera.screen_ray(lfx(0.25), lfx(0.25)).almost_equal(&Ray {
        pos: Vector::zero(),
        dir: lvec(-0.5, 0.25, -1.0).normalized(),
    }));
}

#[test]
fn lib_test_unitvector_reflection() {
    assert!(lvec(-1.0, -1.0, -1.0)
        .normalized()
        .reflected(&lvec(0.0, 1.0, 0.0).normalized())
        .almost_equal(&lvec(-1.0, 1.0, -1.0).normalized()));
}

#[test]
fn lib_test_closest_intersection() {
    let spheres = [
        Sphere { center: Vector::zero(), radius: lfx(1.0), color: Color::new_black() },
        Sphere { center: lvec(10.0, 0.0, 0.0), radius: lfx(1.0), color: Color::new_black() },
    ];
    let expected_first: Option<Intersection> = Some(Intersection {
        position: lvec(-1.0, 0.0, 0.0),
        normal: Vector::unitx().negate(),
        sphere: 0,
    });
    assert!(closest_intersection(
        &spheres,
        &Ray { pos: lvec(-100.0, 0.0, 0.0), dir: Vector::unitx() },
    )
    .almost_equal(&expected_first));

    let expected_second: Option<Intersection> = Some(Intersection {
        position: lvec(11.0, 0.0, 0.0),
        normal: Vector::unitx(),
        sphere: 1,
    });
    assert!(closest_intersection(
        &spheres,
        &Ray { pos: lvec(100.0, 0.0, 0.0), dir: Vector::unitx().negate() },
    )
    .almost_equal(&expected_second));

    let expected_none: Option<Intersection> = None;
    assert!(closest_intersection(
        &spheres,
        &Ray { pos: lvec(100.0, 0.0, 0.0), dir: Vector::unitx() },
    )
    .almost_equal(&expected_none));
}

#[test]
fn lib_test_image_to_file() {
    let mut image = Image::new(3, 2);
    image.set_color(0, 0, Color::new_red());
    image.set_color(2, 1, Color::new_white());
    let buffer = image_to_file(&image);
    let got = String::from_utf8(buffer).unwrap();
    let expected = "P3\n3 2\n255\n255 0 0 0 0 0 0 0 0 \n0 0 0 0 0 0 255 255 255 \n";
    assert_eq!(got, expected);
}

#[test]
fn lib_test_color_scalar_multiplication() {
    let white = Color { r: lfx(1.0), g: lfx(1.0), b: lfx(1.0) };
    let half = Color { r: lfx(0.5), g: lfx(0.5), b: lfx(0.5) };
    assert!(white.scale(lfx(0.5)).almost_equal(&half));
    assert!(white.scale(lfx(0.5)).almost_equal(&half));
}
