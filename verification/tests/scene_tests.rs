use raytracer::{
    closest_intersection, trace_ray, AlmostEqual, Camera, Color, Hit, Intersection, Radians, Ray,
    Sphere, UnitVector, Vector,
};

/// Value to fixed-point raw units.
fn sfx(v: f64) -> i64 {
    (v * 1_000_000_000.0).round() as i64
}

fn svec(x: f64, y: f64, z: f64) -> Vector {
    Vector { x: sfx(x), y: sfx(y), z: sfx(z) }
}

#[test]
fn scene_test_vector_addition() {
    assert!(svec(1.0, 1.0, 1.0).add(&svec(1.0, 2.0, 3.0)).almost_equal(&svec(2.0, 3.0, 4.0)));
}

#[test]
fn scene_test_vector_subtraction() {
    assert!(svec(5.0, 5.0, 5.0).subtract(&svec(1.0, 2.0, 3.0)).almost_equal(
        &svec(4.0, 3.0, 2.0)
    ));
}

#[test]
fn scene_test_vector_scalar_multiplication() {
    let initial_vector = svec(1.0, 2.0, 3.0);
    let expected_vector = svec(2.0, 4.0, 6.0);
    assert!(initial_vector.scale(sfx(2.0)).almost_equal(&expected_vector));
    assert!(initial_vector.scale(sfx(2.0)).almost_equal(&expected_vector));
}

#[test]
fn scene_test_vector_scalar_division() {
    assert!(svec(1.0, 2.0, 3.0).divide(sfx(2.0)).almost_equal(&svec(0.5, 1.0, 1.5)));
}

#[test]
fn scene_test_vector_dot_product() {
    assert!(svec(1.0, 0.0, 0.0).dot(&svec(0.0, 1.0, 1.0)).almost_equal(&sfx(0.0)));
    assert!(svec(1.0, 0.0, 0.0).dot(&svec(1.0, 0.0, 0.0)).almost_equal(&sfx(1.0)));
}

#[test]
fn scene_test_vector_cross_product() {
    let va = svec(1.0, 0.0, 0.0);
    let vb = svec(0.0, 1.0, 0.0);
    assert!(va.cross(&vb).almost_equal(&svec(0.0, 0.0, 1.0)));
}

#[test]
fn scene_test_vector_normalization() {
    let original = svec(1.0, 2.0, 3.0);
    assert!(original.normalized().0.almost_equal(
        &svec(0.2672612419124244, 0.5345224838248488, 0.8017837257372732)
    ));
}

#[test]
fn scene_test_sphere_ray_intersection() {
    let sphere = Sphere { center: Vector::zero(), radius: sfx(1.0), color: Color::new_black() };

    let outside_pointing_away = Ray {
        pos: svec(0.0, 0.0, 10.0),
        dir: UnitVector(svec(0.0, 0.0, 1.0)),
    };
    let expected_away: Option<Hit> = None;
    assert!(sphere.intersect_ray(&outside_pointing_away).almost_equal(&expected_away));

    let outside_pointing_towards = Ray {
        pos: svec(0.0, 0.0, 10.0),
        dir: UnitVector(svec(0.0, 0.0, -1.0)),
    };
    let expected_towards: Option<Hit> = Some(Hit {
        position: svec(0.0, 0.0, 1.0),
        normal: Vector::unitz(),
    });
    assert!(sphere.intersect_ray(&outside_pointing_towards).almost_equal(&expected_towards));

    let inside = Ray { pos: Vector::zero(), dir: UnitVector(svec(1.0, 0.0, 0.0)) };
    let expected_inside: Option<Hit> = None;
    assert!(sphere.intersect_ray(&inside).almost_equal(&expected_inside));
}

#[test]
fn scene_test_camera_screen_ray() {
    let camera = Camera {
        position: Vector::zero(),
        forward: Vector::unitz().negate(),
        up: Vector::unity(),
        aspect_ratio: sfx(2.0 / 1.0),
        fovx: Radians(sfx((90.0f64).to_radians())),
    };

    assert!(camera.screen_ray(sfx(0.0), sfx(0.0)).almost_equal(&Ray {
        pos: Vector::zero(),
        dir: svec(-1.0, 0.5, -1.0).normalized(),
    }));

    assert!(camera.screen_ray(sfx(0.5), sfx(0.5)).almost_equal(&Ray {
        pos: Vector::zero(),
        dir: Vector::unitz().negate(),
    }));

    assert!(camera.screen_ray(sfx(0.25), sfx(0.25)).almost_equal(&Ray {
        pos: Vector::zero(),
        dir: svec(-0.5, 0.25, -1.0).normalized(),
    }));
}

#[test]
fn scene_test_unitvector_reflection() {
    assert!(svec(-1.0, -1.0, -1.0)
        .normalized()
        .reflected(&svec(0.0, 1.0, 0.0).normalized())
        .almost_equal(&svec(-1.0, 1.0, -1.0).normalized()));
}

#[test]
fn scene_test_closest_intersection() {
    let spheres = [
        Sphere { center: Vector::zero(), radius: sfx(1.0), color: Color::new_black() },
        Sphere { center: svec(10.0, 0.0, 0.0), radius: sfx(1.0), color: Color::new_black() },
    ];
    let expected_first: Option<Intersection> = Some(Intersection {
        position: svec(-1.0, 0.0, 0.0),
        normal: Vector::unitx().negate(),
        sphere: 0,
    });
    assert!(closest_intersection(
        &spheres,
        &Ray { pos: svec(-100.0, 0.0, 0.0), dir: Vector::unitx() },
    )
    .almost_equal(&expected_first));

    let expected_second: Option<Intersection> = Some(Intersection {
        position: svec(11.0, 0.0, 0.0),
        normal: Vector::unitx(),
        sphere: 1,
    });
    assert!(closest_intersection(
        &spheres,
        &Ray { pos: svec(100.0, 0.0, 0.0), dir: Vector::unitx().negate() },
    )
    .almost_equal(&expected_second));

    let expected_none: Option<Intersection> = None;
    assert!(closest_intersection(
        &spheres,
        &Ray { pos: svec(100.0, 0.0, 0.0), dir: Vector::unitx() },
    )
    .almost_equal(&expected_none));
}

#[test]
fn test_trace_ray() {
    let spheres = [
        Sphere { center: svec(2.0, 1.0, 1.0), radius: sfx(1.0), color: Color::new_red() },
        Sphere { center: svec(4.0, 4.0, 1.0), radius: sfx(1.0), color: Color::new_green() },
    ];
    let ray = Ray { pos: svec(1.0, 3.0, 1.0), dir: svec(1.0, -1.0, 0.0).normalized() };
    let cos45 = sfx((45.0f64).to_radians().cos());

    let expected_zero: Option<Color> = Some(Color::new_red().scale(cos45));
    assert!(trace_ray(&spheres, &ray, 0).almost_equal(&expected_zero));

    let expected_one: Option<Color> = Some(
        Color::new_red().add(&Color::new_green()).scale(cos45),
    );
    assert!(trace_ray(&spheres, &ray, 1).almost_equal(&expected_one));
}
