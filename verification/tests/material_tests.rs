use raytracer::{AlmostEqual, Color};

/// Value to fixed-point raw units.
fn mfx(v: f64) -> i64 {
    (v * 1_000_000_000.0).round() as i64
}

#[test]
fn material_test_color_scalar_multiplication() {
    let white = Color { r: mfx(1.0), g: mfx(1.0), b: mfx(1.0) };
    let half = Color { r: mfx(0.5), g: mfx(0.5), b: mfx(0.5) };
    assert!(white.scale(mfx(0.5)).almost_equal(&half));
    assert!(white.scale(mfx(0.5)).almost_equal(&half));
}

#[test]
fn test_color_addition() {
    assert!(Color::new_red()
        .add(&Color::new_green())
        .add(&Color::new_blue())
        .almost_equal(&Color::new_white()));
    assert!(Color::new_red().add(&Color::new_red()).almost_equal(&Color::new_red()));
}
