use raytracer::{image_to_file, Color, Image};

#[test]
fn image_test_image_to_file() {
    let mut image = Image::new(3, 2);
    image.set_color(0, 0, Color::new_red());
    image.set_color(2, 1, Color::new_white());
    let buffer = image_to_file(&image);
    let got = String::from_utf8(buffer).unwrap();
    let expected = "P3\n3 2\n255\n255 0 0 0 0 0 0 0 0 \n0 0 0 0 0 0 255 255 255 \n";
    assert_eq!(got, expected);
}
