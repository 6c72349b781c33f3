//! The render loop: one camera ray per pixel, traced through the scene and
//! stored in the pixel buffer.

use vstd::prelude::*;

use crate::fixed::{divi_s, SCALE};
use crate::image::Image;
use crate::material::Color;
use crate::scene::{spec_trace, trace_ray, Camera, Sphere};

verus! {

/// The screen coordinate of pixel `i` out of `extent`: `i / (extent - 1)`,
/// so the first pixel maps to 0 and the last to 1.
pub open spec fn spec_pixel_coord(i: int, extent: int) -> int
    recommends
        extent >= 2,
{
    divi_s(i * (SCALE as int), extent - 1)
}

/// The color pixel `(i, j)` of a `width` by `height` render receives.
pub open spec fn spec_render_pixel(
    spheres: Seq<Sphere>,
    camera: Camera,
    width: int,
    height: int,
    bounces: nat,
    i: int,
    j: int,
) -> Option<Color> {
    spec_trace(
        spheres,
        camera.spec_screen_ray(spec_pixel_coord(i, width), spec_pixel_coord(j, height)),
        bounces,
    )
}

/// The screen coordinate of pixel `i`, in `[0, SCALE]`.
fn pixel_coord(i: usize, extent: usize) -> (r: i64)
    requires
        2 <= extent,
        i < extent,
    ensures
        r as int == spec_pixel_coord(i as int, extent as int),
        0 <= r <= SCALE,
{
    let num: u128 = (i as u128) * (SCALE as u128);
    let q: u128 = num / ((extent - 1) as u128);
    proof {
        assert((i as int) * (SCALE as int) >= 0 && (i as int) * (SCALE as int) <= ((extent - 1)
            as int) * (SCALE as int)) by (nonlinear_arith)
            requires
                0 <= i as int <= (extent - 1) as int,
                SCALE as int > 0,
        ;
        crate::fixed::lemma_trunc_div_rem((i as int) * (SCALE as int), (extent - 1) as int);
        let td = crate::fixed::trunc_div((i as int) * (SCALE as int), (extent - 1) as int);
        assert(td == ((i as int) * (SCALE as int)) / ((extent - 1) as int));
        assert(td >= 0) by (nonlinear_arith)
            requires
                td == ((i as int) * (SCALE as int)) / ((extent - 1) as int),
                (i as int) * (SCALE as int) >= 0,
                (extent - 1) as int > 0,
        ;
        assert(td * ((extent - 1) as int) <= ((extent - 1) as int) * (SCALE as int));
        assert(td <= SCALE as int) by (nonlinear_arith)
            requires
                td * ((extent - 1) as int) <= ((extent - 1) as int) * (SCALE as int),
                (extent - 1) as int > 0,
                td >= 0,
        ;
    }
    q as i64
}

/// Render the scene: cast one ray per pixel and store the traced color.
/// `None` exactly when some pixel's trace fails on the brightness
/// precondition of the lighting model (see [`spec_trace`]); otherwise the
/// buffer holds every pixel's traced color.
#[verifier::rlimit(60)]
pub fn render(
    spheres: &[Sphere],
    camera: &Camera,
    width: usize,
    height: usize,
    bounces: usize,
) -> (r: Option<Image>)
    requires
        2 <= width,
        2 <= height,
        width * height <= usize::MAX,
        camera.aspect_ratio > 0,
    ensures
        r matches Option::Some(img) ==> {
            &&& img.spec_valid()
            &&& img.spec_width() == width
            &&& img.spec_height() == height
            &&& forall|i: int, j: int|
                0 <= i < width && 0 <= j < height ==> spec_render_pixel(
                    spheres@,
                    *camera,
                    width as int,
                    height as int,
                    bounces as nat,
                    i,
                    j,
                ) == Option::Some(img.spec_pixel(i, j))
        },
        r is None <==> exists|i: int, j: int|
            0 <= i < width && 0 <= j < height && spec_render_pixel(
                spheres@,
                *camera,
                width as int,
                height as int,
                bounces as nat,
                i,
                j,
            ) is None,
{
    let mut image: Image = Image::new(width, height);
    let mut i: usize = 0;
    while i < width
        invariant
            2 <= width,
            2 <= height,
            camera.aspect_ratio > 0,
            i <= width,
            image.spec_valid(),
            image.spec_width() == width,
            image.spec_height() == height,
            forall|a: int, b: int|
                0 <= a < i && 0 <= b < height ==> spec_render_pixel(
                    spheres@,
                    *camera,
                    width as int,
                    height as int,
                    bounces as nat,
                    a,
                    b,
                ) == Option::Some(image.spec_pixel(a, b)),
        decreases width - i,
    {
        let x: i64 = pixel_coord(i, width);
        let mut j: usize = 0;
        while j < height
            invariant
                2 <= width,
                2 <= height,
                camera.aspect_ratio > 0,
                i < width,
                j <= height,
                x as int == spec_pixel_coord(i as int, width as int),
                0 <= x <= SCALE,
                image.spec_valid(),
                image.spec_width() == width,
                image.spec_height() == height,
                forall|a: int, b: int|
                    0 <= a < i && 0 <= b < height ==> spec_render_pixel(
                        spheres@,
                        *camera,
                        width as int,
                        height as int,
                        bounces as nat,
                        a,
                        b,
                    ) == Option::Some(image.spec_pixel(a, b)),
                forall|b: int|
                    0 <= b < j ==> spec_render_pixel(
                        spheres@,
                        *camera,
                        width as int,
                        height as int,
                        bounces as nat,
                        i as int,
                        b,
                    ) == Option::Some(image.spec_pixel(i as int, b)),
            decreases height - j,
        {
            let y: i64 = pixel_coord(j, height);
            let ray = camera.screen_ray(x, y);
            match trace_ray(spheres, &ray, bounces) {
                Option::None => {
                    proof {
                        assert(spec_render_pixel(
                            spheres@,
                            *camera,
                            width as int,
                            height as int,
                            bounces as nat,
                            i as int,
                            j as int,
                        ) is None);
                    }
                    return Option::None;
                },
                Option::Some(color) => {
                    image.set_color(i, j, color);
                },
            }
            j = j + 1;
        }
        i = i + 1;
    }
    Option::Some(image)
}

} // verus!
