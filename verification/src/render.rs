//! Full-image assembly and the rendering entry points.
//!
//! `create_image` walks every pixel of a target bitmap in screen space and
//! asks a `Pixelator` for its color.  `generate_mandelbrot` and
//! `generate_julia` wire the pieces together: build the screen viewport, wrap
//! the fractal generator in a screen-to-fractal transform, assemble the
//! bitmap, and memoize the result in a one-entry cache keyed by all request
//! parameters.  `calculate_julia_constant` and `zoom_viewport` are the two
//! interaction computations: picking a Julia constant under the cursor and
//! zooming a viewport around the cursor.

use vstd::prelude::*;

use crate::error::FractalError;
use crate::fractals::{
    spec_julia_pixel, spec_mandelbrot_pixel, Color, Julia, Mandelbrot, Pixelator,
};
use crate::point::{CoordinateSpace, Point, RatPoint};
use crate::rational::{
    rat_add, rat_div, rat_from_int, rat_min, rat_mul, rat_sub, rat_wf, Rat, Rational,
};
use crate::singlecache::SingleCache;
use crate::viewport::{
    apply_fits, spec_apply, spec_transformer, transformer_fits, viewport_degenerate, RatViewport,
    Transform, Viewport, ViewPortDecorator,
};

verus! {

/// The screen coordinate space: pixels, origin top-left.
#[derive(Clone, Copy, Debug, PartialEq)]
pub struct Screen {

}

impl CoordinateSpace for Screen {

}

impl Screen {
    /// The screen viewport of a `width` x `height` bitmap: origin (0, 0),
    /// extents (width, height).
    pub fn new(width: u32, height: u32) -> (r: Viewport<Screen>)
        ensures
            r.wf(),
            r@ == spec_screen_viewport(width as int, height as int),
    {
        Viewport::new(
            Rational::zero(),
            Rational::zero(),
            Rational::from_int(width as i64),
            Rational::from_int(height as i64),
        )
    }
}

/// The screen viewport as a ghost value.
pub open spec fn spec_screen_viewport(w: int, h: int) -> RatViewport {
    RatViewport {
        x1: rat_from_int(0),
        y1: rat_from_int(0),
        dx: rat_from_int(w),
        dy: rat_from_int(h),
    }
}

/// The screen point at integer pixel coordinates (xi, yi).
pub open spec fn int_point(xi: int, yi: int) -> RatPoint {
    RatPoint { x: rat_from_int(xi), y: rat_from_int(yi) }
}

/// The four bytes of pixel `j` (row-major linear index) of a bitmap with
/// `w`-pixel rows encode the color `c`, which exists.
pub open spec fn pixel_bytes(buf: Seq<u8>, j: int, c: Option<Color>) -> bool {
    &&& c is Some
    &&& (c matches Some(col) ==> {
        &&& buf[4 * j] == col.r
        &&& buf[4 * j + 1] == col.g
        &&& buf[4 * j + 2] == col.b
        &&& buf[4 * j + 3] == col.a
    })
}

/// The four bytes of pixel (xi, yi) — at byte offset `(yi*w + xi) * 4` —
/// encode the color `c`, which exists.
pub open spec fn pixel_ok(buf: Seq<u8>, w: int, xi: int, yi: int, c: Option<Color>) -> bool {
    pixel_bytes(buf, yi * w + xi, c)
}

/// Bounds of the row-major decomposition of a linear pixel index.
proof fn lemma_div_bounds(i: int, w: int, h: int)
    requires
        1 <= w,
        0 <= i < w * h,
    ensures
        0 <= i % w < w,
        0 <= i / w < h,
{
    vstd::arithmetic::div_mod::lemma_mod_division_less_than_divisor(i, w);
    vstd::arithmetic::div_mod::lemma_fundamental_div_mod(i, w);
    let q = i / w;
    let r = i % w;
    assert(0 <= q && q < h) by (nonlinear_arith)
        requires
            i == w * q + r,
            0 <= r < w,
            0 <= i < w * h,
            1 <= w,
    ;
}

/// A pixel's row-major linear index lies in range and decomposes back into
/// its coordinates.
proof fn lemma_linear_index(w: int, h: int, xi: int, yi: int)
    requires
        1 <= w,
        0 <= xi < w,
        0 <= yi < h,
    ensures
        0 <= yi * w + xi < w * h,
        (yi * w + xi) % w == xi,
        (yi * w + xi) / w == yi,
{
    assert(0 <= yi * w + xi < w * h) by (nonlinear_arith)
        requires
            1 <= w,
            0 <= xi < w,
            0 <= yi < h,
    ;
    vstd::arithmetic::div_mod::lemma_fundamental_div_mod_converse(yi * w + xi, w, yi, xi);
}

/// Allocates a `width * height` RGBA8 buffer and fills it row-major: pixel
/// (x, y) is the color `pixelator` gives to the screen point (x, y).  Fails
/// with `Overflow` exactly when some pixel has no representable color.
pub fn create_image<P: Pixelator<Screen>>(width: u32, height: u32, pixelator: &P) -> (r: Result<
    Vec<u8>,
    FractalError,
>)
    requires
        pixelator.wf(),
        4 * (width as int) * (height as int) <= usize::MAX as int,
    ensures
        match r {
            Ok(buf) => {
                &&& buf@.len() == 4 * (width as int) * (height as int)
                &&& forall|xi: int, yi: int|
                    0 <= xi < width as int && 0 <= yi < height as int ==> pixel_ok(
                        buf@,
                        width as int,
                        xi,
                        yi,
                        #[trigger] pixelator.spec_pixel(int_point(xi, yi)),
                    )
            },
            Err(e) => {
                &&& e == FractalError::Overflow
                &&& exists|xi: int, yi: int|
                    0 <= xi < width as int && 0 <= yi < height as int
                        && #[trigger] pixelator.spec_pixel(int_point(xi, yi)) is None
            },
        },
{
    proof {
        assert(0 <= (width as int) * (height as int) && 4 * ((width as int) * (height as int)) == 4
            * (width as int) * (height as int)) by (nonlinear_arith);
    }
    let total: usize = (width as usize) * (height as usize);
    let mut buf: Vec<u8> = Vec::new();
    let mut idx: usize = 0;
    while idx < total
        invariant
            pixelator.wf(),
            total == (width as int) * (height as int),
            4 * (width as int) * (height as int) <= usize::MAX as int,
            0 <= idx <= total,
            buf@.len() == 4 * idx,
            forall|j: int|
                0 <= j < idx ==> pixel_bytes(
                    buf@,
                    j,
                    #[trigger] pixelator.spec_pixel(
                        int_point(j % (width as int), j / (width as int)),
                    ),
                ),
        decreases total - idx,
    {
        proof {
            assert(1 <= width as int) by (nonlinear_arith)
                requires
                    (width as int) * (height as int) > idx as int,
                    0 <= idx as int,
                    0 <= width as int,
            ;
            lemma_div_bounds(idx as int, width as int, height as int);
        }
        let x: u32 = (idx % (width as usize)) as u32;
        let y: u32 = (idx / (width as usize)) as u32;
        let point: Point<Screen> = Point::new(
            Rational::from_int(x as i64),
            Rational::from_int(y as i64),
        );
        let c: Color = match pixelator.get_pixel(&point) {
            Ok(c) => c,
            Err(_) => {
                proof {
                    assert(pixelator.spec_pixel(int_point(x as int, y as int)) is None);
                }
                return Err(FractalError::Overflow);
            },
        };
        buf.push(c.r);
        buf.push(c.g);
        buf.push(c.b);
        buf.push(c.a);
        idx = idx + 1;
    }
    proof {
        assert forall|xi: int, yi: int|
            0 <= xi < width as int && 0 <= yi < height as int implies pixel_ok(
            buf@,
            width as int,
            xi,
            yi,
            #[trigger] pixelator.spec_pixel(int_point(xi, yi)),
        ) by {
            lemma_linear_index(width as int, height as int, xi, yi);
            let j = yi * (width as int) + xi;
            assert(pixel_bytes(
                buf@,
                j,
                pixelator.spec_pixel(int_point(j % (width as int), j / (width as int))),
            ));
        }
    }
    Ok(buf)
}

/// A byte-for-byte copy of a bitmap.
fn clone_bytes(v: &Vec<u8>) -> (r: Vec<u8>)
    ensures
        r@ == v@,
{
    let mut out: Vec<u8> = Vec::new();
    let mut i: usize = 0;
    while i < v.len()
        invariant
            0 <= i <= v@.len(),
            out@ == v@.subrange(0, i as int),
        decreases v@.len() - i,
    {
        out.push(v[i]);
        proof {
            assert(v@.subrange(0, i + 1 as int) =~= v@.subrange(0, i as int).push(v@[i as int]));
        }
        i = i + 1;
    }
    proof {
        assert(v@.subrange(0, v@.len() as int) =~= v@);
    }
    out
}

/// The composite key of a render request: every parameter that determines
/// the output.  Keys compare structurally, field for field.
#[derive(Debug)]
pub struct RenderKey<T: CoordinateSpace> {
    pub iterations: i32,
    pub viewport: Viewport<T>,
    pub julia_c: Option<(Rational, Rational)>,
    pub width: u32,
    pub height: u32,
}

/// Structural equality of render keys: identical iteration count and pixel
/// sizes, identical viewport representation, identical Julia constant.
pub open spec fn spec_key_eq<T: CoordinateSpace>(a: RenderKey<T>, b: RenderKey<T>) -> bool {
    &&& a.iterations == b.iterations
    &&& a.width == b.width
    &&& a.height == b.height
    &&& a.viewport@ == b.viewport@
    &&& match (a.julia_c, b.julia_c) {
        (None, None) => true,
        (Some(ca), Some(cb)) => ca.0@ == cb.0@ && ca.1@ == cb.1@,
        _ => false,
    }
}

impl<T: CoordinateSpace> PartialEq for RenderKey<T> {
    /// Structural comparison of all request parameters.
    fn eq(&self, other: &Self) -> (r: bool) {
        let vp_eq: bool = self.viewport.x1.same_repr(&other.viewport.x1)
            && self.viewport.y1.same_repr(&other.viewport.y1) && self.viewport.dx.same_repr(
            &other.viewport.dx,
        ) && self.viewport.dy.same_repr(&other.viewport.dy);
        let c_eq: bool = match (&self.julia_c, &other.julia_c) {
            (None, None) => true,
            (Some(ca), Some(cb)) => ca.0.same_repr(&cb.0) && ca.1.same_repr(&cb.1),
            _ => false,
        };
        self.iterations == other.iterations && self.width == other.width && self.height
            == other.height && vp_eq && c_eq
    }
}

impl<T: CoordinateSpace> vstd::std_specs::cmp::PartialEqSpecImpl for RenderKey<T> {
    open spec fn obeys_eq_spec() -> bool {
        true
    }

    open spec fn eq_spec(&self, other: &Self) -> bool {
        spec_key_eq(*self, *other)
    }
}

/// The color of screen pixel (xi, yi) of a Mandelbrot render: the pixel
/// mapped through the screen-to-fractal transform, then iterated.
pub open spec fn spec_mandelbrot_render_pixel(
    n: int,
    vp: RatViewport,
    w: int,
    h: int,
    xi: int,
    yi: int,
) -> Option<Color> {
    let t = spec_transformer(spec_screen_viewport(w, h), vp);
    if apply_fits(t, int_point(xi, yi)) {
        spec_mandelbrot_pixel(n, spec_apply(t, int_point(xi, yi)))
    } else {
        None
    }
}

/// The bitmap `buf` is the `w` x `h` Mandelbrot render under `n` iterations
/// and fractal viewport `vp`.
pub open spec fn mandelbrot_image_ok(n: int, vp: RatViewport, w: int, h: int, buf: Seq<u8>) -> bool {
    &&& buf.len() == 4 * w * h
    &&& forall|xi: int, yi: int|
        0 <= xi < w && 0 <= yi < h ==> pixel_ok(
            buf,
            w,
            xi,
            yi,
            #[trigger] spec_mandelbrot_render_pixel(n, vp, w, h, xi, yi),
        )
}

/// A Mandelbrot render request is satisfiable: either zero-area, or
/// non-degenerate with every intermediate representable.
pub open spec fn mandelbrot_render_ok(n: int, vp: RatViewport, w: int, h: int) -> bool {
    w == 0 || h == 0 || {
        &&& !viewport_degenerate(vp)
        &&& transformer_fits(spec_screen_viewport(w, h), vp)
        &&& forall|xi: int, yi: int|
            0 <= xi < w && 0 <= yi < h ==> #[trigger] spec_mandelbrot_render_pixel(
                n,
                vp,
                w,
                h,
                xi,
                yi,
            ) is Some
    }
}

/// Every entry of a Mandelbrot render cache is a faithful render of its key.
pub open spec fn mandelbrot_cache_ok(c: Option<(RenderKey<Mandelbrot>, Vec<u8>)>) -> bool {
    c matches Some(p) ==> {
        &&& p.0.iterations >= 1
        &&& mandelbrot_render_ok(
            p.0.iterations as int,
            p.0.viewport@,
            p.0.width as int,
            p.0.height as int,
        )
        &&& mandelbrot_image_ok(
            p.0.iterations as int,
            p.0.viewport@,
            p.0.width as int,
            p.0.height as int,
            p.1@,
        )
    }
}

/// Renders the Mandelbrot set over `viewport` into a `width` x `height`
/// RGBA8 bitmap, serving repeats of the previous request from `cache`.
/// A failed render leaves the cache unchanged.
pub fn generate_mandelbrot(
    cache: &mut SingleCache<RenderKey<Mandelbrot>, Vec<u8>>,
    iterations: i32,
    viewport: &Viewport<Mandelbrot>,
    width: u32,
    height: u32,
) -> (r: Result<Vec<u8>, FractalError>)
    requires
        viewport.wf(),
        mandelbrot_cache_ok(old(cache)@),
        4 * (width as int) * (height as int) <= usize::MAX as int,
    ensures
        mandelbrot_cache_ok(final(cache)@),
        r is Ok <==> iterations >= 1 && mandelbrot_render_ok(
            iterations as int,
            viewport@,
            width as int,
            height as int,
        ),
        match r {
            Ok(buf) => mandelbrot_image_ok(
                iterations as int,
                viewport@,
                width as int,
                height as int,
                buf@,
            ),
            Err(e) => {
                &&& final(cache)@ == old(cache)@
                &&& (e == FractalError::InvalidIterations <==> iterations < 1)
                &&& (e == FractalError::DegenerateViewport <==> iterations >= 1 && width >= 1
                    && height >= 1 && viewport_degenerate(viewport@))
                &&& (e == FractalError::InvalidIterations || e == FractalError::DegenerateViewport
                    || e == FractalError::Overflow)
            },
        },
{
    let ghost n: int = iterations as int;
    let ghost w: int = width as int;
    let ghost h: int = height as int;
    if iterations < 1 {
        return Err(FractalError::InvalidIterations);
    }
    if width == 0 || height == 0 {
        proof {
            assert(4 * w * h == 0) by (nonlinear_arith)
                requires
                    w == 0 || h == 0,
            ;
        }
        return Ok(Vec::new());
    }
    let key = RenderKey {
        iterations,
        viewport: *viewport,
        julia_c: None,
        width,
        height,
    };
    let hit: Option<Vec<u8>> = match cache.get(&key) {
        Some(v) => Some(clone_bytes(v)),
        None => None,
    };
    match hit {
        Some(buf) => {
            proof {
                let p = cache@->Some_0;
                assert(spec_key_eq(key, p.0));
                assert(mandelbrot_image_ok(n, viewport@, w, h, buf@));
                assert(mandelbrot_render_ok(n, viewport@, w, h));
            }
            Ok(buf)
        },
        None => {
            let screen_viewport: Viewport<Screen> = Screen::new(width, height);
            let mandelbrot: Mandelbrot = Mandelbrot::new(iterations);
            let decorator: ViewPortDecorator<Screen, Mandelbrot, Mandelbrot> =
                match screen_viewport.decorate_pixelator(viewport, &mandelbrot) {
                Ok(d) => d,
                Err(e) => {
                    return Err(e);
                },
            };
            let img: Vec<u8> = match create_image(width, height, &decorator) {
                Ok(b) => b,
                Err(e) => {
                    proof {
                        let (xi, yi) = choose|xi: int, yi: int|
                            0 <= xi < w && 0 <= yi < h && #[trigger] decorator.spec_pixel(
                                int_point(xi, yi),
                            ) is None;
                        assert(spec_mandelbrot_render_pixel(n, viewport@, w, h, xi, yi) is None);
                    }
                    return Err(e);
                },
            };
            proof {
                assert forall|xi: int, yi: int| 0 <= xi < w && 0 <= yi < h implies pixel_ok(
                    img@,
                    w,
                    xi,
                    yi,
                    #[trigger] spec_mandelbrot_render_pixel(n, viewport@, w, h, xi, yi),
                ) && spec_mandelbrot_render_pixel(n, viewport@, w, h, xi, yi) is Some by {
                    assert(pixel_ok(img@, w, xi, yi, decorator.spec_pixel(int_point(xi, yi))));
                    assert(decorator.spec_pixel(int_point(xi, yi)) == spec_mandelbrot_render_pixel(
                        n,
                        viewport@,
                        w,
                        h,
                        xi,
                        yi,
                    ));
                }
                assert(mandelbrot_image_ok(n, viewport@, w, h, img@));
                assert(mandelbrot_render_ok(n, viewport@, w, h));
            }
            let stored: Vec<u8> = clone_bytes(&img);
            cache.set(key, stored);
            Ok(img)
        },
    }
}

/// The color of screen pixel (xi, yi) of a Julia render with constant
/// `(cr, ci)`.
pub open spec fn spec_julia_render_pixel(
    n: int,
    cr: Rat,
    ci: Rat,
    vp: RatViewport,
    w: int,
    h: int,
    xi: int,
    yi: int,
) -> Option<Color> {
    let t = spec_transformer(spec_screen_viewport(w, h), vp);
    if apply_fits(t, int_point(xi, yi)) {
        spec_julia_pixel(n, cr, ci, spec_apply(t, int_point(xi, yi)))
    } else {
        None
    }
}

/// The bitmap `buf` is the `w` x `h` Julia render under `n` iterations,
/// constant `(cr, ci)` and fractal viewport `vp`.
pub open spec fn julia_image_ok(
    n: int,
    cr: Rat,
    ci: Rat,
    vp: RatViewport,
    w: int,
    h: int,
    buf: Seq<u8>,
) -> bool {
    &&& buf.len() == 4 * w * h
    &&& forall|xi: int, yi: int|
        0 <= xi < w && 0 <= yi < h ==> pixel_ok(
            buf,
            w,
            xi,
            yi,
            #[trigger] spec_julia_render_pixel(n, cr, ci, vp, w, h, xi, yi),
        )
}

/// A Julia render request is satisfiable.
pub open spec fn julia_render_ok(n: int, cr: Rat, ci: Rat, vp: RatViewport, w: int, h: int) -> bool {
    w == 0 || h == 0 || {
        &&& !viewport_degenerate(vp)
        &&& transformer_fits(spec_screen_viewport(w, h), vp)
        &&& forall|xi: int, yi: int|
            0 <= xi < w && 0 <= yi < h ==> #[trigger] spec_julia_render_pixel(
                n,
                cr,
                ci,
                vp,
                w,
                h,
                xi,
                yi,
            ) is Some
    }
}

/// Every entry of a Julia render cache is a faithful render of its key.
pub open spec fn julia_cache_ok(c: Option<(RenderKey<Julia>, Vec<u8>)>) -> bool {
    c matches Some(p) ==> {
        &&& p.0.iterations >= 1
        &&& p.0.julia_c matches Some(cc) && julia_render_ok(
            p.0.iterations as int,
            cc.0@,
            cc.1@,
            p.0.viewport@,
            p.0.width as int,
            p.0.height as int,
        ) && julia_image_ok(
            p.0.iterations as int,
            cc.0@,
            cc.1@,
            p.0.viewport@,
            p.0.width as int,
            p.0.height as int,
            p.1@,
        )
    }
}

/// Renders the Julia set with constant `c = c_r + c_i * i` over `viewport`
/// into a `width` x `height` RGBA8 bitmap, serving repeats of the previous
/// request from `cache`.  A failed render leaves the cache unchanged.
pub fn generate_julia(
    cache: &mut SingleCache<RenderKey<Julia>, Vec<u8>>,
    iterations: i32,
    c_r: Rational,
    c_i: Rational,
    viewport: &Viewport<Julia>,
    width: u32,
    height: u32,
) -> (r: Result<Vec<u8>, FractalError>)
    requires
        viewport.wf(),
        c_r.wf(),
        c_i.wf(),
        julia_cache_ok(old(cache)@),
        4 * (width as int) * (height as int) <= usize::MAX as int,
    ensures
        julia_cache_ok(final(cache)@),
        r is Ok <==> iterations >= 1 && julia_render_ok(
            iterations as int,
            c_r@,
            c_i@,
            viewport@,
            width as int,
            height as int,
        ),
        match r {
            Ok(buf) => julia_image_ok(
                iterations as int,
                c_r@,
                c_i@,
                viewport@,
                width as int,
                height as int,
                buf@,
            ),
            Err(e) => {
                &&& final(cache)@ == old(cache)@
                &&& (e == FractalError::InvalidIterations <==> iterations < 1)
                &&& (e == FractalError::DegenerateViewport <==> iterations >= 1 && width >= 1
                    && height >= 1 && viewport_degenerate(viewport@))
                &&& (e == FractalError::InvalidIterations || e == FractalError::DegenerateViewport
                    || e == FractalError::Overflow)
            },
        },
{
    let ghost n: int = iterations as int;
    let ghost w: int = width as int;
    let ghost h: int = height as int;
    if iterations < 1 {
        return Err(FractalError::InvalidIterations);
    }
    if width == 0 || height == 0 {
        proof {
            assert(4 * w * h == 0) by (nonlinear_arith)
                requires
                    w == 0 || h == 0,
            ;
        }
        return Ok(Vec::new());
    }
    let key = RenderKey {
        iterations,
        viewport: *viewport,
        julia_c: Some((c_r, c_i)),
        width,
        height,
    };
    let hit: Option<Vec<u8>> = match cache.get(&key) {
        Some(v) => Some(clone_bytes(v)),
        None => None,
    };
    match hit {
        Some(buf) => {
            proof {
                let p = cache@->Some_0;
                assert(spec_key_eq(key, p.0));
                assert(julia_image_ok(n, c_r@, c_i@, viewport@, w, h, buf@));
                assert(julia_render_ok(n, c_r@, c_i@, viewport@, w, h));
            }
            Ok(buf)
        },
        None => {
            let screen_viewport: Viewport<Screen> = Screen::new(width, height);
            let julia: Julia = Julia::new(iterations, c_r, c_i);
            let decorator: ViewPortDecorator<Screen, Julia, Julia> =
                match screen_viewport.decorate_pixelator(viewport, &julia) {
                Ok(d) => d,
                Err(e) => {
                    return Err(e);
                },
            };
            let img: Vec<u8> = match create_image(width, height, &decorator) {
                Ok(b) => b,
                Err(e) => {
                    proof {
                        let (xi, yi) = choose|xi: int, yi: int|
                            0 <= xi < w && 0 <= yi < h && #[trigger] decorator.spec_pixel(
                                int_point(xi, yi),
                            ) is None;
                        assert(spec_julia_render_pixel(n, c_r@, c_i@, viewport@, w, h, xi, yi) is None);
                    }
                    return Err(e);
                },
            };
            proof {
                assert forall|xi: int, yi: int| 0 <= xi < w && 0 <= yi < h implies pixel_ok(
                    img@,
                    w,
                    xi,
                    yi,
                    #[trigger] spec_julia_render_pixel(n, c_r@, c_i@, viewport@, w, h, xi, yi),
                ) && spec_julia_render_pixel(n, c_r@, c_i@, viewport@, w, h, xi, yi) is Some by {
                    assert(pixel_ok(img@, w, xi, yi, decorator.spec_pixel(int_point(xi, yi))));
                    assert(decorator.spec_pixel(int_point(xi, yi)) == spec_julia_render_pixel(
                        n,
                        c_r@,
                        c_i@,
                        viewport@,
                        w,
                        h,
                        xi,
                        yi,
                    ));
                }
                assert(julia_image_ok(n, c_r@, c_i@, viewport@, w, h, img@));
                assert(julia_render_ok(n, c_r@, c_i@, viewport@, w, h));
            }
            let stored: Vec<u8> = clone_bytes(&img);
            cache.set(key, stored);
            Ok(img)
        },
    }
}

/// The Julia constant picked by clicking screen pixel (x, y): that pixel
/// mapped through the screen-to-fractal transform into the Julia plane.
pub fn calculate_julia_constant(
    viewport: &Viewport<Julia>,
    width: u32,
    height: u32,
    x: Rational,
    y: Rational,
) -> (r: Result<(Rational, Rational), FractalError>)
    requires
        viewport.wf(),
        x.wf(),
        y.wf(),
    ensures
        r is Ok <==> width >= 1 && height >= 1 && !viewport_degenerate(viewport@)
            && transformer_fits(spec_screen_viewport(width as int, height as int), viewport@)
            && apply_fits(
            spec_transformer(spec_screen_viewport(width as int, height as int), viewport@),
            RatPoint { x: x@, y: y@ },
        ),
        match r {
            Ok(c) => {
                &&& c.0.wf()
                &&& c.1.wf()
                &&& c.0@ == spec_apply(
                    spec_transformer(
                        spec_screen_viewport(width as int, height as int),
                        viewport@,
                    ),
                    RatPoint { x: x@, y: y@ },
                ).x
                &&& c.1@ == spec_apply(
                    spec_transformer(
                        spec_screen_viewport(width as int, height as int),
                        viewport@,
                    ),
                    RatPoint { x: x@, y: y@ },
                ).y
            },
            Err(e) => {
                &&& (e == FractalError::DegenerateViewport <==> width == 0 || height == 0
                    || viewport_degenerate(viewport@))
                &&& (e == FractalError::DegenerateViewport || e == FractalError::Overflow)
            },
        },
{
    let screen_viewport: Viewport<Screen> = Screen::new(width, height);
    let t: Transform<Screen, Julia> = match screen_viewport.transformer(viewport) {
        Ok(t) => t,
        Err(e) => {
            return Err(e);
        },
    };
    let point: Point<Screen> = Point::new(x, y);
    match t.apply(&point) {
        Ok(p) => Ok((p.x, p.y)),
        Err(e) => Err(e),
    }
}

/// The zoom step derived from a scroll amount: `min(scroll/10, 60) / 100`,
/// so each step shrinks or grows an extent by at most 60 percent.
pub open spec fn spec_diff_factor(scroll: Rat) -> Rat {
    rat_div(rat_min(rat_div(scroll, rat_from_int(10)), rat_from_int(60)), rat_from_int(100))
}

/// The zoomed viewport: extents shrink by `extent * diff_factor`, and the
/// origin moves toward the cursor's fractal-plane position by the same
/// factor, so the point under the cursor stays fixed on screen.
pub open spec fn spec_zoom(
    vp: RatViewport,
    scroll: Rat,
    mx: Rat,
    my: Rat,
    w: int,
    h: int,
) -> RatViewport {
    let df = spec_diff_factor(scroll);
    let dxd = rat_mul(vp.dx, df);
    let dyd = rat_mul(vp.dy, df);
    let t = spec_transformer(spec_screen_viewport(w, h), vp);
    let tp = spec_apply(t, RatPoint { x: mx, y: my });
    RatViewport {
        x1: rat_add(vp.x1, rat_div(rat_mul(dxd, rat_sub(tp.x, vp.x1)), vp.dx)),
        y1: rat_add(vp.y1, rat_div(rat_mul(dyd, rat_sub(tp.y, vp.y1)), vp.dy)),
        dx: rat_sub(vp.dx, dxd),
        dy: rat_sub(vp.dy, dyd),
    }
}

/// Whether every intermediate of `spec_zoom` is representable.
pub open spec fn zoom_fits(
    vp: RatViewport,
    scroll: Rat,
    mx: Rat,
    my: Rat,
    w: int,
    h: int,
) -> bool {
    let df = spec_diff_factor(scroll);
    let dxd = rat_mul(vp.dx, df);
    let dyd = rat_mul(vp.dy, df);
    let t = spec_transformer(spec_screen_viewport(w, h), vp);
    let tp = spec_apply(t, RatPoint { x: mx, y: my });
    &&& rat_wf(rat_div(scroll, rat_from_int(10)))
    &&& rat_wf(df)
    &&& rat_wf(dxd)
    &&& rat_wf(dyd)
    &&& transformer_fits(spec_screen_viewport(w, h), vp)
    &&& apply_fits(t, RatPoint { x: mx, y: my })
    &&& rat_wf(rat_sub(tp.x, vp.x1))
    &&& rat_wf(rat_mul(dxd, rat_sub(tp.x, vp.x1)))
    &&& rat_wf(rat_div(rat_mul(dxd, rat_sub(tp.x, vp.x1)), vp.dx))
    &&& rat_wf(rat_add(vp.x1, rat_div(rat_mul(dxd, rat_sub(tp.x, vp.x1)), vp.dx)))
    &&& rat_wf(rat_sub(tp.y, vp.y1))
    &&& rat_wf(rat_mul(dyd, rat_sub(tp.y, vp.y1)))
    &&& rat_wf(rat_div(rat_mul(dyd, rat_sub(tp.y, vp.y1)), vp.dy))
    &&& rat_wf(rat_add(vp.y1, rat_div(rat_mul(dyd, rat_sub(tp.y, vp.y1)), vp.dy)))
    &&& rat_wf(rat_sub(vp.dx, dxd))
    &&& rat_wf(rat_sub(vp.dy, dyd))
}

/// Zooms `viewport` by the scroll amount, keeping the fractal point under
/// the cursor (mousex, mousey) fixed on screen.
pub fn zoom_viewport<T: CoordinateSpace>(
    viewport: &Viewport<T>,
    scroll: Rational,
    mousex: Rational,
    mousey: Rational,
    width: u32,
    height: u32,
) -> (r: Result<Viewport<T>, FractalError>)
    requires
        viewport.wf(),
        scroll.wf(),
        mousex.wf(),
        mousey.wf(),
    ensures
        r is Ok <==> width >= 1 && height >= 1 && !viewport_degenerate(viewport@) && zoom_fits(
            viewport@,
            scroll@,
            mousex@,
            mousey@,
            width as int,
            height as int,
        ),
        match r {
            Ok(v) => v.wf() && v@ == spec_zoom(
                viewport@,
                scroll@,
                mousex@,
                mousey@,
                width as int,
                height as int,
            ),
            Err(e) => {
                &&& (e == FractalError::DegenerateViewport <==> width == 0 || height == 0
                    || viewport_degenerate(viewport@))
                &&& (e == FractalError::DegenerateViewport || e == FractalError::Overflow)
            },
        },
{
    if width == 0 || height == 0 || viewport.dx.is_zero() || viewport.dy.is_zero() {
        return Err(FractalError::DegenerateViewport);
    }
    let ten: Rational = Rational::from_int(10);
    let sixty: Rational = Rational::from_int(60);
    let hundred: Rational = Rational::from_int(100);
    let s10: Rational = match scroll.div(&ten) {
        Some(v) => v,
        None => {
            return Err(FractalError::Overflow);
        },
    };
    let m: Rational = if s10.le(&sixty) {
        s10
    } else {
        sixty
    };
    let df: Rational = match m.div(&hundred) {
        Some(v) => v,
        None => {
            return Err(FractalError::Overflow);
        },
    };
    let dxd: Rational = match viewport.dx.mul(&df) {
        Some(v) => v,
        None => {
            return Err(FractalError::Overflow);
        },
    };
    let dyd: Rational = match viewport.dy.mul(&df) {
        Some(v) => v,
        None => {
            return Err(FractalError::Overflow);
        },
    };
    let screen_viewport: Viewport<Screen> = Screen::new(width, height);
    let t: Transform<Screen, T> = match screen_viewport.transformer(viewport) {
        Ok(t) => t,
        Err(e) => {
            return Err(e);
        },
    };
    let mouse: Point<Screen> = Point::new(mousex, mousey);
    let tp: Point<T> = match t.apply(&mouse) {
        Ok(p) => p,
        Err(e) => {
            return Err(e);
        },
    };
    let off_x: Rational = match tp.x.sub(&viewport.x1) {
        Some(v) => v,
        None => {
            return Err(FractalError::Overflow);
        },
    };
    let num_x: Rational = match dxd.mul(&off_x) {
        Some(v) => v,
        None => {
            return Err(FractalError::Overflow);
        },
    };
    let quot_x: Rational = match num_x.div(&viewport.dx) {
        Some(v) => v,
        None => {
            return Err(FractalError::Overflow);
        },
    };
    let x1: Rational = match viewport.x1.add(&quot_x) {
        Some(v) => v,
        None => {
            return Err(FractalError::Overflow);
        },
    };
    let off_y: Rational = match tp.y.sub(&viewport.y1) {
        Some(v) => v,
        None => {
            return Err(FractalError::Overflow);
        },
    };
    let num_y: Rational = match dyd.mul(&off_y) {
        Some(v) => v,
        None => {
            return Err(FractalError::Overflow);
        },
    };
    let quot_y: Rational = match num_y.div(&viewport.dy) {
        Some(v) => v,
        None => {
            return Err(FractalError::Overflow);
        },
    };
    let y1: Rational = match viewport.y1.add(&quot_y) {
        Some(v) => v,
        None => {
            return Err(FractalError::Overflow);
        },
    };
    let ndx: Rational = match viewport.dx.sub(&dxd) {
        Some(v) => v,
        None => {
            return Err(FractalError::Overflow);
        },
    };
    let ndy: Rational = match viewport.dy.sub(&dyd) {
        Some(v) => v,
        None => {
            return Err(FractalError::Overflow);
        },
    };
    Ok(Viewport::new(x1, y1, ndx, ndy))
}

} // verus!
