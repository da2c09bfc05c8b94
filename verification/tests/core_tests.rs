//! Escape-time colors, image assembly, the one-entry cache, zooming and the
//! Julia-constant pick, and the exact rational arithmetic underneath.

use std::cell::Cell;

use fractal_core::error::FractalError;
use fractal_core::fractals::{Color, Julia, Mandelbrot, Pixelator};
use fractal_core::point::Point;
use fractal_core::rational::Rational;
use fractal_core::render::{
    calculate_julia_constant, create_image, generate_julia, generate_mandelbrot, zoom_viewport,
    RenderKey, Screen,
};
use fractal_core::singlecache::SingleCache;
use fractal_core::viewport::Viewport;

fn r(n: i64, d: i64) -> Rational {
    Rational::new(n, d)
}

fn ri(n: i64) -> Rational {
    Rational::from_int(n)
}

#[test]
fn test_mandelbrot_interior_origin() {
    let m = Mandelbrot::new(1);
    let p: Point<Mandelbrot> = Point::new(ri(0), ri(0));
    assert_eq!(m.get_pixel(&p).unwrap(), Color { r: 0, g: 0, b: 0, a: 0 });
    let m_many = Mandelbrot::new(500);
    assert_eq!(m_many.get_pixel(&p).unwrap(), Color { r: 0, g: 0, b: 0, a: 0 });
}

#[test]
fn test_mandelbrot_exterior_two_two() {
    let p: Point<Mandelbrot> = Point::new(ri(2), ri(2));
    assert_eq!(
        Mandelbrot::new(1).get_pixel(&p).unwrap(),
        Color { r: 0, g: 0, b: 0, a: 255 }
    );
    assert_eq!(
        Mandelbrot::new(300).get_pixel(&p).unwrap(),
        Color { r: 0, g: 0, b: 0, a: 255 }
    );
}

#[test]
fn test_mandelbrot_gray_banding() {
    // c = (2, 0): z1 = (2, 0) has |z1|^2 = 4 (not above 4), z2 = (6, 0)
    // escapes at step 1; with 2 iterations the gray is 1 * (255 / 2) = 127.
    let m = Mandelbrot::new(2);
    let p: Point<Mandelbrot> = Point::new(ri(2), ri(0));
    assert_eq!(m.get_pixel(&p).unwrap(), Color { r: 127, g: 127, b: 127, a: 255 });
}

#[test]
fn test_julia_escape_and_interior() {
    // z0 = (2, 2) escapes immediately for c = 0: gray = 0, opaque.
    let j = Julia::new(10, ri(0), ri(0));
    let far: Point<Julia> = Point::new(ri(2), ri(2));
    assert_eq!(j.get_pixel(&far).unwrap(), Color { r: 0, g: 0, b: 0, a: 255 });
    // z0 = (0, 0) stays at zero for c = 0: transparent interior.
    let origin: Point<Julia> = Point::new(ri(0), ri(0));
    assert_eq!(j.get_pixel(&origin).unwrap(), Color { r: 0, g: 0, b: 0, a: 0 });
}

#[test]
fn test_escape_overflow_reported() {
    // A huge constant makes the first addition unrepresentable.
    let j = Julia::new(5, Rational::new(i64::MAX, 1), ri(0));
    let p: Point<Julia> = Point::new(ri(3), ri(0));
    assert_eq!(j.get_pixel(&p).unwrap_err(), FractalError::Overflow);
}

#[test]
fn test_bitmap_shape() {
    // 4 x 2 render of the Mandelbrot set over [-2, 2] x [-2, 2].  The
    // iteration count stays small: every step squares the exact
    // denominators, and the non-integer grid points here overflow beyond
    // two steps.
    let screen_vp: Viewport<Screen> = Screen::new(4, 2);
    let fractal_vp: Viewport<Mandelbrot> = Viewport::new(ri(-2), ri(-2), ri(4), ri(4));
    let mandelbrot = Mandelbrot::new(1);
    let decorator = screen_vp.decorate_pixelator(&fractal_vp, &mandelbrot).unwrap();
    let buf = create_image(4, 2, &decorator).unwrap();
    assert_eq!(buf.len(), 4 * 2 * 4);
    // Pixel (x, y) sits at byte offset (y*w + x) * 4 and equals the color
    // the decorator gives to the screen point (x, y).
    for y in 0..2i64 {
        for x in 0..4i64 {
            let c = decorator
                .get_pixel(&Point::<Screen>::new(ri(x), ri(y)))
                .unwrap();
            let off = ((y * 4 + x) * 4) as usize;
            assert_eq!(buf[off], c.r);
            assert_eq!(buf[off + 1], c.g);
            assert_eq!(buf[off + 2], c.b);
            assert_eq!(buf[off + 3], c.a);
        }
    }
}

#[test]
fn test_create_image_zero_area() {
    let screen_vp: Viewport<Screen> = Screen::new(4, 4);
    let fractal_vp: Viewport<Mandelbrot> = Viewport::new(ri(-2), ri(-2), ri(4), ri(4));
    let mandelbrot = Mandelbrot::new(1);
    let decorator = screen_vp.decorate_pixelator(&fractal_vp, &mandelbrot).unwrap();
    assert_eq!(create_image(0, 7, &decorator).unwrap().len(), 0);
    assert_eq!(create_image(7, 0, &decorator).unwrap().len(), 0);
}

#[test]
fn test_cache_hit() {
    let mut cache: SingleCache<u32, u64> = SingleCache::new();
    let calls = Cell::new(0u32);
    let gen = || {
        calls.set(calls.get() + 1);
        41u64
    };
    let first = cache.get_or_set(7, &gen);
    let second = cache.get_or_set(7, &gen);
    assert_eq!(calls.get(), 1);
    assert_eq!(first, 41);
    assert_eq!(second, first);
}

#[test]
fn test_cache_eviction() {
    let mut cache: SingleCache<u32, u64> = SingleCache::new();
    let calls = Cell::new(0u32);
    let gen = || {
        calls.set(calls.get() + 1);
        calls.get() as u64
    };
    let a = cache.get_or_set(1, &gen);
    let b = cache.get_or_set(2, &gen);
    let c = cache.get_or_set(1, &gen);
    assert_eq!(calls.get(), 3);
    assert_eq!((a, b, c), (1, 2, 3));
}

#[test]
fn test_generate_mandelbrot_and_cache() {
    let mut cache: SingleCache<RenderKey<Mandelbrot>, Vec<u8>> = SingleCache::new();
    let vp: Viewport<Mandelbrot> = Viewport::new(ri(-2), ri(-2), ri(4), ri(4));
    let first = generate_mandelbrot(&mut cache, 2, &vp, 4, 4).unwrap();
    assert_eq!(first.len(), 4 * 4 * 4);
    // The repeated request is served from the cache and is byte-identical.
    let second = generate_mandelbrot(&mut cache, 2, &vp, 4, 4).unwrap();
    assert_eq!(first, second);
    // Zero-area requests yield an empty bitmap, not an error.
    assert_eq!(generate_mandelbrot(&mut cache, 2, &vp, 0, 4).unwrap().len(), 0);
    // Iteration counts below one are rejected.
    assert_eq!(
        generate_mandelbrot(&mut cache, 0, &vp, 4, 4).unwrap_err(),
        FractalError::InvalidIterations
    );
    // A degenerate viewport is rejected.
    let flat: Viewport<Mandelbrot> = Viewport::new(ri(0), ri(0), ri(4), ri(0));
    assert_eq!(
        generate_mandelbrot(&mut cache, 2, &flat, 4, 4).unwrap_err(),
        FractalError::DegenerateViewport
    );
}

#[test]
fn test_generate_julia() {
    let mut cache: SingleCache<RenderKey<Julia>, Vec<u8>> = SingleCache::new();
    let vp: Viewport<Julia> = Viewport::new(ri(-2), ri(-2), ri(4), ri(4));
    let img = generate_julia(&mut cache, 1, ri(-1), ri(0), &vp, 4, 4).unwrap();
    assert_eq!(img.len(), 4 * 4 * 4);
    let again = generate_julia(&mut cache, 1, ri(-1), ri(0), &vp, 4, 4).unwrap();
    assert_eq!(img, again);
    // A different constant is a different key: the render is redone, and the
    // bitmap is again well-formed.
    let other = generate_julia(&mut cache, 1, ri(1), ri(0), &vp, 4, 4).unwrap();
    assert_eq!(other.len(), 4 * 4 * 4);
}

#[test]
fn test_calculate_julia_constant() {
    // The screen and the fractal viewport coincide, so the transform is the
    // identity and the clicked pixel is the constant.
    let vp: Viewport<Julia> = Viewport::new(ri(0), ri(0), ri(100), ri(100));
    let (cr, ci) = calculate_julia_constant(&vp, 100, 100, ri(25), ri(75)).unwrap();
    assert_eq!(cr, ri(25));
    assert_eq!(ci, ri(75));
    // A zero-sized screen is degenerate.
    assert_eq!(
        calculate_julia_constant(&vp, 0, 100, ri(25), ri(75)).unwrap_err(),
        FractalError::DegenerateViewport
    );
}

#[test]
fn test_zoom_viewport() {
    // scroll 100 gives diff_factor min(10, 60)/100 = 1/10; with screen and
    // fractal viewports coinciding, zooming at the center point (50, 50)
    // gives origin (5, 5) and extents (90, 90).
    let vp: Viewport<Mandelbrot> = Viewport::new(ri(0), ri(0), ri(100), ri(100));
    let zoomed = zoom_viewport(&vp, ri(100), ri(50), ri(50), 100, 100).unwrap();
    assert_eq!(zoomed, Viewport::new(ri(5), ri(5), ri(90), ri(90)));
    // The clamp: scroll 10000 would give 1000/100, clamped to 60/100.
    let fast = zoom_viewport(&vp, ri(10000), ri(50), ri(50), 100, 100).unwrap();
    assert_eq!(fast, Viewport::new(ri(30), ri(30), ri(40), ri(40)));
    // A zero-sized screen is degenerate.
    assert_eq!(
        zoom_viewport(&vp, ri(100), ri(50), ri(50), 0, 100).unwrap_err(),
        FractalError::DegenerateViewport
    );
}

#[test]
fn test_rational_arithmetic() {
    // Value equality ignores the representation.
    assert_eq!(r(1, 2), r(2, 4));
    assert_ne!(r(1, 2), r(2, 3));
    // Sign normalization puts the sign on the numerator.
    assert_eq!(r(1, -2), r(-1, 2));
    assert_eq!(r(3, 4).add(&r(1, 4)).unwrap(), ri(1));
    assert_eq!(r(3, 4).sub(&r(1, 2)).unwrap(), r(1, 4));
    assert_eq!(r(3, 4).mul(&r(2, 3)).unwrap(), r(1, 2));
    assert_eq!(r(3, 4).div(&r(3, 2)).unwrap(), r(1, 2));
    assert_eq!(r(-3, 4).abs(), r(3, 4));
    assert_eq!(r(3, 4).neg(), r(-3, 4));
    assert_eq!(Rational::zero(), ri(0));
    assert!(r(1, 3).lt(&r(1, 2)));
    assert!(r(1, 2).le(&r(2, 4)));
    assert_eq!(ri(2).power(10).unwrap(), ri(1024));
    assert_eq!(ri(5).power(0).unwrap(), ri(1));
    assert_eq!(r(-1, 2).power(2).unwrap(), r(1, 4));
    // Saturation is reported, never silently wrapped.
    assert!(Rational::new(i64::MAX, 1).add(&ri(1)).is_none());
    assert!(Rational::new(i64::MAX, 1).mul(&ri(2)).is_none());
    assert!(ri(10).power(40).is_none());
}
