//! Escape-time pixel generators for the Mandelbrot and Julia fractals.
//!
//! Both iterate `z -> z*z + c` over exact rationals and color a point by how
//! many steps elapse before `|z|^2` exceeds 4: step `i` of `n` gives the
//! opaque gray `i * (255 / n)` (integer division, truncated to 8 bits), and a
//! point that never escapes within `n` steps is the transparent black
//! `(0, 0, 0, 0)`.  An iteration whose exact intermediates leave the
//! representable range reports `FractalError::Overflow`.

use vstd::prelude::*;

use crate::error::FractalError;
use crate::point::{CoordinateSpace, Point, RatPoint};
use crate::rational::{
    rat_add, rat_from_int, rat_lt, rat_mul, rat_neg, rat_sub, rat_wf, Rat, Rational,
};

verus! {

/// An RGBA8 color value.
#[derive(Clone, Copy, Debug, PartialEq, Eq, Structural)]
pub struct Color {
    pub r: u8,
    pub g: u8,
    pub b: u8,
    pub a: u8,
}

/// The color of a point that never escapes: transparent black.
pub open spec fn transparent_color() -> Color {
    Color { r: 0, g: 0, b: 0, a: 0 }
}

/// The color of a point that escapes at step `i` of `n`: an opaque gray whose
/// intensity is `i * (255 / n)`, truncated to 8 bits.
pub open spec fn gray_color(i: int, n: int) -> Color {
    let v = ((i * (255 as int / n)) % 256) as u8;
    Color { r: v, g: v, b: v, a: 255 }
}

/// The real part of `z*z + c`.
pub open spec fn step_re(zr: Rat, zi: Rat, cr: Rat) -> Rat {
    rat_add(rat_sub(rat_mul(zr, zr), rat_mul(zi, zi)), cr)
}

/// The imaginary part of `z*z + c`, with the doubling done as an addition.
pub open spec fn step_im(zr: Rat, zi: Rat, ci: Rat) -> Rat {
    rat_add(rat_add(rat_mul(zr, zi), rat_mul(zr, zi)), ci)
}

/// Whether every intermediate of one iteration step (the next `z` and its
/// squared magnitude) is representable.
pub open spec fn step_fits(zr: Rat, zi: Rat, cr: Rat, ci: Rat) -> bool {
    &&& rat_wf(rat_mul(zr, zr))
    &&& rat_wf(rat_mul(zi, zi))
    &&& rat_wf(rat_sub(rat_mul(zr, zr), rat_mul(zi, zi)))
    &&& rat_wf(step_re(zr, zi, cr))
    &&& rat_wf(rat_mul(zr, zi))
    &&& rat_wf(rat_add(rat_mul(zr, zi), rat_mul(zr, zi)))
    &&& rat_wf(step_im(zr, zi, ci))
    &&& rat_wf(rat_mul(step_re(zr, zi, cr), step_re(zr, zi, cr)))
    &&& rat_wf(rat_mul(step_im(zr, zi, ci), step_im(zr, zi, ci)))
    &&& rat_wf(
        rat_add(
            rat_mul(step_re(zr, zi, cr), step_re(zr, zi, cr)),
            rat_mul(step_im(zr, zi, ci), step_im(zr, zi, ci)),
        ),
    )
}

/// The escape-time iteration from step `i`: compute `z' = z*z + c`; if
/// `|z'|^2 > 4` the point escapes at step `i`, otherwise continue with `z'`,
/// for `i` ranging from 0 to `n` inclusive.  `None` marks an iteration whose
/// exact intermediates are not representable.
pub open spec fn escape_run(zr: Rat, zi: Rat, cr: Rat, ci: Rat, i: int, n: int) -> Option<Color>
    decreases n + 1 - i,
{
    if i > n {
        Some(transparent_color())
    } else if !step_fits(zr, zi, cr, ci) {
        None
    } else {
        let nzr = step_re(zr, zi, cr);
        let nzi = step_im(zr, zi, ci);
        let dist2 = rat_add(rat_mul(nzr, nzr), rat_mul(nzi, nzi));
        if rat_lt(rat_from_int(4), dist2) {
            Some(gray_color(i, n))
        } else {
            escape_run(nzr, nzi, cr, ci, i + 1, n)
        }
    }
}

/// The Mandelbrot color of point `p` under `n` iterations: `z` starts at the
/// origin and `c` is `p` itself.
pub open spec fn spec_mandelbrot_pixel(n: int, p: RatPoint) -> Option<Color> {
    escape_run(rat_from_int(0), rat_from_int(0), p.x, p.y, 0, n)
}

/// The Julia color of point `p` under `n` iterations and constant `c`: `z`
/// starts at `p` and `c` is fixed.
pub open spec fn spec_julia_pixel(n: int, cr: Rat, ci: Rat, p: RatPoint) -> Option<Color> {
    escape_run(p.x, p.y, cr, ci, 0, n)
}

/// Calculates a pixel's color given a point in the coordinate space `T`.
pub trait Pixelator<T: CoordinateSpace>: Sized {
    /// The generator's own validity condition.
    spec fn wf(&self) -> bool;

    /// The color this generator gives to a point, or `None` when its exact
    /// arithmetic is not representable for that point.
    spec fn spec_pixel(&self, p: RatPoint) -> Option<Color>;

    /// Computes the color of `point`, reporting `Overflow` exactly when no
    /// representable color exists for it.
    fn get_pixel(&self, point: &Point<T>) -> (r: Result<Color, FractalError>)
        requires
            self.wf(),
            point.wf(),
        ensures
            match r {
                Ok(c) => self.spec_pixel(point@) == Some(c),
                Err(e) => self.spec_pixel(point@) is None && e == FractalError::Overflow,
            },
    ;
}

/// Runs the escape-time iteration from `z0` with constant `c`.
fn escape_color(z_r0: Rational, z_i0: Rational, c_r: &Rational, c_i: &Rational, iterations: i32)
    -> (r: Result<Color, FractalError>)
    requires
        z_r0.wf(),
        z_i0.wf(),
        c_r.wf(),
        c_i.wf(),
        iterations >= 1,
    ensures
        match r {
            Ok(c) => escape_run(z_r0@, z_i0@, c_r@, c_i@, 0, iterations as int) == Some(c),
            Err(e) => escape_run(z_r0@, z_i0@, c_r@, c_i@, 0, iterations as int) is None && e
                == FractalError::Overflow,
        },
{
    let ghost n: int = iterations as int;
    let bound: i64 = iterations as i64;
    let four: Rational = Rational::from_int(4);
    let mut z_r: Rational = z_r0;
    let mut z_i: Rational = z_i0;
    let mut i: i64 = 0;
    while i <= bound
        invariant
            0 <= i <= bound + 1,
            bound == iterations,
            iterations >= 1,
            z_r.wf(),
            z_i.wf(),
            c_r.wf(),
            c_i.wf(),
            four.wf(),
            four@ == rat_from_int(4),
            escape_run(z_r0@, z_i0@, c_r@, c_i@, 0, n) == escape_run(
                z_r@,
                z_i@,
                c_r@,
                c_i@,
                i as int,
                n,
            ),
            n == iterations as int,
        decreases bound + 1 - i,
    {
        let zr2: Rational = match z_r.mul(&z_r) {
            Some(v) => v,
            None => {
                return Err(FractalError::Overflow);
            },
        };
        let zi2: Rational = match z_i.mul(&z_i) {
            Some(v) => v,
            None => {
                return Err(FractalError::Overflow);
            },
        };
        let diff: Rational = match zr2.sub(&zi2) {
            Some(v) => v,
            None => {
                return Err(FractalError::Overflow);
            },
        };
        let nzr: Rational = match diff.add(c_r) {
            Some(v) => v,
            None => {
                return Err(FractalError::Overflow);
            },
        };
        let zrzi: Rational = match z_r.mul(&z_i) {
            Some(v) => v,
            None => {
                return Err(FractalError::Overflow);
            },
        };
        let dzrzi: Rational = match zrzi.add(&zrzi) {
            Some(v) => v,
            None => {
                return Err(FractalError::Overflow);
            },
        };
        let nzi: Rational = match dzrzi.add(c_i) {
            Some(v) => v,
            None => {
                return Err(FractalError::Overflow);
            },
        };
        let nzr2: Rational = match nzr.mul(&nzr) {
            Some(v) => v,
            None => {
                return Err(FractalError::Overflow);
            },
        };
        let nzi2: Rational = match nzi.mul(&nzi) {
            Some(v) => v,
            None => {
                return Err(FractalError::Overflow);
            },
        };
        let dist2: Rational = match nzr2.add(&nzi2) {
            Some(v) => v,
            None => {
                return Err(FractalError::Overflow);
            },
        };
        if four.lt(&dist2) {
            let q: i64 = 255 / (iterations as i64);
            proof {
                vstd::arithmetic::div_mod::lemma_fundamental_div_mod(255, n);
                assert(0 <= (i as int) * (q as int) <= 255) by (nonlinear_arith)
                    requires
                        0 <= q as int,
                        0 <= i as int <= n,
                        n * (q as int) <= 255,
                ;
            }
            let col: i64 = i * q;
            let v: u8 = col as u8;
            return Ok(Color { r: v, g: v, b: v, a: 255 });
        }
        z_r = nzr;
        z_i = nzi;
        i = i + 1;
    }
    Ok(Color { r: 0, g: 0, b: 0, a: 0 })
}

/// The Mandelbrot escape-time generator.
#[derive(Clone, Copy, Debug, PartialEq)]
pub struct Mandelbrot {
    /// Number of iterations to run the escape loop for; at least one.
    pub iterations: i32,
}

impl Mandelbrot {
    /// Builds a Mandelbrot generator running `iterations` escape steps.
    pub fn new(iterations: i32) -> (r: Self)
        requires
            iterations >= 1,
        ensures
            r.wf(),
            r == (Mandelbrot { iterations }),
    {
        Mandelbrot { iterations }
    }
}

/// The Mandelbrot plane is itself a coordinate space.
impl CoordinateSpace for Mandelbrot {

}

impl Pixelator<Mandelbrot> for Mandelbrot {
    open spec fn wf(&self) -> bool {
        self.iterations >= 1
    }

    open spec fn spec_pixel(&self, p: RatPoint) -> Option<Color> {
        spec_mandelbrot_pixel(self.iterations as int, p)
    }

    /// Colors a pixel of the Mandelbrot fractal: `c` is the point, `z`
    /// starts at the origin.
    fn get_pixel(&self, point: &Point<Mandelbrot>) -> (r: Result<Color, FractalError>) {
        escape_color(Rational::zero(), Rational::zero(), &point.x, &point.y, self.iterations)
    }
}

/// The Julia escape-time generator.
#[derive(Clone, Copy, Debug, PartialEq)]
pub struct Julia {
    /// Number of iterations to run the escape loop for; at least one.
    pub iterations: i32,
    /// Real part of the complex constant `c` of the map `z -> z*z + c`.
    pub c_r: Rational,
    /// Imaginary part of the complex constant `c`.
    pub c_i: Rational,
}

impl Julia {
    /// Builds a Julia generator with constant `c = c_r + c_i * i`.
    pub fn new(iterations: i32, c_r: Rational, c_i: Rational) -> (r: Self)
        requires
            iterations >= 1,
            c_r.wf(),
            c_i.wf(),
        ensures
            r.wf(),
            r == (Julia { iterations, c_r, c_i }),
    {
        Julia { iterations, c_r, c_i }
    }
}

/// The Julia plane is itself a coordinate space.
impl CoordinateSpace for Julia {

}

impl Pixelator<Julia> for Julia {
    open spec fn wf(&self) -> bool {
        self.iterations >= 1 && self.c_r.wf() && self.c_i.wf()
    }

    open spec fn spec_pixel(&self, p: RatPoint) -> Option<Color> {
        spec_julia_pixel(self.iterations as int, self.c_r@, self.c_i@, p)
    }

    /// Colors a pixel of the Julia fractal: `z` starts at the point, `c` is
    /// the generator's constant.
    fn get_pixel(&self, point: &Point<Julia>) -> (r: Result<Color, FractalError>) {
        escape_color(point.x, point.y, &self.c_r, &self.c_i, self.iterations)
    }
}


/// Law (Mandelbrot interior): the origin never escapes — its color is the
/// transparent interior color for every iteration count of at least one.
pub proof fn lemma_mandelbrot_interior_origin(n: int)
    requires
        1 <= n,
    ensures
        spec_mandelbrot_pixel(n, RatPoint { x: rat_from_int(0), y: rat_from_int(0) }) == Some(
            transparent_color(),
        ),
{
    lemma_escape_run_origin(0, n);
}

/// With both `z` and `c` zero, every step keeps `z` exactly at 0/1, so the
/// run never escapes and never overflows.
proof fn lemma_escape_run_origin(i: int, n: int)
    requires
        0 <= i,
    ensures
        escape_run(rat_from_int(0), rat_from_int(0), rat_from_int(0), rat_from_int(0), i, n)
            == Some(transparent_color()),
    decreases n + 1 - i,
{
    if i <= n {
        let z = rat_from_int(0);
        assert(step_fits(z, z, z, z));
        assert(step_re(z, z, z) == z);
        assert(step_im(z, z, z) == z);
        assert(!rat_lt(rat_from_int(4), rat_add(rat_mul(z, z), rat_mul(z, z))));
        lemma_escape_run_origin(i + 1, n);
    }
}

/// Law (Mandelbrot exterior): the point (2, 2) escapes at the first step
/// (step 0), so its color is opaque black for every iteration count of at
/// least one.
pub proof fn lemma_mandelbrot_exterior_two_two(n: int)
    requires
        1 <= n,
    ensures
        spec_mandelbrot_pixel(n, RatPoint { x: rat_from_int(2), y: rat_from_int(2) }) == Some(
            Color { r: 0, g: 0, b: 0, a: 255 },
        ),
{
    let z = rat_from_int(0);
    let c = rat_from_int(2);
    assert(step_fits(z, z, c, c));
    assert(step_re(z, z, c) == c);
    assert(step_im(z, z, c) == c);
    assert(rat_lt(rat_from_int(4), rat_add(rat_mul(c, c), rat_mul(c, c))));
    assert(0 * (255 as int / n) == 0);
    assert(gray_color(0, n) == Color { r: 0, g: 0, b: 0, a: 255 });
}

} // verus!
