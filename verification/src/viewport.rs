//! Viewports and the aspect-preserving transform between two of them.
//!
//! A `Viewport` is an axis-aligned rectangle in some coordinate space; its
//! extents may be negative to mark a flipped axis.  `transformer` derives
//! from a source and a destination viewport a `Transform`: a value object of
//! six precomputed scalars mapping source points to destination points with a
//! single uniform scale magnitude, so the aspect ratio is preserved and the
//! source center lands exactly on the destination center.

use core::marker::PhantomData;
use vstd::prelude::*;

use crate::error::FractalError;
use crate::fractals::{Color, Pixelator};
use crate::point::{point_wf, CoordinateSpace, Point, RatPoint};
use crate::rational::{
    lemma_mul_pos, lemma_mul_pos_neg, lemma_rat_add_congruence, lemma_rat_add_sub_cancel, lemma_rat_eq_trans,
    lemma_rat_mul_assoc, lemma_rat_mul_congruence, lemma_rat_mul_one, lemma_rat_sub_add_cancel,
    rat_abs, rat_add, rat_div, rat_eq, rat_from_int, rat_is_zero, rat_max, rat_mul, rat_neg,
    rat_sub, rat_wf, Rat, Rational,
};

verus! {

/// Ghost model of a viewport: origin (x1, y1) and extents (dx, dy).
pub ghost struct RatViewport {
    pub x1: Rat,
    pub y1: Rat,
    pub dx: Rat,
    pub dy: Rat,
}

/// All four fields are representable fractions.
pub open spec fn viewport_wf(v: RatViewport) -> bool {
    rat_wf(v.x1) && rat_wf(v.y1) && rat_wf(v.dx) && rat_wf(v.dy)
}

/// A viewport with a zero extent has no transform scale.
pub open spec fn viewport_degenerate(v: RatViewport) -> bool {
    rat_is_zero(v.dx) || rat_is_zero(v.dy)
}

/// The x coordinate of a viewport's center: `x1 + dx/2`.
pub open spec fn spec_center_x(v: RatViewport) -> Rat {
    rat_add(v.x1, rat_div(v.dx, rat_from_int(2)))
}

/// The y coordinate of a viewport's center: `y1 + dy/2`.
pub open spec fn spec_center_y(v: RatViewport) -> Rat {
    rat_add(v.y1, rat_div(v.dy, rat_from_int(2)))
}

/// The center point of a viewport.
pub open spec fn spec_center(v: RatViewport) -> RatPoint {
    RatPoint { x: spec_center_x(v), y: spec_center_y(v) }
}

/// Ghost model of a derived transform: per-axis factors and the two centers.
pub ghost struct RatTransform {
    pub xf: Rat,
    pub yf: Rat,
    pub csx: Rat,
    pub csy: Rat,
    pub cdx: Rat,
    pub cdy: Rat,
}

/// All six scalars are representable fractions.
pub open spec fn transform_wf(t: RatTransform) -> bool {
    rat_wf(t.xf) && rat_wf(t.yf) && rat_wf(t.csx) && rat_wf(t.csy) && rat_wf(t.cdx) && rat_wf(
        t.cdy,
    )
}

/// The transform derived from viewports `a` (source) and `b` (destination):
/// the per-axis ratios are `b.dx/a.dx` and `b.dy/a.dy`; one uniform scale
/// magnitude — the larger of their absolute values — is used for both axes,
/// re-signed per axis; the centers translate `a`'s center onto `b`'s.
pub open spec fn spec_transformer(a: RatViewport, b: RatViewport) -> RatTransform {
    let rx = rat_div(b.dx, a.dx);
    let ry = rat_div(b.dy, a.dy);
    let f = rat_max(rat_abs(rx), rat_abs(ry));
    RatTransform {
        xf: if rx.n < 0 {
            rat_neg(f)
        } else {
            f
        },
        yf: if ry.n < 0 {
            rat_neg(f)
        } else {
            f
        },
        csx: spec_center_x(a),
        csy: spec_center_y(a),
        cdx: spec_center_x(b),
        cdy: spec_center_y(b),
    }
}

/// Whether every intermediate of `spec_transformer` is representable.
pub open spec fn transformer_fits(a: RatViewport, b: RatViewport) -> bool {
    &&& rat_wf(rat_div(b.dx, a.dx))
    &&& rat_wf(rat_div(b.dy, a.dy))
    &&& rat_wf(rat_div(a.dx, rat_from_int(2)))
    &&& rat_wf(spec_center_x(a))
    &&& rat_wf(rat_div(a.dy, rat_from_int(2)))
    &&& rat_wf(spec_center_y(a))
    &&& rat_wf(rat_div(b.dx, rat_from_int(2)))
    &&& rat_wf(spec_center_x(b))
    &&& rat_wf(rat_div(b.dy, rat_from_int(2)))
    &&& rat_wf(spec_center_y(b))
}

/// Where a transform maps a point: per axis, `(p - center_src) * factor +
/// center_dst`.
pub open spec fn spec_apply(t: RatTransform, p: RatPoint) -> RatPoint {
    RatPoint {
        x: rat_add(rat_mul(rat_sub(p.x, t.csx), t.xf), t.cdx),
        y: rat_add(rat_mul(rat_sub(p.y, t.csy), t.yf), t.cdy),
    }
}

/// Whether every intermediate of `spec_apply` is representable.
pub open spec fn apply_fits(t: RatTransform, p: RatPoint) -> bool {
    &&& rat_wf(rat_sub(p.x, t.csx))
    &&& rat_wf(rat_mul(rat_sub(p.x, t.csx), t.xf))
    &&& rat_wf(rat_add(rat_mul(rat_sub(p.x, t.csx), t.xf), t.cdx))
    &&& rat_wf(rat_sub(p.y, t.csy))
    &&& rat_wf(rat_mul(rat_sub(p.y, t.csy), t.yf))
    &&& rat_wf(rat_add(rat_mul(rat_sub(p.y, t.csy), t.yf), t.cdy))
}

/// An axis-aligned rectangle `[x1, x1+dx] x [y1, y1+dy]` in coordinate space
/// `T`; `dx` or `dy` may be negative to mark a flipped axis.
#[derive(Debug, PartialEq)]
pub struct Viewport<T: CoordinateSpace> {
    pub x1: Rational,
    pub y1: Rational,
    pub dx: Rational,
    pub dy: Rational,
    pub marker: PhantomData<T>,
}

impl<T: CoordinateSpace> Clone for Viewport<T> {
    /// An exact copy.
    fn clone(&self) -> (r: Self)
        ensures
            r == *self,
    {
        Viewport { x1: self.x1, y1: self.y1, dx: self.dx, dy: self.dy, marker: PhantomData }
    }
}

impl<T: CoordinateSpace> Copy for Viewport<T> {

}

impl<T: CoordinateSpace> View for Viewport<T> {
    type V = RatViewport;

    open spec fn view(&self) -> RatViewport {
        RatViewport { x1: self.x1@, y1: self.y1@, dx: self.dx@, dy: self.dy@ }
    }
}

/// The transform from space `S` to space `T` derived from a viewport pair: a
/// value object of the six precomputed scalars, applied once per point.
#[derive(Debug, PartialEq)]
pub struct Transform<S: CoordinateSpace, T: CoordinateSpace> {
    pub x_factor: Rational,
    pub y_factor: Rational,
    pub center_src_x: Rational,
    pub center_src_y: Rational,
    pub center_dst_x: Rational,
    pub center_dst_y: Rational,
    pub marker: PhantomData<(S, T)>,
}

impl<S: CoordinateSpace, T: CoordinateSpace> Clone for Transform<S, T> {
    /// An exact copy.
    fn clone(&self) -> (r: Self)
        ensures
            r == *self,
    {
        Transform {
            x_factor: self.x_factor,
            y_factor: self.y_factor,
            center_src_x: self.center_src_x,
            center_src_y: self.center_src_y,
            center_dst_x: self.center_dst_x,
            center_dst_y: self.center_dst_y,
            marker: PhantomData,
        }
    }
}

impl<S: CoordinateSpace, T: CoordinateSpace> Copy for Transform<S, T> {

}

impl<S: CoordinateSpace, T: CoordinateSpace> View for Transform<S, T> {
    type V = RatTransform;

    open spec fn view(&self) -> RatTransform {
        RatTransform {
            xf: self.x_factor@,
            yf: self.y_factor@,
            csx: self.center_src_x@,
            csy: self.center_src_y@,
            cdx: self.center_dst_x@,
            cdy: self.center_dst_y@,
        }
    }
}

impl<S: CoordinateSpace, T: CoordinateSpace> Transform<S, T> {
    /// The representation invariant: see `transform_wf`.
    pub open spec fn wf(&self) -> bool {
        transform_wf(self@)
    }

    /// Maps a point of the source space into the destination space;
    /// `Overflow` exactly when an intermediate is not representable.
    pub fn apply(&self, point: &Point<S>) -> (r: Result<Point<T>, FractalError>)
        requires
            self.wf(),
            point.wf(),
        ensures
            match r {
                Ok(q) => apply_fits(self@, point@) && q.wf() && q@ == spec_apply(self@, point@),
                Err(e) => e == FractalError::Overflow && !apply_fits(self@, point@),
            },
    {
        let sx: Rational = match point.x.sub(&self.center_src_x) {
            Some(v) => v,
            None => {
                return Err(FractalError::Overflow);
            },
        };
        let mx: Rational = match sx.mul(&self.x_factor) {
            Some(v) => v,
            None => {
                return Err(FractalError::Overflow);
            },
        };
        let nx: Rational = match mx.add(&self.center_dst_x) {
            Some(v) => v,
            None => {
                return Err(FractalError::Overflow);
            },
        };
        let sy: Rational = match point.y.sub(&self.center_src_y) {
            Some(v) => v,
            None => {
                return Err(FractalError::Overflow);
            },
        };
        let my: Rational = match sy.mul(&self.y_factor) {
            Some(v) => v,
            None => {
                return Err(FractalError::Overflow);
            },
        };
        let ny: Rational = match my.add(&self.center_dst_y) {
            Some(v) => v,
            None => {
                return Err(FractalError::Overflow);
            },
        };
        Ok(Point::new(nx, ny))
    }
}

impl<S: CoordinateSpace> Viewport<S> {
    /// The representation invariant: see `viewport_wf`.
    pub open spec fn wf(&self) -> bool {
        viewport_wf(self@)
    }

    /// Builds the viewport with origin (x1, y1) and extents (dx, dy).
    pub fn new(x1: Rational, y1: Rational, dx: Rational, dy: Rational) -> (r: Self)
        ensures
            r@ == (RatViewport { x1: x1@, y1: y1@, dx: dx@, dy: dy@ }),
    {
        Viewport { x1, y1, dx, dy, marker: PhantomData }
    }

    /// Derives the transform mapping points of this viewport onto `new_vp`.
    /// Fails with `DegenerateViewport` when either viewport has a zero
    /// extent, and with `Overflow` when an intermediate scalar is not
    /// representable.
    pub fn transformer<T2: CoordinateSpace>(&self, new_vp: &Viewport<T2>) -> (r: Result<
        Transform<S, T2>,
        FractalError,
    >)
        requires
            self.wf(),
            new_vp.wf(),
        ensures
            r is Ok <==> !viewport_degenerate(self@) && !viewport_degenerate(new_vp@)
                && transformer_fits(self@, new_vp@),
            match r {
                Ok(t) => t.wf() && t@ == spec_transformer(self@, new_vp@),
                Err(e) => {
                    &&& (e == FractalError::DegenerateViewport <==> viewport_degenerate(self@)
                        || viewport_degenerate(new_vp@))
                    &&& (e == FractalError::DegenerateViewport || e == FractalError::Overflow)
                },
            },
    {
        if self.dx.is_zero() || self.dy.is_zero() || new_vp.dx.is_zero() || new_vp.dy.is_zero() {
            return Err(FractalError::DegenerateViewport);
        }
        let two: Rational = Rational::from_int(2);
        let rx: Rational = match new_vp.dx.div(&self.dx) {
            Some(v) => v,
            None => {
                return Err(FractalError::Overflow);
            },
        };
        let ry: Rational = match new_vp.dy.div(&self.dy) {
            Some(v) => v,
            None => {
                return Err(FractalError::Overflow);
            },
        };
        let half_sx: Rational = match self.dx.div(&two) {
            Some(v) => v,
            None => {
                return Err(FractalError::Overflow);
            },
        };
        let csx: Rational = match self.x1.add(&half_sx) {
            Some(v) => v,
            None => {
                return Err(FractalError::Overflow);
            },
        };
        let half_sy: Rational = match self.dy.div(&two) {
            Some(v) => v,
            None => {
                return Err(FractalError::Overflow);
            },
        };
        let csy: Rational = match self.y1.add(&half_sy) {
            Some(v) => v,
            None => {
                return Err(FractalError::Overflow);
            },
        };
        let half_dx: Rational = match new_vp.dx.div(&two) {
            Some(v) => v,
            None => {
                return Err(FractalError::Overflow);
            },
        };
        let cdx: Rational = match new_vp.x1.add(&half_dx) {
            Some(v) => v,
            None => {
                return Err(FractalError::Overflow);
            },
        };
        let half_dy: Rational = match new_vp.dy.div(&two) {
            Some(v) => v,
            None => {
                return Err(FractalError::Overflow);
            },
        };
        let cdy: Rational = match new_vp.y1.add(&half_dy) {
            Some(v) => v,
            None => {
                return Err(FractalError::Overflow);
            },
        };
        let factor: Rational = rx.abs().max(&ry.abs());
        let x_factor: Rational = if rx.is_neg() {
            factor.neg()
        } else {
            factor
        };
        let y_factor: Rational = if ry.is_neg() {
            factor.neg()
        } else {
            factor
        };
        Ok(
            Transform {
                x_factor,
                y_factor,
                center_src_x: csx,
                center_src_y: csy,
                center_dst_x: cdx,
                center_dst_y: cdy,
                marker: PhantomData,
            },
        )
    }

    /// Wraps `pixelator`, written against the space of `new_vp`, so it can be
    /// invoked with points of this viewport's space: each point is mapped by
    /// the derived transform before the inner generator sees it.
    pub fn decorate_pixelator<'a, T2: CoordinateSpace, P: Pixelator<T2>>(
        &self,
        new_vp: &Viewport<T2>,
        pixelator: &'a P,
    ) -> (r: Result<ViewPortDecorator<'a, S, T2, P>, FractalError>)
        requires
            self.wf(),
            new_vp.wf(),
            pixelator.wf(),
        ensures
            r is Ok <==> !viewport_degenerate(self@) && !viewport_degenerate(new_vp@)
                && transformer_fits(self@, new_vp@),
            match r {
                Ok(d) => d.wf() && d.transformer@ == spec_transformer(self@, new_vp@)
                    && d.pixelator == pixelator,
                Err(e) => {
                    &&& (e == FractalError::DegenerateViewport <==> viewport_degenerate(self@)
                        || viewport_degenerate(new_vp@))
                    &&& (e == FractalError::DegenerateViewport || e == FractalError::Overflow)
                },
            },
    {
        match self.transformer(new_vp) {
            Ok(t) => Ok(ViewPortDecorator { transformer: t, pixelator }),
            Err(e) => Err(e),
        }
    }
}

/// A pixel generator over space `S` built from one over space `T` and a
/// transform from `S` to `T`.
pub struct ViewPortDecorator<'a, S: CoordinateSpace, T: CoordinateSpace, P: Pixelator<T>> {
    pub transformer: Transform<S, T>,
    pub pixelator: &'a P,
}

impl<'a, S: CoordinateSpace, T: CoordinateSpace, P: Pixelator<T>> Pixelator<S> for ViewPortDecorator<
    'a,
    S,
    T,
    P,
> {
    open spec fn wf(&self) -> bool {
        self.transformer.wf() && self.pixelator.wf()
    }

    open spec fn spec_pixel(&self, p: RatPoint) -> Option<Color> {
        if apply_fits(self.transformer@, p) {
            self.pixelator.spec_pixel(spec_apply(self.transformer@, p))
        } else {
            None
        }
    }

    /// Maps the point into the inner generator's space, then delegates.
    fn get_pixel(&self, point: &Point<S>) -> (r: Result<Color, FractalError>) {
        match self.transformer.apply(point) {
            Ok(tp) => self.pixelator.get_pixel(&tp),
            Err(e) => Err(e),
        }
    }
}

/// Law: the center of the source viewport maps exactly onto the center of
/// the destination viewport, for every non-degenerate pair.
pub proof fn lemma_transform_center(a: RatViewport, b: RatViewport)
    requires
        viewport_wf(a),
        viewport_wf(b),
        !viewport_degenerate(a),
        !viewport_degenerate(b),
    ensures
        rat_eq(spec_apply(spec_transformer(a, b), spec_center(a)).x, spec_center_x(b)),
        rat_eq(spec_apply(spec_transformer(a, b), spec_center(a)).y, spec_center_y(b)),
{
    let t = spec_transformer(a, b);
    lemma_center_axis(spec_center_x(a), t.xf, spec_center_x(b));
    lemma_center_axis(spec_center_y(a), t.yf, spec_center_y(b));
}

/// One axis of the center law: `(c - c) * f + cd` has the value `cd`.
proof fn lemma_center_axis(c: Rat, f: Rat, cd: Rat)
    ensures
        rat_eq(rat_add(rat_mul(rat_sub(c, c), f), cd), cd),
{
    let s = rat_sub(c, c);
    assert(s.n == 0);
    let m = rat_mul(s, f);
    assert(m.n == 0) by (nonlinear_arith)
        requires
            m.n == s.n * f.n,
            s.n == 0,
    ;
    let r = rat_add(m, cd);
    if m.d == cd.d {
        assert(rat_eq(r, cd));
    } else {
        assert(r.n == cd.n * m.d && r.d == m.d * cd.d);
        assert((cd.n * m.d) * cd.d == cd.n * (m.d * cd.d)) by (nonlinear_arith);
    }
}


/// The per-axis factors of a derived transform have exactly the values of
/// the per-axis ratios when both ratios share one absolute value.
proof fn lemma_factor_value(rx: Rat, ry: Rat)
    requires
        rat_eq(rat_abs(rx), rat_abs(ry)),
    ensures
        rat_eq(
            if rx.n < 0 {
                rat_neg(rat_max(rat_abs(rx), rat_abs(ry)))
            } else {
                rat_max(rat_abs(rx), rat_abs(ry))
            },
            rx,
        ),
        rat_eq(
            if ry.n < 0 {
                rat_neg(rat_max(rat_abs(rx), rat_abs(ry)))
            } else {
                rat_max(rat_abs(rx), rat_abs(ry))
            },
            ry,
        ),
{
    let m = rat_max(rat_abs(rx), rat_abs(ry));
    assert(rat_eq(m, rat_abs(rx)));
    assert(rat_eq(m, rat_abs(ry)));
    if rx.n < 0 {
        assert((-m.n) * rx.d == rx.n * m.d) by (nonlinear_arith)
            requires
                m.n * rx.d == (-rx.n) * m.d,
        ;
    }
    if ry.n < 0 {
        assert((-m.n) * ry.d == ry.n * m.d) by (nonlinear_arith)
            requires
                m.n * ry.d == (-ry.n) * m.d,
        ;
    }
}

/// The two opposite ratios of a non-degenerate pair multiply to one.
proof fn lemma_div_inverse(x: Rat, y: Rat)
    requires
        1 <= x.d,
        1 <= y.d,
        x.n != 0,
        y.n != 0,
    ensures
        rat_eq(rat_mul(rat_div(x, y), rat_div(y, x)), rat_from_int(1)),
{
    if y.n < 0 {
        if x.n < 0 {
            assert((-(x.n * y.d)) * (-(y.n * x.d)) == (-(x.d * y.n)) * (-(y.d * x.n)))
                by (nonlinear_arith);
        } else {
            assert((-(x.n * y.d)) * (y.n * x.d) == (-(x.d * y.n)) * (y.d * x.n))
                by (nonlinear_arith);
        }
    } else {
        if x.n < 0 {
            assert((x.n * y.d) * (-(y.n * x.d)) == (x.d * y.n) * (-(y.d * x.n)))
                by (nonlinear_arith);
        } else {
            assert((x.n * y.d) * (y.n * x.d) == (x.d * y.n) * (y.d * x.n)) by (nonlinear_arith);
        }
    }
}

/// The absolute value of a ratio in numerator-sign form: `|x/y|` is
/// `|x.n| * y.d` over `x.d * |y.n|`.
proof fn lemma_abs_div_form(x: Rat, y: Rat)
    requires
        1 <= x.d,
        1 <= y.d,
        y.n != 0,
    ensures
        rat_abs(rat_div(x, y)) == (Rat {
            n: (if x.n < 0 { -x.n } else { x.n }) * y.d,
            d: x.d * (if y.n < 0 { -y.n } else { y.n }),
        }),
{
    if y.n < 0 {
        assert(-(x.d * y.n) == x.d * (-y.n)) by (nonlinear_arith);
        if x.n < 0 {
            assert(-(x.n * y.d) >= 0 && -(x.n * y.d) == (-x.n) * y.d) by (nonlinear_arith)
                requires x.n < 0, 1 <= y.d,;
        } else {
            assert(-(x.n * y.d) <= 0 && x.n * y.d == x.n * y.d) by (nonlinear_arith)
                requires x.n >= 0, 1 <= y.d,;
            if x.n * y.d == 0 {
            } else {
                assert(-(x.n * y.d) < 0);
            }
        }
    } else {
        if x.n < 0 {
            assert(x.n * y.d < 0 && -(x.n * y.d) == (-x.n) * y.d) by (nonlinear_arith)
                requires x.n < 0, 1 <= y.d,;
        } else {
            assert(x.n * y.d >= 0) by (nonlinear_arith)
                requires x.n >= 0, 1 <= y.d,;
        }
    }
}

/// Equal absolute aspect ratios are symmetric in the two viewports.
proof fn lemma_aspect_swap(a: RatViewport, b: RatViewport)
    requires
        viewport_wf(a),
        viewport_wf(b),
        !viewport_degenerate(a),
        !viewport_degenerate(b),
        rat_eq(rat_abs(rat_div(b.dx, a.dx)), rat_abs(rat_div(b.dy, a.dy))),
    ensures
        rat_eq(rat_abs(rat_div(a.dx, b.dx)), rat_abs(rat_div(a.dy, b.dy))),
{
    lemma_abs_div_form(b.dx, a.dx);
    lemma_abs_div_form(b.dy, a.dy);
    lemma_abs_div_form(a.dx, b.dx);
    lemma_abs_div_form(a.dy, b.dy);
    let bxn = if b.dx.n < 0 { -b.dx.n } else { b.dx.n };
    let byn = if b.dy.n < 0 { -b.dy.n } else { b.dy.n };
    let axn = if a.dx.n < 0 { -a.dx.n } else { a.dx.n };
    let ayn = if a.dy.n < 0 { -a.dy.n } else { a.dy.n };
    assert((axn * b.dx.d) * (a.dy.d * byn) == (ayn * b.dy.d) * (a.dx.d * bxn))
        by (nonlinear_arith)
        requires
            (bxn * a.dx.d) * (b.dy.d * ayn) == (byn * a.dy.d) * (b.dx.d * axn),
    ;
}

/// A quotient of representable fractions keeps a positive denominator.
proof fn lemma_div_den_pos(x: Rat, y: Rat)
    requires
        1 <= x.d,
        y.n != 0,
    ensures
        1 <= rat_div(x, y).d,
{
    if y.n < 0 {
        lemma_mul_pos_neg(x.d, y.n);
    } else {
        lemma_mul_pos(x.d, y.n);
    }
}

/// One axis of the round-trip law: mapping forth with `f1` and back with
/// `f2` returns to the starting value when `f1 * f2` has value one.
proof fn lemma_axis_round_trip(px: Rat, ca: Rat, cb: Rat, f1: Rat, f2: Rat, r1v: Rat, r2v: Rat)
    requires
        1 <= px.d,
        1 <= ca.d,
        1 <= cb.d,
        1 <= f1.d,
        1 <= f2.d,
        1 <= r1v.d,
        1 <= r2v.d,
        rat_eq(f1, r1v),
        rat_eq(f2, r2v),
        rat_eq(rat_mul(r1v, r2v), rat_from_int(1)),
    ensures
        rat_eq(
            rat_add(rat_mul(rat_sub(rat_add(rat_mul(rat_sub(px, ca), f1), cb), cb), f2), ca),
            px,
        ),
{
    let s1 = rat_sub(px, ca);
    let m1 = rat_mul(s1, f1);
    let q = rat_add(m1, cb);
    let s2 = rat_sub(q, cb);
    let m2 = rat_mul(s2, f2);
    let res = rat_add(m2, ca);
    lemma_mul_pos(px.d, ca.d);
    lemma_mul_pos(s1.d, f1.d);
    lemma_mul_pos(m1.d, cb.d);
    lemma_mul_pos(q.d, cb.d);
    lemma_mul_pos(s2.d, f2.d);
    lemma_mul_pos(r1v.d, r2v.d);
    lemma_mul_pos(f1.d, f2.d);
    lemma_mul_pos(s1.d, f1.d * f2.d);
    lemma_mul_pos(m1.d, f2.d);
    lemma_mul_pos(s1.d, ca.d);
    // coming back past the destination center leaves the scaled offset
    lemma_rat_add_sub_cancel(m1, cb);
    lemma_rat_mul_congruence(s2, m1, f2, f2);
    lemma_rat_mul_assoc(s1, f1, f2);
    lemma_rat_eq_trans(m2, rat_mul(m1, f2), rat_mul(s1, rat_mul(f1, f2)));
    // the two factors cancel to one
    lemma_rat_mul_congruence(f1, r1v, f2, r2v);
    lemma_rat_eq_trans(rat_mul(f1, f2), rat_mul(r1v, r2v), rat_from_int(1));
    lemma_rat_mul_one(s1, rat_mul(f1, f2));
    lemma_rat_eq_trans(m2, rat_mul(s1, rat_mul(f1, f2)), s1);
    // adding the source center back returns to the start
    lemma_rat_add_congruence(m2, s1, ca);
    lemma_rat_sub_add_cancel(px, ca);
    lemma_rat_eq_trans(res, rat_add(s1, ca), px);
}

/// Law: transforming a point from viewport `A` to viewport `B` and back
/// returns its value exactly, for every non-degenerate pair whose absolute
/// aspect ratios agree (`|B.dx/A.dx| == |B.dy/A.dy|`).  With differing
/// aspect ratios the uniform scale magnitude is recomputed from each pair's
/// own ratios, and the round trip genuinely moves letterboxed points.
pub proof fn lemma_transform_round_trip(a: RatViewport, b: RatViewport, p: RatPoint)
    requires
        viewport_wf(a),
        viewport_wf(b),
        point_wf(p),
        !viewport_degenerate(a),
        !viewport_degenerate(b),
        rat_eq(rat_abs(rat_div(b.dx, a.dx)), rat_abs(rat_div(b.dy, a.dy))),
    ensures
        rat_eq(spec_apply(spec_transformer(b, a), spec_apply(spec_transformer(a, b), p)).x, p.x),
        rat_eq(spec_apply(spec_transformer(b, a), spec_apply(spec_transformer(a, b), p)).y, p.y),
{
    lemma_aspect_swap(a, b);
    let t1 = spec_transformer(a, b);
    let t2 = spec_transformer(b, a);
    let rx1 = rat_div(b.dx, a.dx);
    let ry1 = rat_div(b.dy, a.dy);
    let rx2 = rat_div(a.dx, b.dx);
    let ry2 = rat_div(a.dy, b.dy);
    lemma_factor_value(rx1, ry1);
    lemma_factor_value(rx2, ry2);
    lemma_div_inverse(b.dx, a.dx);
    lemma_div_inverse(b.dy, a.dy);
    lemma_mul_pos(a.x1.d, a.dx.d * 2);
    lemma_mul_pos(a.y1.d, a.dy.d * 2);
    lemma_mul_pos(b.x1.d, b.dx.d * 2);
    lemma_mul_pos(b.y1.d, b.dy.d * 2);
    lemma_div_den_pos(b.dx, a.dx);
    lemma_div_den_pos(b.dy, a.dy);
    lemma_div_den_pos(a.dx, b.dx);
    lemma_div_den_pos(a.dy, b.dy);
    lemma_axis_round_trip(p.x, t1.csx, t1.cdx, t1.xf, t2.xf, rx1, rx2);
    lemma_axis_round_trip(p.y, t1.csy, t1.cdy, t1.yf, t2.yf, ry1, ry2);
}

} // verus!
