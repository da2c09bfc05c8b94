//! Viewport transform behavior: aspect-preserving scaling, axis flips,
//! centering, and letterboxing under differing aspect ratios.

use fractal_core::error::FractalError;
use fractal_core::point::{CoordinateSpace, Point};
use fractal_core::rational::Rational;
use fractal_core::viewport::Viewport;

#[derive(Debug, Clone, PartialEq)]
struct Scope1 {}

impl CoordinateSpace for Scope1 {}

#[derive(Debug, Clone, PartialEq)]
struct Scope2 {}

impl CoordinateSpace for Scope2 {}

fn r(n: i64, d: i64) -> Rational {
    Rational::new(n, d)
}

fn ri(n: i64) -> Rational {
    Rational::from_int(n)
}

fn vp1(x1: Rational, y1: Rational, dx: Rational, dy: Rational) -> Viewport<Scope1> {
    Viewport::new(x1, y1, dx, dy)
}

fn vp2(x1: Rational, y1: Rational, dx: Rational, dy: Rational) -> Viewport<Scope2> {
    Viewport::new(x1, y1, dx, dy)
}

/// Maps `orig_pt` through the transform derived from (orig_vp, new_vp) and
/// expects `new_pt`.
fn check_direct(
    orig_vp: &Viewport<Scope1>,
    new_vp: &Viewport<Scope2>,
    new_pt: (Rational, Rational),
    orig_pt: (Rational, Rational),
) {
    let t = orig_vp.transformer(new_vp).unwrap();
    let mapped = t.apply(&Point::new(orig_pt.0, orig_pt.1)).unwrap();
    assert_eq!(Point::<Scope2>::new(new_pt.0, new_pt.1), mapped);
}

/// Maps `new_pt` through the inverse-direction transform and expects
/// `orig_pt`.
fn check_inverse(
    orig_vp: &Viewport<Scope1>,
    new_vp: &Viewport<Scope2>,
    new_pt: (Rational, Rational),
    orig_pt: (Rational, Rational),
) {
    let t_inv = new_vp.transformer(orig_vp).unwrap();
    let mapped = t_inv.apply(&Point::new(new_pt.0, new_pt.1)).unwrap();
    assert_eq!(mapped, Point::<Scope1>::new(orig_pt.0, orig_pt.1));
}

fn check_both(
    orig_vp: &Viewport<Scope1>,
    new_vp: &Viewport<Scope2>,
    new_pt: (Rational, Rational),
    orig_pt: (Rational, Rational),
) {
    check_direct(orig_vp, new_vp, new_pt.clone(), orig_pt.clone());
    check_inverse(orig_vp, new_vp, new_pt, orig_pt);
}

#[test]
fn test_transformer_square() {
    let orig_vp = vp1(ri(10), ri(20), ri(100), ri(100));
    let new_vp = vp2(ri(5), ri(3), ri(10), ri(10));
    check_both(&orig_vp, &new_vp, (ri(5), ri(3)), (ri(10), ri(20)));
    check_both(&orig_vp, &new_vp, (ri(15), ri(13)), (ri(110), ri(120)));
    check_both(&orig_vp, &new_vp, (ri(10), ri(8)), (ri(60), ri(70)));
}

#[test]
fn test_transformer_square_neg() {
    let orig_vp = vp1(ri(10), ri(20), ri(100), ri(100));
    let new_vp = vp2(ri(5), ri(3), ri(10), ri(-10));
    check_both(&orig_vp, &new_vp, (ri(5), ri(3)), (ri(10), ri(20)));
    check_both(&orig_vp, &new_vp, (ri(15), ri(-7)), (ri(110), ri(120)));
    check_both(&orig_vp, &new_vp, (ri(10), ri(-2)), (ri(60), ri(70)));
}

#[test]
fn test_transformer_rect() {
    let orig_vp = vp1(ri(10), ri(20), ri(100), ri(200));
    let new_vp = vp2(ri(5), ri(3), ri(10), ri(20));
    check_both(&orig_vp, &new_vp, (ri(5), ri(3)), (ri(10), ri(20)));
    check_both(&orig_vp, &new_vp, (ri(15), ri(23)), (ri(110), ri(220)));
    check_both(&orig_vp, &new_vp, (ri(10), ri(13)), (ri(60), ri(120)));
}

#[test]
fn test_transformer_rect_neg() {
    let orig_vp = vp1(ri(10), ri(20), ri(100), ri(200));
    let new_vp = vp2(ri(5), ri(3), ri(10), ri(-20));
    check_both(&orig_vp, &new_vp, (ri(5), ri(3)), (ri(10), ri(20)));
    check_both(&orig_vp, &new_vp, (ri(15), ri(-17)), (ri(110), ri(220)));
    check_both(&orig_vp, &new_vp, (ri(10), ri(-7)), (ri(60), ri(120)));
}

#[test]
fn test_transformer_square_neg_zero_center() {
    let orig_vp = vp1(ri(0), ri(0), ri(800), ri(800));
    let new_vp = vp2(ri(-2), r(5, 4), r(5, 2), r(-5, 2));
    check_both(&orig_vp, &new_vp, (ri(-2), r(5, 4)), (ri(0), ri(0)));
    check_both(&orig_vp, &new_vp, (r(1, 2), r(-5, 4)), (ri(800), ri(800)));
    check_both(&orig_vp, &new_vp, (r(-3, 4), ri(0)), (ri(400), ri(400)));
    check_both(&orig_vp, &new_vp, (ri(0), ri(0)), (ri(640), ri(400)));
}

#[test]
fn test_transformer_square_neg_zero_center2() {
    let orig_vp = vp1(ri(0), ri(0), ri(800), ri(400));
    let new_vp = vp2(ri(-2), ri(2), ri(4), ri(-4));
    check_direct(&orig_vp, &new_vp, (ri(0), ri(0)), (ri(400), ri(200)));
    check_direct(&orig_vp, &new_vp, (ri(-2), ri(2)), (ri(200), ri(0)));
    check_direct(&orig_vp, &new_vp, (ri(-2), ri(-2)), (ri(200), ri(400)));
    check_direct(&orig_vp, &new_vp, (ri(2), ri(-2)), (ri(600), ri(400)));
    check_direct(&orig_vp, &new_vp, (ri(2), ri(2)), (ri(600), ri(0)));
}

#[test]
fn test_transformer_rect_diff_aspect() {
    let orig_vp = vp1(ri(0), ri(0), ri(100), ri(200));
    let new_vp = vp2(ri(0), ri(0), ri(10), ri(10));
    check_direct(&orig_vp, &new_vp, (ri(0), ri(-5)), (ri(0), ri(0)));
    check_direct(&orig_vp, &new_vp, (ri(10), ri(15)), (ri(100), ri(200)));
    check_direct(&orig_vp, &new_vp, (ri(5), ri(5)), (ri(50), ri(100)));
}

#[test]
fn test_transformer_rect_diff_aspect2() {
    let orig_vp = vp1(ri(0), ri(0), ri(200), ri(100));
    let new_vp = vp2(ri(0), ri(0), ri(10), ri(10));
    check_direct(&orig_vp, &new_vp, (ri(-5), ri(0)), (ri(0), ri(0)));
    check_direct(&orig_vp, &new_vp, (ri(5), ri(20)), (ri(100), ri(200)));
    check_direct(&orig_vp, &new_vp, (ri(15), ri(10)), (ri(200), ri(100)));
    check_direct(&orig_vp, &new_vp, (ri(0), ri(10)), (ri(50), ri(100)));
    check_direct(&orig_vp, &new_vp, (ri(5), ri(5)), (ri(100), ri(50)));
}

#[test]
fn test_transformer_degenerate_viewport_rejected() {
    let orig_vp = vp1(ri(0), ri(0), ri(0), ri(100));
    let new_vp = vp2(ri(0), ri(0), ri(10), ri(10));
    assert_eq!(
        orig_vp.transformer(&new_vp).unwrap_err(),
        FractalError::DegenerateViewport
    );
    let orig_vp2 = vp1(ri(0), ri(0), ri(10), ri(10));
    let new_vp2 = vp2(ri(0), ri(0), ri(10), ri(0));
    assert_eq!(
        orig_vp2.transformer(&new_vp2).unwrap_err(),
        FractalError::DegenerateViewport
    );
}
