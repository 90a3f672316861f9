use beacon::fixed::{FX_HALF, FX_ONE};
use beacon::waves::WaveShape;
use beacon::pixel::Pix;
use beacon::layout::get_waveshape;

#[test]
fn flat_is_always_one() {
    assert_eq!(WaveShape::Flat.sample(-FX_ONE), FX_ONE);
    assert_eq!(WaveShape::Flat.sample(0), FX_ONE);
    assert_eq!(WaveShape::Flat.sample(10 * FX_ONE), FX_ONE);
}

#[test]
fn shapes_are_zero_outside_the_unit_interval() {
    let shapes = [
        WaveShape::Square,
        WaveShape::HalfSquare,
        WaveShape::Triangle,
        WaveShape::Trapezoid,
        WaveShape::SawTooth,
        WaveShape::SqrTooth,
        WaveShape::SawDecay,
        WaveShape::SqrDecay,
        WaveShape::Sine,
    ];
    for shape in shapes {
        assert_eq!(shape.sample(-1), 0);
        assert_eq!(shape.sample(FX_ONE), 0);
        assert_eq!(shape.sample(2 * FX_ONE), 0);
    }
}

#[test]
fn shape_curves_at_known_points() {
    assert_eq!(WaveShape::Square.sample(FX_HALF), FX_ONE);
    assert_eq!(WaveShape::HalfSquare.sample(FX_HALF - 1), FX_ONE);
    assert_eq!(WaveShape::HalfSquare.sample(FX_HALF), 0);
    assert_eq!(WaveShape::Triangle.sample(FX_ONE / 4), FX_HALF);
    assert_eq!(WaveShape::Triangle.sample(3 * FX_ONE / 4), FX_HALF);
    assert_eq!(WaveShape::Trapezoid.sample(FX_ONE / 8), FX_HALF);
    assert_eq!(WaveShape::Trapezoid.sample(FX_HALF), FX_ONE);
    assert_eq!(WaveShape::SawTooth.sample(FX_HALF), FX_HALF);
    assert_eq!(WaveShape::SqrTooth.sample(FX_HALF), FX_ONE / 4);
    assert_eq!(WaveShape::SawDecay.sample(FX_HALF), FX_HALF);
    assert_eq!(WaveShape::SqrDecay.sample(FX_HALF), FX_ONE / 4);
    // the raised-cosine bump peaks at one half and is exactly one half at
    // the quarter points
    assert_eq!(WaveShape::Sine.sample(FX_HALF), FX_ONE);
    assert_eq!(WaveShape::Sine.sample(FX_ONE / 4), FX_HALF);
    assert_eq!(WaveShape::Sine.sample(3 * FX_ONE / 4), FX_HALF);
    assert_eq!(WaveShape::Sine.sample(0), 0);
}

#[test]
fn waveshape_names_match_case_insensitively() {
    assert!(matches!(get_waveshape("flat"), Some(WaveShape::Flat)));
    assert!(matches!(get_waveshape("FLAT"), Some(WaveShape::Flat)));
    assert!(matches!(get_waveshape("Sine"), Some(WaveShape::Sine)));
    assert!(matches!(get_waveshape("sqrdecay"), Some(WaveShape::SqrDecay)));
    assert!(matches!(get_waveshape("HalfSquare"), Some(WaveShape::HalfSquare)));
    assert!(get_waveshape("nosuchshape").is_none());
    assert!(get_waveshape("").is_none());
}

#[test]
fn pix_construction() {
    let p = Pix::new(1, 2, 3);
    assert_eq!(p.r, 1);
    assert_eq!(p.g, 2);
    assert_eq!(p.b, 3);
    let q: Pix<i64> = Pix::grey(7);
    assert_eq!((q.r, q.g, q.b), (7, 7, 7));
}

#[test]
fn as_hex_scales_channels_to_bytes() {
    let white = Pix::new(FX_ONE, FX_ONE, FX_ONE);
    assert_eq!(white.as_hex(), "$FFFFFF");
    let dark = Pix::new(0, 0, 0);
    assert_eq!(dark.as_hex(), "$000000");
    let mixed = Pix::new(FX_ONE, FX_HALF, 0);
    assert_eq!(mixed.as_hex(), "$FF7F00");
    let below = Pix::new(-FX_ONE, 2 * FX_ONE, FX_ONE / 4);
    assert_eq!(below.as_hex(), "$00FF3F");
}

#[test]
fn pix_lerp_blends_channels() {
    let a = Pix::new(0, 0, FX_ONE);
    let b = Pix::new(FX_ONE, 0, 0);
    let m = a.lerp(&b, FX_HALF);
    assert_eq!((m.r, m.g, m.b), (FX_HALF, 0, FX_HALF));
}

#[test]
fn hsv_round_trip_on_primaries() {
    let red = Pix::from_hsv(0, FX_ONE, FX_ONE);
    assert_eq!((red.r, red.g, red.b), (FX_ONE, 0, 0));
    let green = Pix::from_hsv(FX_ONE / 3 + 1, FX_ONE, FX_ONE);
    assert_eq!(green.g, FX_ONE);
    // pure red reports its hue as a full turn, which is the same angle as 0
    let (h, s, v) = Pix::new(FX_ONE, 0, 0).to_hsv();
    assert_eq!((h, s, v), (FX_ONE, FX_ONE, FX_ONE));
    let (h2, s2, v2) = Pix::new(0, FX_ONE, 0).to_hsv();
    assert_eq!(v2, FX_ONE);
    assert_eq!(s2, FX_ONE);
    // a third of the hue circle, up to fixed-point granularity
    assert!((h2 - FX_ONE / 3).abs() <= 2, "hue {}", h2);
    let grey = Pix::new(FX_HALF, FX_HALF, FX_HALF);
    let (hg, sg, vg) = grey.to_hsv();
    assert_eq!((hg, sg, vg), (0, 0, FX_HALF));
}
