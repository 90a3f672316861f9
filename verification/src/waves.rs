//! The waveform library: pure curves mapping a normalized phase to an
//! intensity in `[0, FX_ONE]`.
//!
//! `Flat` always returns 1.0 and serves as a sentinel meaning "no envelope";
//! every other shape returns 0 outside `[0, 1)` and a shape-specific curve
//! inside it. `Sine` is the piecewise-quadratic raised-cosine bump: the
//! fixed-point stand-in for `0.5 - 0.5*cos(2*pi*pos)`, rising from 0 to its
//! peak of 1 at one half and falling back to 0, exact at 0, 1/4, 1/2, 3/4
//! and 1.

use vstd::prelude::*;
use crate::fixed::{FX_ONE, FX_HALF, fx_mul, fx_mul_spec};

verus! {

#[derive(Debug, Clone, Copy, PartialEq, Eq, Structural)]
pub enum WaveShape {
    Flat,
    Square,
    HalfSquare,
    Triangle,
    Trapezoid,
    SawTooth,
    SqrTooth,
    SawDecay,
    SqrDecay,
    Sine,
}

/// The fixed-point representation of 0.25.
pub const FX_QUARTER: i64 = 16384;

/// The smooth rise from 0 at 0 to a unit at a unit: the quadratic
/// ease-in/ease-out curve `Sine` is built from.
pub open spec fn smooth_rise_spec(q: int) -> int {
    if q < FX_HALF {
        2 * fx_mul_spec(q, q)
    } else {
        FX_ONE - 2 * fx_mul_spec(FX_ONE - q, FX_ONE - q)
    }
}

/// The exact value of `WaveShape::sample` at phase `pos`.
pub open spec fn sample_spec(shape: WaveShape, pos: int) -> int {
    match shape {
        WaveShape::Flat => FX_ONE as int,
        WaveShape::Square => if 0 <= pos < FX_ONE {
            FX_ONE as int
        } else {
            0
        },
        WaveShape::HalfSquare => if 0 <= pos < FX_HALF {
            FX_ONE as int
        } else {
            0
        },
        WaveShape::SawTooth => if 0 <= pos < FX_ONE {
            pos
        } else {
            0
        },
        WaveShape::SqrTooth => if 0 <= pos < FX_ONE {
            fx_mul_spec(pos, pos)
        } else {
            0
        },
        WaveShape::SawDecay => if 0 <= pos < FX_ONE {
            FX_ONE - pos
        } else {
            0
        },
        WaveShape::SqrDecay => if 0 <= pos < FX_ONE {
            fx_mul_spec(FX_ONE - pos, FX_ONE - pos)
        } else {
            0
        },
        WaveShape::Triangle => if 0 <= pos < FX_HALF {
            2 * pos
        } else if FX_HALF <= pos < FX_ONE {
            2 * (FX_ONE - pos)
        } else {
            0
        },
        WaveShape::Trapezoid => if 0 <= pos < FX_QUARTER {
            4 * pos
        } else if 3 * FX_QUARTER <= pos < FX_ONE {
            4 * (FX_ONE - pos)
        } else if FX_QUARTER <= pos < 3 * FX_QUARTER {
            FX_ONE as int
        } else {
            0
        },
        WaveShape::Sine => if 0 <= pos < FX_HALF {
            smooth_rise_spec(2 * pos)
        } else if FX_HALF <= pos < FX_ONE {
            smooth_rise_spec(2 * (FX_ONE - pos))
        } else {
            0
        },
    }
}

/// The smooth rise stays inside `[0, FX_ONE]` on `[0, FX_ONE]`.
proof fn lemma_smooth_rise_range(q: int)
    requires
        0 <= q <= FX_ONE,
    ensures
        0 <= smooth_rise_spec(q) <= FX_ONE,
{
    if q < FX_HALF {
        lemma_unit_square(q, q);
        assert(q * q <= FX_HALF * FX_HALF) by (nonlinear_arith)
            requires
                0 <= q <= FX_HALF,
        ;
    } else {
        lemma_unit_square(FX_ONE - q, FX_ONE - q);
        assert((FX_ONE - q) * (FX_ONE - q) <= FX_HALF * FX_HALF) by (nonlinear_arith)
            requires
                0 <= FX_ONE - q <= FX_HALF,
        ;
    }
}

/// The smooth rise, executably.
fn smooth_rise(q: i64) -> (r: i64)
    requires
        0 <= q <= FX_ONE,
    ensures
        r == smooth_rise_spec(q as int),
        0 <= r <= FX_ONE,
{
    proof {
        lemma_smooth_rise_range(q as int);
    }
    if q < FX_HALF {
        proof {
            lemma_unit_square(q as int, q as int);
            assert((q as int) * q <= FX_HALF * FX_HALF) by (nonlinear_arith)
                requires
                    0 <= q < FX_HALF,
            ;
        }
        fx_mul(q, q) * 2
    } else {
        proof {
            lemma_unit_square(FX_ONE - q, FX_ONE - q);
            assert((FX_ONE - q as int) * (FX_ONE - q as int) <= FX_HALF * FX_HALF)
                by (nonlinear_arith)
                requires
                    0 <= FX_ONE - q <= FX_HALF,
            ;
        }
        FX_ONE - fx_mul(FX_ONE - q, FX_ONE - q) * 2
    }
}

/// The product of two phases in `[0, FX_ONE]` stays in `[0, FX_ONE]`.
proof fn lemma_unit_square(a: int, b: int)
    requires
        0 <= a <= FX_ONE,
        0 <= b <= FX_ONE,
    ensures
        0 <= fx_mul_spec(a, b) <= FX_ONE,
        a * b <= FX_ONE * FX_ONE,
        a * b >= 0,
{
    assert(0 <= a * b <= FX_ONE * FX_ONE) by (nonlinear_arith)
        requires
            0 <= a <= FX_ONE,
            0 <= b <= FX_ONE,
    ;
}

/// Every sampled intensity lies in `[0, FX_ONE]`, for every shape and phase.
pub proof fn lemma_sample_in_range(shape: WaveShape, pos: int)
    ensures
        0 <= sample_spec(shape, pos) <= FX_ONE,
{
    match shape {
        WaveShape::SqrTooth => {
            if 0 <= pos < FX_ONE {
                lemma_unit_square(pos, pos);
            }
        },
        WaveShape::SqrDecay => {
            if 0 <= pos < FX_ONE {
                lemma_unit_square(FX_ONE - pos, FX_ONE - pos);
            }
        },
        WaveShape::Sine => {
            if 0 <= pos < FX_HALF {
                lemma_smooth_rise_range(2 * pos);
            } else if FX_HALF <= pos < FX_ONE {
                lemma_smooth_rise_range(2 * (FX_ONE - pos));
            }
        },
        _ => {},
    }
}

impl WaveShape {
    /// Sample this shape at the given phase.
    pub fn sample(&self, pos: i64) -> (r: i64)
        ensures
            r == sample_spec(*self, pos as int),
            0 <= r <= FX_ONE,
    {
        proof {
            lemma_sample_in_range(*self, pos as int);
        }
        match self {
            WaveShape::Flat => FX_ONE,
            WaveShape::Square => {
                if pos >= 0 && pos < FX_ONE {
                    FX_ONE
                } else {
                    0
                }
            },
            WaveShape::HalfSquare => {
                if pos >= 0 && pos < FX_HALF {
                    FX_ONE
                } else {
                    0
                }
            },
            WaveShape::SawTooth => {
                if pos >= 0 && pos < FX_ONE {
                    pos
                } else {
                    0
                }
            },
            WaveShape::SqrTooth => {
                if pos >= 0 && pos < FX_ONE {
                    fx_mul(pos, pos)
                } else {
                    0
                }
            },
            WaveShape::SawDecay => {
                if pos >= 0 && pos < FX_ONE {
                    FX_ONE - pos
                } else {
                    0
                }
            },
            WaveShape::SqrDecay => {
                if pos >= 0 && pos < FX_ONE {
                    fx_mul(FX_ONE - pos, FX_ONE - pos)
                } else {
                    0
                }
            },
            WaveShape::Triangle => {
                if pos >= 0 && pos < FX_HALF {
                    pos * 2
                } else if pos >= FX_HALF && pos < FX_ONE {
                    (FX_ONE - pos) * 2
                } else {
                    0
                }
            },
            WaveShape::Trapezoid => {
                if pos >= 0 && pos < FX_QUARTER {
                    pos * 4
                } else if pos >= 3 * FX_QUARTER && pos < FX_ONE {
                    (FX_ONE - pos) * 4
                } else if pos >= FX_QUARTER && pos < 3 * FX_QUARTER {
                    FX_ONE
                } else {
                    0
                }
            },
            WaveShape::Sine => {
                if pos >= 0 && pos < FX_HALF {
                    smooth_rise(pos * 2)
                } else if pos >= FX_HALF && pos < FX_ONE {
                    smooth_rise((FX_ONE - pos) * 2)
                } else {
                    0
                }
            },
        }
    }
}

} // verus!
