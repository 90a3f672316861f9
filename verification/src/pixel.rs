//! An RGB triple of signals, and the conversions between RGB and HSV.
//!
//! Components are not clamped to `[0, FX_ONE]` by the model; individual
//! kernels may exceed that range, for instance during additive combination.

use vstd::prelude::*;
use vstd::string::StringExecFns;
use crate::fixed::{
    FX_ONE, fx_add, fx_sub, fx_mul, fx_div, fx_max, fx_min, fx_lerp, fx_rem_one,
    sat64, div_trunc, fx_mul_spec, fx_div_spec, fx_lerp_spec, fx_clamp_spec,
};

verus! {

#[derive(Default, Clone, Copy, Debug)]
pub struct Pix<T> {
    pub r: T,
    pub g: T,
    pub b: T,
}

impl<T: Copy> Pix<T> {
    pub fn new(valr: T, valg: T, valb: T) -> (p: Pix<T>)
        ensures
            p.r == valr,
            p.g == valg,
            p.b == valb,
    {
        Pix { r: valr, g: valg, b: valb }
    }

    pub fn grey(val: T) -> (p: Pix<T>)
        ensures
            p.r == val,
            p.g == val,
            p.b == val,
    {
        Pix { r: val, g: val, b: val }
    }
}

/// The hex digit standing for a value in `[0, 16)`.
pub open spec fn hex_char(n: int) -> char {
    if n == 0 {
        '0'
    } else if n == 1 {
        '1'
    } else if n == 2 {
        '2'
    } else if n == 3 {
        '3'
    } else if n == 4 {
        '4'
    } else if n == 5 {
        '5'
    } else if n == 6 {
        '6'
    } else if n == 7 {
        '7'
    } else if n == 8 {
        '8'
    } else if n == 9 {
        '9'
    } else if n == 10 {
        'A'
    } else if n == 11 {
        'B'
    } else if n == 12 {
        'C'
    } else if n == 13 {
        'D'
    } else if n == 14 {
        'E'
    } else {
        'F'
    }
}

/// A signal scaled to an 8-bit channel: 255 times the signal, truncated
/// toward zero and clamped to `[0, 255]`.
pub open spec fn byte_of(c: int) -> int {
    fx_clamp_spec(div_trunc(c * 255, FX_ONE as int), 0, 255)
}

/// Scale one component to its 8-bit channel value.
fn component_byte(c: i64) -> (b: u8)
    ensures
        b == byte_of(c as int),
{
    let p: i128 = (c as i128) * 255;
    let q: i128 = p / (FX_ONE as i128);
    if q < 0 {
        0
    } else if q > 255 {
        255
    } else {
        q as u8
    }
}

/// Append the hex digit for `n` to the string.
fn append_nibble(s: &mut String, n: u8)
    requires
        n < 16,
    ensures
        final(s)@ == old(s)@ + seq![hex_char(n as int)],
{
    match n {
        0 => {
            proof { reveal_strlit("0"); }
            s.append("0");
        },
        1 => {
            proof { reveal_strlit("1"); }
            s.append("1");
        },
        2 => {
            proof { reveal_strlit("2"); }
            s.append("2");
        },
        3 => {
            proof { reveal_strlit("3"); }
            s.append("3");
        },
        4 => {
            proof { reveal_strlit("4"); }
            s.append("4");
        },
        5 => {
            proof { reveal_strlit("5"); }
            s.append("5");
        },
        6 => {
            proof { reveal_strlit("6"); }
            s.append("6");
        },
        7 => {
            proof { reveal_strlit("7"); }
            s.append("7");
        },
        8 => {
            proof { reveal_strlit("8"); }
            s.append("8");
        },
        9 => {
            proof { reveal_strlit("9"); }
            s.append("9");
        },
        10 => {
            proof { reveal_strlit("A"); }
            s.append("A");
        },
        11 => {
            proof { reveal_strlit("B"); }
            s.append("B");
        },
        12 => {
            proof { reveal_strlit("C"); }
            s.append("C");
        },
        13 => {
            proof { reveal_strlit("D"); }
            s.append("D");
        },
        14 => {
            proof { reveal_strlit("E"); }
            s.append("E");
        },
        _ => {
            proof { reveal_strlit("F"); }
            s.append("F");
        },
    }
    proof {
        assert(s@ =~= old(s)@ + seq![hex_char(n as int)]);
    }
}

/// Append the two hex digits of a byte to the string.
fn append_hex_byte(s: &mut String, b: u8)
    ensures
        final(s)@ == old(s)@ + seq![hex_char(b as int / 16), hex_char(b as int % 16)],
{
    append_nibble(s, b / 16);
    append_nibble(s, b % 16);
    proof {
        assert(s@ =~= old(s)@ + seq![hex_char(b as int / 16), hex_char(b as int % 16)]);
    }
}

/// The six characters of the hex form of a color's three channels.
pub open spec fn hex_chars_of(r: int, g: int, b: int) -> Seq<char> {
    seq![
        hex_char(byte_of(r) / 16),
        hex_char(byte_of(r) % 16),
        hex_char(byte_of(g) / 16),
        hex_char(byte_of(g) % 16),
        hex_char(byte_of(b) / 16),
        hex_char(byte_of(b) % 16),
    ]
}

/// The exact result of `to_hsv`: the six-sector hue decomposition of an RGB
/// triple, each part in fixed point. A color whose channels are all equal
/// reports hue and saturation 0.
pub open spec fn to_hsv_spec(r: int, g: int, b: int) -> (int, int, int) {
    let value = if r >= g && r >= b {
        r
    } else if g >= b {
        g
    } else {
        b
    };
    let m = if r <= g && r <= b {
        r
    } else if g <= b {
        g
    } else {
        b
    };
    if value <= 0 {
        (0, 0, 0)
    } else if value == m {
        (0, 0, value)
    } else {
        let sat = fx_div_spec(sat64(value - m), value);
        let hue_raw = if r <= m {
            if g > b {
                sat64(2 * FX_ONE + fx_div_spec(sat64(b - m), sat64(g - m)))
            } else {
                sat64(4 * FX_ONE - fx_div_spec(sat64(g - m), sat64(b - m)))
            }
        } else if g <= m {
            if b > r {
                sat64(4 * FX_ONE + fx_div_spec(sat64(r - m), sat64(b - m)))
            } else {
                sat64(6 * FX_ONE - fx_div_spec(sat64(b - m), sat64(r - m)))
            }
        } else {
            if r >= g {
                fx_div_spec(sat64(g - m), sat64(r - m))
            } else {
                sat64(2 * FX_ONE - fx_div_spec(sat64(r - m), sat64(g - m)))
            }
        };
        (fx_div_spec(hue_raw, 6 * FX_ONE as int), sat, value)
    }
}

/// The exact result of `from_hsv`, by the standard six-sector decomposition;
/// the hue wraps modulo 1.
pub open spec fn from_hsv_spec(hue: int, sat: int, value: int) -> (int, int, int) {
    let chr = fx_mul_spec(value, sat);
    let hp = 6 * (hue % (FX_ONE as int));
    let dev = hp % (2 * FX_ONE as int) - FX_ONE;
    let adev = if dev >= 0 {
        dev
    } else {
        -dev
    };
    let xp = fx_mul_spec(chr, FX_ONE - adev);
    let sector = hp / (FX_ONE as int);
    let m = sat64(value - chr);
    if sector == 0 {
        (sat64(chr + m), sat64(xp + m), m)
    } else if sector == 1 {
        (sat64(xp + m), sat64(chr + m), m)
    } else if sector == 2 {
        (m, sat64(chr + m), sat64(xp + m))
    } else if sector == 3 {
        (m, sat64(xp + m), sat64(chr + m))
    } else if sector == 4 {
        (sat64(xp + m), m, sat64(chr + m))
    } else {
        (sat64(chr + m), m, sat64(xp + m))
    }
}

impl Pix<i64> {
    /// The color as a `$RRGGBB` hex string, each channel scaled to 8 bits.
    pub fn as_hex(&self) -> (s: String)
        ensures
            s@ == seq!['$'] + hex_chars_of(self.r as int, self.g as int, self.b as int),
    {
        let mut s = String::new();
        proof {
            reveal_strlit("$");
        }
        s.append("$");
        append_hex_byte(&mut s, component_byte(self.r));
        append_hex_byte(&mut s, component_byte(self.g));
        append_hex_byte(&mut s, component_byte(self.b));
        proof {
            assert(s@ =~= seq!['$'] + hex_chars_of(self.r as int, self.g as int, self.b as int));
        }
        s
    }

    /// Blend each channel toward the other color's by the fraction `pos`.
    pub fn lerp(&self, other: &Pix<i64>, pos: i64) -> (p: Pix<i64>)
        ensures
            p.r == fx_lerp_spec(self.r as int, other.r as int, pos as int),
            p.g == fx_lerp_spec(self.g as int, other.g as int, pos as int),
            p.b == fx_lerp_spec(self.b as int, other.b as int, pos as int),
    {
        Pix {
            r: fx_lerp(self.r, other.r, pos),
            g: fx_lerp(self.g, other.g, pos),
            b: fx_lerp(self.b, other.b, pos),
        }
    }

    /// The hue, saturation and value of this color.
    pub fn to_hsv(&self) -> (hsv: (i64, i64, i64))
        ensures
            (hsv.0 as int, hsv.1 as int, hsv.2 as int) == to_hsv_spec(
                self.r as int,
                self.g as int,
                self.b as int,
            ),
    {
        let value = fx_max(self.r, fx_max(self.g, self.b));
        let m = fx_min(self.r, fx_min(self.g, self.b));
        if value <= 0 {
            return (0, 0, 0);
        }
        if value == m {
            return (0, 0, value);
        }
        let sat = fx_div(fx_sub(value, m), value);
        let hue_raw: i64;
        if self.r <= m {
            if self.g > self.b {
                hue_raw = fx_add(2 * FX_ONE, fx_div(fx_sub(self.b, m), fx_sub(self.g, m)));
            } else {
                hue_raw = fx_sub(4 * FX_ONE, fx_div(fx_sub(self.g, m), fx_sub(self.b, m)));
            }
        } else if self.g <= m {
            if self.b > self.r {
                hue_raw = fx_add(4 * FX_ONE, fx_div(fx_sub(self.r, m), fx_sub(self.b, m)));
            } else {
                hue_raw = fx_sub(6 * FX_ONE, fx_div(fx_sub(self.b, m), fx_sub(self.r, m)));
            }
        } else {
            if self.r >= self.g {
                hue_raw = fx_div(fx_sub(self.g, m), fx_sub(self.r, m));
            } else {
                hue_raw = fx_sub(2 * FX_ONE, fx_div(fx_sub(self.r, m), fx_sub(self.g, m)));
            }
        }
        (fx_div(hue_raw, 6 * FX_ONE), sat, value)
    }

    /// The color for a hue, saturation and value.
    pub fn from_hsv(hue: i64, sat: i64, value: i64) -> (p: Pix<i64>)
        ensures
            (p.r as int, p.g as int, p.b as int) == from_hsv_spec(
                hue as int,
                sat as int,
                value as int,
            ),
    {
        let chr = fx_mul(value, sat);
        let hp = fx_rem_one(hue) * 6;
        let dev = hp % (2 * FX_ONE) - FX_ONE;
        let adev = if dev >= 0 {
            dev
        } else {
            -dev
        };
        let xp = fx_mul(chr, FX_ONE - adev);
        let sector = hp / FX_ONE;
        let m = fx_sub(value, chr);
        proof {
            vstd::arithmetic::div_mod::lemma_mod_division_less_than_divisor(
                hp as int,
                2 * FX_ONE as int,
            );
        }
        if sector == 0 {
            Pix { r: fx_add(chr, m), g: fx_add(xp, m), b: m }
        } else if sector == 1 {
            Pix { r: fx_add(xp, m), g: fx_add(chr, m), b: m }
        } else if sector == 2 {
            Pix { r: m, g: fx_add(chr, m), b: fx_add(xp, m) }
        } else if sector == 3 {
            Pix { r: m, g: fx_add(xp, m), b: fx_add(chr, m) }
        } else if sector == 4 {
            Pix { r: fx_add(xp, m), g: m, b: fx_add(chr, m) }
        } else {
            Pix { r: fx_add(chr, m), g: m, b: fx_add(xp, m) }
        }
    }
}

} // verus!
