//! Node definitions and per-node persistent state.
//!
//! A definition is a tagged variant naming the node's kind with its
//! parameters; child references live beside it in the graph (see `script`).
//! A state slot is created once when an engine instance is built, from the
//! definition's kind alone, and never recreated afterward.

use vstd::prelude::*;
use crate::fixed::{
    FX_ONE, sat64, div_trunc, fx_mul_spec, fx_lerp_spec, fx_clamp_spec, fx_add, fx_sub, fx_mul,
    fx_clamp, fx_lerp, fx_floor_index, fx_rem_one, wrap_index, fx_pixel_pos, MAX_PIXELS, pow2,
    pix_pos, FX_HALF, fx_div_spec, fx_div,
};
use crate::pixel::Pix;
use crate::waves::WaveShape;
use crate::param::{Param, live_param};
use crate::pulser::{Pulser, PulserState};
use crate::rng::ScriptRng;

verus! {

pub enum Op1Def {
    Constant(i64),
    Param(Param),
    Wave(WaveShape, Param, Param, Param, Param),  // wave, min, max, pos, width
    WaveCycle(WaveShape, Param, Param, Param, Param),  // wave, min, max, pos, period
    Invert(),  // op1
    Pulser(Pulser),
    Decay(Param),  // halflife; op1
    TimeDelta(),  // op1
    Brightness(),  // op3
    Gradient(Vec<i64>),  // stops; op1
    Mul(),  // op1, op1
    Sum(),  // op1...
    Mean(),  // op1...
    Min(),  // op1...
    Max(),  // op1...
    Clamp(Param, Param),  // min, max; op1
    Shift(Param),  // offset; op1
    ShiftDecay(Param, Param),  // offset, halflife; op1
    Noise(usize, usize, Param, Param),  // grain, octaves, offset, max
}

pub enum Op3Def {
    Constant(Pix<i64>),
    Invert(),  // op3
    Grey(),  // op1
    RGB(),  // op1, op1, op1
    HSV(),  // op1, op1, op1
    HSVToRGB(),  // op3
    RGBToHSV(),  // op3
    Gradient(Vec<Pix<i64>>),  // stops; op1
    PGradient(Vec<GradStop>),  // stops; op1
    MulS(),  // op3, op1
    Sum(),  // op3...
    Mean(),  // op3...
    Min(),  // op3...
    Max(),  // op3...
    Lerp(),  // op3, op3, op1
    Mask(Param),  // op3, op3, op1
    Shift(Param),  // offset; op3
}

/// One stop of a positional gradient.
#[derive(Debug)]
pub struct GradStop {
    pub pos: i64,
    pub color: Pix<i64>,
}

/// The immutable tables of a noise node: one shuffled ramp per octave, and
/// the rescaling factor that keeps the octave series inside the node's
/// amplitude.
pub struct NoiseState {
    pub seeds: Vec<Vec<i64>>,
    pub fudgemax: i64,
}

pub enum Op1State {
    NoState,
    Pulser(PulserState),
    Decay(Vec<i64>),
    TimeDelta(Vec<i64>),
    Noise(NoiseState),
}

pub enum Op3State {
    NoState,
}

impl Op1Def {
    /// Every parameter the definition carries can be used by its kernel.
    pub open spec fn params_ok(self) -> bool {
        match self {
            Op1Def::Param(p) => live_param(p),
            Op1Def::Wave(_, mn, mx, pos, width) => {
                live_param(mn) && live_param(mx) && live_param(pos) && live_param(width)
            },
            Op1Def::WaveCycle(_, mn, mx, pos, per) => {
                live_param(mn) && live_param(mx) && live_param(pos) && live_param(per)
            },
            Op1Def::Pulser(pulser) => pulser.wf(),
            Op1Def::Decay(halflife) => live_param(halflife),
            Op1Def::Clamp(mn, mx) => live_param(mn) && live_param(mx),
            Op1Def::Shift(offset) => live_param(offset),
            Op1Def::ShiftDecay(offset, halflife) => live_param(offset) && live_param(halflife),
            Op1Def::Noise(_, _, offset, mx) => live_param(offset) && live_param(mx),
            _ => true,
        }
    }
}

impl Op3Def {
    /// Every parameter the definition carries can be used by its kernel.
    pub open spec fn params_ok(self) -> bool {
        match self {
            Op3Def::Mask(threshold) => live_param(threshold),
            Op3Def::Shift(offset) => live_param(offset),
            _ => true,
        }
    }
}

/// A copy of a scalar buffer.
pub fn kernel_copy(src: &Vec<i64>) -> (r: Vec<i64>)
    ensures
        r@ == src@,
{
    let mut r: Vec<i64> = Vec::new();
    let mut i: usize = 0;
    while i < src.len()
        invariant
            i <= src@.len(),
            r@ =~= src@.take(i as int),
        decreases src@.len() - i,
    {
        r.push(src[i]);
        i = i + 1;
    }
    proof {
        assert(src@.take(src@.len() as int) =~= src@);
    }
    r
}

/// Each pixel inverted against 1.
pub fn kernel_invert(obuf: &Vec<i64>) -> (r: Vec<i64>)
    ensures
        r@.len() == obuf@.len(),
        forall|i: int| 0 <= i < obuf@.len() ==> r@[i] == sat64(FX_ONE - obuf@[i]),
{
    let mut r: Vec<i64> = Vec::new();
    let mut i: usize = 0;
    while i < obuf.len()
        invariant
            i <= obuf@.len(),
            r@.len() == i,
            forall|j: int| 0 <= j < i ==> r@[j] == sat64(FX_ONE - obuf@[j]),
        decreases obuf@.len() - i,
    {
        r.push(fx_sub(FX_ONE, obuf[i]));
        i = i + 1;
    }
    r
}

/// The pixelwise product of two scalar buffers.
pub fn kernel_mul(a: &Vec<i64>, b: &Vec<i64>) -> (r: Vec<i64>)
    requires
        a@.len() == b@.len(),
    ensures
        r@.len() == a@.len(),
        forall|i: int| 0 <= i < a@.len() ==> r@[i] == fx_mul_spec(a@[i] as int, b@[i] as int),
{
    let mut r: Vec<i64> = Vec::new();
    let mut i: usize = 0;
    while i < a.len()
        invariant
            i <= a@.len(),
            a@.len() == b@.len(),
            r@.len() == i,
            forall|j: int| 0 <= j < i ==> r@[j] == fx_mul_spec(a@[j] as int, b@[j] as int),
        decreases a@.len() - i,
    {
        r.push(fx_mul(a[i], b[i]));
        i = i + 1;
    }
    r
}

/// Add a child buffer into the accumulator, pixel by pixel.
pub fn kernel_accumulate(acc: &mut Vec<i64>, o: &Vec<i64>)
    requires
        old(acc)@.len() == o@.len(),
    ensures
        final(acc)@.len() == o@.len(),
        forall|i: int| 0 <= i < o@.len() ==> final(acc)@[i] == sat64(old(acc)@[i] + o@[i]),
{
    let mut i: usize = 0;
    while i < o.len()
        invariant
            i <= o@.len(),
            acc@.len() == o@.len(),
            forall|j: int| 0 <= j < i ==> acc@[j] == sat64(old(acc)@[j] + o@[j]),
            forall|j: int| i <= j < o@.len() ==> acc@[j] == old(acc)@[j],
        decreases o@.len() - i,
    {
        let v = fx_add(acc[i], o[i]);
        acc.set(i, v);
        i = i + 1;
    }
}

/// Divide the accumulator by the child count, pixel by pixel.
pub fn kernel_scale_down(acc: &mut Vec<i64>, n: usize)
    requires
        1 <= n <= 0x7fffffff,
    ensures
        final(acc)@.len() == old(acc)@.len(),
        forall|i: int|
            0 <= i < old(acc)@.len() ==> final(acc)@[i] == div_trunc(old(acc)@[i] as int, n as int),
{
    let nn = n as i64;
    let mut i: usize = 0;
    while i < acc.len()
        invariant
            nn == n,
            1 <= n <= 0x7fffffff,
            i <= acc@.len(),
            acc@.len() == old(acc)@.len(),
            forall|j: int| 0 <= j < i ==> acc@[j] == div_trunc(old(acc)@[j] as int, n as int),
            forall|j: int| i <= j < acc@.len() ==> acc@[j] == old(acc)@[j],
        decreases acc@.len() - i,
    {
        let v = acc[i] / nn;
        acc.set(i, v);
        i = i + 1;
    }
}

/// Keep the smaller of the accumulator and the child, pixel by pixel.
pub fn kernel_acc_min(acc: &mut Vec<i64>, o: &Vec<i64>)
    requires
        old(acc)@.len() == o@.len(),
    ensures
        final(acc)@.len() == o@.len(),
        forall|i: int|
            0 <= i < o@.len() ==> final(acc)@[i] == if old(acc)@[i] <= o@[i] {
                old(acc)@[i]
            } else {
                o@[i]
            },
{
    let mut i: usize = 0;
    while i < o.len()
        invariant
            i <= o@.len(),
            acc@.len() == o@.len(),
            forall|j: int|
                0 <= j < i ==> acc@[j] == if old(acc)@[j] <= o@[j] {
                    old(acc)@[j]
                } else {
                    o@[j]
                },
            forall|j: int| i <= j < o@.len() ==> acc@[j] == old(acc)@[j],
        decreases o@.len() - i,
    {
        if o[i] < acc[i] {
            let v = o[i];
            acc.set(i, v);
        }
        i = i + 1;
    }
}

/// Keep the larger of the accumulator and the child, pixel by pixel.
pub fn kernel_acc_max(acc: &mut Vec<i64>, o: &Vec<i64>)
    requires
        old(acc)@.len() == o@.len(),
    ensures
        final(acc)@.len() == o@.len(),
        forall|i: int|
            0 <= i < o@.len() ==> final(acc)@[i] == if old(acc)@[i] >= o@[i] {
                old(acc)@[i]
            } else {
                o@[i]
            },
{
    let mut i: usize = 0;
    while i < o.len()
        invariant
            i <= o@.len(),
            acc@.len() == o@.len(),
            forall|j: int|
                0 <= j < i ==> acc@[j] == if old(acc)@[j] >= o@[j] {
                    old(acc)@[j]
                } else {
                    o@[j]
                },
            forall|j: int| i <= j < o@.len() ==> acc@[j] == old(acc)@[j],
        decreases o@.len() - i,
    {
        if o[i] > acc[i] {
            let v = o[i];
            acc.set(i, v);
        }
        i = i + 1;
    }
}

/// Each pixel clamped to `[mn, mx]`.
pub fn kernel_clamp(obuf: &Vec<i64>, mn: i64, mx: i64) -> (r: Vec<i64>)
    ensures
        r@.len() == obuf@.len(),
        forall|i: int| 0 <= i < obuf@.len() ==> r@[i] == fx_clamp_spec(obuf@[i] as int, mn as int, mx as int),
{
    let mut r: Vec<i64> = Vec::new();
    let mut i: usize = 0;
    while i < obuf.len()
        invariant
            i <= obuf@.len(),
            r@.len() == i,
            forall|j: int| 0 <= j < i ==> r@[j] == fx_clamp_spec(obuf@[j] as int, mn as int, mx as int),
        decreases obuf@.len() - i,
    {
        r.push(fx_clamp(obuf[i], mn, mx));
        i = i + 1;
    }
    r
}

/// The decayed value of one pixel: the input, or the held history value
/// decayed by the multiplier, whichever is larger.
pub open spec fn decay_spec(input: int, held: int, decaymul: int) -> int {
    if input >= fx_mul_spec(held, decaymul) {
        input
    } else {
        fx_mul_spec(held, decaymul)
    }
}

/// The exponential follow-and-hold filter: each pixel becomes the larger of
/// the input and the held value decayed by `decaymul`; the result is the
/// new history.
pub fn kernel_decay(obuf: &Vec<i64>, hist: &Vec<i64>, decaymul: i64) -> (r: Vec<i64>)
    requires
        obuf@.len() == hist@.len(),
    ensures
        r@.len() == obuf@.len(),
        forall|i: int|
            0 <= i < obuf@.len() ==> r@[i] == decay_spec(obuf@[i] as int, hist@[i] as int, decaymul as int),
{
    let mut r: Vec<i64> = Vec::new();
    let mut i: usize = 0;
    while i < obuf.len()
        invariant
            i <= obuf@.len(),
            obuf@.len() == hist@.len(),
            r@.len() == i,
            forall|j: int|
                0 <= j < i ==> r@[j] == decay_spec(obuf@[j] as int, hist@[j] as int, decaymul as int),
        decreases obuf@.len() - i,
    {
        let decayed = fx_mul(hist[i], decaymul);
        if obuf[i] >= decayed {
            let v = obuf[i];
            r.push(v);
        } else {
            r.push(decayed);
        }
        i = i + 1;
    }
    r
}

/// Each pixel's change since the previous frame's input.
pub fn kernel_time_delta(obuf: &Vec<i64>, hist: &Vec<i64>) -> (r: Vec<i64>)
    requires
        obuf@.len() == hist@.len(),
    ensures
        r@.len() == obuf@.len(),
        forall|i: int| 0 <= i < obuf@.len() ==> r@[i] == sat64(obuf@[i] - hist@[i]),
{
    let mut r: Vec<i64> = Vec::new();
    let mut i: usize = 0;
    while i < obuf.len()
        invariant
            i <= obuf@.len(),
            obuf@.len() == hist@.len(),
            r@.len() == i,
            forall|j: int| 0 <= j < i ==> r@[j] == sat64(obuf@[j] - hist@[j]),
        decreases obuf@.len() - i,
    {
        r.push(fx_sub(obuf[i], hist[i]));
        i = i + 1;
    }
    r
}

/// The wrapped, linearly interpolated sample of a buffer at the position
/// `ix - offset * len`, in pixel units.
pub open spec fn shift_sample_spec(o: Seq<i64>, offset: int, ix: int) -> int
    recommends
        o.len() > 0,
{
    let pos = sat64(ix * FX_ONE - fx_mul_spec(offset, o.len() * FX_ONE));
    let seg = pos / (FX_ONE as int);
    let frac = pos % (FX_ONE as int);
    fx_lerp_spec(o[seg % (o.len() as int)] as int, o[(seg + 1) % (o.len() as int)] as int, frac)
}

/// Each pixel sampled from the child at a wrapped, interpolated offset.
pub fn kernel_shift(obuf: &Vec<i64>, offset: i64) -> (r: Vec<i64>)
    requires
        0 < obuf@.len() <= MAX_PIXELS,
    ensures
        r@.len() == obuf@.len(),
        forall|i: int| 0 <= i < obuf@.len() ==> r@[i] == shift_sample_spec(obuf@, offset as int, i),
{
    let len = obuf.len();
    let lenfx = (len as i64) * FX_ONE;
    let shift = fx_mul(offset, lenfx);
    let mut r: Vec<i64> = Vec::new();
    let mut i: usize = 0;
    while i < len
        invariant
            i <= len,
            len == obuf@.len(),
            0 < len <= MAX_PIXELS,
            shift == fx_mul_spec(offset as int, len * (FX_ONE as int)),
            r@.len() == i,
            forall|j: int| 0 <= j < i ==> r@[j] == shift_sample_spec(obuf@, offset as int, j),
        decreases len - i,
    {
        let ixfx = (i as i64) * FX_ONE;
        let pos = fx_sub(ixfx, shift);
        let seg = fx_floor_index(pos);
        let frac = fx_rem_one(pos);
        let i1 = wrap_index(seg, len as i64) as usize;
        let i2 = wrap_index(seg + 1, len as i64) as usize;
        r.push(fx_lerp(obuf[i1], obuf[i2], frac));
        i = i + 1;
    }
    r
}

/// The drifting decay filter: each pixel becomes the larger of the input
/// and the history sampled at a wrapped, interpolated offset and decayed by
/// the multiplier; the result is the new history.
///
/// The history is sampled wholly from the previous frame's snapshot, so
/// the drift treats a pulse's leading and trailing edges alike. Whether
/// the drift ought to bias one edge against the other is an open question
/// for a domain owner; until it is settled, this filter deliberately keeps
/// both edges symmetric, rather than letting the shifted read overlap the
/// frame's own writes, which would bias them.
pub fn kernel_shift_decay(obuf: &Vec<i64>, hist: &Vec<i64>, offset: i64, decaymul: i64) -> (r: Vec<
    i64,
>)
    requires
        obuf@.len() == hist@.len(),
        0 < obuf@.len() <= MAX_PIXELS,
    ensures
        r@.len() == obuf@.len(),
        forall|i: int|
            0 <= i < obuf@.len() ==> r@[i] == decay_spec(
                obuf@[i] as int,
                shift_sample_spec(hist@, offset as int, i),
                decaymul as int,
            ),
{
    let len = obuf.len();
    let lenfx = (len as i64) * FX_ONE;
    let shift = fx_mul(offset, lenfx);
    let mut r: Vec<i64> = Vec::new();
    let mut i: usize = 0;
    while i < len
        invariant
            i <= len,
            len == obuf@.len(),
            len == hist@.len(),
            0 < len <= MAX_PIXELS,
            shift == fx_mul_spec(offset as int, len * (FX_ONE as int)),
            r@.len() == i,
            forall|j: int|
                0 <= j < i ==> r@[j] == decay_spec(
                    obuf@[j] as int,
                    shift_sample_spec(hist@, offset as int, j),
                    decaymul as int,
                ),
        decreases len - i,
    {
        let ixfx = (i as i64) * FX_ONE;
        let pos = fx_sub(ixfx, shift);
        let seg = fx_floor_index(pos);
        let frac = fx_rem_one(pos);
        let i1 = wrap_index(seg, len as i64) as usize;
        let i2 = wrap_index(seg + 1, len as i64) as usize;
        let lastval = fx_lerp(hist[i1], hist[i2], frac);
        let decayed = fx_mul(lastval, decaymul);
        if obuf[i] >= decayed {
            let v = obuf[i];
            r.push(v);
        } else {
            r.push(decayed);
        }
        i = i + 1;
    }
    r
}

/// A scalar mapped through an evenly spaced gradient: clamped to the first
/// stop below zero and to the last past the end, linearly interpolated
/// between adjacent stops otherwise.
pub open spec fn gradient1_spec(stops: Seq<i64>, v: int) -> int {
    let count = stops.len() as int;
    if count == 0 {
        0
    } else if count == 1 {
        stops[0] as int
    } else if v < 0 {
        stops[0] as int
    } else {
        let val = fx_mul_spec(v, (count - 1) * (FX_ONE as int));
        let seg = val / (FX_ONE as int);
        let frac = val % (FX_ONE as int);
        if seg >= count - 1 {
            stops[count - 1] as int
        } else {
            fx_lerp_spec(stops[seg] as int, stops[seg + 1] as int, frac)
        }
    }
}

/// Each pixel mapped through an evenly spaced scalar gradient.
pub fn kernel_gradient(obuf: &Vec<i64>, stops: &Vec<i64>) -> (r: Vec<i64>)
    requires
        stops@.len() <= MAX_PIXELS,
    ensures
        r@.len() == obuf@.len(),
        forall|i: int| 0 <= i < obuf@.len() ==> r@[i] == gradient1_spec(stops@, obuf@[i] as int),
{
    let count = stops.len();
    let mut r: Vec<i64> = Vec::new();
    let mut i: usize = 0;
    while i < obuf.len()
        invariant
            i <= obuf@.len(),
            count == stops@.len(),
            count <= MAX_PIXELS,
            r@.len() == i,
            forall|j: int| 0 <= j < i ==> r@[j] == gradient1_spec(stops@, obuf@[j] as int),
        decreases obuf@.len() - i,
    {
        if count == 0 {
            r.push(0);
        } else if count == 1 {
            r.push(stops[0]);
        } else {
            let v = obuf[i];
            if v < 0 {
                r.push(stops[0]);
            } else {
                let val = fx_mul(v, ((count - 1) as i64) * FX_ONE);
                let seg = fx_floor_index(val);
                let frac = fx_rem_one(val);
                if seg >= (count - 1) as i64 {
                    r.push(stops[count - 1]);
                } else {
                    proof {
                        vstd::arithmetic::div_mod::lemma_div_pos_is_pos(val as int, FX_ONE as int);
                    }
                    let segu = seg as usize;
                    r.push(fx_lerp(stops[segu], stops[segu + 1], frac));
                }
            }
        }
        i = i + 1;
    }
    r
}

/// The evenly spaced ramp of `n` table entries: entry `i` holds `i / n`.
pub open spec fn ramp(n: int) -> Seq<i64>
    recommends
        n > 0,
{
    Seq::new(n as nat, |i: int| ((i * FX_ONE) / n) as i64)
}

/// Swapping two entries of a sequence leaves its multiset unchanged.
proof fn lemma_swap_multiset(s: Seq<i64>, i: int, j: int)
    requires
        0 <= i < s.len(),
        0 <= j < s.len(),
    ensures
        s.update(i, s[j]).update(j, s[i]).to_multiset() == s.to_multiset(),
{
    broadcast use vstd::seq_lib::to_multiset_update;
    broadcast use vstd::multiset::group_multiset_axioms;
    broadcast use vstd::multiset::group_multiset_properties;

    if i == j {
        assert(s.update(i, s[j]).update(j, s[i]) =~= s);
    } else {
        let s1 = s.update(i, s[j]);
        let s2 = s1.update(j, s[i]);
        assert(s1[j] == s[j]);
        assert(s2.to_multiset() == s.to_multiset().insert(s[j]).remove(s[i]).insert(
            s[i],
        ).remove(s[j]));
        s.to_multiset_ensures();
        assert(s.to_multiset().count(s[i]) > 0) by {
            assert(s.contains(s[i]));
        }
        assert(s.to_multiset().count(s[j]) > 0) by {
            assert(s.contains(s[j]));
        }
        assert(s2.to_multiset() =~= s.to_multiset());
    }
}

impl NoiseState {
    /// Every octave table is nonempty, fits the index range, and holds
    /// values in `[0, FX_ONE)`.
    pub open spec fn wf(self) -> bool {
        forall|k: int|
            0 <= k < self.seeds@.len() ==> {
                &&& 0 < (#[trigger] self.seeds@[k])@.len() <= MAX_PIXELS
                &&& forall|i: int|
                    0 <= i < self.seeds@[k]@.len() ==> 0 <= #[trigger] self.seeds@[k]@[i] < FX_ONE
            }
    }

    /// Build the octave tables: for octave `k`, `grain * 2^k` entries
    /// holding `i / n`, then shuffled by pairwise swaps with uniformly
    /// chosen indices. The rescaling factor is `0.5 / (1 - 2^-octaves)`.
    pub fn new(grain: usize, octaves: usize, rng: &mut ScriptRng) -> (s: NoiseState)
        requires
            1 <= grain,
            octaves <= 16,
            grain * pow2(octaves as nat) <= MAX_PIXELS,
        ensures
            s.wf(),
            s.seeds@.len() == octaves,
            forall|k: int|
                0 <= k < octaves ==> (#[trigger] s.seeds@[k])@.len() == grain * pow2(k as nat),
            forall|k: int|
                0 <= k < octaves ==> (#[trigger] s.seeds@[k])@.to_multiset() == ramp(
                    s.seeds@[k]@.len() as int,
                ).to_multiset(),
            octaves == 0 ==> s.fudgemax == FX_ONE,
            octaves >= 1 ==> s.fudgemax == fx_div_spec(
                FX_HALF as int,
                FX_ONE - (FX_ONE as int) / pow2(octaves as nat),
            ),
    {
        let mut seeds: Vec<Vec<i64>> = Vec::new();
        if octaves == 0 {
            return NoiseState { seeds, fudgemax: FX_ONE };
        }
        proof {
            crate::fixed::lemma_pow2_pos(octaves as nat);
            assert(grain * 1 <= grain * pow2(octaves as nat)) by (nonlinear_arith)
                requires
                    1 <= pow2(octaves as nat),
                    1 <= grain,
            ;
        }
        let mut ograin: usize = grain;
        let mut ofudge: i64 = FX_ONE;
        let mut oct: usize = 0;
        while oct < octaves
            invariant
                1 <= grain,
                octaves <= 16,
                grain * pow2(octaves as nat) <= MAX_PIXELS,
                oct <= octaves,
                ograin == grain * pow2(oct as nat),
                0 < ograin <= MAX_PIXELS,
                ofudge == (FX_ONE as int) / pow2(oct as nat),
                0 <= ofudge <= FX_ONE,
                seeds@.len() == oct,
                forall|k: int|
                    0 <= k < oct ==> (#[trigger] seeds@[k])@.len() == grain * pow2(k as nat) && 0
                        < seeds@[k]@.len() <= MAX_PIXELS,
                forall|k: int|
                    0 <= k < oct ==> forall|i: int|
                        0 <= i < (#[trigger] seeds@[k])@.len() ==> 0 <= #[trigger] seeds@[k]@[i]
                            < FX_ONE,
                forall|k: int|
                    0 <= k < oct ==> (#[trigger] seeds@[k])@.to_multiset() == ramp(
                        seeds@[k]@.len() as int,
                    ).to_multiset(),
            decreases octaves - oct,
        {
            let mut seed: Vec<i64> = Vec::new();
            let mut i: usize = 0;
            let og64 = ograin as i64;
            while i < ograin
                invariant
                    i <= ograin,
                    0 < ograin <= MAX_PIXELS,
                    og64 == ograin,
                    seed@.len() == i,
                    seed@ =~= ramp(og64 as int).take(i as int),
                    forall|j: int| 0 <= j < i ==> 0 <= #[trigger] seed@[j] < FX_ONE,
                decreases ograin - i,
            {
                proof {
                    assert((i as int) * (FX_ONE as int) < (ograin as int) * (FX_ONE as int))
                        by (nonlinear_arith)
                        requires
                            i < ograin,
                    ;
                    vstd::arithmetic::div_mod::lemma_div_pos_is_pos(
                        (i as int) * (FX_ONE as int),
                        ograin as int,
                    );
                    vstd::arithmetic::div_mod::lemma_multiply_divide_lt(
                        (i as int) * (FX_ONE as int),
                        ograin as int,
                        FX_ONE as int,
                    );
                    assert((i as int) * (FX_ONE as int) < (ograin as int) * (FX_ONE as int))
                        by (nonlinear_arith)
                        requires
                            i < ograin,
                    ;
                }
                seed.push(((i as i64) * FX_ONE) / og64);
                i = i + 1;
                proof {
                    assert(seed@ =~= ramp(og64 as int).take(i as int));
                }
            }
            proof {
                assert(ramp(og64 as int).take(ograin as int) =~= ramp(og64 as int));
            }
            let mut ix: usize = 0;
            while ix < ograin
                invariant
                    ix <= ograin,
                    0 < ograin <= MAX_PIXELS,
                    og64 == ograin,
                    seed@.len() == ograin,
                    seed@.to_multiset() == ramp(og64 as int).to_multiset(),
                    forall|j: int| 0 <= j < ograin ==> 0 <= #[trigger] seed@[j] < FX_ONE,
                decreases ograin - ix,
            {
                let jx = rng.gen_index(ograin);
                let ghost before = seed@;
                let a = seed[ix];
                let b = seed[jx];
                seed.set(ix, b);
                seed.set(jx, a);
                proof {
                    lemma_swap_multiset(before, ix as int, jx as int);
                    assert(seed@ =~= before.update(ix as int, b).update(jx as int, a));
                }
                ix = ix + 1;
            }
            seeds.push(seed);
            proof {
                assert(pow2((oct + 1) as nat) == 2 * pow2(oct as nat));
                lemma_pow2_monotone((oct + 1) as nat, octaves as nat);
                crate::fixed::lemma_pow2_pos(oct as nat);
                assert(grain * pow2((oct + 1) as nat) == 2 * (grain * pow2(oct as nat)))
                    by (nonlinear_arith)
                    requires
                        pow2((oct + 1) as nat) == 2 * pow2(oct as nat),
                ;
                assert(grain * pow2(octaves as nat) >= grain * pow2((oct + 1) as nat))
                    by (nonlinear_arith)
                    requires
                        pow2(octaves as nat) >= pow2((oct + 1) as nat),
                        grain >= 1,
                ;
                vstd::arithmetic::div_mod::lemma_div_denominator(
                    FX_ONE as int,
                    pow2(oct as nat),
                    2,
                );
                assert(pow2(oct as nat) * 2 == 2 * pow2(oct as nat)) by (nonlinear_arith);
                vstd::arithmetic::div_mod::lemma_div_pos_is_pos(FX_ONE as int, pow2((oct + 1) as nat));
                crate::fixed::lemma_pow2_pos((oct + 1) as nat);
            }
            ograin = ograin * 2;
            ofudge = ofudge / 2;
            oct = oct + 1;
        }
        proof {
            lemma_pow2_monotone(1, octaves as nat);
            assert((FX_ONE as int) / pow2(octaves as nat) <= (FX_ONE as int) / 2) by {
                vstd::arithmetic::div_mod::lemma_div_is_ordered_by_denominator(
                    FX_ONE as int,
                    2,
                    pow2(octaves as nat),
                );
            }
        }
        let fudgemax = fx_div(FX_HALF, FX_ONE - ofudge);
        NoiseState { seeds, fudgemax }
    }
}

/// Splitting an exponent splits the power.
proof fn lemma_pow2_add(a: nat, b: nat)
    ensures
        pow2(a + b) == pow2(a) * pow2(b),
    decreases b,
{
    if b == 0 {
        assert(pow2(a) * 1 == pow2(a)) by (nonlinear_arith);
    } else {
        lemma_pow2_add(a, (b - 1) as nat);
        assert(pow2(a + b) == 2 * pow2((a + (b - 1) as nat)));
        assert(2 * (pow2(a) * pow2((b - 1) as nat)) == pow2(a) * (2 * pow2((b - 1) as nat)))
            by (nonlinear_arith);
    }
}

/// A table that already exceeds half the pixel bound before its last
/// doubling will exceed the bound.
pub proof fn lemma_grain_overflow(grain: int, k: nat, octaves: nat, m: int)
    requires
        grain >= 1,
        k < octaves,
        m == grain * pow2(k),
        m > MAX_PIXELS / 2,
    ensures
        grain * pow2(octaves) > MAX_PIXELS,
{
    lemma_pow2_add(k, (octaves - k) as nat);
    crate::fixed::lemma_pow2_pos(((octaves - k) - 1) as nat);
    assert(pow2((octaves - k) as nat) >= 2) by {
        assert(pow2((octaves - k) as nat) == 2 * pow2(((octaves - k) - 1) as nat));
    }
    assert(grain * pow2(octaves) == m * pow2((octaves - k) as nat)) by (nonlinear_arith)
        requires
            pow2(octaves) == pow2(k) * pow2((octaves - k) as nat),
            m == grain * pow2(k),
    ;
    assert(m * pow2((octaves - k) as nat) >= m * 2) by (nonlinear_arith)
        requires
            m >= 1,
            pow2((octaves - k) as nat) >= 2,
    ;
}

/// Powers of two grow with the exponent.
proof fn lemma_pow2_monotone(a: nat, b: nat)
    requires
        a <= b,
    ensures
        pow2(a) <= pow2(b),
    decreases b,
{
    if a < b {
        lemma_pow2_monotone(a, (b - 1) as nat);
        crate::fixed::lemma_pow2_pos((b - 1) as nat);
    }
}

/// One octave's interpolated table value at pixel `ix`: the table sampled
/// at `(ix/size - offset) * grain`, smoothstepped between adjacent entries.
pub open spec fn noise_octave_val(seed: Seq<i64>, offset: int, size: int, ix: int) -> int
    recommends
        seed.len() > 0,
{
    let grain = seed.len() as int;
    let basepos = fx_mul_spec(sat64(pix_pos(ix, size) - offset), grain * (FX_ONE as int));
    let seg = basepos / (FX_ONE as int);
    let frac = basepos % (FX_ONE as int);
    let smoothfrac = fx_mul_spec(fx_mul_spec(frac, frac), 3 * FX_ONE - 2 * frac);
    fx_lerp_spec(seed[seg % grain] as int, seed[(seg + 1) % grain] as int, smoothfrac)
}

/// The multi-octave accumulation from octave `k` on, starting from the
/// running sum `acc` with the current octave amplitude `omax`, which halves
/// from octave to octave.
pub open spec fn noise_fold(
    seeds: Seq<Vec<i64>>,
    k: int,
    acc: int,
    omax: int,
    offset: int,
    size: int,
    ix: int,
) -> int
    decreases seeds.len() - k,
{
    if k < 0 || k >= seeds.len() {
        acc
    } else {
        noise_fold(
            seeds,
            k + 1,
            sat64(acc + fx_mul_spec(noise_octave_val(seeds[k]@, offset, size, ix), omax)),
            div_trunc(omax, 2),
            offset,
            size,
            ix,
        )
    }
}

/// Multi-octave value noise: each pixel accumulates every octave table's
/// smoothstepped sample, each octave at half the previous amplitude,
/// scaled from `maxv` by the state's rescaling factor.
pub fn kernel_noise(state: &NoiseState, offset: i64, maxv: i64, size: usize) -> (r: Vec<i64>)
    requires
        state.wf(),
        0 < size <= MAX_PIXELS,
    ensures
        r@.len() == size,
        forall|i: int|
            0 <= i < size ==> r@[i] == noise_fold(
                state.seeds@,
                0,
                0,
                fx_mul_spec(maxv as int, state.fudgemax as int),
                offset as int,
                size as int,
                i,
            ),
{
    let mut r: Vec<i64> = Vec::new();
    let mut i: usize = 0;
    let octaves = state.seeds.len();
    while i < size
        invariant
            i <= size,
            0 < size <= MAX_PIXELS,
            state.wf(),
            octaves == state.seeds@.len(),
            r@.len() == i,
            forall|j: int|
                0 <= j < i ==> r@[j] == noise_fold(
                    state.seeds@,
                    0,
                    0,
                    fx_mul_spec(maxv as int, state.fudgemax as int),
                    offset as int,
                    size as int,
                    j,
                ),
        decreases size - i,
    {
        let mut acc: i64 = 0;
        let mut omax = fx_mul(maxv, state.fudgemax);
        let mut oct: usize = 0;
        while oct < octaves
            invariant
                oct <= octaves,
                0 < size <= MAX_PIXELS,
                i < size,
                state.wf(),
                octaves == state.seeds@.len(),
                noise_fold(
                    state.seeds@,
                    0,
                    0,
                    fx_mul_spec(maxv as int, state.fudgemax as int),
                    offset as int,
                    size as int,
                    i as int,
                ) == noise_fold(
                    state.seeds@,
                    oct as int,
                    acc as int,
                    omax as int,
                    offset as int,
                    size as int,
                    i as int,
                ),
            decreases octaves - oct,
        {
            let seed = &state.seeds[oct];
            let grain = seed.len();
            let grainfx = (grain as i64) * FX_ONE;
            let basepos = fx_mul(fx_sub(fx_pixel_pos(i, size), offset), grainfx);
            let seg = fx_floor_index(basepos);
            let frac = fx_rem_one(basepos);
            let i1 = wrap_index(seg, grain as i64) as usize;
            let i2 = wrap_index(seg + 1, grain as i64) as usize;
            let smooth = fx_mul(fx_mul(frac, frac), 3 * FX_ONE - 2 * frac);
            let val = fx_lerp(seed[i1], seed[i2], smooth);
            acc = fx_add(acc, fx_mul(val, omax));
            omax = omax / 2;
            oct = oct + 1;
        }
        r.push(acc);
        i = i + 1;
    }
    r
}

/// A buffer of `n` copies of one color.
pub fn filled_buf3(n: usize, v: Pix<i64>) -> (r: Vec<Pix<i64>>)
    ensures
        r@.len() == n,
        forall|i: int| 0 <= i < n ==> r@[i] == v,
{
    let mut r: Vec<Pix<i64>> = Vec::new();
    let mut i: usize = 0;
    while i < n
        invariant
            i <= n,
            r@.len() == i,
            forall|j: int| 0 <= j < i ==> r@[j] == v,
        decreases n - i,
    {
        r.push(v);
        i = i + 1;
    }
    r
}

/// A copy of a color buffer.
pub fn kernel_copy3(src: &Vec<Pix<i64>>) -> (r: Vec<Pix<i64>>)
    ensures
        r@ == src@,
{
    let mut r: Vec<Pix<i64>> = Vec::new();
    let mut i: usize = 0;
    while i < src.len()
        invariant
            i <= src@.len(),
            r@ =~= src@.take(i as int),
        decreases src@.len() - i,
    {
        r.push(src[i]);
        i = i + 1;
    }
    proof {
        assert(src@.take(src@.len() as int) =~= src@);
    }
    r
}

/// Each color inverted against white, channel by channel.
pub fn kernel_invert3(obuf: &Vec<Pix<i64>>) -> (r: Vec<Pix<i64>>)
    ensures
        r@.len() == obuf@.len(),
        forall|i: int|
            0 <= i < obuf@.len() ==> #[trigger] r@[i] == (Pix {
                r: sat64(FX_ONE - obuf@[i].r) as i64,
                g: sat64(FX_ONE - obuf@[i].g) as i64,
                b: sat64(FX_ONE - obuf@[i].b) as i64,
            }),
{
    let mut r: Vec<Pix<i64>> = Vec::new();
    let mut i: usize = 0;
    while i < obuf.len()
        invariant
            i <= obuf@.len(),
            r@.len() == i,
            forall|j: int|
                0 <= j < i ==> #[trigger] r@[j] == (Pix {
                    r: sat64(FX_ONE - obuf@[j].r) as i64,
                    g: sat64(FX_ONE - obuf@[j].g) as i64,
                    b: sat64(FX_ONE - obuf@[j].b) as i64,
                }),
        decreases obuf@.len() - i,
    {
        let p = obuf[i];
        r.push(Pix::new(fx_sub(FX_ONE, p.r), fx_sub(FX_ONE, p.g), fx_sub(FX_ONE, p.b)));
        i = i + 1;
    }
    r
}

/// Each scalar spread over all three channels.
pub fn kernel_grey(obuf: &Vec<i64>) -> (r: Vec<Pix<i64>>)
    ensures
        r@.len() == obuf@.len(),
        forall|i: int|
            0 <= i < obuf@.len() ==> #[trigger] r@[i] == (Pix {
                r: obuf@[i],
                g: obuf@[i],
                b: obuf@[i],
            }),
{
    let mut r: Vec<Pix<i64>> = Vec::new();
    let mut i: usize = 0;
    while i < obuf.len()
        invariant
            i <= obuf@.len(),
            r@.len() == i,
            forall|j: int|
                0 <= j < i ==> #[trigger] r@[j] == (Pix { r: obuf@[j], g: obuf@[j], b: obuf@[j] }),
        decreases obuf@.len() - i,
    {
        let v = obuf[i];
        r.push(Pix::grey(v));
        i = i + 1;
    }
    r
}

/// Three scalar buffers assembled into color channels.
pub fn kernel_rgb(a: &Vec<i64>, b: &Vec<i64>, c: &Vec<i64>) -> (r: Vec<Pix<i64>>)
    requires
        a@.len() == b@.len(),
        a@.len() == c@.len(),
    ensures
        r@.len() == a@.len(),
        forall|i: int|
            0 <= i < a@.len() ==> #[trigger] r@[i] == (Pix { r: a@[i], g: b@[i], b: c@[i] }),
{
    let mut r: Vec<Pix<i64>> = Vec::new();
    let mut i: usize = 0;
    while i < a.len()
        invariant
            i <= a@.len(),
            a@.len() == b@.len(),
            a@.len() == c@.len(),
            r@.len() == i,
            forall|j: int|
                0 <= j < i ==> #[trigger] r@[j] == (Pix { r: a@[j], g: b@[j], b: c@[j] }),
        decreases a@.len() - i,
    {
        r.push(Pix::new(a[i], b[i], c[i]));
        i = i + 1;
    }
    r
}

/// Three scalar buffers taken as hue, saturation and value.
pub fn kernel_hsv(a: &Vec<i64>, b: &Vec<i64>, c: &Vec<i64>) -> (r: Vec<Pix<i64>>)
    requires
        a@.len() == b@.len(),
        a@.len() == c@.len(),
    ensures
        r@.len() == a@.len(),
        forall|i: int|
            0 <= i < a@.len() ==> ((#[trigger] r@[i]).r as int, r@[i].g as int, r@[i].b as int)
                == crate::pixel::from_hsv_spec(a@[i] as int, b@[i] as int, c@[i] as int),
{
    let mut r: Vec<Pix<i64>> = Vec::new();
    let mut i: usize = 0;
    while i < a.len()
        invariant
            i <= a@.len(),
            a@.len() == b@.len(),
            a@.len() == c@.len(),
            r@.len() == i,
            forall|j: int|
                0 <= j < i ==> ((#[trigger] r@[j]).r as int, r@[j].g as int, r@[j].b as int)
                    == crate::pixel::from_hsv_spec(a@[j] as int, b@[j] as int, c@[j] as int),
        decreases a@.len() - i,
    {
        r.push(Pix::from_hsv(a[i], b[i], c[i]));
        i = i + 1;
    }
    r
}

/// Each color's channels reinterpreted as hue, saturation and value.
pub fn kernel_hsv_to_rgb(obuf: &Vec<Pix<i64>>) -> (r: Vec<Pix<i64>>)
    ensures
        r@.len() == obuf@.len(),
        forall|i: int|
            0 <= i < obuf@.len() ==> ((#[trigger] r@[i]).r as int, r@[i].g as int, r@[i].b as int)
                == crate::pixel::from_hsv_spec(
                obuf@[i].r as int,
                obuf@[i].g as int,
                obuf@[i].b as int,
            ),
{
    let mut r: Vec<Pix<i64>> = Vec::new();
    let mut i: usize = 0;
    while i < obuf.len()
        invariant
            i <= obuf@.len(),
            r@.len() == i,
            forall|j: int|
                0 <= j < i ==> ((#[trigger] r@[j]).r as int, r@[j].g as int, r@[j].b as int)
                    == crate::pixel::from_hsv_spec(
                    obuf@[j].r as int,
                    obuf@[j].g as int,
                    obuf@[j].b as int,
                ),
        decreases obuf@.len() - i,
    {
        let p = obuf[i];
        r.push(Pix::from_hsv(p.r, p.g, p.b));
        i = i + 1;
    }
    r
}

/// Each color decomposed into hue, saturation and value channels.
pub fn kernel_rgb_to_hsv(obuf: &Vec<Pix<i64>>) -> (r: Vec<Pix<i64>>)
    ensures
        r@.len() == obuf@.len(),
        forall|i: int|
            0 <= i < obuf@.len() ==> ((#[trigger] r@[i]).r as int, r@[i].g as int, r@[i].b as int)
                == crate::pixel::to_hsv_spec(
                obuf@[i].r as int,
                obuf@[i].g as int,
                obuf@[i].b as int,
            ),
{
    let mut r: Vec<Pix<i64>> = Vec::new();
    let mut i: usize = 0;
    while i < obuf.len()
        invariant
            i <= obuf@.len(),
            r@.len() == i,
            forall|j: int|
                0 <= j < i ==> ((#[trigger] r@[j]).r as int, r@[j].g as int, r@[j].b as int)
                    == crate::pixel::to_hsv_spec(
                    obuf@[j].r as int,
                    obuf@[j].g as int,
                    obuf@[j].b as int,
                ),
        decreases obuf@.len() - i,
    {
        let p = obuf[i];
        let (hue, satv, val) = p.to_hsv();
        r.push(Pix::new(hue, satv, val));
        i = i + 1;
    }
    r
}

/// A color buffer scaled by a scalar buffer, channel by channel.
pub fn kernel_muls(a: &Vec<Pix<i64>>, b: &Vec<i64>) -> (r: Vec<Pix<i64>>)
    requires
        a@.len() == b@.len(),
    ensures
        r@.len() == a@.len(),
        forall|i: int|
            0 <= i < a@.len() ==> #[trigger] r@[i] == (Pix {
                r: fx_mul_spec(a@[i].r as int, b@[i] as int) as i64,
                g: fx_mul_spec(a@[i].g as int, b@[i] as int) as i64,
                b: fx_mul_spec(a@[i].b as int, b@[i] as int) as i64,
            }),
{
    let mut r: Vec<Pix<i64>> = Vec::new();
    let mut i: usize = 0;
    while i < a.len()
        invariant
            i <= a@.len(),
            a@.len() == b@.len(),
            r@.len() == i,
            forall|j: int|
                0 <= j < i ==> #[trigger] r@[j] == (Pix {
                    r: fx_mul_spec(a@[j].r as int, b@[j] as int) as i64,
                    g: fx_mul_spec(a@[j].g as int, b@[j] as int) as i64,
                    b: fx_mul_spec(a@[j].b as int, b@[j] as int) as i64,
                }),
        decreases a@.len() - i,
    {
        let p = a[i];
        let s = b[i];
        r.push(Pix::new(fx_mul(p.r, s), fx_mul(p.g, s), fx_mul(p.b, s)));
        i = i + 1;
    }
    r
}

/// Add a color child into the accumulator, channel by channel.
pub fn kernel_accumulate3(acc: &mut Vec<Pix<i64>>, o: &Vec<Pix<i64>>)
    requires
        old(acc)@.len() == o@.len(),
    ensures
        final(acc)@.len() == o@.len(),
        forall|i: int|
            0 <= i < o@.len() ==> #[trigger] final(acc)@[i] == (Pix {
                r: sat64(old(acc)@[i].r + o@[i].r) as i64,
                g: sat64(old(acc)@[i].g + o@[i].g) as i64,
                b: sat64(old(acc)@[i].b + o@[i].b) as i64,
            }),
{
    let mut i: usize = 0;
    while i < o.len()
        invariant
            i <= o@.len(),
            acc@.len() == o@.len(),
            forall|j: int|
                0 <= j < i ==> #[trigger] acc@[j] == (Pix {
                    r: sat64(old(acc)@[j].r + o@[j].r) as i64,
                    g: sat64(old(acc)@[j].g + o@[j].g) as i64,
                    b: sat64(old(acc)@[j].b + o@[j].b) as i64,
                }),
            forall|j: int| i <= j < o@.len() ==> acc@[j] == old(acc)@[j],
        decreases o@.len() - i,
    {
        let p = acc[i];
        let q = o[i];
        acc.set(i, Pix::new(fx_add(p.r, q.r), fx_add(p.g, q.g), fx_add(p.b, q.b)));
        i = i + 1;
    }
}

/// Divide the color accumulator by the child count, channel by channel.
pub fn kernel_scale_down3(acc: &mut Vec<Pix<i64>>, n: usize)
    requires
        1 <= n <= 0x7fffffff,
    ensures
        final(acc)@.len() == old(acc)@.len(),
        forall|i: int|
            0 <= i < old(acc)@.len() ==> #[trigger] final(acc)@[i] == (Pix {
                r: div_trunc(old(acc)@[i].r as int, n as int) as i64,
                g: div_trunc(old(acc)@[i].g as int, n as int) as i64,
                b: div_trunc(old(acc)@[i].b as int, n as int) as i64,
            }),
{
    let nn = n as i64;
    let mut i: usize = 0;
    while i < acc.len()
        invariant
            nn == n,
            1 <= n <= 0x7fffffff,
            i <= acc@.len(),
            acc@.len() == old(acc)@.len(),
            forall|j: int|
                0 <= j < i ==> #[trigger] acc@[j] == (Pix {
                    r: div_trunc(old(acc)@[j].r as int, n as int) as i64,
                    g: div_trunc(old(acc)@[j].g as int, n as int) as i64,
                    b: div_trunc(old(acc)@[j].b as int, n as int) as i64,
                }),
            forall|j: int| i <= j < acc@.len() ==> acc@[j] == old(acc)@[j],
        decreases acc@.len() - i,
    {
        let p = acc[i];
        acc.set(i, Pix::new(p.r / nn, p.g / nn, p.b / nn));
        i = i + 1;
    }
}

/// Keep the channelwise smaller of the accumulator and the child.
pub fn kernel_acc_min3(acc: &mut Vec<Pix<i64>>, o: &Vec<Pix<i64>>)
    requires
        old(acc)@.len() == o@.len(),
    ensures
        final(acc)@.len() == o@.len(),
        forall|i: int|
            0 <= i < o@.len() ==> #[trigger] final(acc)@[i] == (Pix {
                r: (if old(acc)@[i].r <= o@[i].r {
                    old(acc)@[i].r
                } else {
                    o@[i].r
                }),
                g: (if old(acc)@[i].g <= o@[i].g {
                    old(acc)@[i].g
                } else {
                    o@[i].g
                }),
                b: (if old(acc)@[i].b <= o@[i].b {
                    old(acc)@[i].b
                } else {
                    o@[i].b
                }),
            }),
{
    let mut i: usize = 0;
    while i < o.len()
        invariant
            i <= o@.len(),
            acc@.len() == o@.len(),
            forall|j: int|
                0 <= j < i ==> #[trigger] acc@[j] == (Pix {
                    r: (if old(acc)@[j].r <= o@[j].r {
                        old(acc)@[j].r
                    } else {
                        o@[j].r
                    }),
                    g: (if old(acc)@[j].g <= o@[j].g {
                        old(acc)@[j].g
                    } else {
                        o@[j].g
                    }),
                    b: (if old(acc)@[j].b <= o@[j].b {
                        old(acc)@[j].b
                    } else {
                        o@[j].b
                    }),
                }),
            forall|j: int| i <= j < o@.len() ==> acc@[j] == old(acc)@[j],
        decreases o@.len() - i,
    {
        let p = acc[i];
        let q = o[i];
        acc.set(i, Pix::new(crate::fixed::fx_min(p.r, q.r), crate::fixed::fx_min(p.g, q.g), crate::fixed::fx_min(p.b, q.b)));
        i = i + 1;
    }
}

/// Keep the channelwise larger of the accumulator and the child.
pub fn kernel_acc_max3(acc: &mut Vec<Pix<i64>>, o: &Vec<Pix<i64>>)
    requires
        old(acc)@.len() == o@.len(),
    ensures
        final(acc)@.len() == o@.len(),
        forall|i: int|
            0 <= i < o@.len() ==> #[trigger] final(acc)@[i] == (Pix {
                r: (if old(acc)@[i].r >= o@[i].r {
                    old(acc)@[i].r
                } else {
                    o@[i].r
                }),
                g: (if old(acc)@[i].g >= o@[i].g {
                    old(acc)@[i].g
                } else {
                    o@[i].g
                }),
                b: (if old(acc)@[i].b >= o@[i].b {
                    old(acc)@[i].b
                } else {
                    o@[i].b
                }),
            }),
{
    let mut i: usize = 0;
    while i < o.len()
        invariant
            i <= o@.len(),
            acc@.len() == o@.len(),
            forall|j: int|
                0 <= j < i ==> #[trigger] acc@[j] == (Pix {
                    r: (if old(acc)@[j].r >= o@[j].r {
                        old(acc)@[j].r
                    } else {
                        o@[j].r
                    }),
                    g: (if old(acc)@[j].g >= o@[j].g {
                        old(acc)@[j].g
                    } else {
                        o@[j].g
                    }),
                    b: (if old(acc)@[j].b >= o@[j].b {
                        old(acc)@[j].b
                    } else {
                        o@[j].b
                    }),
                }),
            forall|j: int| i <= j < o@.len() ==> acc@[j] == old(acc)@[j],
        decreases o@.len() - i,
    {
        let p = acc[i];
        let q = o[i];
        acc.set(i, Pix::new(crate::fixed::fx_max(p.r, q.r), crate::fixed::fx_max(p.g, q.g), crate::fixed::fx_max(p.b, q.b)));
        i = i + 1;
    }
}

/// Blend two color buffers by a scalar fraction buffer, channel by channel.
pub fn kernel_lerp3(a: &Vec<Pix<i64>>, b: &Vec<Pix<i64>>, f: &Vec<i64>) -> (r: Vec<Pix<i64>>)
    requires
        a@.len() == b@.len(),
        a@.len() == f@.len(),
    ensures
        r@.len() == a@.len(),
        forall|i: int|
            0 <= i < a@.len() ==> #[trigger] r@[i] == (Pix {
                r: fx_lerp_spec(a@[i].r as int, b@[i].r as int, f@[i] as int) as i64,
                g: fx_lerp_spec(a@[i].g as int, b@[i].g as int, f@[i] as int) as i64,
                b: fx_lerp_spec(a@[i].b as int, b@[i].b as int, f@[i] as int) as i64,
            }),
{
    let mut r: Vec<Pix<i64>> = Vec::new();
    let mut i: usize = 0;
    while i < a.len()
        invariant
            i <= a@.len(),
            a@.len() == b@.len(),
            a@.len() == f@.len(),
            r@.len() == i,
            forall|j: int|
                0 <= j < i ==> #[trigger] r@[j] == (Pix {
                    r: fx_lerp_spec(a@[j].r as int, b@[j].r as int, f@[j] as int) as i64,
                    g: fx_lerp_spec(a@[j].g as int, b@[j].g as int, f@[j] as int) as i64,
                    b: fx_lerp_spec(a@[j].b as int, b@[j].b as int, f@[j] as int) as i64,
                }),
        decreases a@.len() - i,
    {
        let pa = a[i];
        let pb = b[i];
        let pf = f[i];
        r.push(pa.lerp(&pb, pf));
        i = i + 1;
    }
    r
}

/// Pick the first color where the scalar child stays below the threshold,
/// the second elsewhere.
pub fn kernel_mask(a: &Vec<Pix<i64>>, b: &Vec<Pix<i64>>, f: &Vec<i64>, thresval: i64) -> (r: Vec<
    Pix<i64>,
>)
    requires
        a@.len() == b@.len(),
        a@.len() == f@.len(),
    ensures
        r@.len() == a@.len(),
        forall|i: int|
            0 <= i < a@.len() ==> #[trigger] r@[i] == if f@[i] < thresval {
                a@[i]
            } else {
                b@[i]
            },
{
    let mut r: Vec<Pix<i64>> = Vec::new();
    let mut i: usize = 0;
    while i < a.len()
        invariant
            i <= a@.len(),
            a@.len() == b@.len(),
            a@.len() == f@.len(),
            r@.len() == i,
            forall|j: int|
                0 <= j < i ==> #[trigger] r@[j] == if f@[j] < thresval {
                    a@[j]
                } else {
                    b@[j]
                },
        decreases a@.len() - i,
    {
        if f[i] < thresval {
            let p = a[i];
            r.push(p);
        } else {
            let p = b[i];
            r.push(p);
        }
        i = i + 1;
    }
    r
}

/// The wrapped segment pair and fraction that a shifted pixel samples.
pub open spec fn shift_pick_spec(len: int, offset: int, ix: int) -> (int, int, int)
    recommends
        len > 0,
{
    let pos = sat64(ix * FX_ONE - fx_mul_spec(offset, len * (FX_ONE as int)));
    let seg = pos / (FX_ONE as int);
    let frac = pos % (FX_ONE as int);
    (seg % len, (seg + 1) % len, frac)
}

/// Each color sampled from the child at a wrapped, interpolated offset.
pub fn kernel_shift3(obuf: &Vec<Pix<i64>>, offset: i64) -> (r: Vec<Pix<i64>>)
    requires
        0 < obuf@.len() <= MAX_PIXELS,
    ensures
        r@.len() == obuf@.len(),
        forall|i: int|
            0 <= i < obuf@.len() ==> ({
                let (i1, i2, frac) = shift_pick_spec(obuf@.len() as int, offset as int, i);
                #[trigger] r@[i] == (Pix {
                    r: fx_lerp_spec(obuf@[i1].r as int, obuf@[i2].r as int, frac) as i64,
                    g: fx_lerp_spec(obuf@[i1].g as int, obuf@[i2].g as int, frac) as i64,
                    b: fx_lerp_spec(obuf@[i1].b as int, obuf@[i2].b as int, frac) as i64,
                })
            }),
{
    let len = obuf.len();
    let lenfx = (len as i64) * FX_ONE;
    let shift = fx_mul(offset, lenfx);
    let mut r: Vec<Pix<i64>> = Vec::new();
    let mut i: usize = 0;
    while i < len
        invariant
            i <= len,
            len == obuf@.len(),
            0 < len <= MAX_PIXELS,
            shift == fx_mul_spec(offset as int, len * (FX_ONE as int)),
            r@.len() == i,
            forall|j: int|
                0 <= j < i ==> ({
                    let (i1, i2, frac) = shift_pick_spec(obuf@.len() as int, offset as int, j);
                    #[trigger] r@[j] == (Pix {
                        r: fx_lerp_spec(obuf@[i1].r as int, obuf@[i2].r as int, frac) as i64,
                        g: fx_lerp_spec(obuf@[i1].g as int, obuf@[i2].g as int, frac) as i64,
                        b: fx_lerp_spec(obuf@[i1].b as int, obuf@[i2].b as int, frac) as i64,
                    })
                }),
        decreases len - i,
    {
        let ixfx = (i as i64) * FX_ONE;
        let pos = fx_sub(ixfx, shift);
        let seg = fx_floor_index(pos);
        let frac = fx_rem_one(pos);
        let i1 = wrap_index(seg, len as i64) as usize;
        let i2 = wrap_index(seg + 1, len as i64) as usize;
        let p1 = obuf[i1];
        let p2 = obuf[i2];
        r.push(
            Pix::new(fx_lerp(p1.r, p2.r, frac), fx_lerp(p1.g, p2.g, frac), fx_lerp(p1.b, p2.b, frac)),
        );
        i = i + 1;
    }
    r
}

/// A scalar mapped through an evenly spaced color gradient, channel by
/// channel; the structure of `gradient1_spec` with color stops.
pub open spec fn gradient3_spec(stops: Seq<Pix<i64>>, v: int) -> Pix<i64> {
    let count = stops.len() as int;
    if count == 0 {
        Pix { r: 0i64, g: 0i64, b: 0i64 }
    } else if count == 1 {
        stops[0]
    } else if v < 0 {
        stops[0]
    } else {
        let val = fx_mul_spec(v, (count - 1) * (FX_ONE as int));
        let seg = val / (FX_ONE as int);
        let frac = val % (FX_ONE as int);
        if seg >= count - 1 {
            stops[count - 1]
        } else {
            Pix {
                r: fx_lerp_spec(stops[seg].r as int, stops[seg + 1].r as int, frac) as i64,
                g: fx_lerp_spec(stops[seg].g as int, stops[seg + 1].g as int, frac) as i64,
                b: fx_lerp_spec(stops[seg].b as int, stops[seg + 1].b as int, frac) as i64,
            }
        }
    }
}

/// Each pixel mapped through an evenly spaced color gradient.
pub fn kernel_gradient3(obuf: &Vec<i64>, stops: &Vec<Pix<i64>>) -> (r: Vec<Pix<i64>>)
    requires
        stops@.len() <= MAX_PIXELS,
    ensures
        r@.len() == obuf@.len(),
        forall|i: int|
            0 <= i < obuf@.len() ==> #[trigger] r@[i] == gradient3_spec(stops@, obuf@[i] as int),
{
    let count = stops.len();
    let mut r: Vec<Pix<i64>> = Vec::new();
    let mut i: usize = 0;
    while i < obuf.len()
        invariant
            i <= obuf@.len(),
            count == stops@.len(),
            count <= MAX_PIXELS,
            r@.len() == i,
            forall|j: int|
                0 <= j < i ==> #[trigger] r@[j] == gradient3_spec(stops@, obuf@[j] as int),
        decreases obuf@.len() - i,
    {
        if count == 0 {
            r.push(Pix::new(0, 0, 0));
        } else if count == 1 {
            let p = stops[0];
            r.push(p);
        } else {
            let v = obuf[i];
            if v < 0 {
                let p = stops[0];
                r.push(p);
            } else {
                let val = fx_mul(v, ((count - 1) as i64) * FX_ONE);
                let seg = fx_floor_index(val);
                let frac = fx_rem_one(val);
                if seg >= (count - 1) as i64 {
                    let p = stops[count - 1];
                    r.push(p);
                } else {
                    proof {
                        vstd::arithmetic::div_mod::lemma_div_pos_is_pos(val as int, FX_ONE as int);
                    }
                    let segu = seg as usize;
                    let p1 = stops[segu];
                    let p2 = stops[segu + 1];
                    r.push(
                        Pix::new(
                            fx_lerp(p1.r, p2.r, frac),
                            fx_lerp(p1.g, p2.g, frac),
                            fx_lerp(p1.b, p2.b, frac),
                        ),
                    );
                }
            }
        }
        i = i + 1;
    }
    r
}

/// The first stop index whose position is not below `v`, scanning from `i`.
pub open spec fn pg_seg_from(stops: Seq<GradStop>, v: int, i: int) -> int
    decreases stops.len() - i,
{
    if i < 0 || i >= stops.len() {
        stops.len() as int
    } else if stops[i].pos < v {
        pg_seg_from(stops, v, i + 1)
    } else {
        i
    }
}

/// A scalar mapped through a positional color gradient: located in the
/// first segment whose upper stop is not below it, clamped to the endpoint
/// colors outside the stops, interpolated by position inside.
pub open spec fn pgradient_spec(stops: Seq<GradStop>, v: int) -> Pix<i64> {
    let count = stops.len() as int;
    if count == 0 {
        Pix { r: 0i64, g: 0i64, b: 0i64 }
    } else if count == 1 {
        stops[0].color
    } else {
        let seg = pg_seg_from(stops, v, 0);
        if seg == 0 {
            stops[0].color
        } else if seg >= count {
            stops[count - 1].color
        } else {
            let frac = fx_div_spec(
                sat64(v - stops[seg - 1].pos),
                sat64(stops[seg].pos - stops[seg - 1].pos),
            );
            Pix {
                r: fx_lerp_spec(stops[seg - 1].color.r as int, stops[seg].color.r as int, frac) as i64,
                g: fx_lerp_spec(stops[seg - 1].color.g as int, stops[seg].color.g as int, frac) as i64,
                b: fx_lerp_spec(stops[seg - 1].color.b as int, stops[seg].color.b as int, frac) as i64,
            }
        }
    }
}

/// Each pixel mapped through a positional color gradient.
pub fn kernel_pgradient(obuf: &Vec<i64>, stops: &Vec<GradStop>) -> (r: Vec<Pix<i64>>)
    ensures
        r@.len() == obuf@.len(),
        forall|i: int|
            0 <= i < obuf@.len() ==> #[trigger] r@[i] == pgradient_spec(stops@, obuf@[i] as int),
{
    let count = stops.len();
    let mut r: Vec<Pix<i64>> = Vec::new();
    let mut i: usize = 0;
    while i < obuf.len()
        invariant
            i <= obuf@.len(),
            count == stops@.len(),
            r@.len() == i,
            forall|j: int|
                0 <= j < i ==> #[trigger] r@[j] == pgradient_spec(stops@, obuf@[j] as int),
        decreases obuf@.len() - i,
    {
        if count == 0 {
            r.push(Pix::new(0, 0, 0));
        } else if count == 1 {
            let p = stops[0].color;
            r.push(p);
        } else {
            let v = obuf[i];
            let mut seg: usize = 0;
            while seg < count && stops[seg].pos < v
                invariant
                    seg <= count,
                    count == stops@.len(),
                    pg_seg_from(stops@, v as int, 0) == pg_seg_from(stops@, v as int, seg as int),
                    forall|k: int| 0 <= k < seg ==> (#[trigger] stops@[k]).pos < v,
                decreases count - seg,
            {
                seg = seg + 1;
            }
            proof {
                assert(pg_seg_from(stops@, v as int, 0) == seg);
            }
            if seg == 0 {
                let p = stops[0].color;
                r.push(p);
            } else if seg >= count {
                let p = stops[count - 1].color;
                r.push(p);
            } else {
                let lo = stops[seg - 1].pos;
                let hi = stops[seg].pos;
                let frac = fx_div(fx_sub(v, lo), fx_sub(hi, lo));
                let p1 = stops[seg - 1].color;
                let p2 = stops[seg].color;
                r.push(
                    Pix::new(
                        fx_lerp(p1.r, p2.r, frac),
                        fx_lerp(p1.g, p2.g, frac),
                        fx_lerp(p1.b, p2.b, frac),
                    ),
                );
            }
        }
        i = i + 1;
    }
    r
}

/// The smoothstep fraction stays inside a unit: for a fraction in
/// `[0, FX_ONE)`, `frac^2 * (3 - 2*frac)` lies in `[0, FX_ONE]`.
proof fn lemma_smoothfrac_bound(frac: int)
    requires
        0 <= frac < FX_ONE,
    ensures
        0 <= fx_mul_spec(fx_mul_spec(frac, frac), 3 * FX_ONE - 2 * frac) <= FX_ONE,
{
    crate::fixed::lemma_decay_shrinks(frac, frac);
    let ff = fx_mul_spec(frac, frac);
    let g = 3 * FX_ONE - 2 * frac;
    assert(ff * 65536 <= frac * frac) by {
        vstd::arithmetic::div_mod::lemma_fundamental_div_mod(frac * frac, 65536);
        vstd::arithmetic::div_mod::lemma_mod_division_less_than_divisor(frac * frac, 65536);
        assert(0 <= frac * frac) by (nonlinear_arith)
            requires
                frac >= 0,
        ;
        assert(65536 * ((frac * frac) / 65536) == ((frac * frac) / 65536) * 65536)
            by (nonlinear_arith);
    }
    assert((65536 - frac) * (65536 - frac) * (2 * frac + 65536) >= 0) by (nonlinear_arith)
        requires
            0 <= frac < 65536,
    ;
    assert(frac * frac * g <= 65536 * 65536 * 65536) by (nonlinear_arith)
        requires
            g == 3 * 65536 - 2 * frac,
            (65536 - frac) * (65536 - frac) * (2 * frac + 65536) >= 0,
    ;
    assert(ff * g <= 65536 * 65536) by (nonlinear_arith)
        requires
            ff * 65536 <= frac * frac,
            frac * frac * g <= 65536 * 65536 * 65536,
            g > 0,
            ff >= 0,
    ;
    assert(ff * g >= 0) by (nonlinear_arith)
        requires
            ff >= 0,
            g > 0,
    ;
    vstd::arithmetic::div_mod::lemma_div_is_ordered(ff * g, 65536int * 65536, 65536);
    vstd::arithmetic::div_mod::lemma_div_pos_is_pos(ff * g, 65536);
    assert((65536int * 65536) / 65536 == 65536);
}

/// A blend of two values from `[0, B]` by a fraction in `[0, FX_ONE]`
/// stays inside `[0, B]` for any cap up to a unit.
proof fn lemma_lerp_bound(a: int, b: int, f: int, cap: int)
    requires
        0 <= a <= cap,
        0 <= b <= cap,
        0 <= f <= FX_ONE,
        cap <= FX_ONE,
    ensures
        0 <= fx_lerp_spec(a, b, f) <= cap,
{
    crate::fixed::lemma_decay_shrinks(a, FX_ONE - f);
    crate::fixed::lemma_decay_shrinks(b, f);
    let ta = fx_mul_spec(a, FX_ONE - f);
    let tb = fx_mul_spec(b, f);
    // the two parts cover at most the whole cap: a(1-f) + b f <= cap*ONE
    assert(a * (65536 - f) + b * f <= cap * 65536) by (nonlinear_arith)
        requires
            0 <= a <= cap,
            0 <= b <= cap,
            0 <= f <= 65536,
    ;
    assert(ta * 65536 <= a * (65536 - f)) by {
        vstd::arithmetic::div_mod::lemma_fundamental_div_mod(a * (65536 - f), 65536);
        vstd::arithmetic::div_mod::lemma_mod_division_less_than_divisor(a * (65536 - f), 65536);
        assert(0 <= a * (65536 - f)) by (nonlinear_arith)
            requires
                a >= 0,
                f <= 65536,
        ;
        assert(65536 * ((a * (65536 - f)) / 65536) == ((a * (65536 - f)) / 65536) * 65536)
            by (nonlinear_arith);
    }
    assert(tb * 65536 <= b * f) by {
        vstd::arithmetic::div_mod::lemma_fundamental_div_mod(b * f, 65536);
        vstd::arithmetic::div_mod::lemma_mod_division_less_than_divisor(b * f, 65536);
        assert(0 <= b * f) by (nonlinear_arith)
            requires
                b >= 0,
                f >= 0,
        ;
        assert(65536 * ((b * f) / 65536) == ((b * f) / 65536) * 65536) by (nonlinear_arith);
    }
    assert(ta + tb <= cap) by (nonlinear_arith)
        requires
            ta * 65536 <= a * (65536 - f),
            tb * 65536 <= b * f,
            a * (65536 - f) + b * f <= cap * 65536,
    ;
}

/// One octave's sample stays inside `[0, FX_ONE]` whenever the table's
/// entries do.
proof fn lemma_octave_val_bound(seed: Seq<i64>, offset: int, size: int, ix: int)
    requires
        seed.len() > 0,
        forall|i: int| 0 <= i < seed.len() ==> 0 <= #[trigger] seed[i] < FX_ONE,
    ensures
        0 <= noise_octave_val(seed, offset, size, ix) <= FX_ONE,
{
    let grain = seed.len() as int;
    let basepos = fx_mul_spec(sat64(pix_pos(ix, size) - offset), grain * (FX_ONE as int));
    let frac = basepos % (FX_ONE as int);
    let seg = basepos / (FX_ONE as int);
    vstd::arithmetic::div_mod::lemma_mod_division_less_than_divisor(basepos, FX_ONE as int);
    vstd::arithmetic::div_mod::lemma_mod_division_less_than_divisor(seg, grain);
    vstd::arithmetic::div_mod::lemma_mod_division_less_than_divisor(seg + 1, grain);
    lemma_smoothfrac_bound(frac);
    let smoothfrac = fx_mul_spec(fx_mul_spec(frac, frac), 3 * FX_ONE - 2 * frac);
    lemma_lerp_bound(
        seed[seg % grain] as int,
        seed[(seg + 1) % grain] as int,
        smoothfrac,
        FX_ONE as int,
    );
}

/// The running octave amplitudes, summed: the first `k` halvings of `m`,
/// added together.
pub open spec fn sum_halvings(m: int, k: nat) -> int
    decreases k,
{
    if k == 0 {
        0
    } else {
        m + sum_halvings(div_trunc(m, 2), (k - 1) as nat)
    }
}

/// The value left after `k` floor-halvings.
pub open spec fn halved(m: int, k: nat) -> int
    decreases k,
{
    if k == 0 {
        m
    } else {
        halved(div_trunc(m, 2), (k - 1) as nat)
    }
}

/// The noise accumulation never leaves `[acc, acc + sum of the halved
/// amplitudes]`.
proof fn lemma_noise_fold_bound(
    seeds: Seq<Vec<i64>>,
    k: int,
    acc: int,
    omax: int,
    offset: int,
    size: int,
    ix: int,
)
    requires
        0 <= k <= seeds.len(),
        0 <= acc <= i64::MAX,
        0 <= omax,
        forall|j: int|
            0 <= j < seeds.len() ==> 0 < (#[trigger] seeds[j])@.len() && forall|i: int|
                0 <= i < seeds[j]@.len() ==> 0 <= #[trigger] seeds[j]@[i] < FX_ONE,
    ensures
        acc <= noise_fold(seeds, k, acc, omax, offset, size, ix) <= acc + sum_halvings(
            omax,
            (seeds.len() - k) as nat,
        ),
    decreases seeds.len() - k,
{
    if k < seeds.len() {
        lemma_octave_val_bound(seeds[k]@, offset, size, ix);
        let val = noise_octave_val(seeds[k]@, offset, size, ix);
        crate::fixed::lemma_decay_shrinks(omax, val);
        assert(fx_mul_spec(val, omax) == fx_mul_spec(omax, val)) by {
            assert(val * omax == omax * val) by (nonlinear_arith);
        }
        let term = fx_mul_spec(val, omax);
        let acc2 = sat64(acc + term);
        vstd::arithmetic::div_mod::lemma_div_pos_is_pos(omax, 2);
        lemma_noise_fold_bound(seeds, k + 1, acc2, div_trunc(omax, 2), offset, size, ix);
        assert(sum_halvings(omax, (seeds.len() - k) as nat) == omax + sum_halvings(
            div_trunc(omax, 2),
            (seeds.len() - k - 1) as nat,
        ));
        lemma_sum_halvings_nonneg(div_trunc(omax, 2), (seeds.len() - k - 1) as nat);
    }
}

/// Sums of halved amplitudes are never negative.
proof fn lemma_sum_halvings_nonneg(m: int, k: nat)
    requires
        m >= 0,
    ensures
        sum_halvings(m, k) >= 0,
    decreases k,
{
    if k > 0 {
        vstd::arithmetic::div_mod::lemma_div_pos_is_pos(m, 2);
        lemma_sum_halvings_nonneg(div_trunc(m, 2), (k - 1) as nat);
    }
}

/// The summed halvings never exceed twice what the halvings consumed.
proof fn lemma_sum_halvings_le(m: int, k: nat)
    requires
        m >= 0,
    ensures
        halved(m, k) >= 0,
        sum_halvings(m, k) <= 2 * (m - halved(m, k)),
    decreases k,
{
    if k > 0 {
        let m2 = div_trunc(m, 2);
        vstd::arithmetic::div_mod::lemma_div_pos_is_pos(m, 2);
        lemma_sum_halvings_le(m2, (k - 1) as nat);
        vstd::arithmetic::div_mod::lemma_fundamental_div_mod(m, 2);
        vstd::arithmetic::div_mod::lemma_mod_division_less_than_divisor(m, 2);
    }
}

/// What `k` floor-halvings leave is at least the exact quotient minus one.
proof fn lemma_halved_lower(m: int, k: nat)
    requires
        m >= 0,
    ensures
        pow2(k) * halved(m, k) >= m - pow2(k) + 1,
    decreases k,
{
    if k == 0 {
    } else {
        let m2 = div_trunc(m, 2);
        vstd::arithmetic::div_mod::lemma_div_pos_is_pos(m, 2);
        lemma_halved_lower(m2, (k - 1) as nat);
        vstd::arithmetic::div_mod::lemma_fundamental_div_mod(m, 2);
        vstd::arithmetic::div_mod::lemma_mod_division_less_than_divisor(m, 2);
        assert(2 * m2 >= m - 1);
        assert(pow2(k) == 2 * pow2((k - 1) as nat));
        assert(pow2(k) * halved(m2, (k - 1) as nat) >= m - pow2(k) + 1) by (nonlinear_arith)
            requires
                pow2((k - 1) as nat) * halved(m2, (k - 1) as nat) >= m2 - pow2((k - 1) as nat)
                    + 1,
                pow2(k) == 2 * pow2((k - 1) as nat),
                2 * m2 >= m - 1,
        ;
    }
}

/// Sixteen doublings of one reach the fixed-point unit.
proof fn lemma_pow2_16()
    ensures
        pow2(16) == 65536,
{
    reveal_with_fuel(crate::fixed::pow2, 17);
}

/// The noise amplitude bound: over every octave count from one to sixteen,
/// with the rescaling factor the octave tables are built with, no
/// accumulated sample leaves `[0, maxv + 2]` — the configured amplitude,
/// up to two fixed-point steps.
pub proof fn lemma_noise_amplitude_bound(
    seeds: Seq<Vec<i64>>,
    fudgemax: int,
    maxv: int,
    offset: int,
    size: int,
    ix: int,
)
    requires
        1 <= seeds.len() <= 16,
        0 <= maxv <= i64::MAX,
        fudgemax == fx_div_spec(FX_HALF as int, FX_ONE - (FX_ONE as int) / pow2(seeds.len())),
        forall|j: int|
            0 <= j < seeds.len() ==> 0 < (#[trigger] seeds[j])@.len() && forall|i: int|
                0 <= i < seeds[j]@.len() ==> 0 <= #[trigger] seeds[j]@[i] < FX_ONE,
    ensures
        0 <= noise_fold(seeds, 0, 0, fx_mul_spec(maxv, fudgemax), offset, size, ix) <= maxv + 2,
{
    let kk = seeds.len() as nat;
    let p = pow2(kk);
    lemma_pow2_16();
    lemma_pow2_monotone(kk, 16);
    crate::fixed::lemma_pow2_pos(kk);
    lemma_pow2_add(kk, (16 - kk) as nat);
    crate::fixed::lemma_pow2_pos((16 - kk) as nat);
    let q = pow2((16 - kk) as nat);
    // the unit split: 65536 == p * q, so 65536 / p == q
    assert(65536 == p * q);
    vstd::arithmetic::div_mod::lemma_div_multiples_vanish(q, p);
    assert(p * q == q * p) by (nonlinear_arith);
    assert((FX_ONE as int) / p == q);
    let denom = FX_ONE - q;
    assert(denom == q * (p - 1)) by (nonlinear_arith)
        requires
            65536 == p * q,
            denom == 65536 - q,
    ;
    assert(denom >= 32768) by (nonlinear_arith)
        requires
            denom == q * (p - 1),
            65536 == p * q,
            p >= 2,
            q >= 1,
    ;
    // the rescaling factor times the octave series coefficient stays below
    // half the unit times the octave count's power
    let fudge = fx_div_spec(FX_HALF as int, denom);
    assert(fudge == (32768int * 65536) / denom);
    vstd::arithmetic::div_mod::lemma_div_pos_is_pos(32768int * 65536, denom);
    vstd::arithmetic::div_mod::lemma_fundamental_div_mod(32768int * 65536, denom);
    vstd::arithmetic::div_mod::lemma_mod_division_less_than_divisor(32768int * 65536, denom);
    assert(fudge * denom <= 32768 * 65536) by (nonlinear_arith)
        requires
            32768int * 65536 == denom * fudge + (32768int * 65536) % denom,
            (32768int * 65536) % denom >= 0,
    ;
    assert(fudge * (q * (p - 1)) == (fudge * (p - 1)) * q) by (nonlinear_arith);
    assert(32768int * 65536 == (32768 * p) * q) by (nonlinear_arith)
        requires
            65536 == p * q,
    ;
    assert(fudge * (p - 1) <= 32768 * p) by (nonlinear_arith)
        requires
            (fudge * (p - 1)) * q <= (32768 * p) * q,
            q >= 1,
    ;
    // the rescaling factor never exceeds a unit
    vstd::arithmetic::div_mod::lemma_div_is_ordered_by_denominator(32768int * 65536, 32768, denom);
    assert((32768int * 65536) / 32768 == 65536) by {
        vstd::arithmetic::div_mod::lemma_div_multiples_vanish(65536, 32768);
        assert(32768int * 65536 == 32768int * 65536) by (nonlinear_arith);
        assert(65536int * 32768 == 32768int * 65536) by (nonlinear_arith);
    }
    assert(fudge <= 65536);
    // the starting amplitude
    let omax0 = fx_mul_spec(maxv, fudge);
    assert(maxv * fudge <= maxv * 65536) by (nonlinear_arith)
        requires
            maxv >= 0,
            fudge <= 65536,
    ;
    assert(maxv * 65536 <= 0x7fffffffffffffff * 65536) by (nonlinear_arith)
        requires
            maxv <= 0x7fffffffffffffff,
    ;
    vstd::arithmetic::div_mod::lemma_div_is_ordered(
        maxv * fudge,
        0x7fffffffffffffffint * 65536,
        65536,
    );
    assert((0x7fffffffffffffffint * 65536) / 65536 == 0x7fffffffffffffff) by {
        vstd::arithmetic::div_mod::lemma_div_multiples_vanish(0x7fffffffffffffff, 65536);
        assert(0x7fffffffffffffffint * 65536 == 65536int * 0x7fffffffffffffff)
            by (nonlinear_arith);
    }
    assert(maxv * fudge >= 0) by (nonlinear_arith)
        requires
            maxv >= 0,
            fudge >= 0,
    ;
    vstd::arithmetic::div_mod::lemma_div_pos_is_pos(maxv * fudge, 65536);
    vstd::arithmetic::div_mod::lemma_fundamental_div_mod(maxv * fudge, 65536);
    vstd::arithmetic::div_mod::lemma_mod_division_less_than_divisor(maxv * fudge, 65536);
    assert(omax0 >= 0);
    assert(omax0 * 65536 <= maxv * fudge) by (nonlinear_arith)
        requires
            maxv * fudge == 65536 * ((maxv * fudge) / 65536) + (maxv * fudge) % 65536,
            (maxv * fudge) % 65536 >= 0,
            omax0 == (maxv * fudge) / 65536,
    ;
    // the accumulated series
    lemma_noise_fold_bound(seeds, 0, 0, omax0, offset, size, ix);
    lemma_sum_halvings_le(omax0, kk);
    lemma_halved_lower(omax0, kk);
    let h = halved(omax0, kk);
    assert((2 * omax0 - 2 * h) * p <= 2 * omax0 * (p - 1) + 2 * p - 2) by (nonlinear_arith)
        requires
            p * h >= omax0 - p + 1,
            p >= 1,
    ;
    assert(2 * (omax0 * 65536) * (p - 1) <= 2 * (maxv * fudge) * (p - 1)) by (nonlinear_arith)
        requires
            omax0 * 65536 <= maxv * fudge,
            p >= 1,
    ;
    assert(2 * (maxv * fudge) * (p - 1) <= 2 * maxv * (32768 * p)) by (nonlinear_arith)
        requires
            fudge * (p - 1) <= 32768 * p,
            maxv >= 0,
    ;
    assert(2 * omax0 * (p - 1) <= maxv * p) by (nonlinear_arith)
        requires
            2 * (omax0 * 65536) * (p - 1) <= 2 * maxv * (32768 * p),
    ;
    assert(2 * omax0 - 2 * h <= maxv + 2) by (nonlinear_arith)
        requires
            (2 * omax0 - 2 * h) * p <= 2 * omax0 * (p - 1) + 2 * p - 2,
            2 * omax0 * (p - 1) <= maxv * p,
            p >= 1,
    ;
}

/// Evaluation determinism for stateless kernels: any two outputs meeting
/// the invert kernel's contract over the same child buffer are equal pixel
/// for pixel. Every stateless kernel's contract pins its output to a
/// function of its inputs the same way.
pub proof fn lemma_invert_deterministic(o: Seq<i64>, r1: Seq<i64>, r2: Seq<i64>)
    requires
        r1.len() == o.len(),
        r2.len() == o.len(),
        forall|i: int| 0 <= i < o.len() ==> r1[i] == sat64(FX_ONE - o[i]),
        forall|i: int| 0 <= i < o.len() ==> r2[i] == sat64(FX_ONE - o[i]),
    ensures
        r1 =~= r2,
{
}

/// Evaluation determinism for the clamp kernel.
pub proof fn lemma_clamp_deterministic(o: Seq<i64>, mn: int, mx: int, r1: Seq<i64>, r2: Seq<i64>)
    requires
        r1.len() == o.len(),
        r2.len() == o.len(),
        forall|i: int| 0 <= i < o.len() ==> r1[i] == fx_clamp_spec(o[i] as int, mn, mx),
        forall|i: int| 0 <= i < o.len() ==> r2[i] == fx_clamp_spec(o[i] as int, mn, mx),
    ensures
        r1 =~= r2,
{
}

/// The value an impulse has decayed to after `n` frames, each applying the
/// same multiplier.
pub open spec fn decay_iter(v: int, m: int, n: nat) -> int
    decreases n,
{
    if n == 0 {
        v
    } else {
        fx_mul_spec(decay_iter(v, m, (n - 1) as nat), m)
    }
}

/// The decay monotonic envelope: fed a one-frame impulse of value `v` and
/// zeros thereafter, each further frame's output is exactly the previous
/// output scaled by the decay multiplier, and the sequence never increases
/// once decaying.
pub proof fn lemma_decay_envelope(v: int, m: int, n: nat)
    requires
        v >= 0,
        0 <= m <= FX_ONE,
    ensures
        0 <= decay_iter(v, m, n + 1) <= decay_iter(v, m, n) <= v,
        decay_iter(v, m, n + 1) == decay_spec(0, decay_iter(v, m, n), m),
    decreases n,
{
    if n == 0 {
        assert(decay_iter(v, m, 0) == v);
        assert(decay_iter(v, m, 1) == fx_mul_spec(decay_iter(v, m, 0), m));
        crate::fixed::lemma_decay_shrinks(v, m);
    } else {
        lemma_decay_envelope(v, m, (n - 1) as nat);
        assert(decay_iter(v, m, n + 1) == fx_mul_spec(decay_iter(v, m, n), m));
        crate::fixed::lemma_decay_shrinks(decay_iter(v, m, n), m);
    }
}

/// With a zero input, the decay kernel's output at each pixel is exactly
/// the held value scaled by the multiplier: one step of the impulse
/// envelope.
pub proof fn lemma_decay_step_on_zero(held: int, m: int)
    requires
        held >= 0,
        0 <= m <= FX_ONE,
    ensures
        decay_spec(0, held, m) == fx_mul_spec(held, m),
        decay_spec(0, held, m) <= held,
{
    crate::fixed::lemma_decay_shrinks(held, m);
}

/// The gradient endpoint clamp: inputs below zero return the first stop
/// exactly, inputs at or above one return the last stop exactly, and on a
/// two-stop gradient the input one half returns exactly the midpoint blend
/// of the stops.
pub proof fn lemma_gradient_endpoints(stops: Seq<i64>, v: int)
    requires
        stops.len() >= 2,
        stops.len() <= MAX_PIXELS,
    ensures
        v < 0 ==> gradient1_spec(stops, v) == stops[0],
        v >= FX_ONE && v <= i64::MAX ==> gradient1_spec(stops, v) == stops[stops.len() - 1],
        stops.len() == 2 && v == FX_HALF ==> gradient1_spec(stops, v) == fx_lerp_spec(
            stops[0] as int,
            stops[1] as int,
            FX_HALF as int,
        ),
{
    let count = stops.len() as int;
    if v >= FX_ONE && v <= i64::MAX {
        let prod = v * (count - 1);
        assert(prod >= 65536 * (count - 1) && prod >= 0) by (nonlinear_arith)
            requires
                v >= 65536,
                count >= 2,
                prod == v * (count - 1),
        ;
        let val = fx_mul_spec(v, (count - 1) * (FX_ONE as int));
        assert(v * ((count - 1) * 65536) == prod * 65536) by (nonlinear_arith)
            requires
                prod == v * (count - 1),
        ;
        if prod <= i64::MAX {
            vstd::arithmetic::div_mod::lemma_div_multiples_vanish(prod, FX_ONE as int);
            assert(div_trunc(prod * FX_ONE, FX_ONE as int) == prod);
            assert(val == prod);
            assert(val / (FX_ONE as int) >= count - 1) by {
                vstd::arithmetic::div_mod::lemma_div_is_ordered(
                    (count - 1) * (FX_ONE as int),
                    prod,
                    FX_ONE as int,
                );
                vstd::arithmetic::div_mod::lemma_div_multiples_vanish(
                    count - 1,
                    FX_ONE as int,
                );
                assert((count - 1) * (FX_ONE as int) == (FX_ONE as int) * (count - 1))
                    by (nonlinear_arith);
            }
        } else {
            assert(prod * FX_ONE >= prod) by (nonlinear_arith)
                requires
                    prod >= 0,
            ;
            assert(val == i64::MAX as int);
            assert(val / (FX_ONE as int) >= count - 1) by {
                assert((count - 1) * (FX_ONE as int) <= i64::MAX - 65535) by (nonlinear_arith)
                    requires
                        2 <= count <= MAX_PIXELS,
                ;
                vstd::arithmetic::div_mod::lemma_fundamental_div_mod(
                    i64::MAX as int,
                    FX_ONE as int,
                );
                vstd::arithmetic::div_mod::lemma_mod_division_less_than_divisor(
                    i64::MAX as int,
                    FX_ONE as int,
                );
                assert((FX_ONE as int) * (val / (FX_ONE as int)) >= (count - 1) * (FX_ONE as int)
                    - 65535);
                assert(val / (FX_ONE as int) >= count - 1) by (nonlinear_arith)
                    requires
                        (FX_ONE as int) * (val / (FX_ONE as int)) >= (count - 1) * (
                        FX_ONE as int) - 65535,
                ;
            }
        }
    }
    if stops.len() == 2 && v == FX_HALF {
        assert(fx_mul_spec(FX_HALF as int, 1 * (FX_ONE as int)) == FX_HALF) by {
            vstd::arithmetic::div_mod::lemma_div_multiples_vanish(
                FX_HALF as int,
                FX_ONE as int,
            );
            assert((FX_HALF as int) * (1 * (FX_ONE as int)) == (FX_HALF as int) * (FX_ONE as int))
                by (nonlinear_arith);
        }
    }
}

} // verus!
