//! The engine instance: a validated graph together with each node's output
//! buffer and persistent state, advanced one frame at a time.
//!
//! Construction validates the graph — the order invariant, every child
//! reference's kind and range, every parameter, every noise table bound —
//! and is the only gate: a built instance ticks without faulting. One call
//! to `tick` walks the stored order in reverse, so every node's children
//! are evaluated strictly before the node itself, each node overwriting its
//! own buffer from its children's.

use vstd::prelude::*;
use crate::fixed::{
    FX_ONE, sat64, div_trunc, fx_mul_spec, fx_div_spec, fx_sub, fx_mul, fx_div, fx_rem_one,
    fx_exp2_neg, exp2_neg_spec, filled_buf, pow2, MAX_PIXELS, FX_HALF,
};
use crate::pixel::Pix;
use crate::waves::WaveShape;
use crate::pulser::PulserState;
use crate::rng::ScriptRng;
use crate::script::{Script, ScriptIndex, consistent};
use crate::op::{
    Op1Def, Op3Def, Op1State, Op3State, NoiseState, kernel_copy, kernel_copy3, kernel_invert,
    kernel_invert3, kernel_mul, kernel_accumulate, kernel_accumulate3, kernel_scale_down,
    kernel_scale_down3, kernel_acc_min, kernel_acc_min3, kernel_acc_max, kernel_acc_max3,
    kernel_clamp, kernel_decay, kernel_time_delta, kernel_shift, kernel_shift_decay,
    kernel_gradient, kernel_gradient3, kernel_pgradient, kernel_noise, kernel_grey, kernel_rgb,
    kernel_hsv, kernel_hsv_to_rgb, kernel_rgb_to_hsv, kernel_muls, kernel_lerp3, kernel_mask,
    kernel_shift3, filled_buf3,
};

verus! {

pub struct Op1Ctx {
    pub state: Op1State,
    pub buf: Vec<i64>,
}

pub struct Op3Ctx {
    pub state: Op3State,
    pub buf: Vec<Pix<i64>>,
}

/// A read-only view of one node's current buffer.
pub enum PixBuffer<'a> {
    Buf1(&'a Vec<i64>),
    Buf3(&'a Vec<Pix<i64>>),
}

/// The `j`-th child reference of a scalar node is a scalar node that
/// exists.
pub open spec fn child1_ok(s: Script, bufs: Seq<ScriptIndex>, j: int) -> bool {
    &&& 0 <= j < bufs.len()
    &&& bufs[j] matches ScriptIndex::Op1(n) && n < s.op1s@.len()
}

/// The `j`-th child reference of a node is a color node that exists.
pub open spec fn child3_ok(s: Script, bufs: Seq<ScriptIndex>, j: int) -> bool {
    &&& 0 <= j < bufs.len()
    &&& bufs[j] matches ScriptIndex::Op3(n) && n < s.op3s@.len()
}

/// The definition's child references have the arity and kinds its kernel
/// reads, its parameters are evaluable, and its table sizes fit.
pub open spec fn op1_def_ok(s: Script, op: Op1Def, bufs: Seq<ScriptIndex>) -> bool {
    &&& op.params_ok()
    &&& match op {
        Op1Def::Constant(_) => true,
        Op1Def::Param(_) => true,
        Op1Def::Wave(_, _, _, _, _) => true,
        Op1Def::WaveCycle(_, _, _, _, _) => true,
        Op1Def::Invert() => child1_ok(s, bufs, 0),
        Op1Def::Pulser(_) => true,
        Op1Def::Decay(_) => child1_ok(s, bufs, 0),
        Op1Def::TimeDelta() => child1_ok(s, bufs, 0),
        Op1Def::Brightness() => false,  // no scalar kernel evaluates it
        Op1Def::Gradient(stops) => child1_ok(s, bufs, 0) && stops@.len() <= MAX_PIXELS,
        Op1Def::Mul() => child1_ok(s, bufs, 0) && child1_ok(s, bufs, 1),
        Op1Def::Sum() => forall|j: int| 0 <= j < bufs.len() ==> child1_ok(s, bufs, j),
        Op1Def::Mean() => bufs.len() <= 0x7fffffff && forall|j: int|
            0 <= j < bufs.len() ==> child1_ok(s, bufs, j),
        Op1Def::Min() => forall|j: int| 0 <= j < bufs.len() ==> child1_ok(s, bufs, j),
        Op1Def::Max() => forall|j: int| 0 <= j < bufs.len() ==> child1_ok(s, bufs, j),
        Op1Def::Clamp(_, _) => child1_ok(s, bufs, 0),
        Op1Def::Shift(_) => child1_ok(s, bufs, 0),
        Op1Def::ShiftDecay(_, _) => child1_ok(s, bufs, 0),
        Op1Def::Noise(grain, octaves, _, _) => {
            &&& 1 <= grain
            &&& octaves <= 16
            &&& grain * pow2(octaves as nat) <= MAX_PIXELS
        },
    }
}

/// The color definition's child references have the arity and kinds its
/// kernel reads, and its parameters are evaluable.
pub open spec fn op3_def_ok(s: Script, op: Op3Def, bufs: Seq<ScriptIndex>) -> bool {
    &&& op.params_ok()
    &&& match op {
        Op3Def::Constant(_) => true,
        Op3Def::Invert() => child3_ok(s, bufs, 0),
        Op3Def::Grey() => child1_ok(s, bufs, 0),
        Op3Def::RGB() => child1_ok(s, bufs, 0) && child1_ok(s, bufs, 1) && child1_ok(s, bufs, 2),
        Op3Def::HSV() => child1_ok(s, bufs, 0) && child1_ok(s, bufs, 1) && child1_ok(s, bufs, 2),
        Op3Def::HSVToRGB() => child3_ok(s, bufs, 0),
        Op3Def::RGBToHSV() => child3_ok(s, bufs, 0),
        Op3Def::Gradient(stops) => child1_ok(s, bufs, 0) && stops@.len() <= MAX_PIXELS,
        Op3Def::PGradient(_) => child1_ok(s, bufs, 0),
        Op3Def::MulS() => child3_ok(s, bufs, 0) && child1_ok(s, bufs, 1),
        Op3Def::Sum() => forall|j: int| 0 <= j < bufs.len() ==> child3_ok(s, bufs, j),
        Op3Def::Mean() => bufs.len() <= 0x7fffffff && forall|j: int|
            0 <= j < bufs.len() ==> child3_ok(s, bufs, j),
        Op3Def::Min() => forall|j: int| 0 <= j < bufs.len() ==> child3_ok(s, bufs, j),
        Op3Def::Max() => forall|j: int| 0 <= j < bufs.len() ==> child3_ok(s, bufs, j),
        Op3Def::Lerp() => child3_ok(s, bufs, 0) && child3_ok(s, bufs, 1) && child1_ok(s, bufs, 2),
        Op3Def::Mask(_) => child3_ok(s, bufs, 0) && child3_ok(s, bufs, 1) && child1_ok(s, bufs, 2),
        Op3Def::Shift(_) => child3_ok(s, bufs, 0),
    }
}

/// Every node of the graph passes its definition check, and the order
/// invariant holds.
pub open spec fn script_ok(s: Script) -> bool {
    &&& consistent(s)
    &&& forall|i: int|
        0 <= i < s.op1s@.len() ==> op1_def_ok(
            s,
            (#[trigger] s.op1s@[i]).op,
            s.op1s@[i].bufs@,
        )
    &&& forall|i: int|
        0 <= i < s.op3s@.len() ==> op3_def_ok(
            s,
            (#[trigger] s.op3s@[i]).op,
            s.op3s@[i].bufs@,
        )
}

/// The state slot a definition kind owns. A noise slot keeps its table
/// count and the rescaling factor the tables were built with, so the
/// amplitude bound stays applicable frame after frame.
pub open spec fn state_matches1(op: Op1Def, state: Op1State, size: int) -> bool {
    match op {
        Op1Def::Pulser(_) => state matches Op1State::Pulser(ps) && ps.wf(),
        Op1Def::Decay(_) => state matches Op1State::Decay(h) && h@.len() == size,
        Op1Def::ShiftDecay(_, _) => state matches Op1State::Decay(h) && h@.len() == size,
        Op1Def::TimeDelta() => state matches Op1State::TimeDelta(h) && h@.len() == size,
        Op1Def::Noise(_, octaves, _, _) => state matches Op1State::Noise(ns) && ns.wf()
            && ns.seeds@.len() == octaves && (octaves == 0 ==> ns.fudgemax == FX_ONE) && (octaves
            >= 1 ==> ns.fudgemax == fx_div_spec(
            FX_HALF as int,
            FX_ONE - (FX_ONE as int) / pow2(octaves as nat),
        )),
        _ => state is NoState,
    }
}

impl Op1State {
    /// The fresh state slot for a definition: an empty pulse list, a zeroed
    /// history, freshly shuffled noise tables, or nothing.
    pub fn new_for(op: &Op1Def, size: usize, rng: &mut ScriptRng) -> (s: Op1State)
        requires
            match *op {
                Op1Def::Noise(grain, octaves, _, _) => {
                    &&& 1 <= grain
                    &&& octaves <= 16
                    &&& grain * pow2(octaves as nat) <= MAX_PIXELS
                },
                _ => true,
            },
        ensures
            state_matches1(*op, s, size as int),
            match *op {
                Op1Def::Pulser(_) => s matches Op1State::Pulser(ps) && ps.birth == 0
                    && ps.nextpulse == 0 && ps.totalcount == 0 && ps.pulses@.len() == 0,
                Op1Def::Decay(_) => s matches Op1State::Decay(h) && forall|i: int|
                    0 <= i < size ==> h@[i] == 0,
                Op1Def::ShiftDecay(_, _) => s matches Op1State::Decay(h) && forall|i: int|
                    0 <= i < size ==> h@[i] == 0,
                Op1Def::TimeDelta() => s matches Op1State::TimeDelta(h) && forall|i: int|
                    0 <= i < size ==> h@[i] == 0,
                Op1Def::Noise(grain, octaves, _, _) => s matches Op1State::Noise(ns) && forall|
                    k: int,
                |
                    0 <= k < octaves ==> (#[trigger] ns.seeds@[k])@.len() == grain * pow2(
                        k as nat,
                    ) && ns.seeds@[k]@.to_multiset() == crate::op::ramp(
                        ns.seeds@[k]@.len() as int,
                    ).to_multiset(),
                _ => true,
            },
    {
        match op {
            Op1Def::Pulser(_) => Op1State::Pulser(PulserState::new()),
            Op1Def::Decay(_) => Op1State::Decay(filled_buf(size, 0)),
            Op1Def::ShiftDecay(_, _) => Op1State::Decay(filled_buf(size, 0)),
            Op1Def::TimeDelta() => Op1State::TimeDelta(filled_buf(size, 0)),
            Op1Def::Noise(grain, octaves, _, _) => Op1State::Noise(
                NoiseState::new(*grain, *octaves, rng),
            ),
            _ => Op1State::NoState,
        }
    }
}

impl Op3State {
    /// The fresh state slot for a color definition; no color kind holds
    /// state.
    pub fn new_for(op: &Op3Def) -> (s: Op3State)
        ensures
            s is NoState,
    {
        match op {
            _ => Op3State::NoState,
        }
    }
}

pub struct ScriptContext {
    pub script: Script,
    pub size: usize,
    pub age: i64,
    pub ticklen: i64,
    pub rng: ScriptRng,
    pub op1s: Vec<Op1Ctx>,
    pub op3s: Vec<Op3Ctx>,
}

impl ScriptContext {
    /// The engine invariant: the graph passed validation, and every node
    /// has a buffer of the strip's size and the state slot of its kind.
    pub open spec fn wf(self) -> bool {
        &&& 0 < self.size <= MAX_PIXELS
        &&& 0 <= self.age < i64::MAX
        &&& 0 <= self.ticklen
        &&& script_ok(self.script)
        &&& self.op1s@.len() == self.script.op1s@.len()
        &&& self.op3s@.len() == self.script.op3s@.len()
        &&& forall|i: int|
            0 <= i < self.op1s@.len() ==> (#[trigger] self.op1s@[i]).buf@.len() == self.size
                && state_matches1(self.script.op1s@[i].op, self.op1s@[i].state, self.size as int)
        &&& forall|i: int|
            0 <= i < self.op3s@.len() ==> (#[trigger] self.op3s@[i]).buf@.len() == self.size
                && self.op3s@[i].state is NoState
    }

    pub fn size(&self) -> (r: usize)
        ensures
            r == self.size,
    {
        self.size
    }

    pub fn age(&self) -> (r: i64)
        ensures
            r == self.age,
    {
        self.age
    }

    pub fn ticklen(&self) -> (r: i64)
        ensures
            r == self.ticklen,
    {
        self.ticklen
    }

    /// The scalar buffer of node `val`.
    pub fn buffer1(&self, val: usize) -> (r: &Vec<i64>)
        requires
            self.wf(),
            val < self.op1s@.len(),
        ensures
            r@ == self.op1s@[val as int].buf@,
            r@.len() == self.size,
    {
        &self.op1s[val].buf
    }

    /// The color buffer of node `val`.
    pub fn buffer3(&self, val: usize) -> (r: &Vec<Pix<i64>>)
        requires
            self.wf(),
            val < self.op3s@.len(),
        ensures
            r@ == self.op3s@[val as int].buf@,
            r@.len() == self.size,
    {
        &self.op3s[val].buf
    }

    /// The designated root's buffer: the value the graph displays.
    pub fn root_buffer(&self) -> (r: PixBuffer)
        requires
            self.wf(),
            self.script.order@.len() > 0,
        ensures
            match r {
                PixBuffer::Buf1(b) => self.script.order@[0] matches ScriptIndex::Op1(n) && b@
                    == self.op1s@[n as int].buf@,
                PixBuffer::Buf3(b) => self.script.order@[0] matches ScriptIndex::Op3(n) && b@
                    == self.op3s@[n as int].buf@,
            },
    {
        proof {
            assert(crate::script::idx_exists(self.script, self.script.order@[0]));
        }
        match self.script.order[0] {
            ScriptIndex::Op1(val) => PixBuffer::Buf1(&self.op1s[val].buf),
            ScriptIndex::Op3(val) => PixBuffer::Buf3(&self.op3s[val].buf),
        }
    }
}

/// The scalar buffer of the node `x` refers to.
pub open spec fn cbuf1(c: ScriptContext, x: ScriptIndex) -> Seq<i64>
    recommends
        x matches ScriptIndex::Op1(n) && n < c.op1s@.len(),
{
    c.op1s@[x->Op1_0 as int].buf@
}

/// The color buffer of the node `x` refers to.
pub open spec fn cbuf3(c: ScriptContext, x: ScriptIndex) -> Seq<Pix<i64>>
    recommends
        x matches ScriptIndex::Op3(n) && n < c.op3s@.len(),
{
    c.op3s@[x->Op3_0 as int].buf@
}

/// The left-to-right saturating sum of the first `k` scalar children at
/// pixel `ix`.
pub open spec fn fold_sum1(c: ScriptContext, bufs: Seq<ScriptIndex>, k: int, ix: int) -> int
    decreases k,
{
    if k <= 0 {
        0
    } else if k == 1 {
        cbuf1(c, bufs[0])[ix] as int
    } else {
        sat64(fold_sum1(c, bufs, k - 1, ix) + cbuf1(c, bufs[k - 1])[ix])
    }
}

/// The left-to-right minimum of the first `k` scalar children at pixel
/// `ix`.
pub open spec fn fold_min1(c: ScriptContext, bufs: Seq<ScriptIndex>, k: int, ix: int) -> int
    decreases k,
{
    if k <= 0 {
        0
    } else if k == 1 {
        cbuf1(c, bufs[0])[ix] as int
    } else {
        let prev = fold_min1(c, bufs, k - 1, ix);
        let v = cbuf1(c, bufs[k - 1])[ix] as int;
        if prev <= v {
            prev
        } else {
            v
        }
    }
}

/// The left-to-right maximum of the first `k` scalar children at pixel
/// `ix`.
pub open spec fn fold_max1(c: ScriptContext, bufs: Seq<ScriptIndex>, k: int, ix: int) -> int
    decreases k,
{
    if k <= 0 {
        0
    } else if k == 1 {
        cbuf1(c, bufs[0])[ix] as int
    } else {
        let prev = fold_max1(c, bufs, k - 1, ix);
        let v = cbuf1(c, bufs[k - 1])[ix] as int;
        if prev >= v {
            prev
        } else {
            v
        }
    }
}

/// The windowed waveform output at pixel `ix`: the shape sampled at the
/// pixel's distance from the window start over the width, scaled into
/// `[mn, mx]`.
pub open spec fn wave_out_spec(
    shape: WaveShape,
    mnv: int,
    mxv: int,
    startpos: int,
    width: int,
    size: int,
    ix: int,
) -> int {
    sat64(
        fx_mul_spec(
            crate::waves::sample_spec(
                shape,
                fx_div_spec(sat64(crate::fixed::pix_pos(ix, size) - startpos), width),
            ),
            sat64(mxv - mnv),
        ) + mnv,
    )
}

/// The cyclic waveform output at pixel `ix`: as `wave_out_spec`, with the
/// phase wrapped modulo 1.
pub open spec fn wave_cycle_out_spec(
    shape: WaveShape,
    mnv: int,
    mxv: int,
    startpos: int,
    period: int,
    size: int,
    ix: int,
) -> int {
    sat64(
        fx_mul_spec(
            crate::waves::sample_spec(
                shape,
                fx_div_spec(sat64(crate::fixed::pix_pos(ix, size) - startpos), period) % (
                FX_ONE as int),
            ),
            sat64(mxv - mnv),
        ) + mnv,
    )
}

/// The decay multiplier one frame applies: two to the minus the frame
/// length over the halflife, floored at a zero exponent.
pub open spec fn decay_mul_spec(ticklen: int, halflife: int) -> int {
    let t = fx_div_spec(ticklen, halflife);
    if t < 0 {
        FX_ONE as int
    } else {
        exp2_neg_spec(t)
    }
}

/// What one scalar node's tick produced, relative to the buffers its
/// children held when it ran: exact wherever the definition is free of
/// random draws.
pub open spec fn op1_result_ok(c0: ScriptContext, c1: ScriptContext, bufnum: int) -> bool {
    let def = c0.script.op1s@[bufnum].op;
    let bufs = c0.script.op1s@[bufnum].bufs@;
    let out = c1.op1s@[bufnum].buf@;
    let st0 = c0.op1s@[bufnum].state;
    let st1 = c1.op1s@[bufnum].state;
    let size = c0.size as int;
    let age = c0.age as int;
    &&& out.len() == size
    &&& match def {
        Op1Def::Constant(v) => forall|i: int| 0 <= i < size ==> out[i] == v,
        Op1Def::Param(p) => p.is_static() ==> forall|i: int|
            0 <= i < size ==> out[i] == p.eval_spec(age),
        Op1Def::Wave(shape, mn, mx, pos, width) => (mn.is_static() && mx.is_static()
            && pos.is_static() && width.is_static()) ==> {
            let widthv = width.eval_spec(age);
            let startpos = sat64(pos.eval_spec(age) - fx_mul_spec(widthv, FX_HALF as int));
            forall|i: int|
                0 <= i < size ==> out[i] == wave_out_spec(
                    shape,
                    mn.eval_spec(age),
                    mx.eval_spec(age),
                    startpos,
                    widthv,
                    size,
                    i,
                )
        },
        Op1Def::WaveCycle(shape, mn, mx, pos, per) => (mn.is_static() && mx.is_static()
            && pos.is_static() && per.is_static()) ==> {
            let perv = per.eval_spec(age);
            let startpos = sat64(pos.eval_spec(age) - fx_mul_spec(perv, FX_HALF as int));
            forall|i: int|
                0 <= i < size ==> out[i] == wave_cycle_out_spec(
                    shape,
                    mn.eval_spec(age),
                    mx.eval_spec(age),
                    startpos,
                    perv,
                    size,
                    i,
                )
        },
        Op1Def::Invert() => forall|i: int|
            0 <= i < size ==> out[i] == sat64(FX_ONE - cbuf1(c0, bufs[0])[i]),
        Op1Def::Pulser(pulser) => st0 matches Op1State::Pulser(ps0) && st1 matches Op1State::Pulser(
            ps1,
        ) && (exists|mid: PulserState|
            #[trigger] PulserState::tick_rel(ps0, mid, pulser, age)
                && PulserState::render_rel(mid, ps1, out, age, size)),
        Op1Def::Decay(halflife) => halflife.is_static() ==> {
            let m = decay_mul_spec(c0.ticklen as int, halflife.eval_spec(age));
            &&& (forall|i: int|
                0 <= i < size ==> out[i] == crate::op::decay_spec(
                    cbuf1(c0, bufs[0])[i] as int,
                    st0->Decay_0@[i] as int,
                    m,
                ))
            &&& st1->Decay_0@ == out
        },
        Op1Def::TimeDelta() => {
            &&& (forall|i: int|
                0 <= i < size ==> out[i] == sat64(
                    cbuf1(c0, bufs[0])[i] - st0->TimeDelta_0@[i],
                ))
            &&& st1->TimeDelta_0@ == cbuf1(c0, bufs[0])
        },
        Op1Def::Brightness() => true,
        Op1Def::Gradient(stops) => forall|i: int|
            0 <= i < size ==> out[i] == crate::op::gradient1_spec(
                stops@,
                cbuf1(c0, bufs[0])[i] as int,
            ),
        Op1Def::Mul() => forall|i: int|
            0 <= i < size ==> out[i] == fx_mul_spec(
                cbuf1(c0, bufs[0])[i] as int,
                cbuf1(c0, bufs[1])[i] as int,
            ),
        Op1Def::Sum() => forall|i: int|
            0 <= i < size ==> out[i] == fold_sum1(c0, bufs, bufs.len() as int, i),
        Op1Def::Mean() => forall|i: int|
            0 <= i < size ==> out[i] == (if bufs.len() >= 2 {
                div_trunc(fold_sum1(c0, bufs, bufs.len() as int, i), bufs.len() as int)
            } else {
                fold_sum1(c0, bufs, bufs.len() as int, i)
            }),
        Op1Def::Min() => forall|i: int|
            0 <= i < size ==> out[i] == fold_min1(c0, bufs, bufs.len() as int, i),
        Op1Def::Max() => forall|i: int|
            0 <= i < size ==> out[i] == fold_max1(c0, bufs, bufs.len() as int, i),
        Op1Def::Clamp(mn, mx) => (mn.is_static() && mx.is_static()) ==> forall|i: int|
            0 <= i < size ==> out[i] == crate::fixed::fx_clamp_spec(
                cbuf1(c0, bufs[0])[i] as int,
                mn.eval_spec(age),
                mx.eval_spec(age),
            ),
        Op1Def::Shift(offset) => offset.is_static() ==> forall|i: int|
            0 <= i < size ==> out[i] == crate::op::shift_sample_spec(
                cbuf1(c0, bufs[0]),
                offset.eval_spec(age),
                i,
            ),
        Op1Def::ShiftDecay(offset, halflife) => (offset.is_static() && halflife.is_static())
            ==> {
            let m = decay_mul_spec(c0.ticklen as int, halflife.eval_spec(age));
            &&& (forall|i: int|
                0 <= i < size ==> out[i] == crate::op::decay_spec(
                    cbuf1(c0, bufs[0])[i] as int,
                    crate::op::shift_sample_spec(st0->Decay_0@, offset.eval_spec(age), i),
                    m,
                ))
            &&& st1->Decay_0@ == out
        },
        Op1Def::Noise(_, _, offset, mx) => (offset.is_static() && mx.is_static()) ==> forall|
            i: int,
        |
            0 <= i < size ==> out[i] == crate::op::noise_fold(
                st0->Noise_0.seeds@,
                0,
                0,
                fx_mul_spec(mx.eval_spec(age), st0->Noise_0.fudgemax as int),
                offset.eval_spec(age),
                size,
                i,
            ),
    }
}

impl ScriptContext {
    /// Evaluate one scalar node: read its children's buffers, run its
    /// kernel, overwrite its buffer, and advance its state.
    fn tickop1(&mut self, bufnum: usize)
        requires
            old(self).wf(),
            bufnum < old(self).op1s@.len(),
        ensures
            final(self).wf(),
            final(self).script == old(self).script,
            final(self).size == old(self).size,
            final(self).age == old(self).age,
            final(self).ticklen == old(self).ticklen,
            final(self).op3s@ == old(self).op3s@,
            final(self).op1s@.len() == old(self).op1s@.len(),
            forall|i: int|
                0 <= i < old(self).op1s@.len() && i != bufnum ==> final(self).op1s@[i] == old(
                    self,
                ).op1s@[i],
            op1_result_ok(*old(self), *final(self), bufnum as int),
    {
        let size = self.size;
        let age = self.age;
        let newbuf: Vec<i64>;
        let newstate: Op1State;
        match &self.script.op1s[bufnum].op {
            Op1Def::Constant(v) => {
                newbuf = filled_buf(size, *v);
                newstate = Op1State::NoState;
            },
            Op1Def::Param(p) => {
                let v = p.eval(&mut self.rng, age);
                newbuf = filled_buf(size, v);
                newstate = Op1State::NoState;
            },
            Op1Def::Wave(shape, mn, mx, pos, width) => {
                let widthv = width.eval(&mut self.rng, age);
                let startpos = fx_sub(pos.eval(&mut self.rng, age), fx_mul(widthv, crate::fixed::FX_HALF));
                let mnv = mn.eval(&mut self.rng, age);
                let mxv = mx.eval(&mut self.rng, age);
                newbuf = kernel_wave(*shape, mnv, mxv, startpos, widthv, size);
                newstate = Op1State::NoState;
            },
            Op1Def::WaveCycle(shape, mn, mx, pos, per) => {
                let perv = per.eval(&mut self.rng, age);
                let startpos = fx_sub(pos.eval(&mut self.rng, age), fx_mul(perv, crate::fixed::FX_HALF));
                let mnv = mn.eval(&mut self.rng, age);
                let mxv = mx.eval(&mut self.rng, age);
                newbuf = kernel_wave_cycle(*shape, mnv, mxv, startpos, perv, size);
                newstate = Op1State::NoState;
            },
            Op1Def::Invert() => {
                let o = self.script.op1s[bufnum].get_type_ref(1, 0);
                newbuf = kernel_invert(&self.op1s[o].buf);
                newstate = Op1State::NoState;
            },
            Op1Def::Pulser(pulser) => {
                let mut st = Op1State::NoState;
                core::mem::swap(&mut self.op1s[bufnum].state, &mut st);
                match st {
                    Op1State::Pulser(mut ps) => {
                        let ghost ps0 = ps;
                        ps.tick(&mut self.rng, pulser, age);
                        let ghost mid = ps;
                        newbuf = ps.render(&mut self.rng, age, size);
                        proof {
                            assert(PulserState::tick_rel(ps0, mid, *pulser, age as int));
                            assert(PulserState::render_rel(
                                mid,
                                ps,
                                newbuf@,
                                age as int,
                                size as int,
                            ));
                        }
                        newstate = Op1State::Pulser(ps);
                    },
                    _ => {
                        // excluded by the engine invariant
                        proof {
                            assert(false);
                        }
                        newbuf = filled_buf(size, 0);
                        newstate = Op1State::NoState;
                    },
                }
            },
            Op1Def::Decay(halflife) => {
                let h = halflife.eval(&mut self.rng, age);
                let t = fx_div(self.ticklen, h);
                let m = fx_exp2_neg(if t < 0 {
                    0
                } else {
                    t
                });
                let o = self.script.op1s[bufnum].get_type_ref(1, 0);
                match &self.op1s[bufnum].state {
                    Op1State::Decay(hist) => {
                        newbuf = kernel_decay(&self.op1s[o].buf, hist, m);
                    },
                    _ => {
                        // excluded by the engine invariant
                        newbuf = filled_buf(size, 0);
                    },
                }
                newstate = Op1State::Decay(kernel_copy(&newbuf));
            },
            Op1Def::TimeDelta() => {
                let o = self.script.op1s[bufnum].get_type_ref(1, 0);
                match &self.op1s[bufnum].state {
                    Op1State::TimeDelta(hist) => {
                        newbuf = kernel_time_delta(&self.op1s[o].buf, hist);
                    },
                    _ => {
                        // excluded by the engine invariant
                        newbuf = filled_buf(size, 0);
                    },
                }
                newstate = Op1State::TimeDelta(kernel_copy(&self.op1s[o].buf));
            },
            Op1Def::Brightness() => {
                // excluded by graph validation
                proof {
                    assert(false);
                }
                newbuf = filled_buf(size, 0);
                newstate = Op1State::NoState;
            },
            Op1Def::Gradient(stops) => {
                let o = self.script.op1s[bufnum].get_type_ref(1, 0);
                newbuf = kernel_gradient(&self.op1s[o].buf, stops);
                newstate = Op1State::NoState;
            },
            Op1Def::Mul() => {
                let o1 = self.script.op1s[bufnum].get_type_ref(1, 0);
                let o2 = self.script.op1s[bufnum].get_type_ref(1, 1);
                newbuf = kernel_mul(&self.op1s[o1].buf, &self.op1s[o2].buf);
                newstate = Op1State::NoState;
            },
            Op1Def::Sum() => {
                newbuf = self.fold_children1(bufnum, 0);
                newstate = Op1State::NoState;
            },
            Op1Def::Mean() => {
                let mut acc = self.fold_children1(bufnum, 0);
                let n = self.script.op1s[bufnum].bufs.len();
                if n >= 2 {
                    kernel_scale_down(&mut acc, n);
                }
                newbuf = acc;
                newstate = Op1State::NoState;
            },
            Op1Def::Min() => {
                newbuf = self.fold_children1(bufnum, 1);
                newstate = Op1State::NoState;
            },
            Op1Def::Max() => {
                newbuf = self.fold_children1(bufnum, 2);
                newstate = Op1State::NoState;
            },
            Op1Def::Clamp(mn, mx) => {
                let mnv = mn.eval(&mut self.rng, age);
                let mxv = mx.eval(&mut self.rng, age);
                let o = self.script.op1s[bufnum].get_type_ref(1, 0);
                newbuf = kernel_clamp(&self.op1s[o].buf, mnv, mxv);
                newstate = Op1State::NoState;
            },
            Op1Def::Shift(offset) => {
                let offv = offset.eval(&mut self.rng, age);
                let o = self.script.op1s[bufnum].get_type_ref(1, 0);
                newbuf = kernel_shift(&self.op1s[o].buf, offv);
                newstate = Op1State::NoState;
            },
            Op1Def::ShiftDecay(offset, halflife) => {
                let h = halflife.eval(&mut self.rng, age);
                let t = fx_div(self.ticklen, h);
                let m = fx_exp2_neg(if t < 0 {
                    0
                } else {
                    t
                });
                let offv = offset.eval(&mut self.rng, age);
                let o = self.script.op1s[bufnum].get_type_ref(1, 0);
                match &self.op1s[bufnum].state {
                    Op1State::Decay(hist) => {
                        newbuf = kernel_shift_decay(&self.op1s[o].buf, hist, offv, m);
                    },
                    _ => {
                        // excluded by the engine invariant
                        newbuf = filled_buf(size, 0);
                    },
                }
                newstate = Op1State::Decay(kernel_copy(&newbuf));
            },
            Op1Def::Noise(_, _, offset, mx) => {
                let offv = offset.eval(&mut self.rng, age);
                let mxv = mx.eval(&mut self.rng, age);
                let mut st = Op1State::NoState;
                core::mem::swap(&mut self.op1s[bufnum].state, &mut st);
                match st {
                    Op1State::Noise(ns) => {
                        newbuf = kernel_noise(&ns, offv, mxv, size);
                        newstate = Op1State::Noise(ns);
                    },
                    _ => {
                        // excluded by the engine invariant
                        newbuf = filled_buf(size, 0);
                        newstate = Op1State::NoState;
                    },
                }
            },
        }
        self.op1s.set(bufnum, Op1Ctx { state: newstate, buf: newbuf });
    }

    /// Fold all scalar children of a combinator node: 0 sums, 1 takes the
    /// minimum, 2 takes the maximum; no children give the identity zero.
    fn fold_children1(&self, bufnum: usize, kind: u8) -> (r: Vec<i64>)
        requires
            self.wf(),
            bufnum < self.op1s@.len(),
            kind <= 2,
            forall|j: int|
                0 <= j < self.script.op1s@[bufnum as int].bufs@.len() ==> child1_ok(
                    self.script,
                    self.script.op1s@[bufnum as int].bufs@,
                    j,
                ),
        ensures
            r@.len() == self.size,
            ({
                let bufs = self.script.op1s@[bufnum as int].bufs@;
                forall|i: int|
                    0 <= i < self.size ==> r@[i] == (if kind == 0 {
                        fold_sum1(*self, bufs, bufs.len() as int, i)
                    } else if kind == 1 {
                        fold_min1(*self, bufs, bufs.len() as int, i)
                    } else {
                        fold_max1(*self, bufs, bufs.len() as int, i)
                    })
            }),
    {
        let n = self.script.op1s[bufnum].bufs.len();
        if n == 0 {
            return filled_buf(self.size, 0);
        }
        proof {
            assert(child1_ok(self.script, self.script.op1s@[bufnum as int].bufs@, 0));
        }
        let o0 = self.script.op1s[bufnum].get_type_ref(1, 0);
        let mut acc = kernel_copy(&self.op1s[o0].buf);
        let ghost bufs = self.script.op1s@[bufnum as int].bufs@;
        let mut k: usize = 1;
        while k < n
            invariant
                self.wf(),
                bufnum < self.op1s@.len(),
                kind <= 2,
                bufs == self.script.op1s@[bufnum as int].bufs@,
                n == bufs.len(),
                1 <= k <= n,
                forall|j: int| 0 <= j < n ==> child1_ok(self.script, bufs, j),
                acc@.len() == self.size,
                forall|i: int|
                    0 <= i < self.size ==> acc@[i] == (if kind == 0 {
                        fold_sum1(*self, bufs, k as int, i)
                    } else if kind == 1 {
                        fold_min1(*self, bufs, k as int, i)
                    } else {
                        fold_max1(*self, bufs, k as int, i)
                    }),
            decreases n - k,
        {
            proof {
                assert(child1_ok(self.script, bufs, k as int));
            }
            let o = self.script.op1s[bufnum].get_type_ref(1, k);
            if kind == 0 {
                kernel_accumulate(&mut acc, &self.op1s[o].buf);
            } else if kind == 1 {
                kernel_acc_min(&mut acc, &self.op1s[o].buf);
            } else {
                kernel_acc_max(&mut acc, &self.op1s[o].buf);
            }
            k = k + 1;
        }
        acc
    }
}

/// One node evaluation of the frame walk: the order entry `x` is evaluated
/// against `c0`, every other node and the clock left unchanged.
pub open spec fn tick_step(c0: ScriptContext, c1: ScriptContext, x: ScriptIndex) -> bool {
    &&& c1.script == c0.script
    &&& c1.size == c0.size
    &&& c1.age == c0.age
    &&& c1.ticklen == c0.ticklen
    &&& match x {
        ScriptIndex::Op1(n) => {
            &&& n < c0.op1s@.len()
            &&& c1.op3s@ == c0.op3s@
            &&& c1.op1s@.len() == c0.op1s@.len()
            &&& forall|i: int| 0 <= i < c0.op1s@.len() && i != n ==> c1.op1s@[i] == c0.op1s@[i]
            &&& op1_result_ok(c0, c1, n as int)
        },
        ScriptIndex::Op3(n) => {
            &&& n < c0.op3s@.len()
            &&& c1.op1s@ == c0.op1s@
            &&& c1.op3s@.len() == c0.op3s@.len()
            &&& forall|i: int| 0 <= i < c0.op3s@.len() && i != n ==> c1.op3s@[i] == c0.op3s@[i]
            &&& op3_result_ok(c0, c1, n as int)
        },
    }
}

/// The whole frame walk: from `c0` — the engine with the new age and frame
/// delta set and every buffer still as before — to `c1`, through one
/// intermediate engine state per order entry, the entries taken in reverse
/// stored order so that every node's children are evaluated strictly
/// before the node itself.
pub open spec fn tick_walk(c0: ScriptContext, c1: ScriptContext, steps: Seq<ScriptContext>) -> bool {
    let order = c0.script.order@;
    &&& steps.len() == order.len() + 1
    &&& steps[0] == c0
    &&& steps[order.len() as int] == c1
    &&& forall|j: int|
        0 <= j < order.len() ==> #[trigger] tick_step(
            steps[j],
            steps[j + 1],
            order[order.len() - 1 - j],
        )
}

/// The left-to-right channelwise saturating sum of the first `k` color
/// children at pixel `ix`.
pub open spec fn fold_sum3(c: ScriptContext, bufs: Seq<ScriptIndex>, k: int, ix: int) -> Pix<i64>
    decreases k,
{
    if k <= 0 {
        Pix { r: 0i64, g: 0i64, b: 0i64 }
    } else if k == 1 {
        cbuf3(c, bufs[0])[ix]
    } else {
        let prev = fold_sum3(c, bufs, k - 1, ix);
        let v = cbuf3(c, bufs[k - 1])[ix];
        Pix {
            r: sat64(prev.r + v.r) as i64,
            g: sat64(prev.g + v.g) as i64,
            b: sat64(prev.b + v.b) as i64,
        }
    }
}

/// The left-to-right channelwise minimum of the first `k` color children.
pub open spec fn fold_min3(c: ScriptContext, bufs: Seq<ScriptIndex>, k: int, ix: int) -> Pix<i64>
    decreases k,
{
    if k <= 0 {
        Pix { r: 0i64, g: 0i64, b: 0i64 }
    } else if k == 1 {
        cbuf3(c, bufs[0])[ix]
    } else {
        let prev = fold_min3(c, bufs, k - 1, ix);
        let v = cbuf3(c, bufs[k - 1])[ix];
        Pix {
            r: (if prev.r <= v.r {
                prev.r
            } else {
                v.r
            }),
            g: (if prev.g <= v.g {
                prev.g
            } else {
                v.g
            }),
            b: (if prev.b <= v.b {
                prev.b
            } else {
                v.b
            }),
        }
    }
}

/// The left-to-right channelwise maximum of the first `k` color children.
pub open spec fn fold_max3(c: ScriptContext, bufs: Seq<ScriptIndex>, k: int, ix: int) -> Pix<i64>
    decreases k,
{
    if k <= 0 {
        Pix { r: 0i64, g: 0i64, b: 0i64 }
    } else if k == 1 {
        cbuf3(c, bufs[0])[ix]
    } else {
        let prev = fold_max3(c, bufs, k - 1, ix);
        let v = cbuf3(c, bufs[k - 1])[ix];
        Pix {
            r: (if prev.r >= v.r {
                prev.r
            } else {
                v.r
            }),
            g: (if prev.g >= v.g {
                prev.g
            } else {
                v.g
            }),
            b: (if prev.b >= v.b {
                prev.b
            } else {
                v.b
            }),
        }
    }
}

/// What one color node's tick produced, relative to the buffers its
/// children held when it ran: exact wherever the definition is free of
/// random draws.
pub open spec fn op3_result_ok(c0: ScriptContext, c1: ScriptContext, bufnum: int) -> bool {
    let def = c0.script.op3s@[bufnum].op;
    let bufs = c0.script.op3s@[bufnum].bufs@;
    let out = c1.op3s@[bufnum].buf@;
    let size = c0.size as int;
    let age = c0.age as int;
    &&& out.len() == size
    &&& match def {
        Op3Def::Constant(v) => forall|i: int| 0 <= i < size ==> out[i] == v,
        Op3Def::Invert() => forall|i: int|
            0 <= i < size ==> #[trigger] out[i] == (Pix {
                r: sat64(FX_ONE - cbuf3(c0, bufs[0])[i].r) as i64,
                g: sat64(FX_ONE - cbuf3(c0, bufs[0])[i].g) as i64,
                b: sat64(FX_ONE - cbuf3(c0, bufs[0])[i].b) as i64,
            }),
        Op3Def::Grey() => forall|i: int|
            0 <= i < size ==> #[trigger] out[i] == (Pix {
                r: cbuf1(c0, bufs[0])[i],
                g: cbuf1(c0, bufs[0])[i],
                b: cbuf1(c0, bufs[0])[i],
            }),
        Op3Def::RGB() => forall|i: int|
            0 <= i < size ==> #[trigger] out[i] == (Pix {
                r: cbuf1(c0, bufs[0])[i],
                g: cbuf1(c0, bufs[1])[i],
                b: cbuf1(c0, bufs[2])[i],
            }),
        Op3Def::HSV() => forall|i: int|
            0 <= i < size ==> ((#[trigger] out[i]).r as int, out[i].g as int, out[i].b as int)
                == crate::pixel::from_hsv_spec(
                cbuf1(c0, bufs[0])[i] as int,
                cbuf1(c0, bufs[1])[i] as int,
                cbuf1(c0, bufs[2])[i] as int,
            ),
        Op3Def::HSVToRGB() => forall|i: int|
            0 <= i < size ==> ((#[trigger] out[i]).r as int, out[i].g as int, out[i].b as int)
                == crate::pixel::from_hsv_spec(
                cbuf3(c0, bufs[0])[i].r as int,
                cbuf3(c0, bufs[0])[i].g as int,
                cbuf3(c0, bufs[0])[i].b as int,
            ),
        Op3Def::RGBToHSV() => forall|i: int|
            0 <= i < size ==> ((#[trigger] out[i]).r as int, out[i].g as int, out[i].b as int)
                == crate::pixel::to_hsv_spec(
                cbuf3(c0, bufs[0])[i].r as int,
                cbuf3(c0, bufs[0])[i].g as int,
                cbuf3(c0, bufs[0])[i].b as int,
            ),
        Op3Def::Gradient(stops) => forall|i: int|
            0 <= i < size ==> #[trigger] out[i] == crate::op::gradient3_spec(
                stops@,
                cbuf1(c0, bufs[0])[i] as int,
            ),
        Op3Def::PGradient(stops) => forall|i: int|
            0 <= i < size ==> #[trigger] out[i] == crate::op::pgradient_spec(
                stops@,
                cbuf1(c0, bufs[0])[i] as int,
            ),
        Op3Def::MulS() => forall|i: int|
            0 <= i < size ==> #[trigger] out[i] == (Pix {
                r: fx_mul_spec(cbuf3(c0, bufs[0])[i].r as int, cbuf1(c0, bufs[1])[i] as int) as i64,
                g: fx_mul_spec(cbuf3(c0, bufs[0])[i].g as int, cbuf1(c0, bufs[1])[i] as int) as i64,
                b: fx_mul_spec(cbuf3(c0, bufs[0])[i].b as int, cbuf1(c0, bufs[1])[i] as int) as i64,
            }),
        Op3Def::Sum() => forall|i: int|
            0 <= i < size ==> #[trigger] out[i] == fold_sum3(c0, bufs, bufs.len() as int, i),
        Op3Def::Mean() => forall|i: int|
            0 <= i < size ==> #[trigger] out[i] == (if bufs.len() >= 2 {
                let s = fold_sum3(c0, bufs, bufs.len() as int, i);
                Pix {
                    r: div_trunc(s.r as int, bufs.len() as int) as i64,
                    g: div_trunc(s.g as int, bufs.len() as int) as i64,
                    b: div_trunc(s.b as int, bufs.len() as int) as i64,
                }
            } else {
                fold_sum3(c0, bufs, bufs.len() as int, i)
            }),
        Op3Def::Min() => forall|i: int|
            0 <= i < size ==> #[trigger] out[i] == fold_min3(c0, bufs, bufs.len() as int, i),
        Op3Def::Max() => forall|i: int|
            0 <= i < size ==> #[trigger] out[i] == fold_max3(c0, bufs, bufs.len() as int, i),
        Op3Def::Lerp() => forall|i: int|
            0 <= i < size ==> #[trigger] out[i] == (Pix {
                r: crate::fixed::fx_lerp_spec(
                    cbuf3(c0, bufs[0])[i].r as int,
                    cbuf3(c0, bufs[1])[i].r as int,
                    cbuf1(c0, bufs[2])[i] as int,
                ) as i64,
                g: crate::fixed::fx_lerp_spec(
                    cbuf3(c0, bufs[0])[i].g as int,
                    cbuf3(c0, bufs[1])[i].g as int,
                    cbuf1(c0, bufs[2])[i] as int,
                ) as i64,
                b: crate::fixed::fx_lerp_spec(
                    cbuf3(c0, bufs[0])[i].b as int,
                    cbuf3(c0, bufs[1])[i].b as int,
                    cbuf1(c0, bufs[2])[i] as int,
                ) as i64,
            }),
        Op3Def::Mask(threshold) => threshold.is_static() ==> forall|i: int|
            0 <= i < size ==> #[trigger] out[i] == (if cbuf1(c0, bufs[2])[i] < threshold.eval_spec(
                age,
            ) {
                cbuf3(c0, bufs[0])[i]
            } else {
                cbuf3(c0, bufs[1])[i]
            }),
        Op3Def::Shift(offset) => offset.is_static() ==> forall|i: int|
            0 <= i < size ==> ({
                let (i1, i2, frac) = crate::op::shift_pick_spec(size, offset.eval_spec(age), i);
                #[trigger] out[i] == (Pix {
                    r: crate::fixed::fx_lerp_spec(
                        cbuf3(c0, bufs[0])[i1].r as int,
                        cbuf3(c0, bufs[0])[i2].r as int,
                        frac,
                    ) as i64,
                    g: crate::fixed::fx_lerp_spec(
                        cbuf3(c0, bufs[0])[i1].g as int,
                        cbuf3(c0, bufs[0])[i2].g as int,
                        frac,
                    ) as i64,
                    b: crate::fixed::fx_lerp_spec(
                        cbuf3(c0, bufs[0])[i1].b as int,
                        cbuf3(c0, bufs[0])[i2].b as int,
                        frac,
                    ) as i64,
                })
            }),
    }
}

impl ScriptContext {
    /// Evaluate one color node: read its children's buffers, run its
    /// kernel, and overwrite its buffer.
    fn tickop3(&mut self, bufnum: usize)
        requires
            old(self).wf(),
            bufnum < old(self).op3s@.len(),
        ensures
            final(self).wf(),
            final(self).script == old(self).script,
            final(self).size == old(self).size,
            final(self).age == old(self).age,
            final(self).ticklen == old(self).ticklen,
            final(self).op1s@ == old(self).op1s@,
            final(self).op3s@.len() == old(self).op3s@.len(),
            forall|i: int|
                0 <= i < old(self).op3s@.len() && i != bufnum ==> final(self).op3s@[i] == old(
                    self,
                ).op3s@[i],
            op3_result_ok(*old(self), *final(self), bufnum as int),
    {
        let size = self.size;
        let age = self.age;
        let newbuf: Vec<Pix<i64>>;
        match &self.script.op3s[bufnum].op {
            Op3Def::Constant(v) => {
                newbuf = filled_buf3(size, *v);
            },
            Op3Def::Invert() => {
                let o = self.script.op3s[bufnum].get_type_ref(3, 0);
                newbuf = kernel_invert3(&self.op3s[o].buf);
            },
            Op3Def::Grey() => {
                let o = self.script.op3s[bufnum].get_type_ref(1, 0);
                newbuf = kernel_grey(&self.op1s[o].buf);
            },
            Op3Def::RGB() => {
                let o1 = self.script.op3s[bufnum].get_type_ref(1, 0);
                let o2 = self.script.op3s[bufnum].get_type_ref(1, 1);
                let o3 = self.script.op3s[bufnum].get_type_ref(1, 2);
                newbuf = kernel_rgb(&self.op1s[o1].buf, &self.op1s[o2].buf, &self.op1s[o3].buf);
            },
            Op3Def::HSV() => {
                let o1 = self.script.op3s[bufnum].get_type_ref(1, 0);
                let o2 = self.script.op3s[bufnum].get_type_ref(1, 1);
                let o3 = self.script.op3s[bufnum].get_type_ref(1, 2);
                newbuf = kernel_hsv(&self.op1s[o1].buf, &self.op1s[o2].buf, &self.op1s[o3].buf);
            },
            Op3Def::HSVToRGB() => {
                let o = self.script.op3s[bufnum].get_type_ref(3, 0);
                newbuf = kernel_hsv_to_rgb(&self.op3s[o].buf);
            },
            Op3Def::RGBToHSV() => {
                let o = self.script.op3s[bufnum].get_type_ref(3, 0);
                newbuf = kernel_rgb_to_hsv(&self.op3s[o].buf);
            },
            Op3Def::Gradient(stops) => {
                let o = self.script.op3s[bufnum].get_type_ref(1, 0);
                newbuf = kernel_gradient3(&self.op1s[o].buf, stops);
            },
            Op3Def::PGradient(stops) => {
                let o = self.script.op3s[bufnum].get_type_ref(1, 0);
                newbuf = kernel_pgradient(&self.op1s[o].buf, stops);
            },
            Op3Def::MulS() => {
                let o1 = self.script.op3s[bufnum].get_type_ref(3, 0);
                let o2 = self.script.op3s[bufnum].get_type_ref(1, 1);
                newbuf = kernel_muls(&self.op3s[o1].buf, &self.op1s[o2].buf);
            },
            Op3Def::Sum() => {
                newbuf = self.fold_children3(bufnum, 0);
            },
            Op3Def::Mean() => {
                let mut acc = self.fold_children3(bufnum, 0);
                let n = self.script.op3s[bufnum].bufs.len();
                if n >= 2 {
                    kernel_scale_down3(&mut acc, n);
                }
                newbuf = acc;
            },
            Op3Def::Min() => {
                newbuf = self.fold_children3(bufnum, 1);
            },
            Op3Def::Max() => {
                newbuf = self.fold_children3(bufnum, 2);
            },
            Op3Def::Lerp() => {
                let o1 = self.script.op3s[bufnum].get_type_ref(3, 0);
                let o2 = self.script.op3s[bufnum].get_type_ref(3, 1);
                let o3 = self.script.op3s[bufnum].get_type_ref(1, 2);
                newbuf = kernel_lerp3(&self.op3s[o1].buf, &self.op3s[o2].buf, &self.op1s[o3].buf);
            },
            Op3Def::Mask(threshold) => {
                let thresval = threshold.eval(&mut self.rng, age);
                let o1 = self.script.op3s[bufnum].get_type_ref(3, 0);
                let o2 = self.script.op3s[bufnum].get_type_ref(3, 1);
                let o3 = self.script.op3s[bufnum].get_type_ref(1, 2);
                newbuf = kernel_mask(
                    &self.op3s[o1].buf,
                    &self.op3s[o2].buf,
                    &self.op1s[o3].buf,
                    thresval,
                );
            },
            Op3Def::Shift(offset) => {
                let offv = offset.eval(&mut self.rng, age);
                let o = self.script.op3s[bufnum].get_type_ref(3, 0);
                newbuf = kernel_shift3(&self.op3s[o].buf, offv);
            },
        }
        self.op3s.set(bufnum, Op3Ctx { state: Op3State::NoState, buf: newbuf });
    }

    /// Fold all color children of a combinator node: 0 sums, 1 takes the
    /// minimum, 2 takes the maximum; no children give the identity black.
    fn fold_children3(&self, bufnum: usize, kind: u8) -> (r: Vec<Pix<i64>>)
        requires
            self.wf(),
            bufnum < self.op3s@.len(),
            kind <= 2,
            forall|j: int|
                0 <= j < self.script.op3s@[bufnum as int].bufs@.len() ==> child3_ok(
                    self.script,
                    self.script.op3s@[bufnum as int].bufs@,
                    j,
                ),
        ensures
            r@.len() == self.size,
            ({
                let bufs = self.script.op3s@[bufnum as int].bufs@;
                forall|i: int|
                    0 <= i < self.size ==> #[trigger] r@[i] == (if kind == 0 {
                        fold_sum3(*self, bufs, bufs.len() as int, i)
                    } else if kind == 1 {
                        fold_min3(*self, bufs, bufs.len() as int, i)
                    } else {
                        fold_max3(*self, bufs, bufs.len() as int, i)
                    })
            }),
    {
        let n = self.script.op3s[bufnum].bufs.len();
        if n == 0 {
            return filled_buf3(self.size, Pix::new(0, 0, 0));
        }
        proof {
            assert(child3_ok(self.script, self.script.op3s@[bufnum as int].bufs@, 0));
        }
        let o0 = self.script.op3s[bufnum].get_type_ref(3, 0);
        let mut acc = kernel_copy3(&self.op3s[o0].buf);
        let ghost bufs = self.script.op3s@[bufnum as int].bufs@;
        let mut k: usize = 1;
        while k < n
            invariant
                self.wf(),
                bufnum < self.op3s@.len(),
                kind <= 2,
                bufs == self.script.op3s@[bufnum as int].bufs@,
                n == bufs.len(),
                1 <= k <= n,
                forall|j: int| 0 <= j < n ==> child3_ok(self.script, bufs, j),
                acc@.len() == self.size,
                forall|i: int|
                    0 <= i < self.size ==> #[trigger] acc@[i] == (if kind == 0 {
                        fold_sum3(*self, bufs, k as int, i)
                    } else if kind == 1 {
                        fold_min3(*self, bufs, k as int, i)
                    } else {
                        fold_max3(*self, bufs, k as int, i)
                    }),
            decreases n - k,
        {
            proof {
                assert(child3_ok(self.script, bufs, k as int));
            }
            let o = self.script.op3s[bufnum].get_type_ref(3, k);
            if kind == 0 {
                kernel_accumulate3(&mut acc, &self.op3s[o].buf);
            } else if kind == 1 {
                kernel_acc_min3(&mut acc, &self.op3s[o].buf);
            } else {
                kernel_acc_max3(&mut acc, &self.op3s[o].buf);
            }
            k = k + 1;
        }
        acc
    }

    /// Advance the engine to the time `newage`: set the frame delta, then
    /// walk the stored order in reverse, so every node's children are
    /// evaluated strictly before the node itself. The walk is the whole
    /// work: the final state is reached from the clock-advanced one by one
    /// `tick_step` per order entry.
    pub fn tick(&mut self, newage: i64)
        requires
            old(self).wf(),
            old(self).age <= newage < i64::MAX,
        ensures
            final(self).wf(),
            final(self).script == old(self).script,
            final(self).size == old(self).size,
            final(self).age == newage,
            final(self).ticklen == newage - old(self).age,
            exists|steps: Seq<ScriptContext>| #[trigger] tick_walk(
                ScriptContext {
                    script: old(self).script,
                    size: old(self).size,
                    age: newage,
                    ticklen: (newage - old(self).age) as i64,
                    rng: old(self).rng,
                    op1s: old(self).op1s,
                    op3s: old(self).op3s,
                },
                *final(self),
                steps,
            ),
    {
        self.ticklen = newage - self.age;
        self.age = newage;
        let ghost start = *self;
        let ghost mut steps: Seq<ScriptContext> = seq![*self];
        let mut ix = self.script.order.len();
        while ix > 0
            invariant
                self.wf(),
                self.script == old(self).script,
                self.size == old(self).size,
                self.age == newage,
                self.ticklen == newage - old(self).age,
                ix <= self.script.order@.len(),
                start.script == self.script,
                steps.len() == self.script.order@.len() - ix + 1,
                steps[0] == start,
                steps.last() == *self,
                forall|j: int|
                    0 <= j < steps.len() - 1 ==> #[trigger] tick_step(
                        steps[j],
                        steps[j + 1],
                        self.script.order@[self.script.order@.len() - 1 - j],
                    ),
            decreases ix,
        {
            ix = ix - 1;
            proof {
                assert(crate::script::idx_exists(self.script, self.script.order@[ix as int]));
            }
            let ghost prev = *self;
            match self.script.order[ix] {
                ScriptIndex::Op1(val) => {
                    Op1Ctx::tickop(self, val);
                },
                ScriptIndex::Op3(val) => {
                    Op3Ctx::tickop(self, val);
                },
            }
            proof {
                assert(tick_step(prev, *self, self.script.order@[ix as int]));
                steps = steps.push(*self);
            }
        }
        proof {
            assert(start == ScriptContext {
                script: old(self).script,
                size: old(self).size,
                age: newage,
                ticklen: (newage - old(self).age) as i64,
                rng: old(self).rng,
                op1s: old(self).op1s,
                op3s: old(self).op3s,
            });
            assert(tick_walk(start, *self, steps));
        }
    }
}

/// Decide whether the `j`-th child reference is a scalar node that exists.
fn check_child1(script: &Script, bufs: &Vec<ScriptIndex>, j: usize) -> (r: bool)
    ensures
        r == child1_ok(*script, bufs@, j as int),
{
    if j >= bufs.len() {
        return false;
    }
    match bufs[j] {
        ScriptIndex::Op1(n) => n < script.op1s.len(),
        ScriptIndex::Op3(_) => false,
    }
}

/// Decide whether the `j`-th child reference is a color node that exists.
fn check_child3(script: &Script, bufs: &Vec<ScriptIndex>, j: usize) -> (r: bool)
    ensures
        r == child3_ok(*script, bufs@, j as int),
{
    if j >= bufs.len() {
        return false;
    }
    match bufs[j] {
        ScriptIndex::Op3(n) => n < script.op3s.len(),
        ScriptIndex::Op1(_) => false,
    }
}

/// Decide whether every child reference is a scalar node that exists.
fn check_all_child1(script: &Script, bufs: &Vec<ScriptIndex>) -> (r: bool)
    ensures
        r == forall|j: int| 0 <= j < bufs@.len() ==> child1_ok(*script, bufs@, j),
{
    let mut j: usize = 0;
    while j < bufs.len()
        invariant
            j <= bufs@.len(),
            forall|k: int| 0 <= k < j ==> child1_ok(*script, bufs@, k),
        decreases bufs@.len() - j,
    {
        if !check_child1(script, bufs, j) {
            return false;
        }
        j = j + 1;
    }
    true
}

/// Decide whether every child reference is a color node that exists.
fn check_all_child3(script: &Script, bufs: &Vec<ScriptIndex>) -> (r: bool)
    ensures
        r == forall|j: int| 0 <= j < bufs@.len() ==> child3_ok(*script, bufs@, j),
{
    let mut j: usize = 0;
    while j < bufs.len()
        invariant
            j <= bufs@.len(),
            forall|k: int| 0 <= k < j ==> child3_ok(*script, bufs@, k),
        decreases bufs@.len() - j,
    {
        if !check_child3(script, bufs, j) {
            return false;
        }
        j = j + 1;
    }
    true
}

/// Decide whether a noise table of `grain` entries doubled over `octaves`
/// octaves stays inside the pixel bound.
fn noise_fits(grain: usize, octaves: usize) -> (r: bool)
    ensures
        r == (1 <= grain && octaves <= 16 && grain * pow2(octaves as nat) <= MAX_PIXELS),
{
    if grain < 1 || octaves > 16 {
        return false;
    }
    if grain > MAX_PIXELS {
        proof {
            crate::fixed::lemma_pow2_pos(octaves as nat);
            assert(grain * pow2(octaves as nat) >= grain * 1) by (nonlinear_arith)
                requires
                    pow2(octaves as nat) >= 1,
                    grain >= 1,
            ;
        }
        return false;
    }
    let mut m: usize = grain;
    let mut k: usize = 0;
    while k < octaves
        invariant
            k <= octaves <= 16,
            1 <= grain,
            m == grain * pow2(k as nat),
            m <= MAX_PIXELS,
        decreases octaves - k,
    {
        if m > MAX_PIXELS / 2 {
            proof {
                crate::op::lemma_grain_overflow(grain as int, k as nat, octaves as nat, m as int);
            }
            return false;
        }
        proof {
            assert(pow2((k + 1) as nat) == 2 * pow2(k as nat));
            assert(grain * pow2((k + 1) as nat) == 2 * (grain * pow2(k as nat)))
                by (nonlinear_arith)
                requires
                    pow2((k + 1) as nat) == 2 * pow2(k as nat),
            ;
        }
        m = m * 2;
        k = k + 1;
    }
    true
}

/// Decide one scalar definition's validity.
fn check_op1_def(script: &Script, op: &Op1Def, bufs: &Vec<ScriptIndex>) -> (r: bool)
    ensures
        r == op1_def_ok(*script, *op, bufs@),
{
    match op {
        Op1Def::Constant(_) => true,
        Op1Def::Param(p) => p.is_live(),
        Op1Def::Wave(_, mn, mx, pos, width) => {
            mn.is_live() && mx.is_live() && pos.is_live() && width.is_live()
        },
        Op1Def::WaveCycle(_, mn, mx, pos, per) => {
            mn.is_live() && mx.is_live() && pos.is_live() && per.is_live()
        },
        Op1Def::Invert() => check_child1(script, bufs, 0),
        Op1Def::Pulser(pulser) => {
            pulser.interval.is_live() && pulser.duration.is_resolvable()
                && pulser.pos.is_resolvable() && pulser.width.is_resolvable()
        },
        Op1Def::Decay(halflife) => halflife.is_live() && check_child1(script, bufs, 0),
        Op1Def::TimeDelta() => check_child1(script, bufs, 0),
        Op1Def::Brightness() => false,
        Op1Def::Gradient(stops) => check_child1(script, bufs, 0) && stops.len() <= MAX_PIXELS,
        Op1Def::Mul() => check_child1(script, bufs, 0) && check_child1(script, bufs, 1),
        Op1Def::Sum() => check_all_child1(script, bufs),
        Op1Def::Mean() => bufs.len() <= 0x7fffffff && check_all_child1(script, bufs),
        Op1Def::Min() => check_all_child1(script, bufs),
        Op1Def::Max() => check_all_child1(script, bufs),
        Op1Def::Clamp(mn, mx) => mn.is_live() && mx.is_live() && check_child1(script, bufs, 0),
        Op1Def::Shift(offset) => offset.is_live() && check_child1(script, bufs, 0),
        Op1Def::ShiftDecay(offset, halflife) => {
            offset.is_live() && halflife.is_live() && check_child1(script, bufs, 0)
        },
        Op1Def::Noise(grain, octaves, offset, mx) => {
            offset.is_live() && mx.is_live() && noise_fits(*grain, *octaves)
        },
    }
}

/// Decide one color definition's validity.
fn check_op3_def(script: &Script, op: &Op3Def, bufs: &Vec<ScriptIndex>) -> (r: bool)
    ensures
        r == op3_def_ok(*script, *op, bufs@),
{
    match op {
        Op3Def::Constant(_) => true,
        Op3Def::Invert() => check_child3(script, bufs, 0),
        Op3Def::Grey() => check_child1(script, bufs, 0),
        Op3Def::RGB() => {
            check_child1(script, bufs, 0) && check_child1(script, bufs, 1) && check_child1(
                script,
                bufs,
                2,
            )
        },
        Op3Def::HSV() => {
            check_child1(script, bufs, 0) && check_child1(script, bufs, 1) && check_child1(
                script,
                bufs,
                2,
            )
        },
        Op3Def::HSVToRGB() => check_child3(script, bufs, 0),
        Op3Def::RGBToHSV() => check_child3(script, bufs, 0),
        Op3Def::Gradient(stops) => check_child1(script, bufs, 0) && stops.len() <= MAX_PIXELS,
        Op3Def::PGradient(_) => check_child1(script, bufs, 0),
        Op3Def::MulS() => check_child3(script, bufs, 0) && check_child1(script, bufs, 1),
        Op3Def::Sum() => check_all_child3(script, bufs),
        Op3Def::Mean() => bufs.len() <= 0x7fffffff && check_all_child3(script, bufs),
        Op3Def::Min() => check_all_child3(script, bufs),
        Op3Def::Max() => check_all_child3(script, bufs),
        Op3Def::Lerp() => {
            check_child3(script, bufs, 0) && check_child3(script, bufs, 1) && check_child1(
                script,
                bufs,
                2,
            )
        },
        Op3Def::Mask(threshold) => {
            threshold.is_live() && check_child3(script, bufs, 0) && check_child3(script, bufs, 1)
                && check_child1(script, bufs, 2)
        },
        Op3Def::Shift(offset) => offset.is_live() && check_child3(script, bufs, 0),
    }
}

impl ScriptContext {
    /// Build an engine instance over a validated graph, with the given
    /// random stream. Construction succeeds exactly when the strip size is
    /// positive and within range and the graph passes validation: the
    /// order invariant and every definition check.
    fn build(script: Script, size: usize, rng: ScriptRng) -> (r: Result<ScriptContext, String>)
        ensures
            r is Ok <==> (script_ok(script) && 0 < size <= MAX_PIXELS),
            r matches Ok(ctx) ==> {
                &&& ctx.wf()
                &&& ctx.script == script
                &&& ctx.size == size
                &&& ctx.age == 0
                &&& ctx.ticklen == 0
                &&& forall|i: int|
                    0 <= i < ctx.op1s@.len() ==> forall|p: int|
                        0 <= p < size ==> (#[trigger] ctx.op1s@[i]).buf@[p] == 0
                &&& forall|i: int|
                    0 <= i < ctx.op3s@.len() ==> forall|p: int|
                        0 <= p < size ==> (#[trigger] ctx.op3s@[i]).buf@[p] == (Pix {
                            r: 0i64,
                            g: 0i64,
                            b: 0i64,
                        })
            },
    {
        if size == 0 || size > MAX_PIXELS {
            return Err("pixel count out of range".to_owned());
        }
        match script.consistency_check() {
            Err(msg) => {
                return Err(msg);
            },
            Ok(()) => {},
        }
        let mut i: usize = 0;
        while i < script.op1s.len()
            invariant
                i <= script.op1s@.len(),
                forall|k: int|
                    0 <= k < i ==> op1_def_ok(
                        script,
                        (#[trigger] script.op1s@[k]).op,
                        script.op1s@[k].bufs@,
                    ),
            decreases script.op1s@.len() - i,
        {
            if !check_op1_def(&script, &script.op1s[i].op, &script.op1s[i].bufs) {
                return Err("invalid scalar node definition".to_owned());
            }
            i = i + 1;
        }
        let mut i: usize = 0;
        while i < script.op3s.len()
            invariant
                i <= script.op3s@.len(),
                forall|k: int|
                    0 <= k < i ==> op3_def_ok(
                        script,
                        (#[trigger] script.op3s@[k]).op,
                        script.op3s@[k].bufs@,
                    ),
            decreases script.op3s@.len() - i,
        {
            if !check_op3_def(&script, &script.op3s[i].op, &script.op3s[i].bufs) {
                return Err("invalid color node definition".to_owned());
            }
            i = i + 1;
        }
        let mut rng = rng;
        let mut op1s: Vec<Op1Ctx> = Vec::new();
        let mut i: usize = 0;
        while i < script.op1s.len()
            invariant
                script_ok(script),
                0 < size <= MAX_PIXELS,
                i <= script.op1s@.len(),
                op1s@.len() == i,
                forall|k: int|
                    0 <= k < i ==> (#[trigger] op1s@[k]).buf@.len() == size && state_matches1(
                        script.op1s@[k].op,
                        op1s@[k].state,
                        size as int,
                    ) && forall|p: int| 0 <= p < size ==> op1s@[k].buf@[p] == 0,
            decreases script.op1s@.len() - i,
        {
            let state = Op1State::new_for(&script.op1s[i].op, size, &mut rng);
            op1s.push(Op1Ctx { state, buf: filled_buf(size, 0) });
            i = i + 1;
        }
        let mut op3s: Vec<Op3Ctx> = Vec::new();
        let mut i: usize = 0;
        while i < script.op3s.len()
            invariant
                0 < size <= MAX_PIXELS,
                i <= script.op3s@.len(),
                op3s@.len() == i,
                forall|k: int|
                    0 <= k < i ==> (#[trigger] op3s@[k]).buf@.len() == size && op3s@[k].state
                        is NoState && forall|p: int|
                        0 <= p < size ==> op3s@[k].buf@[p] == (Pix { r: 0i64, g: 0i64, b: 0i64 }),
            decreases script.op3s@.len() - i,
        {
            let state = Op3State::new_for(&script.op3s[i].op);
            op3s.push(Op3Ctx { state, buf: filled_buf3(size, Pix::new(0, 0, 0)) });
            i = i + 1;
        }
        Ok(ScriptContext { script, size, age: 0, ticklen: 0, rng, op1s, op3s })
    }

    /// An engine instance seeded from the operating system.
    pub fn new(script: Script, size: usize) -> (r: Result<ScriptContext, String>)
        ensures
            r is Ok <==> (script_ok(script) && 0 < size <= MAX_PIXELS),
            r matches Ok(ctx) ==> {
                &&& ctx.wf()
                &&& ctx.script == script
                &&& ctx.size == size
                &&& ctx.age == 0
                &&& ctx.ticklen == 0
                &&& forall|i: int|
                    0 <= i < ctx.op1s@.len() ==> forall|p: int|
                        0 <= p < size ==> (#[trigger] ctx.op1s@[i]).buf@[p] == 0
                &&& forall|i: int|
                    0 <= i < ctx.op3s@.len() ==> forall|p: int|
                        0 <= p < size ==> (#[trigger] ctx.op3s@[i]).buf@[p] == (Pix {
                            r: 0i64,
                            g: 0i64,
                            b: 0i64,
                        })
            },
    {
        ScriptContext::build(script, size, ScriptRng::new())
    }

    /// An engine instance with a deterministic random stream, a pure
    /// function of the seed.
    pub fn new_seeded(script: Script, size: usize, seed: u64) -> (r: Result<ScriptContext, String>)
        ensures
            r is Ok <==> (script_ok(script) && 0 < size <= MAX_PIXELS),
            r matches Ok(ctx) ==> {
                &&& ctx.wf()
                &&& ctx.script == script
                &&& ctx.size == size
                &&& ctx.age == 0
                &&& ctx.ticklen == 0
                &&& forall|i: int|
                    0 <= i < ctx.op1s@.len() ==> forall|p: int|
                        0 <= p < size ==> (#[trigger] ctx.op1s@[i]).buf@[p] == 0
                &&& forall|i: int|
                    0 <= i < ctx.op3s@.len() ==> forall|p: int|
                        0 <= p < size ==> (#[trigger] ctx.op3s@[i]).buf@[p] == (Pix {
                            r: 0i64,
                            g: 0i64,
                            b: 0i64,
                        })
            },
    {
        ScriptContext::build(script, size, ScriptRng::new_seeded(seed))
    }
}

impl Op1Ctx {
    /// Evaluate one scalar node of the engine: the entry point the frame
    /// walk dispatches scalar order entries to.
    pub fn tickop(ctx: &mut ScriptContext, bufnum: usize)
        requires
            old(ctx).wf(),
            bufnum < old(ctx).op1s@.len(),
        ensures
            final(ctx).wf(),
            final(ctx).script == old(ctx).script,
            final(ctx).size == old(ctx).size,
            final(ctx).age == old(ctx).age,
            final(ctx).ticklen == old(ctx).ticklen,
            final(ctx).op3s@ == old(ctx).op3s@,
            final(ctx).op1s@.len() == old(ctx).op1s@.len(),
            forall|i: int|
                0 <= i < old(ctx).op1s@.len() && i != bufnum ==> final(ctx).op1s@[i] == old(
                    ctx,
                ).op1s@[i],
            op1_result_ok(*old(ctx), *final(ctx), bufnum as int),
    {
        ctx.tickop1(bufnum);
    }
}

impl Op3Ctx {
    /// Evaluate one color node of the engine: the entry point the frame
    /// walk dispatches color order entries to.
    pub fn tickop(ctx: &mut ScriptContext, bufnum: usize)
        requires
            old(ctx).wf(),
            bufnum < old(ctx).op3s@.len(),
        ensures
            final(ctx).wf(),
            final(ctx).script == old(ctx).script,
            final(ctx).size == old(ctx).size,
            final(ctx).age == old(ctx).age,
            final(ctx).ticklen == old(ctx).ticklen,
            final(ctx).op1s@ == old(ctx).op1s@,
            final(ctx).op3s@.len() == old(ctx).op3s@.len(),
            forall|i: int|
                0 <= i < old(ctx).op3s@.len() && i != bufnum ==> final(ctx).op3s@[i] == old(
                    ctx,
                ).op3s@[i],
            op3_result_ok(*old(ctx), *final(ctx), bufnum as int),
    {
        ctx.tickop3(bufnum);
    }
}

/// The windowed waveform kernel.
pub fn kernel_wave(shape: WaveShape, mnv: i64, mxv: i64, startpos: i64, width: i64, size: usize) -> (r: Vec<i64>)
    requires
        0 < size <= MAX_PIXELS,
    ensures
        r@.len() == size,
        forall|i: int|
            0 <= i < size ==> r@[i] == wave_out_spec(
                shape,
                mnv as int,
                mxv as int,
                startpos as int,
                width as int,
                size as int,
                i,
            ),
{
    let mut r: Vec<i64> = Vec::new();
    let mut i: usize = 0;
    while i < size
        invariant
            i <= size,
            0 < size <= MAX_PIXELS,
            r@.len() == i,
            forall|j: int|
                0 <= j < i ==> r@[j] == wave_out_spec(
                    shape,
                    mnv as int,
                    mxv as int,
                    startpos as int,
                    width as int,
                    size as int,
                    j,
                ),
        decreases size - i,
    {
        let basepos = crate::fixed::fx_pixel_pos(i, size);
        let s = shape.sample(fx_div(fx_sub(basepos, startpos), width));
        r.push(crate::fixed::fx_add(fx_mul(s, fx_sub(mxv, mnv)), mnv));
        i = i + 1;
    }
    r
}

/// The cyclic waveform kernel.
pub fn kernel_wave_cycle(
    shape: WaveShape,
    mnv: i64,
    mxv: i64,
    startpos: i64,
    period: i64,
    size: usize,
) -> (r: Vec<i64>)
    requires
        0 < size <= MAX_PIXELS,
    ensures
        r@.len() == size,
        forall|i: int|
            0 <= i < size ==> r@[i] == wave_cycle_out_spec(
                shape,
                mnv as int,
                mxv as int,
                startpos as int,
                period as int,
                size as int,
                i,
            ),
{
    let mut r: Vec<i64> = Vec::new();
    let mut i: usize = 0;
    while i < size
        invariant
            i <= size,
            0 < size <= MAX_PIXELS,
            r@.len() == i,
            forall|j: int|
                0 <= j < i ==> r@[j] == wave_cycle_out_spec(
                    shape,
                    mnv as int,
                    mxv as int,
                    startpos as int,
                    period as int,
                    size as int,
                    j,
                ),
        decreases size - i,
    {
        let basepos = crate::fixed::fx_pixel_pos(i, size);
        let s = shape.sample(fx_rem_one(fx_div(fx_sub(basepos, startpos), period)));
        r.push(crate::fixed::fx_add(fx_mul(s, fx_sub(mxv, mnv)), mnv));
        i = i + 1;
    }
    r
}

} // verus!
