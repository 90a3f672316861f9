//! The pulse generator: a list of transient, independently aging events.
//!
//! Each tick, when the spawn interval has elapsed, the generator freezes its
//! position, width and duration parameters into a new pulse (quoted
//! parameters stay live), advances the spawn count, and schedules the next
//! spawn; a configured spawn-count limit, once reached, disables spawning
//! permanently. Dead pulses are pruned every tick. Rendering accumulates
//! each live pulse's spatial envelope scaled by its time envelope,
//! additively, into the output buffer; a pulse dies once its time envelope
//! passes 1, or once its static bounds show it has fully left the strip.

use vstd::prelude::*;
use crate::fixed::{
    FX_ONE, FX_HALF, sat64, fx_add, fx_sub, fx_mul, fx_div, fx_mul_spec, fx_div_spec, pix_pos,
    fx_pixel_pos, MAX_PIXELS, filled_buf,
};
use crate::waves::{WaveShape, sample_spec};
use crate::param::{Param, live_param, resolvable};
use crate::rng::ScriptRng;

verus! {

/// The spawn time of a generator that will never spawn again.
pub const PULSE_NEVER: i64 = i64::MAX;

pub struct Pulser {
    pub interval: Param,
    pub countlimit: Option<usize>,
    pub duration: Param,
    pub pos: Param,
    pub width: Param,
    pub spaceshape: WaveShape,
    pub timeshape: WaveShape,
}

pub struct Pulse {
    pub birth: i64,
    pub duration: Param,
    pub pos: Param,
    pub width: Param,
    pub spaceshape: WaveShape,
    pub timeshape: WaveShape,
    pub dead: bool,
}

pub struct PulserState {
    pub birth: i64,
    pub nextpulse: i64,
    pub totalcount: usize,
    pub pulses: Vec<Pulse>,
}

impl Pulser {
    /// The generator's parameters can be evaluated and resolved.
    pub open spec fn wf(self) -> bool {
        &&& live_param(self.interval)
        &&& resolvable(self.duration)
        &&& resolvable(self.pos)
        &&& resolvable(self.width)
    }

    /// The default generator: one pulse per second, a triangle in space
    /// decaying quadratically in time, half a strip wide, centered.
    pub fn new() -> (p: Pulser)
        ensures
            p.interval == Param::Const(FX_ONE),
            p.countlimit is None,
            p.duration == Param::Const(FX_ONE),
            p.pos == Param::Const(FX_HALF),
            p.width == Param::Const(FX_HALF),
            p.spaceshape == WaveShape::Triangle,
            p.timeshape == WaveShape::SqrDecay,
            p.wf(),
    {
        Pulser {
            interval: Param::newconst(FX_ONE),
            countlimit: None,
            duration: Param::newconst(FX_ONE),
            pos: Param::newconst(FX_HALF),
            width: Param::newconst(FX_HALF),
            spaceshape: WaveShape::Triangle,
            timeshape: WaveShape::SqrDecay,
        }
    }
}

impl Pulse {
    /// The pulse's frozen-or-live parameters can be evaluated.
    pub open spec fn wf(self) -> bool {
        live_param(self.duration) && live_param(self.pos) && live_param(self.width)
    }

    /// Evaluation of every parameter is a pure function of the age.
    pub open spec fn is_static(self) -> bool {
        self.duration.is_static() && self.pos.is_static() && self.width.is_static()
    }
}

/// The live pulses of a list, in order.
pub open spec fn pruned(s: Seq<Pulse>) -> Seq<Pulse> {
    s.filter(|q: Pulse| !q.dead)
}

/// What one pulse adds to the pixel at `ix`, exact for a static pulse.
pub open spec fn pulse_contrib(p: Pulse, now: int, size: int, ix: int) -> int {
    let age = sat64(now - p.birth);
    if p.dead {
        0
    } else if !(p.timeshape is Flat) && fx_div_spec(age, p.duration.eval_spec(age)) > FX_ONE {
        0
    } else {
        let timeval = if p.timeshape is Flat {
            FX_ONE as int
        } else {
            sample_spec(p.timeshape, fx_div_spec(age, p.duration.eval_spec(age)))
        };
        let width = p.width.eval_spec(age);
        if p.spaceshape is Flat {
            fx_mul_spec(FX_ONE as int, timeval)
        } else {
            let halfwidth = fx_mul_spec(width, FX_HALF as int);
            let exited_right = match p.pos.min_spec(age) {
                Some(mn) => sat64(mn - halfwidth) > FX_ONE,
                None => false,
            };
            let exited_left = match p.pos.max_spec(age) {
                Some(mx) => sat64(mx + halfwidth) < 0,
                None => false,
            };
            if exited_right || exited_left {
                0
            } else {
                let startpos = sat64(p.pos.eval_spec(age) - halfwidth);
                let rpos = fx_div_spec(sat64(pix_pos(ix, size) - startpos), width);
                fx_mul_spec(sample_spec(p.spaceshape, rpos), timeval)
            }
        }
    }
}

/// The pixel at `ix` after the first `k` pulses have accumulated, each
/// addition saturating, in pulse order.
pub open spec fn accum_contrib(pulses: Seq<Pulse>, now: int, size: int, ix: int, k: int) -> int
    decreases k,
{
    if k <= 0 {
        0
    } else {
        sat64(
            accum_contrib(pulses, now, size, ix, k - 1) + pulse_contrib(
                pulses[k - 1],
                now,
                size,
                ix,
            ),
        )
    }
}

impl PulserState {
    /// Every pulse in the list can be evaluated.
    pub open spec fn wf(self) -> bool {
        &&& self.birth >= 0
        &&& forall|i: int| 0 <= i < self.pulses@.len() ==> (#[trigger] self.pulses@[i]).wf()
    }

    /// Every pulse's parameters are pure functions of the age.
    pub open spec fn all_static(self) -> bool {
        forall|i: int| 0 <= i < self.pulses@.len() ==> (#[trigger] self.pulses@[i]).is_static()
    }

    pub fn new() -> (s: PulserState)
        ensures
            s.birth == 0,
            s.nextpulse == 0,
            s.totalcount == 0,
            s.pulses@.len() == 0,
            s.wf(),
    {
        PulserState { birth: 0, nextpulse: 0, totalcount: 0, pulses: Vec::new() }
    }

    /// What one call of `tick` at time `now` does: spawn exactly when the
    /// spawn time has arrived, then prune dead pulses.
    pub open spec fn tick_rel(s0: PulserState, s1: PulserState, pulser: Pulser, now: int) -> bool {
        &&& s1.wf()
        &&& s1.birth == s0.birth
        &&& ({
            let age = sat64(now - s0.birth);
            &&& (age < s0.nextpulse) ==> {
                &&& s1.totalcount == s0.totalcount
                &&& s1.nextpulse == s0.nextpulse
                &&& s1.pulses@ == pruned(s0.pulses@)
            }
            &&& (age >= s0.nextpulse) ==> {
                &&& s1.totalcount == if s0.totalcount < usize::MAX {
                    s0.totalcount + 1
                } else {
                    s0.totalcount as int
                }
                &&& s1.pulses@.len() == pruned(s0.pulses@).len() + 1
                &&& s1.pulses@.take(s1.pulses@.len() - 1) == pruned(s0.pulses@)
                &&& ({
                    let sp = s1.pulses@.last();
                    &&& sp.birth == now
                    &&& sp.dead == false
                    &&& sp.spaceshape == pulser.spaceshape
                    &&& sp.timeshape == pulser.timeshape
                    &&& (pulser.pos.no_quote() && pulser.pos.is_static()) ==> sp.pos
                        == Param::Const(pulser.pos.eval_spec(age) as i64)
                    &&& (pulser.width.no_quote() && pulser.width.is_static()) ==> sp.width
                        == Param::Const(pulser.width.eval_spec(age) as i64)
                    &&& (pulser.duration.no_quote() && pulser.duration.is_static())
                        ==> sp.duration == Param::Const(pulser.duration.eval_spec(age) as i64)
                })
                &&& match pulser.countlimit {
                    Some(l) => s1.totalcount >= l ==> s1.nextpulse == PULSE_NEVER,
                    None => true,
                }
                &&& (match pulser.countlimit {
                    Some(l) => s1.totalcount < l,
                    None => true,
                } && pulser.interval.is_static()) ==> s1.nextpulse == sat64(
                    now + pulser.interval.eval_spec(age),
                )
            }
        })
    }

    /// Advance the generator to the time `now`: spawn a pulse if the spawn
    /// time has arrived, then prune dead pulses.
    pub fn tick(&mut self, rng: &mut ScriptRng, pulser: &Pulser, now: i64)
        requires
            old(self).wf(),
            pulser.wf(),
            0 <= now < i64::MAX,
        ensures
            PulserState::tick_rel(*old(self), *final(self), *pulser, now as int),
    {
        let age = fx_sub(now, self.birth);
        if age >= self.nextpulse {
            let posparam = pulser.pos.resolve(rng, age);
            let widthparam = pulser.width.resolve(rng, age);
            let durparam = pulser.duration.resolve(rng, age);
            proof {
                lemma_resolved_live(pulser.pos, posparam);
                lemma_resolved_live(pulser.width, widthparam);
                lemma_resolved_live(pulser.duration, durparam);
            }
            self.pulses.push(
                Pulse {
                    birth: now,
                    duration: durparam,
                    pos: posparam,
                    width: widthparam,
                    spaceshape: pulser.spaceshape,
                    timeshape: pulser.timeshape,
                    dead: false,
                },
            );
            if self.totalcount < usize::MAX {
                self.totalcount = self.totalcount + 1;
            }
            let interval = pulser.interval.eval(rng, age);
            self.nextpulse = fx_add(now, interval);
            match pulser.countlimit {
                Some(countlimit) => {
                    if self.totalcount >= countlimit {
                        self.nextpulse = PULSE_NEVER;
                    }
                },
                None => {},
            }
            let ghost spawned = self.pulses@.last();
            proof {
                assert(self.pulses@ =~= old(self).pulses@ + seq![spawned]);
                lemma_pruned_extend(old(self).pulses@, spawned);
                lemma_pruned_wf(old(self).pulses@);
            }
            self.prune();
            proof {
                assert(self.pulses@.take(self.pulses@.len() - 1) =~= pruned(old(self).pulses@));
            }
        } else {
            self.prune();
            proof {
                lemma_pruned_wf(old(self).pulses@);
            }
        }
    }

    /// Drop dead pulses, keeping the order of the live ones.
    #[verifier::loop_isolation(false)]
    fn prune(&mut self)
        ensures
            final(self).pulses@ == pruned(old(self).pulses@),
            final(self).birth == old(self).birth,
            final(self).nextpulse == old(self).nextpulse,
            final(self).totalcount == old(self).totalcount,
    {
        let mut oldpulses: Vec<Pulse> = Vec::new();
        core::mem::swap(&mut self.pulses, &mut oldpulses);
        let ghost allpulses = oldpulses@;
        let n = oldpulses.len();
        proof {
            assert(allpulses.len() == n);
        }
        let mut i: usize = 0;
        while oldpulses.len() > 0
            invariant
                allpulses.len() <= usize::MAX,
                allpulses.len() == i + oldpulses@.len(),
                oldpulses@ == allpulses.skip(i as int),
                self.pulses@ == pruned(allpulses.take(i as int)),
                self.birth == old(self).birth,
                self.nextpulse == old(self).nextpulse,
                self.totalcount == old(self).totalcount,
            decreases oldpulses@.len(),
        {
            let p = oldpulses.remove(0);
            proof {
                lemma_pruned_extend(allpulses.take(i as int), p);
                assert(allpulses.take(i as int) + seq![p] =~= allpulses.take(i + 1int));
                assert(oldpulses@ =~= allpulses.skip(i + 1int));
            }
            if !p.dead {
                self.pulses.push(p);
            }
            i = i + 1;
        }
        proof {
            assert(allpulses.take(allpulses.len() as int) =~= allpulses);
        }
    }
}

/// A pulse whose time envelope has passed 1 at time `now`: its age over
/// its duration exceeds a unit (exact for a static duration).
pub open spec fn pulse_expired(p: Pulse, now: int) -> bool {
    let age = sat64(now - p.birth);
    !(p.timeshape is Flat) && fx_div_spec(age, p.duration.eval_spec(age)) > FX_ONE
}

/// A pulse whose static bounds show it has fully left the strip in its
/// direction of travel at time `now` (exact for static parameters).
pub open spec fn pulse_exited(p: Pulse, now: int) -> bool {
    let age = sat64(now - p.birth);
    let halfwidth = fx_mul_spec(p.width.eval_spec(age), FX_HALF as int);
    &&& !(p.spaceshape is Flat)
    &&& ((match p.pos.min_spec(age) {
        Some(mn) => sat64(mn - halfwidth) > FX_ONE,
        None => false,
    }) || (match p.pos.max_spec(age) {
        Some(mx) => sat64(mx + halfwidth) < 0,
        None => false,
    }))
}

/// The fields of a pulse that never change after spawning.
pub open spec fn same_except_dead(a: Pulse, b: Pulse) -> bool {
    &&& b.birth == a.birth
    &&& b.duration == a.duration
    &&& b.pos == a.pos
    &&& b.width == a.width
    &&& b.spaceshape == a.spaceshape
    &&& b.timeshape == a.timeshape
}

/// Every pulse of the list is static: its parameters are pure functions of
/// the age.
pub open spec fn all_static_seq(s: Seq<Pulse>) -> bool {
    forall|i: int| 0 <= i < s.len() ==> (#[trigger] s[i]).is_static()
}

impl PulserState {
    /// What one call of `render` at time `now` over `size` pixels does:
    /// every pulse keeps its fields, its dead flag set exactly when it was
    /// dead, has expired, or has exited (for a static pulse list), and the
    /// buffer is exactly the accumulated contribution of each pulse in
    /// order.
    pub open spec fn render_rel(
        s0: PulserState,
        s1: PulserState,
        buf: Seq<i64>,
        now: int,
        size: int,
    ) -> bool {
        &&& buf.len() == size
        &&& s1.wf()
        &&& s1.birth == s0.birth
        &&& s1.nextpulse == s0.nextpulse
        &&& s1.totalcount == s0.totalcount
        &&& s1.pulses@.len() == s0.pulses@.len()
        &&& forall|i: int|
            0 <= i < s0.pulses@.len() ==> same_except_dead(
                #[trigger] s0.pulses@[i],
                s1.pulses@[i],
            ) && (s0.pulses@[i].dead ==> s1.pulses@[i].dead)
        &&& all_static_seq(s0.pulses@) ==> forall|ix: int|
            0 <= ix < size ==> buf[ix] == accum_contrib(
                s0.pulses@,
                now,
                size,
                ix,
                s0.pulses@.len() as int,
            )
        &&& all_static_seq(s0.pulses@) ==> forall|i: int|
            0 <= i < s0.pulses@.len() ==> (#[trigger] s1.pulses@[i]).dead == (s0.pulses@[i].dead
                || pulse_expired(s0.pulses@[i], now) || pulse_exited(s0.pulses@[i], now))
    }

    /// Accumulate every live pulse's envelope into a fresh buffer of `size`
    /// pixels, marking as dead the pulses whose time envelope has passed 1
    /// or whose static bounds show they have fully left the strip. On a
    /// fully static pulse list the buffer is exactly the accumulated
    /// contribution of each pulse in order, and the dead flags are exact.
    pub fn render(&mut self, rng: &mut ScriptRng, now: i64, size: usize) -> (r: Vec<i64>)
        requires
            old(self).wf(),
            0 < size <= MAX_PIXELS,
        ensures
            PulserState::render_rel(*old(self), *final(self), r@, now as int, size as int),
    {
        let ghost allp = old(self).pulses@;
        let mut buf = filled_buf(size, 0);
        let mut oldp: Vec<Pulse> = Vec::new();
        core::mem::swap(&mut self.pulses, &mut oldp);
        let n = oldp.len();
        proof {
            assert(allp.len() == n);
        }
        let mut k: usize = 0;
        while oldp.len() > 0
            invariant
                allp.len() <= usize::MAX,
                allp.len() == k + oldp@.len(),
                oldp@ == allp.skip(k as int),
                self.pulses@.len() == k,
                self.birth == old(self).birth,
                self.nextpulse == old(self).nextpulse,
                self.totalcount == old(self).totalcount,
                self.birth >= 0,
                forall|j: int| 0 <= j < allp.len() ==> (#[trigger] allp[j]).wf(),
                forall|j: int|
                    0 <= j < k ==> same_except_dead(#[trigger] allp[j], self.pulses@[j]) && (
                    allp[j].dead ==> self.pulses@[j].dead) && self.pulses@[j].wf(),
                all_static_seq(allp) ==> forall|j: int|
                    0 <= j < k ==> (#[trigger] self.pulses@[j]).dead == (allp[j].dead
                        || pulse_expired(allp[j], now as int) || pulse_exited(
                        allp[j],
                        now as int,
                    )),
                buf@.len() == size,
                0 < size <= MAX_PIXELS,
                all_static_seq(allp) ==> forall|ix: int|
                    0 <= ix < size ==> buf@[ix] == accum_contrib(
                        allp,
                        now as int,
                        size as int,
                        ix,
                        k as int,
                    ),
            decreases oldp@.len(),
        {
            let mut p = oldp.remove(0);
            proof {
                assert(p == allp[k as int]);
                assert(oldp@ =~= allp.skip(k + 1int));
            }
            let ghost p0 = p;
            let age = fx_sub(now, p.birth);
            let mut dead_from_time = false;
            let mut timeval: i64 = FX_ONE;
            match p.timeshape {
                WaveShape::Flat => {},
                _ => {
                    let duration = p.duration.eval(rng, age);
                    let time = fx_div(age, duration);
                    if time > FX_ONE {
                        p.dead = true;
                        dead_from_time = true;
                    } else {
                        timeval = p.timeshape.sample(time);
                    }
                },
            }
            if !dead_from_time {
                let width = p.width.eval(rng, age);
                let mut startpos: i64 = 0;
                match p.spaceshape {
                    WaveShape::Flat => {},
                    _ => {
                        startpos = fx_sub(p.pos.eval(rng, age), fx_mul(width, FX_HALF));
                        match p.pos.min(age) {
                            Some(minpos) => {
                                if fx_sub(minpos, fx_mul(width, FX_HALF)) > FX_ONE {
                                    p.dead = true;
                                }
                            },
                            None => {},
                        }
                        match p.pos.max(age) {
                            Some(maxpos) => {
                                if fx_add(maxpos, fx_mul(width, FX_HALF)) < 0 {
                                    p.dead = true;
                                }
                            },
                            None => {},
                        }
                    },
                }
                if !p.dead {
                    let ghost bufmid = buf@;
                    let mut ix: usize = 0;
                    while ix < size
                        invariant
                            ix <= size,
                            0 < size <= MAX_PIXELS,
                            buf@.len() == size,
                            bufmid.len() == size,
                            forall|j: int| ix <= j < size ==> buf@[j] == bufmid[j],
                            forall|j: int|
                                0 <= j < ix ==> buf@[j] == sat64(
                                    bufmid[j] + (if p.spaceshape is Flat {
                                        fx_mul_spec(FX_ONE as int, timeval as int)
                                    } else {
                                        fx_mul_spec(
                                            sample_spec(
                                                p.spaceshape,
                                                fx_div_spec(
                                                    sat64(pix_pos(j, size as int) - startpos),
                                                    width as int,
                                                ),
                                            ),
                                            timeval as int,
                                        )
                                    }),
                                ),
                        decreases size - ix,
                    {
                        let spaceval: i64;
                        match p.spaceshape {
                            WaveShape::Flat => {
                                spaceval = FX_ONE;
                            },
                            _ => {
                                let pos = fx_pixel_pos(ix, size);
                                let rpos = fx_div(fx_sub(pos, startpos), width);
                                spaceval = p.spaceshape.sample(rpos);
                            },
                        }
                        let val = fx_mul(spaceval, timeval);
                        let cur = buf[ix];
                        buf.set(ix, fx_add(cur, val));
                        ix = ix + 1;
                    }
                }
            }
            self.pulses.push(p);
            k = k + 1;
        }
        proof {
            assert(allp.skip(allp.len() as int).len() == 0);
            assert forall|i: int| 0 <= i < self.pulses@.len() implies (
            #[trigger] self.pulses@[i]).wf() by {
                assert(same_except_dead(allp[i], self.pulses@[i]));
            }
        }
        buf
    }
}

/// A pulse list in which every pulse is dead, or past its duration with a
/// time-enveloped shape, contributes exactly zero to every pixel.
pub proof fn lemma_expired_pulses_add_nothing(
    pulses: Seq<Pulse>,
    now: int,
    size: int,
    ix: int,
    k: int,
)
    requires
        0 <= k <= pulses.len(),
        forall|i: int|
            0 <= i < pulses.len() ==> (#[trigger] pulses[i]).dead || (!(pulses[i].timeshape
                is Flat) && fx_div_spec(
                sat64(now - pulses[i].birth),
                pulses[i].duration.eval_spec(sat64(now - pulses[i].birth)),
            ) > FX_ONE),
    ensures
        accum_contrib(pulses, now, size, ix, k) == 0,
    decreases k,
{
    if k > 0 {
        lemma_expired_pulses_add_nothing(pulses, now, size, ix, k - 1);
        assert(pulse_contrib(pulses[k - 1], now, size, ix) == 0);
    }
}

/// What `resolve` hands back is always live: a constant, or the quote's
/// inner parameter, which resolvability makes quote-free.
proof fn lemma_resolved_live(p: Param, r: Param)
    requires
        resolvable(p),
        match p {
            Param::Const(_) => r == p,
            Param::Param(ep) => match ep.def {
                crate::param::ParamDef::Quote(q) => ep.args@[q as int].equiv(r),
                _ => r is Const,
            },
        },
    ensures
        live_param(r),
{
    match p {
        Param::Const(_) => {},
        Param::Param(ep) => match ep.def {
            crate::param::ParamDef::Quote(q) => {
                ep.args@[q as int].lemma_equiv_semantics(r, 0);
            },
            _ => {},
        },
    }
}

/// Pruning a list extended by one pulse keeps the pulse exactly when it is
/// live.
proof fn lemma_pruned_extend(s: Seq<Pulse>, p: Pulse)
    ensures
        !p.dead ==> pruned(s + seq![p]) =~= pruned(s) + seq![p],
        p.dead ==> pruned(s + seq![p]) =~= pruned(s),
{
    reveal_with_fuel(Seq::filter, 2);
    let pred = |q: Pulse| !q.dead;
    Seq::filter_distributes_over_add(s, seq![p], pred);
    assert(seq![p].drop_last() =~= Seq::<Pulse>::empty());
    assert(Seq::<Pulse>::empty().filter(pred) =~= Seq::<Pulse>::empty());
}

/// Pruning keeps only pulses of the list, so well-formedness carries over.
proof fn lemma_pruned_wf(s: Seq<Pulse>)
    requires
        forall|i: int| 0 <= i < s.len() ==> (#[trigger] s[i]).wf(),
    ensures
        pruned(s).len() <= s.len(),
        forall|i: int| 0 <= i < pruned(s).len() ==> (#[trigger] pruned(s)[i]).wf(),
    decreases s.len(),
{
    reveal_with_fuel(Seq::filter, 2);
    if s.len() > 0 {
        let d = s.drop_last();
        assert(forall|i: int| 0 <= i < d.len() ==> #[trigger] d[i] == s[i]);
        lemma_pruned_wf(d);
        if !s.last().dead {
            assert(pruned(s) =~= pruned(d).push(s.last()));
        } else {
            assert(pruned(s) =~= pruned(d));
        }
    } else {
        assert(pruned(s) =~= Seq::<Pulse>::empty());
    }
}

} // verus!
