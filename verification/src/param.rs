//! The parameter sub-language: a small expression tree for scalar knobs,
//! evaluated on demand against the running age and the shared random stream.
//!
//! `resolve` freezes a parameter to the constant it evaluates to right now,
//! except for `Quote`, which unwraps exactly one level and hands back the
//! inner, still-live parameter. This is how a freshly spawned transient
//! object rolls the dice once, while a script author can opt a field back
//! into per-frame dynamism by quoting it.

use vstd::prelude::*;
use crate::fixed::{FX_ONE, sat64, fx_add, fx_sub, fx_mul, fx_div, fx_mul_spec, fx_div_spec};
use crate::waves::{WaveShape, sample_spec};
use crate::rng::ScriptRng;

verus! {

/// The fixed-point representation of 1.5, the centering offset of the
/// three-sample approximately-normal draw.
pub const FX_THREE_HALVES: i64 = 98304;

/// The fixed-point representation of 0.522, the rescaling divisor of the
/// approximately-normal draw.
pub const FX_NORM_SCALE: i64 = 34210;

#[derive(Clone, Copy, Debug)]
pub enum ParamDef {
    Constant(i64),
    RandFlat(usize, usize),  // min, max
    RandNorm(usize, usize),  // mean, stddev
    Changing(usize, usize),  // start, velocity
    Wave(WaveShape, usize, usize, usize),  // shape, min, max, duration
    WaveCycle(WaveShape, usize, usize, usize, usize),  // shape, min, max, period, offset
    Quote(usize),  // quotedparam
}

#[derive(Debug)]
pub struct EParam {
    pub def: ParamDef,
    pub args: Vec<Param>,
}

#[derive(Debug)]
pub enum Param {
    Const(i64),
    Param(Box<EParam>),
}

/// A live parameter: well-formed and evaluable.
pub open spec fn live_param(p: Param) -> bool {
    p.wf() && p.no_quote()
}

/// A parameter that `resolve` accepts: either quote-free, or a top-level
/// quote whose inner parameter is quote-free.
pub open spec fn resolvable(p: Param) -> bool {
    &&& p.wf()
    &&& match p {
        Param::Param(ep) => match ep.def {
            ParamDef::Quote(q) => ep.args@[q as int].no_quote(),
            _ => p.no_quote(),
        },
        Param::Const(_) => true,
    }
}

/// Every argument index a definition carries stays inside its argument list.
pub open spec fn def_args_ok(def: ParamDef, n: int) -> bool {
    match def {
        ParamDef::Constant(_) => true,
        ParamDef::RandFlat(mn, mx) => mn < n && mx < n,
        ParamDef::RandNorm(mean, stdev) => mean < n && stdev < n,
        ParamDef::Changing(start, vel) => start < n && vel < n,
        ParamDef::Wave(_, mn, mx, dur) => mn < n && mx < n && dur < n,
        ParamDef::WaveCycle(_, mn, mx, per, off) => mn < n && mx < n && per < n && off < n,
        ParamDef::Quote(q) => q < n,
    }
}

impl Param {
    /// Well-formedness: every argument reference resolves, at every level.
    pub open spec fn wf(self) -> bool
        decreases self,
    {
        match self {
            Param::Const(_) => true,
            Param::Param(ep) => {
                &&& def_args_ok(ep.def, ep.args@.len() as int)
                &&& forall|i: int| 0 <= i < ep.args@.len() ==> (#[trigger] ep.args@[i]).wf()
            },
        }
    }

    /// No `Quote` appears anywhere: the parameter can be evaluated.
    pub open spec fn no_quote(self) -> bool
        decreases self,
    {
        match self {
            Param::Const(_) => true,
            Param::Param(ep) => {
                &&& !(ep.def is Quote)
                &&& forall|i: int| 0 <= i < ep.args@.len() ==> (#[trigger] ep.args@[i]).no_quote()
            },
        }
    }

    /// No random draw appears anywhere: evaluation is a pure function of
    /// the age.
    pub open spec fn is_static(self) -> bool
        decreases self,
    {
        match self {
            Param::Const(_) => true,
            Param::Param(ep) => {
                &&& !(ep.def is RandFlat)
                &&& !(ep.def is RandNorm)
                &&& forall|i: int| 0 <= i < ep.args@.len() ==> (#[trigger] ep.args@[i]).is_static()
            },
        }
    }

    /// The exact value of `eval` on a static, quote-free parameter.
    pub open spec fn eval_spec(self, age: int) -> int
        decreases self,
    {
        match self {
            Param::Const(v) => v as int,
            Param::Param(ep) => match ep.def {
                ParamDef::Constant(v) => v as int,
                ParamDef::Changing(start, vel) => {
                    if start < ep.args@.len() && vel < ep.args@.len() {
                        sat64(
                            ep.args@[start as int].eval_spec(age) + fx_mul_spec(
                                age,
                                ep.args@[vel as int].eval_spec(age),
                            ),
                        )
                    } else {
                        0
                    }
                },
                ParamDef::Wave(shape, mn, mx, dur) => {
                    if mn < ep.args@.len() && mx < ep.args@.len() && dur < ep.args@.len() {
                        let mnv = ep.args@[mn as int].eval_spec(age);
                        let mxv = ep.args@[mx as int].eval_spec(age);
                        let durv = ep.args@[dur as int].eval_spec(age);
                        sat64(
                            fx_mul_spec(
                                sample_spec(shape, fx_div_spec(age, durv)),
                                sat64(mxv - mnv),
                            ) + mnv,
                        )
                    } else {
                        0
                    }
                },
                ParamDef::WaveCycle(shape, mn, mx, per, off) => {
                    if mn < ep.args@.len() && mx < ep.args@.len() && per < ep.args@.len() && off
                        < ep.args@.len() {
                        let mnv = ep.args@[mn as int].eval_spec(age);
                        let mxv = ep.args@[mx as int].eval_spec(age);
                        let perv = ep.args@[per as int].eval_spec(age);
                        let offv = ep.args@[off as int].eval_spec(age);
                        let phase = fx_div_spec(sat64(age - offv), perv) % (FX_ONE as int);
                        sat64(fx_mul_spec(sample_spec(shape, phase), sat64(mxv - mnv)) + mnv)
                    } else {
                        0
                    }
                },
                _ => 0,
            },
        }
    }

    /// The exact value of `min`: the static lower bound, or `None` where the
    /// parameter is unbounded below.
    pub open spec fn min_spec(self, age: int) -> Option<int>
        decreases self, 0int,
    {
        match self {
            Param::Const(v) => Some(v as int),
            Param::Param(ep) => match ep.def {
                ParamDef::Constant(v) => Some(v as int),
                ParamDef::RandFlat(mn, _mx) => {
                    if mn < ep.args@.len() {
                        ep.args@[mn as int].min_spec(age)
                    } else {
                        None
                    }
                },
                ParamDef::RandNorm(mean, stdev) => {
                    if mean < ep.args@.len() && stdev < ep.args@.len() {
                        match (
                            ep.args@[mean as int].min_spec(age),
                            ep.args@[stdev as int].max_spec(age),
                        ) {
                            (Some(meanv), Some(stdevv)) => Some(
                                sat64(
                                    fx_div_spec(
                                        fx_mul_spec(-FX_THREE_HALVES, stdevv),
                                        FX_NORM_SCALE as int,
                                    ) + meanv,
                                ),
                            ),
                            _ => None,
                        }
                    } else {
                        None
                    }
                },
                ParamDef::Changing(start, vel) => {
                    if start < ep.args@.len() && vel < ep.args@.len() {
                        match (
                            ep.args@[start as int].min_spec(age),
                            ep.args@[vel as int].min_spec(age),
                        ) {
                            (Some(startv), Some(velv)) => if velv < 0 {
                                None
                            } else {
                                Some(sat64(startv + fx_mul_spec(age, velv)))
                            },
                            _ => None,
                        }
                    } else {
                        None
                    }
                },
                ParamDef::Wave(_, mn, _, _) => {
                    if mn < ep.args@.len() {
                        ep.args@[mn as int].min_spec(age)
                    } else {
                        None
                    }
                },
                ParamDef::WaveCycle(_, mn, _, _, _) => {
                    if mn < ep.args@.len() {
                        ep.args@[mn as int].min_spec(age)
                    } else {
                        None
                    }
                },
                ParamDef::Quote(_) => None,
            },
        }
    }

    /// The exact value of `max`: the static upper bound, or `None` where the
    /// parameter is unbounded above.
    pub open spec fn max_spec(self, age: int) -> Option<int>
        decreases self, 0int,
    {
        match self {
            Param::Const(v) => Some(v as int),
            Param::Param(ep) => match ep.def {
                ParamDef::Constant(v) => Some(v as int),
                ParamDef::RandFlat(_mn, mx) => {
                    if mx < ep.args@.len() {
                        ep.args@[mx as int].max_spec(age)
                    } else {
                        None
                    }
                },
                ParamDef::RandNorm(mean, stdev) => {
                    if mean < ep.args@.len() && stdev < ep.args@.len() {
                        match (
                            ep.args@[mean as int].max_spec(age),
                            ep.args@[stdev as int].max_spec(age),
                        ) {
                            (Some(meanv), Some(stdevv)) => Some(
                                sat64(
                                    fx_div_spec(
                                        fx_mul_spec(FX_THREE_HALVES as int, stdevv),
                                        FX_NORM_SCALE as int,
                                    ) + meanv,
                                ),
                            ),
                            _ => None,
                        }
                    } else {
                        None
                    }
                },
                ParamDef::Changing(start, vel) => {
                    if start < ep.args@.len() && vel < ep.args@.len() {
                        match (
                            ep.args@[start as int].max_spec(age),
                            ep.args@[vel as int].max_spec(age),
                        ) {
                            (Some(startv), Some(velv)) => if velv > 0 {
                                None
                            } else {
                                Some(sat64(startv + fx_mul_spec(age, velv)))
                            },
                            _ => None,
                        }
                    } else {
                        None
                    }
                },
                ParamDef::Wave(_, _, mx, _) => {
                    if mx < ep.args@.len() {
                        ep.args@[mx as int].max_spec(age)
                    } else {
                        None
                    }
                },
                ParamDef::WaveCycle(_, _, mx, _, _) => {
                    if mx < ep.args@.len() {
                        ep.args@[mx as int].max_spec(age)
                    } else {
                        None
                    }
                },
                ParamDef::Quote(_) => None,
            },
        }
    }

    /// Decide well-formedness.
    #[verifier::loop_isolation(false)]
    pub fn is_wf(&self) -> (r: bool)
        ensures
            r == self.wf(),
        decreases *self,
    {
        match self {
            Param::Const(_) => true,
            Param::Param(ep) => {
                let n = ep.args.len();
                let args_ok = match &ep.def {
                    ParamDef::Constant(_) => true,
                    ParamDef::RandFlat(mn, mx) => *mn < n && *mx < n,
                    ParamDef::RandNorm(mean, stdev) => *mean < n && *stdev < n,
                    ParamDef::Changing(start, vel) => *start < n && *vel < n,
                    ParamDef::Wave(_, mn, mx, dur) => *mn < n && *mx < n && *dur < n,
                    ParamDef::WaveCycle(_, mn, mx, per, off) => {
                        *mn < n && *mx < n && *per < n && *off < n
                    },
                    ParamDef::Quote(q) => *q < n,
                };
                if !args_ok {
                    return false;
                }
                let mut i: usize = 0;
                while i < n
                    invariant
                        i <= n,
                        n == ep.args@.len(),
                        forall|j: int| 0 <= j < i ==> (#[trigger] ep.args@[j]).wf(),
                    decreases n - i,
                {
                    if !ep.args[i].is_wf() {
                        return false;
                    }
                    i = i + 1;
                }
                true
            },
        }
    }

    /// Decide quote-freedom.
    #[verifier::loop_isolation(false)]
    pub fn is_quote_free(&self) -> (r: bool)
        ensures
            r == self.no_quote(),
        decreases *self,
    {
        match self {
            Param::Const(_) => true,
            Param::Param(ep) => {
                match &ep.def {
                    ParamDef::Quote(_) => {
                        return false;
                    },
                    _ => {},
                }
                let n = ep.args.len();
                let mut i: usize = 0;
                while i < n
                    invariant
                        i <= n,
                        n == ep.args@.len(),
                        forall|j: int| 0 <= j < i ==> (#[trigger] ep.args@[j]).no_quote(),
                    decreases n - i,
                {
                    if !ep.args[i].is_quote_free() {
                        return false;
                    }
                    i = i + 1;
                }
                true
            },
        }
    }

    /// Decide whether the parameter is live: well-formed and quote-free.
    pub fn is_live(&self) -> (r: bool)
        ensures
            r == live_param(*self),
    {
        self.is_wf() && self.is_quote_free()
    }

    /// Decide whether the parameter can be resolved: well-formed, and
    /// quote-free but for an allowed top-level quote over a quote-free
    /// inner parameter.
    pub fn is_resolvable(&self) -> (r: bool)
        ensures
            r == resolvable(*self),
    {
        if !self.is_wf() {
            return false;
        }
        match self {
            Param::Const(_) => true,
            Param::Param(ep) => match &ep.def {
                ParamDef::Quote(q) => ep.args[*q].is_quote_free(),
                _ => self.is_quote_free(),
            },
        }
    }

    /// A parameter with the given definition and no arguments yet.
    pub fn new(pdef: ParamDef) -> (r: Param)
        ensures
            r matches Param::Param(ep) && ep.def == pdef && ep.args@.len() == 0,
    {
        let eparam = EParam { def: pdef, args: Vec::new() };
        Param::Param(Box::new(eparam))
    }

    /// A parameter frozen at a constant.
    pub fn newconst(val: i64) -> (r: Param)
        ensures
            r == Param::Const(val),
    {
        Param::Const(val)
    }

    /// Append an argument. The receiver must be a compound parameter; a
    /// constant takes no arguments.
    pub fn addchild(self, child: Param) -> (r: Param)
        requires
            self is Param,
        ensures
            r matches Param::Param(ep) && ep.def == self->Param_0.def && ep.args@
                == self->Param_0.args@ + seq![child],
    {
        match self {
            Param::Param(mut param) => {
                param.args.push(child);
                Param::Param(param)
            },
            Param::Const(_) => {
                // excluded by the precondition
                Param::Const(0)
            },
        }
    }

    /// Structural equivalence: the same definitions with the same argument
    /// trees, node for node.
    pub open spec fn equiv(self, other: Param) -> bool
        decreases self,
    {
        match (self, other) {
            (Param::Const(a), Param::Const(b)) => a == b,
            (Param::Param(a), Param::Param(b)) => {
                &&& a.def == b.def
                &&& a.args@.len() == b.args@.len()
                &&& forall|i: int|
                    0 <= i < a.args@.len() ==> (#[trigger] a.args@[i]).equiv(b.args@[i])
            },
            _ => false,
        }
    }

    /// A structurally equivalent copy.
    #[verifier::loop_isolation(false)]
    pub fn duplicate(&self) -> (r: Param)
        ensures
            self.equiv(r),
        decreases *self,
    {
        match self {
            Param::Const(v) => Param::Const(*v),
            Param::Param(ep) => {
                let mut args: Vec<Param> = Vec::new();
                let mut i: usize = 0;
                while i < ep.args.len()
                    invariant
                        i <= ep.args@.len(),
                        args@.len() == i,
                        forall|j: int| 0 <= j < i ==> (#[trigger] ep.args@[j]).equiv(args@[j]),
                    decreases ep.args@.len() - i,
                {
                    args.push(ep.args[i].duplicate());
                    i = i + 1;
                }
                Param::Param(Box::new(EParam { def: ep.def, args }))
            },
        }
    }

    /// Equivalent parameters agree on well-formedness, quote-freedom,
    /// staticness, their evaluation, and their static bounds.
    pub proof fn lemma_equiv_semantics(self, other: Param, age: int)
        requires
            self.equiv(other),
        ensures
            self.wf() == other.wf(),
            self.no_quote() == other.no_quote(),
            self.is_static() == other.is_static(),
            self.eval_spec(age) == other.eval_spec(age),
            self.min_spec(age) == other.min_spec(age),
            self.max_spec(age) == other.max_spec(age),
        decreases self,
    {
        match (self, other) {
            (Param::Param(a), Param::Param(b)) => {
                assert forall|i: int|
                    #![trigger a.args@[i]]
                    #![trigger b.args@[i]]
                    0 <= i < a.args@.len() implies {
                    &&& a.args@[i].wf() == b.args@[i].wf()
                    &&& a.args@[i].no_quote() == b.args@[i].no_quote()
                    &&& a.args@[i].is_static() == b.args@[i].is_static()
                    &&& a.args@[i].eval_spec(age) == b.args@[i].eval_spec(age)
                    &&& a.args@[i].min_spec(age) == b.args@[i].min_spec(age)
                    &&& a.args@[i].max_spec(age) == b.args@[i].max_spec(age)
                } by {
                    a.args@[i].lemma_equiv_semantics(b.args@[i], age);
                }
            },
            _ => {},
        }
    }

    /// Evaluate the parameter live: random draws are drawn afresh, and on a
    /// static parameter the result is the exact value of `eval_spec`.
    /// A flat draw between bounds that are themselves draw-free lands in
    /// `[lo, hi)` on every outcome; a random range that is empty collapses
    /// to its lower bound instead of faulting.
    pub fn eval(&self, rng: &mut ScriptRng, age: i64) -> (r: i64)
        requires
            self.wf(),
            self.no_quote(),
        ensures
            self.is_static() ==> r == self.eval_spec(age as int),
            match *self {
                Param::Param(ep) => match ep.def {
                    ParamDef::RandFlat(mn, mx) => (mn < ep.args@.len() && mx < ep.args@.len()
                        && ep.args@[mn as int].is_static() && ep.args@[mx as int].is_static())
                        ==> {
                        let lo = ep.args@[mn as int].eval_spec(age as int);
                        let hi = ep.args@[mx as int].eval_spec(age as int);
                        &&& lo < hi ==> lo <= r < hi
                        &&& lo >= hi ==> r == lo
                    },
                    _ => true,
                },
                _ => true,
            },
        decreases *self,
    {
        match self {
            Param::Const(v) => *v,
            Param::Param(ep) => match &ep.def {
                ParamDef::Constant(v) => *v,
                ParamDef::RandFlat(mn, mx) => {
                    let mnv = ep.args[*mn].eval(rng, age);
                    let mxv = ep.args[*mx].eval(rng, age);
                    if mnv < mxv {
                        rng.gen_range_fx(mnv, mxv)
                    } else {
                        mnv
                    }
                },
                ParamDef::RandNorm(mean, stdev) => {
                    let meanv = ep.args[*mean].eval(rng, age);
                    let stdevv = ep.args[*stdev].eval(rng, age);
                    let draw = rng.gen_range_fx(0, FX_ONE) + rng.gen_range_fx(0, FX_ONE)
                        + rng.gen_range_fx(0, FX_ONE);
                    let val = draw - FX_THREE_HALVES;
                    fx_add(fx_div(fx_mul(val, stdevv), FX_NORM_SCALE), meanv)
                },
                ParamDef::Changing(start, vel) => {
                    let startv = ep.args[*start].eval(rng, age);
                    let velv = ep.args[*vel].eval(rng, age);
                    fx_add(startv, fx_mul(age, velv))
                },
                ParamDef::Wave(shape, mn, mx, dur) => {
                    let mnv = ep.args[*mn].eval(rng, age);
                    let mxv = ep.args[*mx].eval(rng, age);
                    let durv = ep.args[*dur].eval(rng, age);
                    let s = shape.sample(fx_div(age, durv));
                    fx_add(fx_mul(s, fx_sub(mxv, mnv)), mnv)
                },
                ParamDef::WaveCycle(shape, mn, mx, per, off) => {
                    let mnv = ep.args[*mn].eval(rng, age);
                    let mxv = ep.args[*mx].eval(rng, age);
                    let perv = ep.args[*per].eval(rng, age);
                    let offv = ep.args[*off].eval(rng, age);
                    let phase = crate::fixed::fx_rem_one(fx_div(fx_sub(age, offv), perv));
                    let s = shape.sample(phase);
                    fx_add(fx_mul(s, fx_sub(mxv, mnv)), mnv)
                },
                ParamDef::Quote(_) => {
                    // excluded by the precondition
                    0
                },
            },
        }
    }

    /// The static lower bound of the parameter at the given age, `None`
    /// where it is unbounded below.
    pub fn min(&self, age: i64) -> (r: Option<i64>)
        requires
            self.wf(),
            self.no_quote(),
        ensures
            r is Some <==> self.min_spec(age as int) is Some,
            r is Some ==> r->0 == self.min_spec(age as int)->0,
        decreases *self, 0int,
    {
        match self {
            Param::Const(v) => Some(*v),
            Param::Param(ep) => match &ep.def {
                ParamDef::Constant(v) => Some(*v),
                ParamDef::RandFlat(mn, _mx) => ep.args[*mn].min(age),
                ParamDef::RandNorm(mean, stdev) => {
                    let meanv = ep.args[*mean].min(age);
                    let stdevv = ep.args[*stdev].max(age);
                    match (meanv, stdevv) {
                        (Some(meanv), Some(stdevv)) => Some(
                            fx_add(fx_div(fx_mul(-FX_THREE_HALVES, stdevv), FX_NORM_SCALE), meanv),
                        ),
                        _ => None,
                    }
                },
                ParamDef::Changing(start, vel) => {
                    let startv = ep.args[*start].min(age);
                    let velv = ep.args[*vel].min(age);
                    match (startv, velv) {
                        (Some(startv), Some(velv)) => {
                            if velv < 0 {
                                None
                            } else {
                                Some(fx_add(startv, fx_mul(age, velv)))
                            }
                        },
                        _ => None,
                    }
                },
                ParamDef::Wave(_, mn, _, _) => ep.args[*mn].min(age),
                ParamDef::WaveCycle(_, mn, _, _, _) => ep.args[*mn].min(age),
                ParamDef::Quote(_) => None,
            },
        }
    }

    /// The static upper bound of the parameter at the given age, `None`
    /// where it is unbounded above.
    pub fn max(&self, age: i64) -> (r: Option<i64>)
        requires
            self.wf(),
            self.no_quote(),
        ensures
            r is Some <==> self.max_spec(age as int) is Some,
            r is Some ==> r->0 == self.max_spec(age as int)->0,
        decreases *self, 0int,
    {
        match self {
            Param::Const(v) => Some(*v),
            Param::Param(ep) => match &ep.def {
                ParamDef::Constant(v) => Some(*v),
                ParamDef::RandFlat(_mn, mx) => ep.args[*mx].max(age),
                ParamDef::RandNorm(mean, stdev) => {
                    let meanv = ep.args[*mean].max(age);
                    let stdevv = ep.args[*stdev].max(age);
                    match (meanv, stdevv) {
                        (Some(meanv), Some(stdevv)) => Some(
                            fx_add(fx_div(fx_mul(FX_THREE_HALVES, stdevv), FX_NORM_SCALE), meanv),
                        ),
                        _ => None,
                    }
                },
                ParamDef::Changing(start, vel) => {
                    let startv = ep.args[*start].max(age);
                    let velv = ep.args[*vel].max(age);
                    match (startv, velv) {
                        (Some(startv), Some(velv)) => {
                            if velv > 0 {
                                None
                            } else {
                                Some(fx_add(startv, fx_mul(age, velv)))
                            }
                        },
                        _ => None,
                    }
                },
                ParamDef::Wave(_, _, mx, _) => ep.args[*mx].max(age),
                ParamDef::WaveCycle(_, _, mx, _, _) => ep.args[*mx].max(age),
                ParamDef::Quote(_) => None,
            },
        }
    }

    /// Freeze the parameter: everything but `Quote` collapses to the
    /// constant it evaluates to right now; `Quote` unwraps one level and
    /// returns the inner parameter still live, unevaluated.
    pub fn resolve(&self, rng: &mut ScriptRng, age: i64) -> (r: Param)
        requires
            self.wf(),
            match self {
                Param::Param(ep) => ep.def is Quote || self.no_quote(),
                _ => true,
            },
        ensures
            match *self {
                Param::Const(_) => r == *self,
                Param::Param(ep) => match ep.def {
                    ParamDef::Quote(q) => ep.args@[q as int].equiv(r),
                    _ => r is Const,
                },
            },
            (self.no_quote() && self.is_static()) ==> r == Param::Const(
                self.eval_spec(age as int) as i64,
            ),
    {
        match self {
            Param::Const(v) => Param::Const(*v),
            Param::Param(ep) => match &ep.def {
                ParamDef::Quote(q) => ep.args[*q].duplicate(),
                _ => Param::Const(self.eval(rng, age)),
            },
        }
    }
}

} // verus!
