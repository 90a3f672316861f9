use beacon::fixed::{FX_HALF, FX_ONE};
use beacon::param::{Param, ParamDef};
use beacon::pulser::{Pulser, PulserState, PULSE_NEVER};
use beacon::rng::ScriptRng;
use beacon::waves::WaveShape;

fn changing(start: i64, velocity: i64) -> Param {
    Param::new(ParamDef::Changing(0, 1))
        .addchild(Param::newconst(start))
        .addchild(Param::newconst(velocity))
}

#[test]
fn constant_params_evaluate_to_themselves() {
    let mut rng = ScriptRng::new_seeded(7);
    let p = Param::newconst(1234);
    assert_eq!(p.eval(&mut rng, 0), 1234);
    assert_eq!(p.eval(&mut rng, FX_ONE), 1234);
    assert_eq!(p.min(0), Some(1234));
    assert_eq!(p.max(0), Some(1234));
}

#[test]
fn changing_param_ramps_linearly() {
    let mut rng = ScriptRng::new_seeded(7);
    let p = changing(FX_ONE, FX_HALF);
    assert_eq!(p.eval(&mut rng, 0), FX_ONE);
    assert_eq!(p.eval(&mut rng, 2 * FX_ONE), 2 * FX_ONE);
    // a positive velocity leaves the ramp bounded below, unbounded above
    assert_eq!(p.min(2 * FX_ONE), Some(2 * FX_ONE));
    assert_eq!(p.max(2 * FX_ONE), None);
}

#[test]
fn rand_flat_draws_stay_in_range() {
    let mut rng = ScriptRng::new_seeded(42);
    let p = Param::new(ParamDef::RandFlat(0, 1))
        .addchild(Param::newconst(100))
        .addchild(Param::newconst(200));
    for _ in 0..50 {
        let v = p.eval(&mut rng, 0);
        assert!((100..200).contains(&v), "draw {} out of range", v);
    }
    assert_eq!(p.min(0), Some(100));
    assert_eq!(p.max(0), Some(200));
}

#[test]
fn resolve_freezes_everything_but_quote() {
    let mut rng = ScriptRng::new_seeded(9);
    // a random parameter freezes to some constant in its range
    let r = Param::new(ParamDef::RandFlat(0, 1))
        .addchild(Param::newconst(100))
        .addchild(Param::newconst(200));
    match r.resolve(&mut rng, 0) {
        Param::Const(v) => assert!((100..200).contains(&v)),
        _ => panic!("resolve should freeze a random parameter"),
    }
    // a quoted parameter unwraps one level and stays live
    let quoted = Param::new(ParamDef::Quote(0)).addchild(changing(0, FX_ONE));
    match quoted.resolve(&mut rng, 0) {
        Param::Param(ep) => assert!(matches!(ep.def, ParamDef::Changing(_, _))),
        _ => panic!("resolve of a quote must hand back the live inner parameter"),
    }
    // a constant resolves to itself
    match Param::newconst(5).resolve(&mut rng, 0) {
        Param::Const(v) => assert_eq!(v, 5),
        _ => panic!("constant must stay a constant"),
    }
}

#[test]
fn wave_param_samples_its_shape() {
    let mut rng = ScriptRng::new_seeded(3);
    // Wave(shape=SawTooth, min=0, max=1, duration=2): at age 1 the phase is
    // one half, so the value is one half
    let p = Param::new(ParamDef::Wave(WaveShape::SawTooth, 0, 1, 2))
        .addchild(Param::newconst(0))
        .addchild(Param::newconst(FX_ONE))
        .addchild(Param::newconst(2 * FX_ONE));
    assert_eq!(p.eval(&mut rng, FX_ONE), FX_HALF);
}

#[test]
fn pulse_lifecycle_with_count_limit_one() {
    // interval 0.5, countlimit 1: exactly one pulse ever spawns across ten
    // seconds of ticking at a fixed small timestep
    let mut rng = ScriptRng::new_seeded(11);
    let mut pulser = Pulser::new();
    pulser.interval = Param::newconst(FX_HALF);
    pulser.countlimit = Some(1);
    pulser.duration = Param::newconst(FX_ONE);
    let mut state = PulserState::new();
    let step = FX_ONE / 20;
    let mut now = 0;
    for _ in 0..200 {
        state.tick(&mut rng, &pulser, now);
        let buf = state.render(&mut rng, now, 8);
        assert_eq!(buf.len(), 8);
        now += step;
    }
    assert_eq!(state.totalcount, 1, "the generator must spawn exactly once");
    assert_eq!(state.nextpulse, PULSE_NEVER, "spawning must be disabled for good");

    // the single pulse was born at time zero with duration one; past its
    // duration it contributes exactly zero everywhere
    let mut state2 = PulserState::new();
    state2.tick(&mut rng, &pulser, 0);
    assert_eq!(state2.totalcount, 1);
    let live_buf = state2.render(&mut rng, FX_HALF, 8);
    assert!(live_buf.iter().any(|&v| v > 0), "a live pulse must light pixels");
    let expired = state2.render(&mut rng, 2 * FX_ONE, 8);
    assert!(expired.iter().all(|&v| v == 0), "an expired pulse adds exactly zero");
}

#[test]
fn dead_pulses_are_pruned_on_the_next_tick() {
    let mut rng = ScriptRng::new_seeded(12);
    let mut pulser = Pulser::new();
    pulser.countlimit = Some(1);
    pulser.duration = Param::newconst(FX_ONE);
    let mut state = PulserState::new();
    state.tick(&mut rng, &pulser, 0);
    assert_eq!(state.pulses.len(), 1);
    // render past the duration marks the pulse dead; the next tick prunes
    let _ = state.render(&mut rng, 2 * FX_ONE, 8);
    state.tick(&mut rng, &pulser, 2 * FX_ONE);
    assert_eq!(state.pulses.len(), 0);
}

#[test]
fn degenerate_random_range_collapses_to_its_lower_bound() {
    // an empty random range is a defined sentinel, not a fault
    let mut rng = ScriptRng::new_seeded(8);
    let p = Param::new(ParamDef::RandFlat(0, 1))
        .addchild(Param::newconst(300))
        .addchild(Param::newconst(300));
    assert_eq!(p.eval(&mut rng, 0), 300);
    let q = Param::new(ParamDef::RandFlat(0, 1))
        .addchild(Param::newconst(500))
        .addchild(Param::newconst(-500));
    assert_eq!(q.eval(&mut rng, 0), 500);
}
