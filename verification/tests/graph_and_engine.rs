use beacon::context::{PixBuffer, ScriptContext};
use beacon::fixed::{FX_HALF, FX_ONE};
use beacon::op::{Op1Def, Op3Def};
use beacon::param::Param;
use beacon::pixel::Pix;
use beacon::pulser::Pulser;
use beacon::script::{Op1DefRef, Op3DefRef, Script, ScriptIndex};

fn two_node_graph() -> Script {
    // root Invert over a Constant: order lists children after parents
    let mut s = Script::new();
    s.op1s.push(Op1DefRef::new(Op1Def::Invert(), vec![ScriptIndex::Op1(1)]));
    s.op1s.push(Op1DefRef::new(Op1Def::Constant(FX_HALF), vec![]));
    s.order.push(ScriptIndex::Op1(0));
    s.order.push(ScriptIndex::Op1(1));
    s
}

#[test]
fn consistency_accepts_a_valid_order() {
    let s = two_node_graph();
    assert!(s.consistency_check().is_ok());
}

#[test]
fn consistency_rejects_a_self_reference() {
    let mut s = Script::new();
    s.op1s.push(Op1DefRef::new(Op1Def::Invert(), vec![ScriptIndex::Op1(0)]));
    s.order.push(ScriptIndex::Op1(0));
    assert!(s.consistency_check().is_err());
}

#[test]
fn consistency_rejects_a_backward_reference() {
    let mut s = Script::new();
    s.op1s.push(Op1DefRef::new(Op1Def::Constant(0), vec![]));
    s.op1s.push(Op1DefRef::new(Op1Def::Invert(), vec![ScriptIndex::Op1(0)]));
    s.order.push(ScriptIndex::Op1(0));
    s.order.push(ScriptIndex::Op1(1));
    assert!(s.consistency_check().is_err());
}

#[test]
fn consistency_rejects_a_dangling_reference() {
    let mut s = Script::new();
    s.op1s.push(Op1DefRef::new(Op1Def::Invert(), vec![ScriptIndex::Op1(5)]));
    s.order.push(ScriptIndex::Op1(0));
    assert!(s.consistency_check().is_err());
}

#[test]
fn construction_rejects_what_the_check_rejects() {
    let mut s = Script::new();
    s.op1s.push(Op1DefRef::new(Op1Def::Invert(), vec![ScriptIndex::Op1(0)]));
    s.order.push(ScriptIndex::Op1(0));
    assert!(ScriptContext::new_seeded(s, 8, 1).is_err());
    assert!(ScriptContext::new_seeded(two_node_graph(), 0, 1).is_err());
    assert!(ScriptContext::new_seeded(two_node_graph(), 8, 1).is_ok());
}

#[test]
fn invert_over_constant_evaluates_exactly() {
    let mut ctx = ScriptContext::new_seeded(two_node_graph(), 4, 1).unwrap();
    ctx.tick(0);
    assert_eq!(ctx.buffer1(1).as_slice(), &[FX_HALF; 4]);
    assert_eq!(ctx.buffer1(0).as_slice(), &[FX_ONE - FX_HALF; 4]);
    assert_eq!(ctx.age(), 0);
    match ctx.root_buffer() {
        PixBuffer::Buf1(b) => assert_eq!(b.as_slice(), &[FX_HALF; 4]),
        PixBuffer::Buf3(_) => panic!("the root is a scalar node"),
    }
}

#[test]
fn stateless_nodes_are_deterministic_across_ticks() {
    let mut ctx = ScriptContext::new_seeded(two_node_graph(), 16, 5).unwrap();
    ctx.tick(0);
    let first = ctx.buffer1(0).clone();
    for frame in 1..10i64 {
        ctx.tick(frame * 1092);
        assert_eq!(ctx.buffer1(0).as_slice(), first.as_slice());
    }
}

#[test]
fn decay_follows_the_impulse_envelope() {
    // Decay(halflife = one second) over a TimeDelta of a Constant: after
    // the first frame the delta input is zero, so the output must decay
    // geometrically and never increase
    let mut s = Script::new();
    s.op1s.push(
        Op1DefRef::new(Op1Def::Decay(Param::newconst(FX_ONE)), vec![ScriptIndex::Op1(1)]),
    );
    s.op1s.push(Op1DefRef::new(Op1Def::TimeDelta(), vec![ScriptIndex::Op1(2)]));
    s.op1s.push(Op1DefRef::new(Op1Def::Constant(FX_ONE), vec![]));
    s.order.push(ScriptIndex::Op1(0));
    s.order.push(ScriptIndex::Op1(1));
    s.order.push(ScriptIndex::Op1(2));
    let mut ctx = ScriptContext::new_seeded(s, 2, 1).unwrap();
    // frame one: the delta jumps to the constant, the decay follows it
    ctx.tick(1092);
    assert_eq!(ctx.buffer1(0)[0], FX_ONE);
    let mut last = FX_ONE;
    for frame in 2..120i64 {
        ctx.tick(frame * 1092);
        let v = ctx.buffer1(0)[0];
        assert!(v <= last, "decay must never increase: {} then {}", last, v);
        assert!(v > 0, "decay with a positive halflife stays positive this long");
        last = v;
    }
    // after two seconds of frames the envelope has fallen to around a
    // quarter of the impulse
    assert!(last < FX_HALF / 2 + 2000 && last > FX_HALF / 2 - 2000, "got {}", last);
}

#[test]
fn mean_and_sum_fold_children() {
    let mut s = Script::new();
    s.op1s.push(Op1DefRef::new(
        Op1Def::Mean(),
        vec![ScriptIndex::Op1(2), ScriptIndex::Op1(3)],
    ));
    s.op1s.push(Op1DefRef::new(
        Op1Def::Sum(),
        vec![ScriptIndex::Op1(2), ScriptIndex::Op1(3)],
    ));
    s.op1s.push(Op1DefRef::new(Op1Def::Constant(100), vec![]));
    s.op1s.push(Op1DefRef::new(Op1Def::Constant(301), vec![]));
    s.order.push(ScriptIndex::Op1(0));
    s.order.push(ScriptIndex::Op1(1));
    s.order.push(ScriptIndex::Op1(2));
    s.order.push(ScriptIndex::Op1(3));
    let mut ctx = ScriptContext::new_seeded(s, 3, 1).unwrap();
    ctx.tick(0);
    assert_eq!(ctx.buffer1(1).as_slice(), &[401; 3]);
    assert_eq!(ctx.buffer1(0).as_slice(), &[200; 3]);
}

#[test]
fn end_to_end_pulse_over_baseline() {
    // root = color Sum of [ MulS(color Constant(0.7, 0.2, 0.9), scalar
    // Pulser), color Constant(0, 0.4, 0) ], ticked at a fixed 60 Hz clock
    let c1 = Pix::new(45875, 13107, 58982);  // 0.7, 0.2, 0.9
    let c2 = Pix::new(0, 26214, 0);  // 0, 0.4, 0
    let mut pulser = Pulser::new();
    pulser.countlimit = Some(1);
    let mut s = Script::new();
    s.op3s.push(Op3DefRef::new(
        Op3Def::Sum(),
        vec![ScriptIndex::Op3(1), ScriptIndex::Op3(3)],
    ));
    s.op3s.push(Op3DefRef::new(
        Op3Def::MulS(),
        vec![ScriptIndex::Op3(2), ScriptIndex::Op1(0)],
    ));
    s.op3s.push(Op3DefRef::new(Op3Def::Constant(c1), vec![]));
    s.op3s.push(Op3DefRef::new(Op3Def::Constant(c2), vec![]));
    s.op1s.push(Op1DefRef::new(Op1Def::Pulser(pulser), vec![]));
    s.order.push(ScriptIndex::Op3(0));
    s.order.push(ScriptIndex::Op3(1));
    s.order.push(ScriptIndex::Op3(2));
    s.order.push(ScriptIndex::Op3(3));
    s.order.push(ScriptIndex::Op1(0));
    let size = 160usize;
    let mut ctx = ScriptContext::new_seeded(s, size, 77).unwrap();
    let tick = FX_ONE / 60;
    let mut peak_center = 0i64;
    for frame in 0..180i64 {
        ctx.tick(frame * tick);
        // the baseline away from the pulse is the green constant exactly
        let root = ctx.buffer3(0);
        let edge = root[0];
        assert_eq!((edge.r, edge.g, edge.b), (c2.r, c2.g, c2.b));
        let center = root[size / 2];
        if center.r > peak_center {
            peak_center = center.r;
        }
        // every pixel keeps the baseline underneath the pulse
        assert!(center.g >= c2.g);
    }
    // at its envelope peak the center approaches baseline + 0.7 * peak
    let expect = 45875 * 63 / 64;  // the first frame after birth has nearly full envelope
    assert!(
        peak_center > expect - 3000 && peak_center <= 45875,
        "peak {} expected near {}",
        peak_center,
        expect
    );
}
