use beacon::fixed::{FX_HALF, FX_ONE};
use beacon::op::{
    GradStop, NoiseState, kernel_clamp, kernel_decay, kernel_gradient, kernel_gradient3,
    kernel_invert, kernel_mask, kernel_mul, kernel_noise, kernel_pgradient, kernel_shift,
    kernel_time_delta,
};
use beacon::pixel::Pix;
use beacon::rng::ScriptRng;

#[test]
fn invert_mul_clamp_delta() {
    let a = vec![0, FX_HALF, FX_ONE];
    let b = vec![FX_ONE, FX_ONE, FX_HALF];
    assert_eq!(kernel_invert(&a), vec![FX_ONE, FX_HALF, 0]);
    assert_eq!(kernel_mul(&a, &b), vec![0, FX_HALF, FX_HALF]);
    assert_eq!(kernel_clamp(&a, 100, FX_HALF), vec![100, FX_HALF, FX_HALF]);
    assert_eq!(kernel_time_delta(&a, &b), vec![-FX_ONE, -FX_HALF, FX_HALF]);
}

#[test]
fn gradient_clamps_to_its_endpoints() {
    // sampled at -0.5 the gradient returns the first stop exactly; at 1.5
    // the last; at 0.5 the exact midpoint blend
    let stops = vec![1000, 3000];
    let inputs = vec![-FX_HALF, FX_HALF, FX_ONE + FX_HALF];
    let out = kernel_gradient(&inputs, &stops);
    assert_eq!(out, vec![1000, 2000, 3000]);

    let cstops = vec![Pix::new(1000, 0, 400), Pix::new(3000, 0, 600)];
    let cout = kernel_gradient3(&inputs, &cstops);
    assert_eq!((cout[0].r, cout[0].b), (1000, 400));
    assert_eq!((cout[1].r, cout[1].b), (2000, 500));
    assert_eq!((cout[2].r, cout[2].b), (3000, 600));
}

#[test]
fn gradient_degenerate_stop_lists() {
    let inputs = vec![-FX_HALF, FX_HALF];
    assert_eq!(kernel_gradient(&inputs, &vec![]), vec![0, 0]);
    assert_eq!(kernel_gradient(&inputs, &vec![42]), vec![42, 42]);
}

#[test]
fn positional_gradient_interpolates_between_stops() {
    let stops = vec![
        GradStop { pos: 0, color: Pix::new(0, 0, 0) },
        GradStop { pos: FX_HALF, color: Pix::new(1000, 0, 0) },
        GradStop { pos: FX_ONE, color: Pix::new(2000, 0, 0) },
    ];
    let inputs = vec![-100, FX_ONE / 4, 3 * FX_ONE / 4, 2 * FX_ONE];
    let out = kernel_pgradient(&inputs, &stops);
    assert_eq!(out[0].r, 0);
    assert_eq!(out[1].r, 500);
    assert_eq!(out[2].r, 1500);
    assert_eq!(out[3].r, 2000);
}

#[test]
fn shift_wraps_and_interpolates() {
    let buf = vec![0, 1000, 2000, 3000];
    // a shift of one quarter of the strip moves every pixel by one slot
    let out = kernel_shift(&buf, FX_ONE / 4);
    assert_eq!(out, vec![3000, 0, 1000, 2000]);
    // a zero shift is the identity
    assert_eq!(kernel_shift(&buf, 0), buf);
}

#[test]
fn mask_selects_by_threshold() {
    let a = vec![Pix::new(1, 1, 1); 3];
    let b = vec![Pix::new(9, 9, 9); 3];
    let f = vec![0, FX_HALF, FX_ONE];
    let out = kernel_mask(&a, &b, &f, FX_HALF);
    assert_eq!((out[0].r, out[1].r, out[2].r), (1, 9, 9));
}

#[test]
fn decay_holds_the_larger_of_input_and_history() {
    let obuf = vec![0, FX_ONE];
    let hist = vec![FX_ONE, 0];
    let out = kernel_decay(&obuf, &hist, FX_HALF);
    assert_eq!(out, vec![FX_HALF, FX_ONE]);
}

#[test]
fn noise_stays_inside_its_amplitude() {
    // for every octave count up to six, no sample leaves [0, max]
    for octaves in 1..=6 {
        let mut rng = ScriptRng::new_seeded(1000 + octaves as u64);
        let state = NoiseState::new(5, octaves, &mut rng);
        let out = kernel_noise(&state, 0, FX_ONE, 200);
        assert_eq!(out.len(), 200);
        for &v in out.iter() {
            assert!(v >= 0, "noise sample {} below zero", v);
            assert!(v <= FX_ONE, "noise sample {} above the amplitude", v);
        }
        assert!(out.iter().any(|&v| v > 0), "noise should not be flat");
    }
}

#[test]
fn noise_is_deterministic_given_its_tables() {
    let mut rng = ScriptRng::new_seeded(4);
    let state = NoiseState::new(8, 3, &mut rng);
    let a = kernel_noise(&state, 1234, FX_ONE, 64);
    let b = kernel_noise(&state, 1234, FX_ONE, 64);
    assert_eq!(a, b);
}
