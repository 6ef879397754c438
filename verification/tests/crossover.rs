use digital_crossover::config::AudioRuntimeConfig;
use digital_crossover::crossover::{
    update_lr_coeffs, BandSplitter, Biquad, Crossover, Edge, Lr4, LrBandSplitter,
    PassthroughSplitter, OUT_HIGH_L, OUT_HIGH_R, OUT_LOW_L, OUT_LOW_R, OUT_MID_L, OUT_MID_R,
};
use std::f32::consts::{FRAC_1_SQRT_2, PI};

fn kernel(f: Biquad<f32>, x: f32) -> f32 {
    f.b0 * x + f.b1 * f.x1 + f.b2 * f.x2 - f.a1 * f.y1 - f.a2 * f.y2
}

fn scale(x: f32, g: f32) -> f32 {
    x * g
}

fn differs(x: f32, y: f32) -> bool {
    (x - y).abs() > f32::EPSILON
}

fn lowpass(fc: f32, fs: f32) -> Biquad<f32> {
    let (s, c) = (2.0 * PI * fc / fs).sin_cos();
    let alpha = s * FRAC_1_SQRT_2;
    let a0 = 1.0 + alpha;
    Biquad::at_rest(
        ((1.0 - c) * 0.5) / a0,
        (1.0 - c) / a0,
        ((1.0 - c) * 0.5) / a0,
        (-2.0 * c) / a0,
        (1.0 - alpha) / a0,
        0.0,
    )
}

fn highpass(fc: f32, fs: f32) -> Biquad<f32> {
    let (s, c) = (2.0 * PI * fc / fs).sin_cos();
    let alpha = s * FRAC_1_SQRT_2;
    let a0 = 1.0 + alpha;
    Biquad::at_rest(
        ((1.0 + c) * 0.5) / a0,
        -(1.0 + c) / a0,
        ((1.0 + c) * 0.5) / a0,
        (-2.0 * c) / a0,
        (1.0 - alpha) / a0,
        0.0,
    )
}

fn edge(fc: f32, fs: f32) -> Edge<f32> {
    Edge { cut: fc, lpf: lowpass(fc, fs), hpf: highpass(fc, fs) }
}

fn splitter(low: f32, mid: f32, fs: f32) -> LrBandSplitter<f32, fn(Biquad<f32>, f32) -> f32> {
    LrBandSplitter::new(edge(low, fs), edge(mid, fs), fs, kernel)
}

fn prime<B: BandSplitter<f32>>(s: &mut B, x: f32, n: usize) {
    for _ in 0..n {
        s.split(x);
    }
}

/// DC (a constant) must end up entirely in the low band.
#[test]
fn dc_lives_in_low_band() {
    let mut s = splitter(500.0, 5000.0, 96000.0);
    prime(&mut s, 1.0, 4096);
    let (lo, mi, hi) = s.split(1.0);
    assert!((lo - 1.0).abs() < 1.0e-3, "low={lo}");
    assert!(mi.abs() < 1.0e-3, "mid={mi}");
    assert!(hi.abs() < 1.0e-3, "high={hi}");
}

/// A signal of alternating sign must end up entirely in the high band.
#[test]
fn hf_lives_in_high_band() {
    let mut s = splitter(500.0, 5000.0, 96000.0);
    let mut sign = 1.0f32;
    for _ in 0..4096 {
        s.split(sign);
        sign = -sign;
    }
    let (mut el, mut em, mut eh) = (0.0f32, 0.0f32, 0.0f32);
    for _ in 0..4096 {
        let (lo, mi, hi) = s.split(sign);
        sign = -sign;
        el += lo * lo;
        em += mi * mi;
        eh += hi * hi;
    }
    assert!(eh > 100.0 * (el + em), "energies: low={el} mid={em} high={eh}");
}

/// The bands sum to an all-pass: the level of a broadband input is kept to
/// within a small tolerance.
#[test]
fn bands_sum_is_approximately_allpass() {
    let mut s = splitter(500.0, 5000.0, 96000.0);
    let mut state: u32 = 0x1234_5678;
    let mut rng = || {
        state ^= state << 13;
        state ^= state >> 17;
        state ^= state << 5;
        (state as i32 as f32) / (i32::MAX as f32)
    };
    for _ in 0..4096 {
        let x = rng();
        s.split(x);
    }
    let (mut ex, mut ey) = (0.0f64, 0.0f64);
    for _ in 0..16384 {
        let x = rng();
        let (lo, mi, hi) = s.split(x);
        let y = lo + mi + hi;
        ex += (x * x) as f64;
        ey += (y * y) as f64;
    }
    let ratio = ey / ex;
    assert!((ratio - 1.0).abs() < 0.02, "sum/input energy ratio = {ratio}");
}

#[test]
fn passthrough_gives_the_sample_to_every_band() {
    let mut s = PassthroughSplitter;
    assert_eq!(BandSplitter::<f32>::split(&mut s, 0.25), (0.25, 0.25, 0.25));
    assert_eq!(BandSplitter::<i64>::split(&mut s, -7), (-7, -7, -7));
}

#[test]
fn a_section_remembers_two_inputs_and_two_outputs() {
    let mut b: Biquad<i64> = Biquad::at_rest(1, 10, 100, 1000, 10000, 0);
    let k = |f: Biquad<i64>, x: i64| {
        f.b0 * x + f.b1 * f.x1 + f.b2 * f.x2 - f.a1 * f.y1 - f.a2 * f.y2
    };
    assert_eq!(b.process(1, k), 1);
    assert_eq!(b.process(2, k), 2 + 10 - 1000);
    assert_eq!((b.x1, b.x2, b.y1, b.y2), (2, 1, -988, 1));
    assert_eq!(b.process(0, k), 20 + 100 + 988000 - 10000);
    assert_eq!((b.b0, b.b1, b.b2, b.a1, b.a2), (1, 10, 100, 1000, 10000));
}

#[test]
fn identity_sections_pass_the_sample() {
    let mut f: Lr4<f32> = Lr4::identity(1.0, 0.0);
    for x in [0.5f32, -0.25, 1.0, 0.0] {
        assert_eq!(f.process(x, kernel), x);
    }
}

#[test]
fn two_sections_stand_in_a_row() {
    let mut f = Lr4::twice(Biquad::at_rest(3i64, 0, 0, 0, 0, 0));
    let k = |b: Biquad<i64>, x: i64| b.b0 * x;
    assert_eq!(f.process(2, k), 18);
    assert_eq!((f.a.x1, f.a.y1, f.b.x1, f.b.y1), (2, 6, 6, 18));
}

#[test]
fn the_mid_band_goes_through_two_filters() {
    let k = |b: Biquad<i64>, x: i64| b.b0 * x;
    let sec = |b0: i64| Biquad::at_rest(b0, 0, 0, 0, 0, 0);
    let mut s = LrBandSplitter::new(
        Edge { cut: 1, lpf: sec(2), hpf: sec(3) },
        Edge { cut: 2, lpf: sec(5), hpf: sec(7) },
        48,
        k,
    );
    assert_eq!(s.split(1), (4, 9 * 25, 49));
}

#[test]
fn new_coefficients_keep_the_history() {
    let mut f = Lr4::twice(Biquad::at_rest(0.5f32, 0.25, 0.0, 0.0, 0.0, 0.0));
    f.process(1.0, kernel);
    f.process(0.5, kernel);
    let before = f;
    let src = Biquad { b0: 9.0, b1: 8.0, b2: 7.0, a1: 6.0, a2: 5.0, x1: 4.0, x2: 3.0, y1: 2.0, y2: 1.0 };
    update_lr_coeffs(&mut f, src);
    assert_eq!((f.a.x1, f.a.x2, f.a.y1, f.a.y2), (before.a.x1, before.a.x2, before.a.y1, before.a.y2));
    assert_eq!((f.b.x1, f.b.x2, f.b.y1, f.b.y2), (before.b.x1, before.b.x2, before.b.y1, before.b.y2));
    assert_eq!((f.a.b0, f.a.b1, f.a.b2, f.a.a1, f.a.a2), (9.0, 8.0, 7.0, 6.0, 5.0));
    assert_eq!((f.b.b0, f.b.b1, f.b.b2, f.b.a1, f.b.a2), (9.0, 8.0, 7.0, 6.0, 5.0));
}

#[test]
fn only_the_cut_that_differs_moves() {
    let mut s = splitter(500.0, 5000.0, 96000.0);
    prime(&mut s, 1.0, 16);
    let before = s;
    s.set_cutoffs(edge(500.0, 96000.0), edge(6000.0, 96000.0), differs);
    assert_eq!(s.low_cut_hz, 500.0);
    assert_eq!(s.mid_cut_hz, 6000.0);
    assert_eq!(s.lpf_low.a.b0, before.lpf_low.a.b0);
    assert_eq!(s.hpf_mid.a.b0, highpass(6000.0, 96000.0).b0);
    assert_eq!(s.lpf_mid.b.a1, lowpass(6000.0, 96000.0).a1);
    assert_eq!(s.lpf_mid.a.y1, before.lpf_mid.a.y1);
    assert_eq!(s.hpf_mid.b.x2, before.hpf_mid.b.x2);
}

fn crossover_with(
    cfg: &AudioRuntimeConfig<f32>,
) -> Crossover<f32, fn(Biquad<f32>, f32) -> f32, fn(f32, f32) -> f32> {
    Crossover::new(
        cfg,
        edge(cfg.low_cut_hz, 96000.0),
        edge(cfg.mid_cut_hz, 96000.0),
        96000.0,
        kernel,
        scale,
        0.0,
    )
}

#[test]
fn bypassed_bands_carry_the_scaled_input() {
    let mut cfg: AudioRuntimeConfig<f32> = AudioRuntimeConfig::default();
    cfg.low_bypass = true;
    cfg.mid_bypass = true;
    cfg.high_bypass = true;
    cfg.volume = 0.5;
    cfg.low_gain = 1.0;
    cfg.mid_gain = 2.0;
    cfg.high_gain = 4.0;
    let out = crossover_with(&cfg).process(1.0, -1.0);
    assert_eq!(out[OUT_MID_L], 1.0);
    assert_eq!(out[OUT_MID_R], -1.0);
    assert_eq!(out[OUT_LOW_L], 0.5);
    assert_eq!(out[OUT_LOW_R], -0.5);
    assert_eq!(out[OUT_HIGH_L], 2.0);
    assert_eq!(out[OUT_HIGH_R], -2.0);
    assert_eq!(out, [1.0, -1.0, 0.5, -0.5, 2.0, -2.0]);
}

#[test]
fn solo_silences_the_other_bands_and_mute_wins() {
    let mut cfg: AudioRuntimeConfig<f32> = AudioRuntimeConfig::default();
    cfg.low_bypass = true;
    cfg.mid_bypass = true;
    cfg.high_bypass = true;
    cfg.mid_solo = true;
    assert_eq!(crossover_with(&cfg).process(1.0, 0.5), [1.0, 0.5, 0.0, 0.0, 0.0, 0.0]);
    cfg.mid_mute = true;
    assert_eq!(crossover_with(&cfg).process(1.0, 0.5), [0.0; 6]);
    cfg.mid_solo = false;
    assert_eq!(crossover_with(&cfg).process(1.0, 0.5), [0.0, 0.0, 1.0, 0.5, 1.0, 0.5]);
    cfg.low_solo = true;
    cfg.high_solo = true;
    assert_eq!(crossover_with(&cfg).process(1.0, 0.5), [0.0, 0.0, 1.0, 0.5, 1.0, 0.5]);
}

#[test]
fn filtered_bands_are_those_of_a_splitter() {
    let cfg: AudioRuntimeConfig<f32> = AudioRuntimeConfig::default();
    let mut c = crossover_with(&cfg);
    let mut l = splitter(1000.0, 10000.0, 96000.0);
    let mut r = splitter(1000.0, 10000.0, 96000.0);
    for i in 0..64 {
        let (x, y) = (i as f32 / 64.0, 1.0 - i as f32 / 32.0);
        let (ll, lm, lh) = l.split(x);
        let (rl, rm, rh) = r.split(y);
        assert_eq!(c.process(x, y), [lm, rm, ll, rl, lh, rh]);
    }
}

#[test]
fn update_takes_settings_and_cuts_and_keeps_the_history() {
    let mut c = crossover_with(&AudioRuntimeConfig::default());
    for _ in 0..32 {
        c.process(1.0, -1.0);
    }
    let before = c;
    let mut cfg: AudioRuntimeConfig<f32> = AudioRuntimeConfig::default();
    cfg.volume = 0.25;
    cfg.high_mute = true;
    cfg.low_cut_hz = 300.0;
    c.update(&cfg, edge(300.0, 96000.0), edge(10000.0, 96000.0), differs);
    assert_eq!(c.master, 0.25);
    assert!(c.high_mute);
    assert_eq!((c.left.low_cut_hz, c.right.low_cut_hz), (300.0, 300.0));
    assert_eq!(c.left.lpf_low.a.b0, c.right.lpf_low.a.b0);
    assert_eq!(c.left.lpf_low.a.b0, lowpass(300.0, 96000.0).b0);
    assert_eq!(c.left.lpf_low.a.y1, before.left.lpf_low.a.y1);
    assert_eq!(c.right.hpf_low.b.y2, before.right.hpf_low.b.y2);
    assert_eq!(c.left.lpf_mid.a.b0, before.left.lpf_mid.a.b0);
}

fn noise(n: usize, seed: u32) -> Vec<f32> {
    let mut state = seed;
    (0..n)
        .map(|_| {
            state ^= state << 13;
            state ^= state >> 17;
            state ^= state << 5;
            (state as i32 as f32) / (i32::MAX as f32)
        })
        .collect()
}

#[test]
fn gains_and_switches_of_the_past_leave_no_trace() {
    let plain: AudioRuntimeConfig<f32> = AudioRuntimeConfig::default();
    let mut other = plain;
    other.volume = 0.1;
    other.mid_gain = 1.7;
    other.low_mute = true;
    other.high_solo = true;
    other.mid_bypass = true;
    let (mut a, mut b) = (crossover_with(&plain), crossover_with(&other));
    let (l, r) = (noise(200, 7), noise(200, 9));
    for i in 0..100 {
        assert_ne!(a.process(l[i], r[i]), b.process(l[i], r[i]));
    }
    let (low, mid) = (edge(1000.0, 96000.0), edge(10000.0, 96000.0));
    a.update(&plain, low, mid, differs);
    b.update(&plain, low, mid, differs);
    for i in 100..200 {
        assert_eq!(a.process(l[i], r[i]), b.process(l[i], r[i]));
    }
}

#[test]
fn a_channel_hears_nothing_of_the_other() {
    let cfg: AudioRuntimeConfig<f32> = AudioRuntimeConfig::default();
    let (mut a, mut b) = (crossover_with(&cfg), crossover_with(&cfg));
    let (l, r1, r2) = (noise(100, 1), noise(100, 2), noise(100, 3));
    for i in 0..100 {
        if i == 50 {
            a.update(&cfg, edge(700.0, 96000.0), edge(9000.0, 96000.0), differs);
            b.update(&cfg, edge(700.0, 96000.0), edge(9000.0, 96000.0), differs);
        }
        let (x, y) = (a.process(l[i], r1[i]), b.process(l[i], r2[i]));
        for c in [OUT_LOW_L, OUT_MID_L, OUT_HIGH_L] {
            assert_eq!(x[c], y[c]);
        }
        assert_ne!(x[OUT_HIGH_R], y[OUT_HIGH_R]);
    }
}

#[test]
fn the_same_input_on_both_channels_gives_the_same_outputs() {
    let mut c = crossover_with(&AudioRuntimeConfig::default());
    for x in noise(100, 5) {
        let out = c.process(x, x);
        assert_eq!(out[OUT_LOW_L], out[OUT_LOW_R]);
        assert_eq!(out[OUT_MID_L], out[OUT_MID_R]);
        assert_eq!(out[OUT_HIGH_L], out[OUT_HIGH_R]);
    }
}

#[test]
fn an_update_before_the_first_frame_is_a_fresh_start() {
    let mut new: AudioRuntimeConfig<f32> = AudioRuntimeConfig::default();
    new.low_cut_hz = 250.0;
    new.mid_cut_hz = 4000.0;
    new.low_gain = 0.5;
    new.high_bypass = true;
    let mut a = crossover_with(&AudioRuntimeConfig::default());
    let mut b = crossover_with(&new);
    a.update(&new, edge(250.0, 96000.0), edge(4000.0, 96000.0), differs);
    a.update(&new, edge(250.0, 96000.0), edge(4000.0, 96000.0), differs);
    for (l, r) in noise(100, 11).into_iter().zip(noise(100, 13)) {
        assert_eq!(a.process(l, r), b.process(l, r));
    }
}

#[test]
fn a_band_whose_cut_stays_sounds_the_same() {
    let (mut a, mut b) = (splitter(500.0, 5000.0, 96000.0), splitter(500.0, 5000.0, 96000.0));
    let xs = noise(300, 17);
    for x in &xs[..100] {
        assert_eq!(a.split(*x), b.split(*x));
    }
    a.set_cutoffs(edge(500.0, 96000.0), edge(6000.0, 96000.0), differs);
    for x in &xs[100..200] {
        let ((al, _, ah), (bl, _, bh)) = (a.split(*x), b.split(*x));
        assert_eq!(al, bl);
        assert_ne!(ah, bh);
    }
    let mut c = b;
    c.set_cutoffs(edge(400.0, 96000.0), edge(5000.0, 96000.0), differs);
    for x in &xs[200..] {
        let ((bl, _, bh), (cl, _, ch)) = (b.split(*x), c.split(*x));
        assert_eq!(bh, ch);
        assert_ne!(bl, cl);
    }
}
