//! The crossover: filter sections with their history, the split of a channel
//! into three bands, and the mix of the bands onto six output channels.
//!
//! Everything here is generic in the sample type `S`. The arithmetic comes in
//! as functions: `kernel` computes the output of a filter section from the
//! section and its input, and `scale` multiplies a sample by a gain.

use crate::config::AudioRuntimeConfig;
use vstd::prelude::*;

verus! {

/// Front left carries the mid band of the left channel.
pub const OUT_MID_L: usize = 0;

/// Front right carries the mid band of the right channel.
pub const OUT_MID_R: usize = 1;

/// Front centre carries the low band of the left channel.
pub const OUT_LOW_L: usize = 2;

/// The subwoofer channel carries the low band of the right channel.
pub const OUT_LOW_R: usize = 3;

/// Rear left carries the high band of the left channel.
pub const OUT_HIGH_L: usize = 4;

/// Rear right carries the high band of the right channel.
pub const OUT_HIGH_R: usize = 5;

/// Splits the samples of one channel into a low, a mid and a high band.
pub trait BandSplitter<S>: Send + Sized {
    /// The splitter can take a sample.
    spec fn ready(self) -> bool;

    /// From the state `pre`, the sample `x` may give these bands and leave the
    /// state `post`.
    spec fn splits(pre: Self, x: S, post: Self, bands: (S, S, S)) -> bool;

    /// Takes one sample and gives its low, mid and high band.
    fn split(&mut self, sample: S) -> (bands: (S, S, S))
        requires
            old(self).ready(),
        ensures
            Self::splits(*old(self), sample, *final(self), bands),
            final(self).ready(),
    ;
}

/// A filter section of second order: its coefficients, its last two inputs and
/// its last two outputs.
#[derive(Clone, Copy, Debug)]
pub struct Biquad<S> {
    pub b0: S,
    pub b1: S,
    pub b2: S,
    pub a1: S,
    pub a2: S,
    pub x1: S,
    pub x2: S,
    pub y1: S,
    pub y2: S,
}

impl<S> Biquad<S> {
    /// The section after it took the input `x` and gave the output `y`.
    pub open spec fn shifted(self, x: S, y: S) -> Self {
        Biquad { x1: x, x2: self.x1, y1: y, y2: self.y1, ..self }
    }

    /// The section with the coefficients of `src` and its own history.
    pub open spec fn with_coeffs_of(self, src: Self) -> Self {
        Biquad { b0: src.b0, b1: src.b1, b2: src.b2, a1: src.a1, a2: src.a2, ..self }
    }

    /// The two sections have the same coefficients.
    pub open spec fn same_coeffs(self, other: Self) -> bool {
        self.with_coeffs_of(other) == self
    }

    /// The two sections have the same history.
    pub open spec fn same_history(self, other: Self) -> bool {
        self.x1 == other.x1 && self.x2 == other.x2 && self.y1 == other.y1 && self.y2 == other.y2
    }
}

/// From `pre`, the input `x` may give the output `y` and leave `post`.
pub open spec fn biquad_steps<S, K: Fn(Biquad<S>, S) -> S>(
    kernel: K,
    pre: Biquad<S>,
    x: S,
    post: Biquad<S>,
    y: S,
) -> bool {
    call_ensures(kernel, (pre, x), y) && post == pre.shifted(x, y)
}

/// The kernel can be applied to every section and input.
pub open spec fn kernel_total<S, K: Fn(Biquad<S>, S) -> S>(kernel: K) -> bool {
    forall|b: Biquad<S>, x: S| #[trigger] call_requires(kernel, (b, x))
}

impl<S: Copy> Biquad<S> {
    /// A section with these coefficients and a silent history.
    pub fn at_rest(b0: S, b1: S, b2: S, a1: S, a2: S, silence: S) -> (r: Self)
        ensures
            r == (Biquad {
                b0,
                b1,
                b2,
                a1,
                a2,
                x1: silence,
                x2: silence,
                y1: silence,
                y2: silence,
            }),
    {
        Biquad { b0, b1, b2, a1, a2, x1: silence, x2: silence, y1: silence, y2: silence }
    }

    /// The section whose only coefficient is `one`, for the current input.
    pub fn identity(one: S, silence: S) -> (r: Self)
        ensures
            r == (Biquad {
                b0: one,
                b1: silence,
                b2: silence,
                a1: silence,
                a2: silence,
                x1: silence,
                x2: silence,
                y1: silence,
                y2: silence,
            }),
    {
        Biquad::at_rest(one, silence, silence, silence, silence, silence)
    }

    /// Takes one input and gives the output that the kernel computes.
    pub fn process<K: Fn(Biquad<S>, S) -> S>(&mut self, x: S, kernel: K) -> (y: S)
        requires
            call_requires(kernel, (*old(self), x)),
        ensures
            biquad_steps(kernel, *old(self), x, *final(self), y),
    {
        let y = kernel(*self, x);
        self.x2 = self.x1;
        self.x1 = x;
        self.y2 = self.y1;
        self.y1 = y;
        y
    }

    fn set_coeffs(&mut self, src: Self)
        ensures
            *final(self) == old(self).with_coeffs_of(src),
    {
        self.b0 = src.b0;
        self.b1 = src.b1;
        self.b2 = src.b2;
        self.a1 = src.a1;
        self.a2 = src.a2;
    }
}

/// A filter of fourth order: two sections in a row.
#[derive(Clone, Copy, Debug)]
pub struct Lr4<S> {
    pub a: Biquad<S>,
    pub b: Biquad<S>,
}

/// From `pre`, the input `x` may give the output `y` and leave `post`: the
/// output of the first section is the input of the second.
pub open spec fn lr4_steps<S, K: Fn(Biquad<S>, S) -> S>(
    kernel: K,
    pre: Lr4<S>,
    x: S,
    post: Lr4<S>,
    y: S,
) -> bool {
    exists|t: S|
        #[trigger] biquad_steps(kernel, pre.a, x, post.a, t) && biquad_steps(
            kernel,
            pre.b,
            t,
            post.b,
            y,
        )
}

impl<S: Copy> Lr4<S> {
    /// Two copies of a section in a row.
    pub fn twice(section: Biquad<S>) -> (r: Self)
        ensures
            r.a == section,
            r.b == section,
    {
        Lr4 { a: section, b: section }
    }

    /// The filter of two identity sections.
    pub fn identity(one: S, silence: S) -> (r: Self)
        ensures
            r.a == r.b,
            r.a == (Biquad {
                b0: one,
                b1: silence,
                b2: silence,
                a1: silence,
                a2: silence,
                x1: silence,
                x2: silence,
                y1: silence,
                y2: silence,
            }),
    {
        Lr4::twice(Biquad::identity(one, silence))
    }

    /// Takes one input through both sections.
    pub fn process<K: Fn(Biquad<S>, S) -> S + Copy>(&mut self, x: S, kernel: K) -> (y: S)
        requires
            kernel_total(kernel),
        ensures
            lr4_steps(kernel, *old(self), x, *final(self), y),
    {
        let t = self.a.process(x, kernel);
        let y = self.b.process(t, kernel);
        proof {
            assert(biquad_steps(kernel, old(self).a, x, self.a, t));
        }
        y
    }
}

/// The filter with the coefficients of `src` in both sections and its own
/// history.
pub open spec fn lr4_retuned<S>(f: Lr4<S>, src: Biquad<S>) -> Lr4<S> {
    Lr4 { a: f.a.with_coeffs_of(src), b: f.b.with_coeffs_of(src) }
}

/// Puts new coefficients into both sections and leaves their history as it is,
/// so that a change while audio plays makes no jump.
pub fn update_lr_coeffs<S: Copy>(lr: &mut Lr4<S>, src: Biquad<S>)
    ensures
        *final(lr) == lr4_retuned(*old(lr), src),
{
    lr.a.set_coeffs(src);
    lr.b.set_coeffs(src);
}

/// A cut between two bands: its frequency, and the sections that pass what is
/// below it and what is above it.
#[derive(Clone, Copy, Debug)]
pub struct Edge<S> {
    pub cut: S,
    pub lpf: Biquad<S>,
    pub hpf: Biquad<S>,
}

/// Splits a channel at two cuts. The low band goes through the low-pass of the
/// low cut, the high band through the high-pass of the mid cut, and the mid
/// band through the high-pass of the low cut and then the low-pass of the mid
/// cut.
#[derive(Clone, Copy, Debug)]
pub struct LrBandSplitter<S, K> {
    pub lpf_low: Lr4<S>,
    pub hpf_low: Lr4<S>,
    pub lpf_mid: Lr4<S>,
    pub hpf_mid: Lr4<S>,
    pub low_cut_hz: S,
    pub mid_cut_hz: S,
    pub sample_rate: S,
    pub kernel: K,
}

impl<S, K> LrBandSplitter<S, K> {
    /// The splitter with the low cut moved to `edge`.
    pub open spec fn with_low(self, edge: Edge<S>) -> Self {
        LrBandSplitter {
            lpf_low: lr4_retuned(self.lpf_low, edge.lpf),
            hpf_low: lr4_retuned(self.hpf_low, edge.hpf),
            low_cut_hz: edge.cut,
            ..self
        }
    }

    /// The splitter with the mid cut moved to `edge`.
    pub open spec fn with_mid(self, edge: Edge<S>) -> Self {
        LrBandSplitter {
            lpf_mid: lr4_retuned(self.lpf_mid, edge.lpf),
            hpf_mid: lr4_retuned(self.hpf_mid, edge.hpf),
            mid_cut_hz: edge.cut,
            ..self
        }
    }

    /// The splitter after a request to move its cuts, of which those move that
    /// are marked as changed.
    pub open spec fn moved(self, low: Edge<S>, low_moves: bool, mid: Edge<S>, mid_moves: bool) -> Self {
        let s = if low_moves {
            self.with_low(low)
        } else {
            self
        };
        if mid_moves {
            s.with_mid(mid)
        } else {
            s
        }
    }
}

/// A splitter with these cuts that has not taken a sample yet.
pub open spec fn fresh_splitter<S, K>(
    low: Edge<S>,
    mid: Edge<S>,
    sample_rate: S,
    kernel: K,
) -> LrBandSplitter<S, K> {
    LrBandSplitter {
        lpf_low: Lr4 { a: low.lpf, b: low.lpf },
        hpf_low: Lr4 { a: low.hpf, b: low.hpf },
        lpf_mid: Lr4 { a: mid.lpf, b: mid.lpf },
        hpf_mid: Lr4 { a: mid.hpf, b: mid.hpf },
        low_cut_hz: low.cut,
        mid_cut_hz: mid.cut,
        sample_rate,
        kernel,
    }
}

/// A request to move the cuts may turn `pre` into `post`: a cut moves exactly
/// where `differs` tells the new frequency from the old one.
pub open spec fn cuts_set<S, K, D: Fn(S, S) -> bool>(
    differs: D,
    pre: LrBandSplitter<S, K>,
    low: Edge<S>,
    mid: Edge<S>,
    post: LrBandSplitter<S, K>,
) -> bool {
    exists|low_moves: bool, mid_moves: bool|
        #![trigger pre.moved(low, low_moves, mid, mid_moves)]
        {
            &&& call_ensures(differs, (low.cut, pre.low_cut_hz), low_moves)
            &&& call_ensures(differs, (mid.cut, pre.mid_cut_hz), mid_moves)
            &&& post == pre.moved(low, low_moves, mid, mid_moves)
        }
}

/// `differs` can be applied to every pair of frequencies.
pub open spec fn differs_total<S, D: Fn(S, S) -> bool>(differs: D) -> bool {
    forall|x: S, y: S| #[trigger] call_requires(differs, (x, y))
}

impl<S: Copy, K: Fn(Biquad<S>, S) -> S + Copy> LrBandSplitter<S, K> {
    /// A splitter with these cuts.
    pub fn new(low: Edge<S>, mid: Edge<S>, sample_rate: S, kernel: K) -> (r: Self)
        ensures
            r == fresh_splitter(low, mid, sample_rate, kernel),
    {
        LrBandSplitter {
            lpf_low: Lr4::twice(low.lpf),
            hpf_low: Lr4::twice(low.hpf),
            lpf_mid: Lr4::twice(mid.lpf),
            hpf_mid: Lr4::twice(mid.hpf),
            low_cut_hz: low.cut,
            mid_cut_hz: mid.cut,
            sample_rate,
            kernel,
        }
    }

    /// Moves the cuts that differ from the current ones. The filters keep their
    /// history.
    pub fn set_cutoffs<D: Fn(S, S) -> bool + Copy>(&mut self, low: Edge<S>, mid: Edge<S>, differs: D)
        requires
            differs_total(differs),
        ensures
            cuts_set(differs, *old(self), low, mid, *final(self)),
    {
        let low_moves = differs(low.cut, self.low_cut_hz);
        if low_moves {
            update_lr_coeffs(&mut self.lpf_low, low.lpf);
            update_lr_coeffs(&mut self.hpf_low, low.hpf);
            self.low_cut_hz = low.cut;
        }
        let mid_moves = differs(mid.cut, self.mid_cut_hz);
        if mid_moves {
            update_lr_coeffs(&mut self.lpf_mid, mid.lpf);
            update_lr_coeffs(&mut self.hpf_mid, mid.hpf);
            self.mid_cut_hz = mid.cut;
        }
        proof {
            assert(*self == old(self).moved(low, low_moves, mid, mid_moves));
        }
    }
}

/// The mid band: through the high-pass of the low cut, then the low-pass of the
/// mid cut.
pub open spec fn mid_steps<S, K: Fn(Biquad<S>, S) -> S>(
    pre: LrBandSplitter<S, K>,
    x: S,
    post: LrBandSplitter<S, K>,
    mid: S,
) -> bool {
    exists|u: S|
        #[trigger] lr4_steps(pre.kernel, pre.hpf_low, x, post.hpf_low, u) && lr4_steps(
            pre.kernel,
            pre.lpf_mid,
            u,
            post.lpf_mid,
            mid,
        )
}

/// From `pre`, the sample `x` may give these bands and leave `post`.
pub open spec fn lr_splits<S, K: Fn(Biquad<S>, S) -> S>(
    pre: LrBandSplitter<S, K>,
    x: S,
    post: LrBandSplitter<S, K>,
    bands: (S, S, S),
) -> bool {
    &&& lr4_steps(pre.kernel, pre.lpf_low, x, post.lpf_low, bands.0)
    &&& mid_steps(pre, x, post, bands.1)
    &&& lr4_steps(pre.kernel, pre.hpf_mid, x, post.hpf_mid, bands.2)
    &&& post == (LrBandSplitter {
        lpf_low: post.lpf_low,
        hpf_low: post.hpf_low,
        lpf_mid: post.lpf_mid,
        hpf_mid: post.hpf_mid,
        ..pre
    })
}

impl<S: Copy + Send, K: Fn(Biquad<S>, S) -> S + Copy + Send> BandSplitter<S> for LrBandSplitter<
    S,
    K,
> {
    open spec fn ready(self) -> bool {
        kernel_total(self.kernel)
    }

    open spec fn splits(pre: Self, x: S, post: Self, bands: (S, S, S)) -> bool {
        lr_splits(pre, x, post, bands)
    }

    fn split(&mut self, sample: S) -> (bands: (S, S, S)) {
        let low = self.lpf_low.process(sample, self.kernel);
        let inner = self.hpf_low.process(sample, self.kernel);
        let mid = self.lpf_mid.process(inner, self.kernel);
        let high = self.hpf_mid.process(sample, self.kernel);
        (low, mid, high)
    }
}

/// Gives every sample to all three bands.
pub struct PassthroughSplitter;

impl<S: Copy> BandSplitter<S> for PassthroughSplitter {
    open spec fn ready(self) -> bool {
        true
    }

    open spec fn splits(pre: Self, x: S, post: Self, bands: (S, S, S)) -> bool {
        bands == (x, x, x) && post == pre
    }

    fn split(&mut self, sample: S) -> (bands: (S, S, S)) {
        (sample, sample, sample)
    }
}

/// The three bands.
#[derive(Clone, Copy, Debug, PartialEq, Eq, Structural)]
pub enum Band {
    Low,
    Mid,
    High,
}

/// The output channel that carries a band of the left channel.
pub open spec fn left_out(band: Band) -> int {
    match band {
        Band::Low => OUT_LOW_L as int,
        Band::Mid => OUT_MID_L as int,
        Band::High => OUT_HIGH_L as int,
    }
}

/// The output channel that carries a band of the right channel.
pub open spec fn right_out(band: Band) -> int {
    match band {
        Band::Low => OUT_LOW_R as int,
        Band::Mid => OUT_MID_R as int,
        Band::High => OUT_HIGH_R as int,
    }
}

/// One of three bands of a sample.
pub open spec fn band_of<S>(bands: (S, S, S), band: Band) -> S {
    match band {
        Band::Low => bands.0,
        Band::Mid => bands.1,
        Band::High => bands.2,
    }
}

/// A stereo crossover: a splitter for each channel, and the current gains and
/// switches. `scale` multiplies a sample or a gain by a gain; `silence` is the
/// gain of a band that is off.
#[derive(Clone, Copy, Debug)]
pub struct Crossover<S, K, M> {
    pub left: LrBandSplitter<S, K>,
    pub right: LrBandSplitter<S, K>,
    pub master: S,
    pub low_gain: S,
    pub mid_gain: S,
    pub high_gain: S,
    pub low_mute: bool,
    pub mid_mute: bool,
    pub high_mute: bool,
    pub low_solo: bool,
    pub mid_solo: bool,
    pub high_solo: bool,
    pub low_bypass: bool,
    pub mid_bypass: bool,
    pub high_bypass: bool,
    pub scale: M,
    pub silence: S,
}

impl<S, K, M> Crossover<S, K, M> {
    /// The gain of a band.
    pub open spec fn gain(self, band: Band) -> S {
        match band {
            Band::Low => self.low_gain,
            Band::Mid => self.mid_gain,
            Band::High => self.high_gain,
        }
    }

    /// The band is muted.
    pub open spec fn muted(self, band: Band) -> bool {
        match band {
            Band::Low => self.low_mute,
            Band::Mid => self.mid_mute,
            Band::High => self.high_mute,
        }
    }

    /// The band is soloed.
    pub open spec fn soloed(self, band: Band) -> bool {
        match band {
            Band::Low => self.low_solo,
            Band::Mid => self.mid_solo,
            Band::High => self.high_solo,
        }
    }

    /// The band is bypassed.
    pub open spec fn bypassed(self, band: Band) -> bool {
        match band {
            Band::Low => self.low_bypass,
            Band::Mid => self.mid_bypass,
            Band::High => self.high_bypass,
        }
    }

    /// The band is heard: it is not muted, and it is soloed or no band is.
    pub open spec fn active(self, band: Band) -> bool {
        &&& !self.muted(band)
        &&& self.soloed(band) || forall|b: Band| !self.soloed(b)
    }

    /// What feeds the output of a band: the raw input where the band is
    /// bypassed, its share of the split otherwise.
    pub open spec fn source(self, band: Band, raw: S, bands: (S, S, S)) -> S {
        if self.bypassed(band) {
            raw
        } else {
            band_of(bands, band)
        }
    }

    /// The gains and switches are those of the configuration.
    pub open spec fn set_to(self, cfg: AudioRuntimeConfig<S>) -> bool {
        &&& self.master == cfg.volume
        &&& self.low_gain == cfg.low_gain
        &&& self.mid_gain == cfg.mid_gain
        &&& self.high_gain == cfg.high_gain
        &&& self.low_mute == cfg.low_mute
        &&& self.mid_mute == cfg.mid_mute
        &&& self.high_mute == cfg.high_mute
        &&& self.low_solo == cfg.low_solo
        &&& self.mid_solo == cfg.mid_solo
        &&& self.high_solo == cfg.high_solo
        &&& self.low_bypass == cfg.low_bypass
        &&& self.mid_bypass == cfg.mid_bypass
        &&& self.high_bypass == cfg.high_bypass
    }
}

/// The crossover has the settings of a configuration and these cuts, and has not
/// taken a frame yet.
pub open spec fn crossover_fresh<S, K, M>(
    c: Crossover<S, K, M>,
    cfg: AudioRuntimeConfig<S>,
    low: Edge<S>,
    mid: Edge<S>,
    sample_rate: S,
    kernel: K,
) -> bool {
    &&& c.set_to(cfg)
    &&& c.left == fresh_splitter(low, mid, sample_rate, kernel)
    &&& c.right == fresh_splitter(low, mid, sample_rate, kernel)
}

/// Taking over a configuration with these cuts may turn `pre` into `post`.
pub open spec fn crossover_updates<S, K, M, D: Fn(S, S) -> bool>(
    differs: D,
    pre: Crossover<S, K, M>,
    cfg: AudioRuntimeConfig<S>,
    low: Edge<S>,
    mid: Edge<S>,
    post: Crossover<S, K, M>,
) -> bool {
    &&& post.set_to(cfg)
    &&& cuts_set(differs, pre.left, low, mid, post.left)
    &&& cuts_set(differs, pre.right, low, mid, post.right)
    &&& post.scale == pre.scale
    &&& post.silence == pre.silence
}

/// `scale` can be applied to every pair of samples.
pub open spec fn scale_total<S, M: Fn(S, S) -> S>(scale: M) -> bool {
    forall|x: S, g: S| #[trigger] call_requires(scale, (x, g))
}

impl<S, K: Fn(Biquad<S>, S) -> S, M: Fn(S, S) -> S> Crossover<S, K, M> {
    /// The crossover can take a frame.
    pub open spec fn ready(self) -> bool {
        &&& kernel_total(self.left.kernel)
        &&& kernel_total(self.right.kernel)
        &&& scale_total(self.scale)
    }
}

/// `g` may be the gain by which the outputs of a band are scaled: its own gain
/// times the master gain where it is heard, silence otherwise.
pub open spec fn effective_gain<S, K, M: Fn(S, S) -> S>(
    c: Crossover<S, K, M>,
    band: Band,
    g: S,
) -> bool {
    if c.active(band) {
        call_ensures(c.scale, (c.gain(band), c.master), g)
    } else {
        g == c.silence
    }
}

/// The two outputs of a band may be these, where the inputs were `l` and `r`
/// and split into `lb` and `rb`.
pub open spec fn band_mixed<S, K, M: Fn(S, S) -> S>(
    c: Crossover<S, K, M>,
    band: Band,
    l: S,
    r: S,
    lb: (S, S, S),
    rb: (S, S, S),
    out: Seq<S>,
) -> bool {
    exists|g: S|
        #[trigger] effective_gain(c, band, g) && call_ensures(
            c.scale,
            (c.source(band, l, lb), g),
            out[left_out(band)],
        ) && call_ensures(c.scale, (c.source(band, r, rb), g), out[right_out(band)])
}

/// From the state `pre`, the frame `(l, r)` may give the six outputs `out` and
/// leave the state `post`.
pub open spec fn crossover_plays<S, K: Fn(Biquad<S>, S) -> S, M: Fn(S, S) -> S>(pre: Crossover<S, K, M>, l: S, r: S, post: Crossover<S, K, M>, out: Seq<S>) -> bool {
    &&& out.len() == 6
    &&& post == (Crossover { left: post.left, right: post.right, ..pre })
    &&& exists|lb: (S, S, S), rb: (S, S, S)|
        #![trigger lr_splits(pre.left, l, post.left, lb), lr_splits(pre.right, r, post.right, rb)]
        {
            &&& lr_splits(pre.left, l, post.left, lb)
            &&& lr_splits(pre.right, r, post.right, rb)
            &&& band_mixed(pre, Band::Low, l, r, lb, rb, out)
            &&& band_mixed(pre, Band::Mid, l, r, lb, rb, out)
            &&& band_mixed(pre, Band::High, l, r, lb, rb, out)
        }
}

impl<S: Copy + Send, K: Fn(Biquad<S>, S) -> S + Copy + Send, M: Fn(S, S) -> S + Copy> Crossover<
    S,
    K,
    M,
> {
    /// A crossover with the settings of a configuration and these cuts.
    pub fn new(
        cfg: &AudioRuntimeConfig<S>,
        low: Edge<S>,
        mid: Edge<S>,
        sample_rate: S,
        kernel: K,
        scale: M,
        silence: S,
    ) -> (r: Self)
        requires
            kernel_total(kernel),
            scale_total(scale),
        ensures
            crossover_fresh(r, *cfg, low, mid, sample_rate, kernel),
            r.scale == scale,
            r.silence == silence,
            r.ready(),
    {
        Crossover {
            left: LrBandSplitter::new(low, mid, sample_rate, kernel),
            right: LrBandSplitter::new(low, mid, sample_rate, kernel),
            master: cfg.volume,
            low_gain: cfg.low_gain,
            mid_gain: cfg.mid_gain,
            high_gain: cfg.high_gain,
            low_mute: cfg.low_mute,
            mid_mute: cfg.mid_mute,
            high_mute: cfg.high_mute,
            low_solo: cfg.low_solo,
            mid_solo: cfg.mid_solo,
            high_solo: cfg.high_solo,
            low_bypass: cfg.low_bypass,
            mid_bypass: cfg.mid_bypass,
            high_bypass: cfg.high_bypass,
            scale,
            silence,
        }
    }

    /// Takes the settings of a configuration, and moves the cuts that differ.
    pub fn update<D: Fn(S, S) -> bool + Copy>(
        &mut self,
        cfg: &AudioRuntimeConfig<S>,
        low: Edge<S>,
        mid: Edge<S>,
        differs: D,
    )
        requires
            differs_total(differs),
        ensures
            crossover_updates(differs, *old(self), *cfg, low, mid, *final(self)),
            old(self).ready() ==> final(self).ready(),
    {
        self.master = cfg.volume;
        self.low_gain = cfg.low_gain;
        self.mid_gain = cfg.mid_gain;
        self.high_gain = cfg.high_gain;
        self.low_mute = cfg.low_mute;
        self.mid_mute = cfg.mid_mute;
        self.high_mute = cfg.high_mute;
        self.low_solo = cfg.low_solo;
        self.mid_solo = cfg.mid_solo;
        self.high_solo = cfg.high_solo;
        self.low_bypass = cfg.low_bypass;
        self.mid_bypass = cfg.mid_bypass;
        self.high_bypass = cfg.high_bypass;
        self.left.set_cutoffs(low, mid, differs);
        self.right.set_cutoffs(low, mid, differs);
    }

    /// Takes one stereo frame and gives one frame of six channels.
    ///
    /// Solo: if any band is soloed, only soloed bands are heard. Mute: a muted
    /// band is silent whether it is soloed or not. Bypass: a bypassed band gets
    /// the raw input in place of its share of the split.
    pub fn process(&mut self, l: S, r: S) -> (out: [S; 6])
        requires
            old(self).ready(),
        ensures
            crossover_plays(*old(self), l, r, *final(self), out@),
            final(self).ready(),
    {
        let (l_lo, l_mi, l_hi) = self.left.split(l);
        let (r_lo, r_mi, r_hi) = self.right.split(r);
        let any_solo = self.low_solo || self.mid_solo || self.high_solo;
        let m = self.master;
        let scale = self.scale;
        let active_lo = (!any_solo || self.low_solo) && !self.low_mute;
        let active_mi = (!any_solo || self.mid_solo) && !self.mid_mute;
        let active_hi = (!any_solo || self.high_solo) && !self.high_mute;
        let (sl, sr) = if self.low_bypass {
            (l, r)
        } else {
            (l_lo, r_lo)
        };
        let (ml, mr) = if self.mid_bypass {
            (l, r)
        } else {
            (l_mi, r_mi)
        };
        let (hl, hr) = if self.high_bypass {
            (l, r)
        } else {
            (l_hi, r_hi)
        };
        let gl = if active_lo {
            scale(self.low_gain, m)
        } else {
            self.silence
        };
        let gm = if active_mi {
            scale(self.mid_gain, m)
        } else {
            self.silence
        };
        let gh = if active_hi {
            scale(self.high_gain, m)
        } else {
            self.silence
        };
        let out = [
            scale(ml, gm),
            scale(mr, gm),
            scale(sl, gl),
            scale(sr, gl),
            scale(hl, gh),
            scale(hr, gh),
        ];
        proof {
            let pre = *old(self);
            let lb = (l_lo, l_mi, l_hi);
            let rb = (r_lo, r_mi, r_hi);
            pre.lemma_solo();
            assert(effective_gain(pre, Band::Low, gl));
            assert(effective_gain(pre, Band::Mid, gm));
            assert(effective_gain(pre, Band::High, gh));
            assert(band_mixed(pre, Band::Low, l, r, lb, rb, out@));
            assert(band_mixed(pre, Band::Mid, l, r, lb, rb, out@));
            assert(band_mixed(pre, Band::High, l, r, lb, rb, out@));
        }
        out
    }

    proof fn lemma_solo(self)
        ensures
            (forall|b: Band| !self.soloed(b)) == !(self.low_solo || self.mid_solo
                || self.high_solo),
    {
        if self.low_solo {
            assert(self.soloed(Band::Low));
        }
        if self.mid_solo {
            assert(self.soloed(Band::Mid));
        }
        if self.high_solo {
            assert(self.soloed(Band::High));
        }
    }
}

// ---------------------------------------------------------------------------
// What holds of the crossover
// ---------------------------------------------------------------------------
/// Both outputs of a band are what scaling by silence gives.
pub open spec fn band_silent<S, K, M: Fn(S, S) -> S>(
    c: Crossover<S, K, M>,
    band: Band,
    out: Seq<S>,
) -> bool {
    exists|x: S, y: S|
        #[trigger] call_ensures(c.scale, (x, c.silence), out[left_out(band)])
            && #[trigger] call_ensures(c.scale, (y, c.silence), out[right_out(band)])
}

/// Behind the outputs of a frame stand the bands of its two inputs.
pub proof fn bands_behind<S, K: Fn(Biquad<S>, S) -> S, M: Fn(S, S) -> S>(
    pre: Crossover<S, K, M>,
    l: S,
    r: S,
    post: Crossover<S, K, M>,
    out: Seq<S>,
) -> (bands: ((S, S, S), (S, S, S)))
    requires
        crossover_plays(pre, l, r, post, out),
    ensures
        lr_splits(pre.left, l, post.left, bands.0),
        lr_splits(pre.right, r, post.right, bands.1),
        forall|band: Band| #[trigger] band_mixed(pre, band, l, r, bands.0, bands.1, out),
{
    let (lb, rb) = choose|lb: (S, S, S), rb: (S, S, S)|
        #![trigger lr_splits(pre.left, l, post.left, lb), lr_splits(pre.right, r, post.right, rb)]
        {
            &&& lr_splits(pre.left, l, post.left, lb)
            &&& lr_splits(pre.right, r, post.right, rb)
            &&& band_mixed(pre, Band::Low, l, r, lb, rb, out)
            &&& band_mixed(pre, Band::Mid, l, r, lb, rb, out)
            &&& band_mixed(pre, Band::High, l, r, lb, rb, out)
        };
    assert forall|band: Band| #[trigger] band_mixed(pre, band, l, r, lb, rb, out) by {
        match band {
            Band::Low => {},
            Band::Mid => {},
            Band::High => {},
        }
    }
    (lb, rb)
}

/// A muted band is silent, whether it is soloed or not.
pub proof fn mute_silences<S, K: Fn(Biquad<S>, S) -> S, M: Fn(S, S) -> S>(pre: Crossover<S, K, M>, l: S, r: S, post: Crossover<S, K, M>, out: Seq<S>, band: Band)
    requires
        crossover_plays(pre, l, r, post, out),
        pre.muted(band),
    ensures
        band_silent(pre, band, out),
{
    let (lb, rb) = bands_behind(pre, l, r, post, out);
    assert(band_mixed(pre, band, l, r, lb, rb, out));
}

/// Once a band is soloed, every band that is not is silent.
pub proof fn solo_silences_the_others<S, K: Fn(Biquad<S>, S) -> S, M: Fn(S, S) -> S>(
    pre: Crossover<S, K, M>,
    l: S,
    r: S,
    post: Crossover<S, K, M>,
    out: Seq<S>,
    soloed: Band,
    band: Band,
)
    requires
        crossover_plays(pre, l, r, post, out),
        pre.soloed(soloed),
        !pre.soloed(band),
    ensures
        band_silent(pre, band, out),
{
    let (lb, rb) = bands_behind(pre, l, r, post, out);
    assert(band_mixed(pre, band, l, r, lb, rb, out));
}

/// A band that is soloed and not muted is heard, and so is every band that is
/// not muted while none is soloed: its outputs are scaled by its own gain times
/// the master gain. Where it is bypassed, they are the scaled inputs.
pub proof fn heard_bands_have_their_gain<S, K: Fn(Biquad<S>, S) -> S, M: Fn(S, S) -> S>(pre: Crossover<S, K, M>, l: S, r: S, post: Crossover<S, K, M>, out: Seq<S>, band: Band)
    requires
        crossover_plays(pre, l, r, post, out),
        !pre.muted(band),
        pre.soloed(band) || forall|b: Band| !pre.soloed(b),
    ensures
        exists|g: S, x: S, y: S|
            {
                &&& #[trigger] call_ensures(pre.scale, (pre.gain(band), pre.master), g)
                &&& #[trigger] call_ensures(pre.scale, (x, g), out[left_out(band)])
                &&& #[trigger] call_ensures(pre.scale, (y, g), out[right_out(band)])
                &&& pre.bypassed(band) ==> x == l && y == r
            },
{
    let (lb, rb) = bands_behind(pre, l, r, post, out);
    assert(band_mixed(pre, band, l, r, lb, rb, out));
}

/// The six output channels are the three bands of the two inputs, each once.
pub proof fn channels_carry_each_band_once(a: Band, b: Band, channel: int)
    ensures
        0 <= left_out(a) < 6,
        0 <= right_out(a) < 6,
        left_out(a) != right_out(b),
        a != b ==> left_out(a) != left_out(b) && right_out(a) != right_out(b),
        0 <= channel < 6 ==> exists|band: Band|
            left_out(band) == channel || right_out(band) == channel,
{
    if channel == OUT_LOW_L || channel == OUT_LOW_R {
        assert(left_out(Band::Low) == channel || right_out(Band::Low) == channel);
    } else if channel == OUT_MID_L || channel == OUT_MID_R {
        assert(left_out(Band::Mid) == channel || right_out(Band::Mid) == channel);
    } else if 0 <= channel < 6 {
        assert(left_out(Band::High) == channel || right_out(Band::High) == channel);
    }
}

/// The two filters have the same history.
pub open spec fn lr4_same_history<S>(f: Lr4<S>, g: Lr4<S>) -> bool {
    f.a.same_history(g.a) && f.b.same_history(g.b)
}

/// Moving the cuts keeps the history of every filter and the sample rate, and a
/// cut that does not move keeps its coefficients too.
pub proof fn moving_cuts_keeps_the_history<S, K, D: Fn(S, S) -> bool>(
    differs: D,
    pre: LrBandSplitter<S, K>,
    low: Edge<S>,
    mid: Edge<S>,
    post: LrBandSplitter<S, K>,
)
    requires
        cuts_set(differs, pre, low, mid, post),
    ensures
        lr4_same_history(pre.lpf_low, post.lpf_low),
        lr4_same_history(pre.hpf_low, post.hpf_low),
        lr4_same_history(pre.lpf_mid, post.lpf_mid),
        lr4_same_history(pre.hpf_mid, post.hpf_mid),
        post.sample_rate == pre.sample_rate,
        post.kernel == pre.kernel,
        !call_ensures(differs, (low.cut, pre.low_cut_hz), true) ==> post.lpf_low == pre.lpf_low
            && post.hpf_low == pre.hpf_low && post.low_cut_hz == pre.low_cut_hz,
        !call_ensures(differs, (mid.cut, pre.mid_cut_hz), true) ==> post.lpf_mid == pre.lpf_mid
            && post.hpf_mid == pre.hpf_mid && post.mid_cut_hz == pre.mid_cut_hz,
{
}

/// Splitting a sample changes no coefficient and no cut.
pub proof fn splitting_keeps_the_cuts<S, K: Fn(Biquad<S>, S) -> S>(
    pre: LrBandSplitter<S, K>,
    x: S,
    post: LrBandSplitter<S, K>,
    bands: (S, S, S),
)
    requires
        lr_splits(pre, x, post, bands),
    ensures
        tuned_alike(pre, post),
{
}

/// The two filters have the same coefficients.
pub open spec fn lr4_same_coeffs<S>(f: Lr4<S>, g: Lr4<S>) -> bool {
    f.a.same_coeffs(g.a) && f.b.same_coeffs(g.b)
}

/// The two splitters have the same cuts and coefficients; their histories may
/// differ.
pub open spec fn tuned_alike<S, K>(a: LrBandSplitter<S, K>, b: LrBandSplitter<S, K>) -> bool {
    &&& lr4_same_coeffs(a.lpf_low, b.lpf_low)
    &&& lr4_same_coeffs(a.hpf_low, b.hpf_low)
    &&& lr4_same_coeffs(a.lpf_mid, b.lpf_mid)
    &&& lr4_same_coeffs(a.hpf_mid, b.hpf_mid)
    &&& a.low_cut_hz == b.low_cut_hz
    &&& a.mid_cut_hz == b.mid_cut_hz
    &&& a.sample_rate == b.sample_rate
    &&& a.kernel == b.kernel
}

/// The left and the right channel stay tuned alike while frames are played.
pub proof fn channels_stay_alike_while_playing<S, K: Fn(Biquad<S>, S) -> S, M: Fn(S, S) -> S>(pre: Crossover<S, K, M>, l: S, r: S, post: Crossover<S, K, M>, out: Seq<S>)
    requires
        tuned_alike(pre.left, pre.right),
        crossover_plays(pre, l, r, post, out),
    ensures
        tuned_alike(post.left, post.right),
{
}

/// The left and the right channel stay tuned alike when the cuts are moved, as
/// long as `differs` always gives the same answer to the same question.
pub proof fn channels_stay_alike_when_tuned<S, K, D: Fn(S, S) -> bool>(
    differs: D,
    left: LrBandSplitter<S, K>,
    right: LrBandSplitter<S, K>,
    low: Edge<S>,
    mid: Edge<S>,
    new_left: LrBandSplitter<S, K>,
    new_right: LrBandSplitter<S, K>,
)
    requires
        tuned_alike(left, right),
        cuts_set(differs, left, low, mid, new_left),
        cuts_set(differs, right, low, mid, new_right),
        forall|x: S, y: S|
            !(#[trigger] call_ensures(differs, (x, y), true) && call_ensures(
                differs,
                (x, y),
                false,
            )),
    ensures
        tuned_alike(new_left, new_right),
{
}

} // verus!
