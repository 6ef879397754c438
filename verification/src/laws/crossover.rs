//! Laws of the crossover.

use crate::config::AudioRuntimeConfig;
use crate::crossover::{
    bands_behind, biquad_steps, effective_gain, lr4_steps, lr_splits, mid_steps, update_lr_coeffs,
    Band, BandSplitter, Biquad, Crossover, Edge, Lr4, LrBandSplitter, PassthroughSplitter,
};
use vstd::prelude::*;

verus! {

// ---------------------------------------------------------------------------
// Filters
// ---------------------------------------------------------------------------
/// The two sections have the same coefficients.
pub open spec fn coefficients_agree<S>(a: Biquad<S>, b: Biquad<S>) -> bool {
    a.b0 == b.b0 && a.b1 == b.b1 && a.b2 == b.b2 && a.a1 == b.a1 && a.a2 == b.a2
}

/// The two sections have the same last inputs and outputs.
pub open spec fn memories_agree<S>(a: Biquad<S>, b: Biquad<S>) -> bool {
    a.x1 == b.x1 && a.x2 == b.x2 && a.y1 == b.y1 && a.y2 == b.y2
}

/// The section `pre` makes `y` out of `x` and becomes `post`: the kernel gives the
/// output, the coefficients stay, and the last two inputs and outputs move on.
pub open spec fn goes_through<S, K: Fn(Biquad<S>, S) -> S>(
    kernel: K,
    pre: Biquad<S>,
    x: S,
    post: Biquad<S>,
    y: S,
) -> bool {
    &&& call_ensures(kernel, (pre, x), y)
    &&& coefficients_agree(pre, post)
    &&& post.x1 == x
    &&& post.x2 == pre.x1
    &&& post.y1 == y
    &&& post.y2 == pre.y1
}

/// The filter `pre` makes `y` out of `x`: what its first section makes of `x` goes
/// through the second one.
pub open spec fn filters_to<S, K: Fn(Biquad<S>, S) -> S>(
    kernel: K,
    pre: Lr4<S>,
    x: S,
    post: Lr4<S>,
    y: S,
) -> bool {
    exists|between: S|
        #[trigger] goes_through(kernel, pre.a, x, post.a, between) && goes_through(
            kernel,
            pre.b,
            between,
            post.b,
            y,
        )
}

/// The mid band of `x`: through the high-pass of the low cut, then through the
/// low-pass of the mid cut.
pub open spec fn mid_is<S, K: Fn(Biquad<S>, S) -> S>(
    pre: LrBandSplitter<S, K>,
    x: S,
    post: LrBandSplitter<S, K>,
    mid: S,
) -> bool {
    exists|upper: S|
        #[trigger] filters_to(pre.kernel, pre.hpf_low, x, post.hpf_low, upper) && filters_to(
            pre.kernel,
            pre.lpf_mid,
            upper,
            post.lpf_mid,
            mid,
        )
}

/// The three bands of `x`: the low band is what the low-pass of the low cut leaves,
/// the high band what the high-pass of the mid cut leaves, the mid band what lies
/// between the cuts.
pub open spec fn bands_are<S, K: Fn(Biquad<S>, S) -> S>(
    pre: LrBandSplitter<S, K>,
    x: S,
    post: LrBandSplitter<S, K>,
    low: S,
    mid: S,
    high: S,
) -> bool {
    &&& filters_to(pre.kernel, pre.lpf_low, x, post.lpf_low, low)
    &&& mid_is(pre, x, post, mid)
    &&& filters_to(pre.kernel, pre.hpf_mid, x, post.hpf_mid, high)
    &&& post.low_cut_hz == pre.low_cut_hz
    &&& post.mid_cut_hz == pre.mid_cut_hz
    &&& post.sample_rate == pre.sample_rate
    &&& post.kernel == pre.kernel
}

proof fn lemma_filters<S, K: Fn(Biquad<S>, S) -> S>(
    kernel: K,
    pre: Lr4<S>,
    x: S,
    post: Lr4<S>,
    y: S,
)
    requires
        lr4_steps(kernel, pre, x, post, y),
    ensures
        filters_to(kernel, pre, x, post, y),
{
    let t = choose|t: S|
        #[trigger] biquad_steps(kernel, pre.a, x, post.a, t) && biquad_steps(
            kernel,
            pre.b,
            t,
            post.b,
            y,
        );
    assert(goes_through(kernel, pre.a, x, post.a, t));
    assert(goes_through(kernel, pre.b, t, post.b, y));
}

proof fn lemma_bands<S, K: Fn(Biquad<S>, S) -> S>(
    pre: LrBandSplitter<S, K>,
    x: S,
    post: LrBandSplitter<S, K>,
    bands: (S, S, S),
)
    requires
        lr_splits(pre, x, post, bands),
    ensures
        bands_are(pre, x, post, bands.0, bands.1, bands.2),
{
    lemma_filters(pre.kernel, pre.lpf_low, x, post.lpf_low, bands.0);
    lemma_filters(pre.kernel, pre.hpf_mid, x, post.hpf_mid, bands.2);
    assert(mid_steps(pre, x, post, bands.1));
    let u = choose|u: S|
        #[trigger] lr4_steps(pre.kernel, pre.hpf_low, x, post.hpf_low, u) && lr4_steps(
            pre.kernel,
            pre.lpf_mid,
            u,
            post.lpf_mid,
            bands.1,
        );
    lemma_filters(pre.kernel, pre.hpf_low, x, post.hpf_low, u);
    lemma_filters(pre.kernel, pre.lpf_mid, u, post.lpf_mid, bands.1);
}

/// A section and a filter make of a sample what their kernel makes of it, and move
/// their memory on.
pub proof fn filters_remember<S: Copy, K: Fn(Biquad<S>, S) -> S + Copy>(
    section: &mut Biquad<S>,
    filter: &mut Lr4<S>,
    x: S,
    kernel: K,
    y: S,
    z: S,
)
    requires
        call_ensures(Biquad::<S>::process::<K>, (section, x, kernel), y),
        call_ensures(Lr4::<S>::process::<K>, (filter, x, kernel), z),
    ensures
        goes_through(kernel, *old(section), x, *final(section), y),
        filters_to(kernel, *old(filter), x, *final(filter), z),
{
    lemma_filters(kernel, *old(filter), x, *final(filter), z);
}

/// New coefficients go into both sections, and no memory changes.
pub proof fn retuning_keeps_the_memory<S: Copy>(filter: &mut Lr4<S>, src: Biquad<S>, r: ())
    requires
        call_ensures(update_lr_coeffs::<S>, (filter, src), r),
    ensures
        coefficients_agree(final(filter).a, src),
        coefficients_agree(final(filter).b, src),
        memories_agree(final(filter).a, old(filter).a),
        memories_agree(final(filter).b, old(filter).b),
{
}

/// A splitter gives the three bands of a sample.
pub proof fn splitting_gives_the_bands<
    S: Copy + Send,
    K: Fn(Biquad<S>, S) -> S + Copy + Send,
>(splitter: &mut LrBandSplitter<S, K>, x: S, bands: (S, S, S))
    requires
        call_ensures(<LrBandSplitter<S, K> as BandSplitter<S>>::split, (splitter, x), bands),
    ensures
        bands_are(*old(splitter), x, *final(splitter), bands.0, bands.1, bands.2),
{
    lemma_bands(*old(splitter), x, *final(splitter), bands);
}

/// The passthrough gives the sample itself to all three bands.
pub proof fn passing_through_changes_nothing<S: Copy>(
    splitter: &mut PassthroughSplitter,
    x: S,
    bands: (S, S, S),
)
    requires
        call_ensures(<PassthroughSplitter as BandSplitter<S>>::split, (splitter, x), bands),
    ensures
        bands.0 == x && bands.1 == x && bands.2 == x,
{
}

/// Both sections of the filter have the coefficients of `src`.
pub open spec fn tuned_to<S>(f: Lr4<S>, src: Biquad<S>) -> bool {
    coefficients_agree(f.a, src) && coefficients_agree(f.b, src)
}

/// The two filters have the same memory.
pub open spec fn remembers_as<S>(f: Lr4<S>, g: Lr4<S>) -> bool {
    memories_agree(f.a, g.a) && memories_agree(f.b, g.b)
}

/// Setting the cuts of a splitter may turn `pre` into `post`: no memory changes; a
/// cut that is surely new is taken over with its filters, a cut that surely is not
/// stays with its filters, and the other cut has no part in it.
pub open spec fn retunes<S, K, D: Fn(S, S) -> bool>(
    differs: D,
    pre: LrBandSplitter<S, K>,
    low: Edge<S>,
    mid: Edge<S>,
    post: LrBandSplitter<S, K>,
) -> bool {
    let low_new = !call_ensures(differs, (low.cut, pre.low_cut_hz), false);
    let low_old = !call_ensures(differs, (low.cut, pre.low_cut_hz), true);
    let mid_new = !call_ensures(differs, (mid.cut, pre.mid_cut_hz), false);
    let mid_old = !call_ensures(differs, (mid.cut, pre.mid_cut_hz), true);
    &&& remembers_as(post.lpf_low, pre.lpf_low) && remembers_as(post.hpf_low, pre.hpf_low)
    &&& remembers_as(post.lpf_mid, pre.lpf_mid) && remembers_as(post.hpf_mid, pre.hpf_mid)
    &&& low_new ==> post.low_cut_hz == low.cut && tuned_to(post.lpf_low, low.lpf) && tuned_to(
        post.hpf_low,
        low.hpf,
    )
    &&& mid_new ==> post.mid_cut_hz == mid.cut && tuned_to(post.lpf_mid, mid.lpf) && tuned_to(
        post.hpf_mid,
        mid.hpf,
    )
    &&& low_old ==> post.low_cut_hz == pre.low_cut_hz && post.lpf_low == pre.lpf_low && post.hpf_low
        == pre.hpf_low
    &&& mid_old ==> post.mid_cut_hz == pre.mid_cut_hz && post.lpf_mid == pre.lpf_mid && post.hpf_mid
        == pre.hpf_mid
    &&& post.sample_rate == pre.sample_rate
    &&& post.kernel == pre.kernel
}

/// Setting the cuts moves what is new and nothing else.
pub proof fn only_new_cuts_are_taken_over<
    S: Copy,
    K: Fn(Biquad<S>, S) -> S + Copy,
    D: Fn(S, S) -> bool + Copy,
>(splitter: &mut LrBandSplitter<S, K>, low: Edge<S>, mid: Edge<S>, differs: D, r: ())
    requires
        call_ensures(LrBandSplitter::<S, K>::set_cutoffs::<D>, (splitter, low, mid, differs), r),
    ensures
        retunes(differs, *old(splitter), low, mid, *final(splitter)),
{
}

/// The splitter has these cuts and filters, both sections of each alike.
pub open spec fn made_of<S, K>(
    c: LrBandSplitter<S, K>,
    low: Edge<S>,
    mid: Edge<S>,
    sample_rate: S,
    kernel: K,
) -> bool {
    &&& c.lpf_low.a == low.lpf && c.lpf_low.b == low.lpf
    &&& c.hpf_low.a == low.hpf && c.hpf_low.b == low.hpf
    &&& c.lpf_mid.a == mid.lpf && c.lpf_mid.b == mid.lpf
    &&& c.hpf_mid.a == mid.hpf && c.hpf_mid.b == mid.hpf
    &&& c.low_cut_hz == low.cut && c.mid_cut_hz == mid.cut
    &&& c.sample_rate == sample_rate && c.kernel == kernel
}

/// A new splitter has the cuts and filters that it was given.
pub proof fn a_new_splitter_has_its_cuts<S: Copy, K: Fn(Biquad<S>, S) -> S + Copy>(
    low: Edge<S>,
    mid: Edge<S>,
    sample_rate: S,
    kernel: K,
    c: LrBandSplitter<S, K>,
)
    requires
        call_ensures(LrBandSplitter::<S, K>::new, (low, mid, sample_rate, kernel), c),
    ensures
        made_of(c, low, mid, sample_rate, kernel),
{
}

// ---------------------------------------------------------------------------
// The stereo crossover
// ---------------------------------------------------------------------------
/// Every gain and every switch of the crossover is the one of the configuration.
pub open spec fn obeys<S, K, M>(c: Crossover<S, K, M>, cfg: AudioRuntimeConfig<S>) -> bool {
    &&& c.master == cfg.volume
    &&& c.low_gain == cfg.low_gain && c.mid_gain == cfg.mid_gain && c.high_gain == cfg.high_gain
    &&& c.low_mute == cfg.low_mute && c.mid_mute == cfg.mid_mute && c.high_mute == cfg.high_mute
    &&& c.low_solo == cfg.low_solo && c.mid_solo == cfg.mid_solo && c.high_solo == cfg.high_solo
    &&& c.low_bypass == cfg.low_bypass && c.mid_bypass == cfg.mid_bypass
    &&& c.high_bypass == cfg.high_bypass
}

/// A new crossover obeys its configuration and has the same cuts on both channels.
pub proof fn a_new_crossover_obeys<
    S: Copy + Send,
    K: Fn(Biquad<S>, S) -> S + Copy + Send,
    M: Fn(S, S) -> S + Copy,
>(
    cfg: AudioRuntimeConfig<S>,
    low: Edge<S>,
    mid: Edge<S>,
    sample_rate: S,
    kernel: K,
    scale: M,
    silence: S,
    c: Crossover<S, K, M>,
)
    requires
        call_ensures(
            Crossover::<S, K, M>::new,
            (&cfg, low, mid, sample_rate, kernel, scale, silence),
            c,
        ),
    ensures
        obeys(c, cfg),
        made_of(c.left, low, mid, sample_rate, kernel),
        made_of(c.right, low, mid, sample_rate, kernel),
        c.scale == scale,
        c.silence == silence,
{
}

/// After an update the crossover obeys the configuration, and both channels have
/// taken over the cuts that are new.
pub proof fn an_updated_crossover_obeys<
    S: Copy + Send,
    K: Fn(Biquad<S>, S) -> S + Copy + Send,
    M: Fn(S, S) -> S + Copy,
    D: Fn(S, S) -> bool + Copy,
>(
    c: &mut Crossover<S, K, M>,
    cfg: AudioRuntimeConfig<S>,
    low: Edge<S>,
    mid: Edge<S>,
    differs: D,
    r: (),
)
    requires
        call_ensures(Crossover::<S, K, M>::update::<D>, (c, &cfg, low, mid, differs), r),
    ensures
        obeys(*final(c), cfg),
        retunes(differs, old(c).left, low, mid, final(c).left),
        retunes(differs, old(c).right, low, mid, final(c).right),
        final(c).scale == old(c).scale,
        final(c).silence == old(c).silence,
{
}

/// The two outputs of a band: where the band is heard, each is its input scaled by
/// the gain of the band times the master gain, and where it is not, each is scaled
/// by silence.
pub open spec fn outputs_are<S, M: Fn(S, S) -> S>(
    scale: M,
    silence: S,
    heard: bool,
    gain: S,
    master: S,
    left_in: S,
    right_in: S,
    left_out: S,
    right_out: S,
) -> bool {
    exists|g: S|
        {
            &&& heard ==> call_ensures(scale, (gain, master), g)
            &&& !heard ==> g == silence
            &&& #[trigger] call_ensures(scale, (left_in, g), left_out)
            &&& call_ensures(scale, (right_in, g), right_out)
        }
}

/// What the six outputs of a frame are, given the three bands of its two inputs.
///
/// Each band goes to two outputs: mid to the first two, low to the next two, high to
/// the last two. What goes there is the share of that band, whatever the solo and
/// mute switches are, and the raw input only where the band is bypassed. A band is
/// heard where it is not muted and either it is soloed or neither of the other two
/// is.
pub open spec fn outputs_carry<S, K, M: Fn(S, S) -> S>(
    c: Crossover<S, K, M>,
    l: S,
    r: S,
    l_low: S,
    l_mid: S,
    l_high: S,
    r_low: S,
    r_mid: S,
    r_high: S,
    out: Seq<S>,
) -> bool {
    &&& out.len() == 6
    &&& outputs_are(
        c.scale,
        c.silence,
        !c.mid_mute && (c.mid_solo || !c.low_solo && !c.high_solo),
        c.mid_gain,
        c.master,
        if c.mid_bypass {
            l
        } else {
            l_mid
        },
        if c.mid_bypass {
            r
        } else {
            r_mid
        },
        out[0],
        out[1],
    )
    &&& outputs_are(
        c.scale,
        c.silence,
        !c.low_mute && (c.low_solo || !c.mid_solo && !c.high_solo),
        c.low_gain,
        c.master,
        if c.low_bypass {
            l
        } else {
            l_low
        },
        if c.low_bypass {
            r
        } else {
            r_low
        },
        out[2],
        out[3],
    )
    &&& outputs_are(
        c.scale,
        c.silence,
        !c.high_mute && (c.high_solo || !c.low_solo && !c.mid_solo),
        c.high_gain,
        c.master,
        if c.high_bypass {
            l
        } else {
            l_high
        },
        if c.high_bypass {
            r
        } else {
            r_high
        },
        out[4],
        out[5],
    )
}

proof fn lemma_outputs<S, K: Fn(Biquad<S>, S) -> S, M: Fn(S, S) -> S>(
    c: Crossover<S, K, M>,
    l: S,
    r: S,
    post: Crossover<S, K, M>,
    out: Seq<S>,
) -> (bands: ((S, S, S), (S, S, S)))
    requires
        crate::crossover::crossover_plays(c, l, r, post, out),
    ensures
        bands_are(c.left, l, post.left, bands.0.0, bands.0.1, bands.0.2),
        bands_are(c.right, r, post.right, bands.1.0, bands.1.1, bands.1.2),
        outputs_carry(
            c,
            l,
            r,
            bands.0.0,
            bands.0.1,
            bands.0.2,
            bands.1.0,
            bands.1.1,
            bands.1.2,
            out,
        ),
{
    let (lb, rb) = bands_behind(c, l, r, post, out);
    lemma_bands(c.left, l, post.left, lb);
    lemma_bands(c.right, r, post.right, rb);
    assert(c.soloed(Band::Low) == c.low_solo);
    assert(c.soloed(Band::Mid) == c.mid_solo);
    assert(c.soloed(Band::High) == c.high_solo);
    let none = forall|b: Band| !c.soloed(b);
    assert(none == (!c.low_solo && !c.mid_solo && !c.high_solo)) by {
        if !c.low_solo && !c.mid_solo && !c.high_solo {
            assert forall|b: Band| !c.soloed(b) by {
                match b {
                    Band::Low => {},
                    Band::Mid => {},
                    Band::High => {},
                }
            }
        }
    }
    assert(crate::crossover::band_mixed(c, Band::Low, l, r, lb, rb, out));
    assert(crate::crossover::band_mixed(c, Band::Mid, l, r, lb, rb, out));
    assert(crate::crossover::band_mixed(c, Band::High, l, r, lb, rb, out));
    lemma_band(c, Band::Low, l, r, lb, rb, out);
    lemma_band(c, Band::Mid, l, r, lb, rb, out);
    lemma_band(c, Band::High, l, r, lb, rb, out);
    (lb, rb)
}

proof fn lemma_band<S, K, M: Fn(S, S) -> S>(
    c: Crossover<S, K, M>,
    band: Band,
    l: S,
    r: S,
    lb: (S, S, S),
    rb: (S, S, S),
    out: Seq<S>,
)
    requires
        crate::crossover::band_mixed(c, band, l, r, lb, rb, out),
    ensures
        outputs_are(
            c.scale,
            c.silence,
            c.active(band),
            c.gain(band),
            c.master,
            c.source(band, l, lb),
            c.source(band, r, rb),
            out[crate::crossover::left_out(band)],
            out[crate::crossover::right_out(band)],
        ),
{
    let g = choose|g: S|
        #[trigger] effective_gain(c, band, g) && call_ensures(
            c.scale,
            (c.source(band, l, lb), g),
            out[crate::crossover::left_out(band)],
        ) && call_ensures(
            c.scale,
            (c.source(band, r, rb), g),
            out[crate::crossover::right_out(band)],
        );
    assert(call_ensures(
        c.scale,
        (c.source(band, l, lb), g),
        out[crate::crossover::left_out(band)],
    ));
}

/// The settings of the two crossovers agree.
pub open spec fn settings_agree<S, K, M>(a: Crossover<S, K, M>, b: Crossover<S, K, M>) -> bool {
    &&& a.master == b.master
    &&& a.low_gain == b.low_gain && a.mid_gain == b.mid_gain && a.high_gain == b.high_gain
    &&& a.low_mute == b.low_mute && a.mid_mute == b.mid_mute && a.high_mute == b.high_mute
    &&& a.low_solo == b.low_solo && a.mid_solo == b.mid_solo && a.high_solo == b.high_solo
    &&& a.low_bypass == b.low_bypass && a.mid_bypass == b.mid_bypass
    &&& a.high_bypass == b.high_bypass
    &&& a.scale == b.scale && a.silence == b.silence
}

/// The crossover `pre` plays a frame: both inputs are split into their bands, the
/// outputs carry them, and no setting changes.
pub open spec fn plays_frame<S, K: Fn(Biquad<S>, S) -> S, M: Fn(S, S) -> S>(
    pre: Crossover<S, K, M>,
    l: S,
    r: S,
    post: Crossover<S, K, M>,
    out: Seq<S>,
) -> bool {
    &&& exists|l_low: S, l_mid: S, l_high: S, r_low: S, r_mid: S, r_high: S|
        {
            &&& #[trigger] bands_are(pre.left, l, post.left, l_low, l_mid, l_high)
            &&& #[trigger] bands_are(pre.right, r, post.right, r_low, r_mid, r_high)
            &&& outputs_carry(pre, l, r, l_low, l_mid, l_high, r_low, r_mid, r_high, out)
        }
    &&& settings_agree(pre, post)
}

/// What the crossover plays is played as it should be.
pub proof fn frames_are_played<S, K: Fn(Biquad<S>, S) -> S, M: Fn(S, S) -> S>(
    pre: Crossover<S, K, M>,
    l: S,
    r: S,
    post: Crossover<S, K, M>,
    out: Seq<S>,
)
    requires
        crate::crossover::crossover_plays(pre, l, r, post, out),
    ensures
        plays_frame(pre, l, r, post, out),
{
    let (lb, rb) = lemma_outputs(pre, l, r, post, out);
    assert(bands_are(pre.left, l, post.left, lb.0, lb.1, lb.2));
    assert(bands_are(pre.right, r, post.right, rb.0, rb.1, rb.2));
}

/// A frame is split, and each output carries the share of its band: for every band
/// that is not bypassed, whatever the solo and mute switches are, what is scaled is
/// that band's component of the split of its own channel. Playing changes no
/// setting.
pub proof fn every_output_carries_its_band<
    S: Copy + Send,
    K: Fn(Biquad<S>, S) -> S + Copy + Send,
    M: Fn(S, S) -> S + Copy,
>(c: &mut Crossover<S, K, M>, l: S, r: S, out: [S; 6])
    requires
        call_ensures(Crossover::<S, K, M>::process, (c, l, r), out),
    ensures
        plays_frame(*old(c), l, r, *final(c), out@),
{
    frames_are_played(*old(c), l, r, *final(c), out@);
}

/// A section at rest has its coefficients and remembers silence. The identity gives
/// the input the weight one and everything else none, and a filter of two sections
/// has both alike.
pub proof fn sections_start_at_rest<S: Copy>(
    b0: S,
    b1: S,
    b2: S,
    a1: S,
    a2: S,
    silence: S,
    one: S,
    rest: Biquad<S>,
    section: Biquad<S>,
    filter: Lr4<S>,
    twice: Lr4<S>,
)
    requires
        call_ensures(Biquad::<S>::at_rest, (b0, b1, b2, a1, a2, silence), rest),
        call_ensures(Biquad::<S>::identity, (one, silence), section),
        call_ensures(Lr4::<S>::identity, (one, silence), filter),
        call_ensures(Lr4::<S>::twice, (rest,), twice),
    ensures
        rest.b0 == b0 && rest.b1 == b1 && rest.b2 == b2 && rest.a1 == a1 && rest.a2 == a2,
        rest.x1 == silence && rest.x2 == silence && rest.y1 == silence && rest.y2 == silence,
        section.b0 == one && section.b1 == silence && section.b2 == silence,
        section.a1 == silence && section.a2 == silence,
        section.x1 == silence && section.x2 == silence,
        section.y1 == silence && section.y2 == silence,
        filter.a == section && filter.b == section,
        twice.a == rest && twice.b == rest,
{
}

} // verus!
