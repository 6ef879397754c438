//! What holds of the crossover over many frames and changes of its settings,
//! where the functions that compute samples always give the same result for the
//! same arguments.

use crate::config::AudioRuntimeConfig;
use crate::crossover::{
    band_mixed, bands_behind, biquad_steps, crossover_fresh, crossover_plays, crossover_updates,
    cuts_set, effective_gain, fresh_splitter, left_out, lr4_same_history, lr4_steps, lr_splits,
    moving_cuts_keeps_the_history, right_out, Band, Biquad, Crossover, Edge, Lr4, LrBandSplitter,
};
use vstd::prelude::*;

verus! {

/// The function always gives the same result for the same arguments.
pub open spec fn deterministic<A, B, R, F: Fn(A, B) -> R>(f: F) -> bool {
    forall|a: A, b: B, x: R, y: R|
        #[trigger] call_ensures(f, (a, b), x) && #[trigger] call_ensures(f, (a, b), y) ==> x == y
}

// ---------------------------------------------------------------------------
// One sample
// ---------------------------------------------------------------------------
proof fn lemma_lr4_alike<S, K: Fn(Biquad<S>, S) -> S>(
    kernel: K,
    pre: Lr4<S>,
    x: S,
    post1: Lr4<S>,
    y1: S,
    post2: Lr4<S>,
    y2: S,
)
    requires
        deterministic(kernel),
        lr4_steps(kernel, pre, x, post1, y1),
        lr4_steps(kernel, pre, x, post2, y2),
    ensures
        post1 == post2,
        y1 == y2,
{
    let t1 = choose|t: S|
        #[trigger] biquad_steps(kernel, pre.a, x, post1.a, t) && biquad_steps(
            kernel,
            pre.b,
            t,
            post1.b,
            y1,
        );
    let t2 = choose|t: S|
        #[trigger] biquad_steps(kernel, pre.a, x, post2.a, t) && biquad_steps(
            kernel,
            pre.b,
            t,
            post2.b,
            y2,
        );
    assert(call_ensures(kernel, (pre.a, x), t1) && call_ensures(kernel, (pre.a, x), t2));
    assert(call_ensures(kernel, (pre.b, t1), y1) && call_ensures(kernel, (pre.b, t1), y2));
}

proof fn lemma_low_alike<S, K: Fn(Biquad<S>, S) -> S>(
    a: LrBandSplitter<S, K>,
    b: LrBandSplitter<S, K>,
    x: S,
    a1: LrBandSplitter<S, K>,
    b1: LrBandSplitter<S, K>,
    ba: (S, S, S),
    bb: (S, S, S),
)
    requires
        deterministic(a.kernel),
        a.kernel == b.kernel,
        a.lpf_low == b.lpf_low,
        lr_splits(a, x, a1, ba),
        lr_splits(b, x, b1, bb),
    ensures
        a1.lpf_low == b1.lpf_low,
        ba.0 == bb.0,
{
    lemma_lr4_alike(a.kernel, a.lpf_low, x, a1.lpf_low, ba.0, b1.lpf_low, bb.0);
}

proof fn lemma_high_alike<S, K: Fn(Biquad<S>, S) -> S>(
    a: LrBandSplitter<S, K>,
    b: LrBandSplitter<S, K>,
    x: S,
    a1: LrBandSplitter<S, K>,
    b1: LrBandSplitter<S, K>,
    ba: (S, S, S),
    bb: (S, S, S),
)
    requires
        deterministic(a.kernel),
        a.kernel == b.kernel,
        a.hpf_mid == b.hpf_mid,
        lr_splits(a, x, a1, ba),
        lr_splits(b, x, b1, bb),
    ensures
        a1.hpf_mid == b1.hpf_mid,
        ba.2 == bb.2,
{
    lemma_lr4_alike(a.kernel, a.hpf_mid, x, a1.hpf_mid, ba.2, b1.hpf_mid, bb.2);
}

/// A splitter gives the same bands for the same sample, and is left the same.
pub proof fn splitting_is_deterministic<S, K: Fn(Biquad<S>, S) -> S>(
    pre: LrBandSplitter<S, K>,
    x: S,
    post1: LrBandSplitter<S, K>,
    bands1: (S, S, S),
    post2: LrBandSplitter<S, K>,
    bands2: (S, S, S),
)
    requires
        deterministic(pre.kernel),
        lr_splits(pre, x, post1, bands1),
        lr_splits(pre, x, post2, bands2),
    ensures
        post1 == post2,
        bands1 == bands2,
{
    lemma_low_alike(pre, pre, x, post1, post2, bands1, bands2);
    lemma_high_alike(pre, pre, x, post1, post2, bands1, bands2);
    let u1 = choose|u: S|
        #[trigger] lr4_steps(pre.kernel, pre.hpf_low, x, post1.hpf_low, u) && lr4_steps(
            pre.kernel,
            pre.lpf_mid,
            u,
            post1.lpf_mid,
            bands1.1,
        );
    let u2 = choose|u: S|
        #[trigger] lr4_steps(pre.kernel, pre.hpf_low, x, post2.hpf_low, u) && lr4_steps(
            pre.kernel,
            pre.lpf_mid,
            u,
            post2.lpf_mid,
            bands2.1,
        );
    lemma_lr4_alike(pre.kernel, pre.hpf_low, x, post1.hpf_low, u1, post2.hpf_low, u2);
    lemma_lr4_alike(pre.kernel, pre.lpf_mid, u1, post1.lpf_mid, bands1.1, post2.lpf_mid, bands2.1);
}

proof fn lemma_cuts_alike<S, K, D: Fn(S, S) -> bool>(
    differs: D,
    pre: LrBandSplitter<S, K>,
    low: Edge<S>,
    mid: Edge<S>,
    post1: LrBandSplitter<S, K>,
    post2: LrBandSplitter<S, K>,
)
    requires
        deterministic(differs),
        cuts_set(differs, pre, low, mid, post1),
        cuts_set(differs, pre, low, mid, post2),
    ensures
        post1 == post2,
        post1.kernel == pre.kernel,
{
}

// ---------------------------------------------------------------------------
// Many samples of one channel
// ---------------------------------------------------------------------------
/// The samples go through the splitter one after the other; `states` are the
/// splitter before the first sample and after each.
pub open spec fn splits_all<S, K: Fn(Biquad<S>, S) -> S>(
    states: Seq<LrBandSplitter<S, K>>,
    xs: Seq<S>,
    bands: Seq<(S, S, S)>,
) -> bool {
    &&& states.len() == xs.len() + 1
    &&& bands.len() == xs.len()
    &&& forall|i: int|
        0 <= i < xs.len() ==> lr_splits(states[i], #[trigger] xs[i], states[i + 1], bands[i])
}

proof fn lemma_same_run<S, K: Fn(Biquad<S>, S) -> S>(
    sa: Seq<LrBandSplitter<S, K>>,
    sb: Seq<LrBandSplitter<S, K>>,
    xs: Seq<S>,
    ba: Seq<(S, S, S)>,
    bb: Seq<(S, S, S)>,
    n: int,
)
    requires
        splits_all(sa, xs, ba),
        splits_all(sb, xs, bb),
        sa[0] == sb[0],
        deterministic(sa[0].kernel),
        0 <= n <= xs.len(),
    ensures
        sa[n] == sb[n],
        sa[n].kernel == sa[0].kernel,
        sa[n].low_cut_hz == sa[0].low_cut_hz,
        sa[n].mid_cut_hz == sa[0].mid_cut_hz,
        forall|i: int| 0 <= i < n ==> #[trigger] ba[i] == bb[i],
    decreases n,
{
    if n > 0 {
        lemma_same_run(sa, sb, xs, ba, bb, n - 1);
        let x = xs[n - 1];
        splitting_is_deterministic(sa[n - 1], x, sa[n], ba[n - 1], sb[n], bb[n - 1]);
    }
}

proof fn lemma_kernel_kept<S, K: Fn(Biquad<S>, S) -> S>(
    states: Seq<LrBandSplitter<S, K>>,
    xs: Seq<S>,
    bands: Seq<(S, S, S)>,
    n: int,
)
    requires
        splits_all(states, xs, bands),
        0 <= n <= xs.len(),
    ensures
        states[n].kernel == states[0].kernel,
    decreases n,
{
    if n > 0 {
        lemma_kernel_kept(states, xs, bands, n - 1);
        assert(lr_splits(states[n - 1], xs[n - 1], states[n], bands[n - 1]));
    }
}

proof fn lemma_low_run<S, K: Fn(Biquad<S>, S) -> S>(
    sa: Seq<LrBandSplitter<S, K>>,
    sb: Seq<LrBandSplitter<S, K>>,
    xs: Seq<S>,
    ba: Seq<(S, S, S)>,
    bb: Seq<(S, S, S)>,
    n: int,
)
    requires
        splits_all(sa, xs, ba),
        splits_all(sb, xs, bb),
        sa[0].lpf_low == sb[0].lpf_low,
        sa[0].kernel == sb[0].kernel,
        deterministic(sa[0].kernel),
        0 <= n <= xs.len(),
    ensures
        sa[n].lpf_low == sb[n].lpf_low,
        forall|i: int| 0 <= i < n ==> (#[trigger] ba[i]).0 == bb[i].0,
    decreases n,
{
    if n > 0 {
        lemma_low_run(sa, sb, xs, ba, bb, n - 1);
        lemma_kernel_kept(sa, xs, ba, n - 1);
        lemma_kernel_kept(sb, xs, bb, n - 1);
        let x = xs[n - 1];
        lemma_low_alike(sa[n - 1], sb[n - 1], x, sa[n], sb[n], ba[n - 1], bb[n - 1]);
    }
}

proof fn lemma_high_run<S, K: Fn(Biquad<S>, S) -> S>(
    sa: Seq<LrBandSplitter<S, K>>,
    sb: Seq<LrBandSplitter<S, K>>,
    xs: Seq<S>,
    ba: Seq<(S, S, S)>,
    bb: Seq<(S, S, S)>,
    n: int,
)
    requires
        splits_all(sa, xs, ba),
        splits_all(sb, xs, bb),
        sa[0].hpf_mid == sb[0].hpf_mid,
        sa[0].kernel == sb[0].kernel,
        deterministic(sa[0].kernel),
        0 <= n <= xs.len(),
    ensures
        sa[n].hpf_mid == sb[n].hpf_mid,
        forall|i: int| 0 <= i < n ==> (#[trigger] ba[i]).2 == bb[i].2,
    decreases n,
{
    if n > 0 {
        lemma_high_run(sa, sb, xs, ba, bb, n - 1);
        lemma_kernel_kept(sa, xs, ba, n - 1);
        lemma_kernel_kept(sb, xs, bb, n - 1);
        let x = xs[n - 1];
        lemma_high_alike(sa[n - 1], sb[n - 1], x, sa[n], sb[n], ba[n - 1], bb[n - 1]);
    }
}

/// `differs` never takes the one frequency for a new one after the other.
pub open spec fn stays<S, D: Fn(S, S) -> bool>(differs: D, new: S, current: S) -> bool {
    !call_ensures(differs, (new, current), true)
}

/// Two splitters that were the same take the same samples. Then the cuts of one of
/// them are set, and both take the same samples again. If the low cut stays, the
/// low bands still agree from there on; if the mid cut stays, the high bands do;
/// if both stay, all bands do. The filters keep their history in any case.
pub proof fn a_cut_that_stays_keeps_its_band<
    S,
    K: Fn(Biquad<S>, S) -> S,
    D: Fn(S, S) -> bool,
>(
    differs: D,
    before_a: Seq<LrBandSplitter<S, K>>,
    before_b: Seq<LrBandSplitter<S, K>>,
    xs: Seq<S>,
    early_a: Seq<(S, S, S)>,
    early_b: Seq<(S, S, S)>,
    low: Edge<S>,
    mid: Edge<S>,
    after_a: Seq<LrBandSplitter<S, K>>,
    after_b: Seq<LrBandSplitter<S, K>>,
    ys: Seq<S>,
    late_a: Seq<(S, S, S)>,
    late_b: Seq<(S, S, S)>,
)
    requires
        before_a[0] == before_b[0],
        deterministic(before_a[0].kernel),
        splits_all(before_a, xs, early_a),
        splits_all(before_b, xs, early_b),
        cuts_set(differs, before_a.last(), low, mid, after_a[0]),
        after_b[0] == before_b.last(),
        splits_all(after_a, ys, late_a),
        splits_all(after_b, ys, late_b),
    ensures
        early_a == early_b,
        stays(differs, low.cut, before_a[0].low_cut_hz) ==> forall|i: int|
            0 <= i < ys.len() ==> (#[trigger] late_a[i]).0 == late_b[i].0,
        stays(differs, mid.cut, before_a[0].mid_cut_hz) ==> forall|i: int|
            0 <= i < ys.len() ==> (#[trigger] late_a[i]).2 == late_b[i].2,
        stays(differs, low.cut, before_a[0].low_cut_hz) && stays(
            differs,
            mid.cut,
            before_a[0].mid_cut_hz,
        ) ==> late_a == late_b,
        lr4_same_history(before_a.last().lpf_low, after_a[0].lpf_low),
        lr4_same_history(before_a.last().hpf_low, after_a[0].hpf_low),
        lr4_same_history(before_a.last().lpf_mid, after_a[0].lpf_mid),
        lr4_same_history(before_a.last().hpf_mid, after_a[0].hpf_mid),
{
    let n = xs.len() as int;
    let m = ys.len() as int;
    lemma_same_run(before_a, before_b, xs, early_a, early_b, n);
    assert(early_a == early_b);
    moving_cuts_keeps_the_history(differs, before_a.last(), low, mid, after_a[0]);
    if stays(differs, low.cut, before_a[0].low_cut_hz) {
        lemma_low_run(after_a, after_b, ys, late_a, late_b, m);
    }
    if stays(differs, mid.cut, before_a[0].mid_cut_hz) {
        lemma_high_run(after_a, after_b, ys, late_a, late_b, m);
    }
    if stays(differs, low.cut, before_a[0].low_cut_hz) && stays(
        differs,
        mid.cut,
        before_a[0].mid_cut_hz,
    ) {
        assert(after_a[0] == after_b[0]);
        lemma_same_run(after_a, after_b, ys, late_a, late_b, m);
        assert(late_a == late_b);
    }
}

// ---------------------------------------------------------------------------
// Many frames and changes of settings
// ---------------------------------------------------------------------------
/// What is done with a crossover.
pub enum Act<S> {
    /// A stereo frame is played.
    Frame(S, S),
    /// The settings of a configuration are taken over, with these cuts.
    Update(AudioRuntimeConfig<S>, Edge<S>, Edge<S>),
}

/// The act may turn `pre` into `post` and give the outputs `out`; taking over
/// settings gives none.
pub open spec fn act_done<
    S,
    K: Fn(Biquad<S>, S) -> S,
    M: Fn(S, S) -> S,
    D: Fn(S, S) -> bool,
>(
    differs: D,
    pre: Crossover<S, K, M>,
    act: Act<S>,
    post: Crossover<S, K, M>,
    out: Seq<S>,
) -> bool {
    match act {
        Act::Frame(l, r) => crossover_plays(pre, l, r, post, out),
        Act::Update(cfg, low, mid) => crossover_updates(differs, pre, cfg, low, mid, post) && out
            == Seq::<S>::empty(),
    }
}

/// The acts are done one after the other; `states` are the crossover before the
/// first act and after each.
pub open spec fn all_done<
    S,
    K: Fn(Biquad<S>, S) -> S,
    M: Fn(S, S) -> S,
    D: Fn(S, S) -> bool,
>(
    differs: D,
    states: Seq<Crossover<S, K, M>>,
    acts: Seq<Act<S>>,
    outs: Seq<Seq<S>>,
) -> bool {
    &&& states.len() == acts.len() + 1
    &&& outs.len() == acts.len()
    &&& forall|i: int|
        0 <= i < acts.len() ==> act_done(
            differs,
            states[i],
            #[trigger] acts[i],
            states[i + 1],
            outs[i],
        )
}

/// The functions of the crossover, and `differs`, are deterministic.
pub open spec fn all_deterministic<
    S,
    K: Fn(Biquad<S>, S) -> S,
    M: Fn(S, S) -> S,
    D: Fn(S, S) -> bool,
>(differs: D, c: Crossover<S, K, M>) -> bool {
    &&& deterministic(c.left.kernel)
    &&& deterministic(c.right.kernel)
    &&& deterministic(c.scale)
    &&& deterministic(differs)
}

/// The two crossovers have the same gains, switches and functions; their
/// splitters may differ.
pub open spec fn same_settings<S, K, M>(a: Crossover<S, K, M>, b: Crossover<S, K, M>) -> bool {
    b == (Crossover { left: b.left, right: b.right, ..a })
}

/// One of the two channels.
pub enum Side {
    Left,
    Right,
}

/// The splitter of a channel.
pub open spec fn splitter_of<S, K, M>(
    c: Crossover<S, K, M>,
    side: Side,
) -> LrBandSplitter<S, K> {
    match side {
        Side::Left => c.left,
        Side::Right => c.right,
    }
}

/// The output that carries a band of a channel.
pub open spec fn out_of(band: Band, side: Side) -> int {
    match side {
        Side::Left => left_out(band),
        Side::Right => right_out(band),
    }
}

/// The input of a channel in a frame.
pub open spec fn input_of<S>(l: S, r: S, side: Side) -> S {
    match side {
        Side::Left => l,
        Side::Right => r,
    }
}

/// The outputs of one channel in the one frame are those of one channel in the
/// other.
pub open spec fn same_outputs<S>(a: Seq<S>, at: Side, b: Seq<S>, bt: Side) -> bool {
    forall|band: Band| #[trigger] a[out_of(band, at)] == b[out_of(band, bt)]
}

proof fn lemma_frame_alike<S, K: Fn(Biquad<S>, S) -> S, M: Fn(S, S) -> S>(
    a: Crossover<S, K, M>,
    la: S,
    ra: S,
    a1: Crossover<S, K, M>,
    oa: Seq<S>,
    at: Side,
    b: Crossover<S, K, M>,
    lb: S,
    rb: S,
    b1: Crossover<S, K, M>,
    ob: Seq<S>,
    bt: Side,
)
    requires
        same_settings(a, b),
        splitter_of(a, at) == splitter_of(b, bt),
        deterministic(splitter_of(a, at).kernel),
        deterministic(a.scale),
        input_of(la, ra, at) == input_of(lb, rb, bt),
        crossover_plays(a, la, ra, a1, oa),
        crossover_plays(b, lb, rb, b1, ob),
    ensures
        same_settings(a1, b1),
        splitter_of(a1, at) == splitter_of(b1, bt),
        splitter_of(a1, at).kernel == splitter_of(a, at).kernel,
        a1.scale == a.scale,
        same_outputs(oa, at, ob, bt),
{
    let (la_bands, ra_bands) = bands_behind(a, la, ra, a1, oa);
    let (lb_bands, rb_bands) = bands_behind(b, lb, rb, b1, ob);
    let x = input_of(la, ra, at);
    let pa = if at is Left {
        la_bands
    } else {
        ra_bands
    };
    let pb = if bt is Left {
        lb_bands
    } else {
        rb_bands
    };
    splitting_is_deterministic(
        splitter_of(a, at),
        x,
        splitter_of(a1, at),
        pa,
        splitter_of(b1, bt),
        pb,
    );
    assert forall|band: Band| #[trigger] oa[out_of(band, at)] == ob[out_of(band, bt)] by {
        assert(band_mixed(a, band, la, ra, la_bands, ra_bands, oa));
        assert(band_mixed(b, band, lb, rb, lb_bands, rb_bands, ob));
        let ga = choose|g: S|
            #[trigger] effective_gain(a, band, g) && call_ensures(
                a.scale,
                (a.source(band, la, la_bands), g),
                oa[left_out(band)],
            ) && call_ensures(a.scale, (a.source(band, ra, ra_bands), g), oa[right_out(band)]);
        let gb = choose|g: S|
            #[trigger] effective_gain(b, band, g) && call_ensures(
                b.scale,
                (b.source(band, lb, lb_bands), g),
                ob[left_out(band)],
            ) && call_ensures(b.scale, (b.source(band, rb, rb_bands), g), ob[right_out(band)]);
        lemma_same_active(a, b, band);
        assert(ga == gb);
        let src = a.source(band, x, pa);
        assert(call_ensures(a.scale, (src, ga), oa[out_of(band, at)]));
        assert(call_ensures(a.scale, (src, ga), ob[out_of(band, bt)]));
    }
}

proof fn lemma_same_active<S, K, M>(a: Crossover<S, K, M>, b: Crossover<S, K, M>, band: Band)
    requires
        same_settings(a, b),
    ensures
        a.active(band) == b.active(band),
        a.gain(band) == b.gain(band),
        forall|x: S, p: (S, S, S)|
            #[trigger] a.source(band, x, p) == b.source(band, x, p),
{
    assert forall|o: Band| a.soloed(o) == b.soloed(o) by {}
    if forall|o: Band| !a.soloed(o) {
        assert forall|o: Band| !b.soloed(o) by {
            assert(!a.soloed(o));
        }
    }
    if forall|o: Band| !b.soloed(o) {
        assert forall|o: Band| !a.soloed(o) by {
            assert(!b.soloed(o));
        }
    }
}

/// The two acts are of the same kind, take over the same settings and cuts, and
/// the one channel of the one gets what one channel of the other gets.
pub open spec fn acts_alike<S>(a: Act<S>, at: Side, b: Act<S>, bt: Side) -> bool {
    match (a, b) {
        (Act::Frame(la, ra), Act::Frame(lb, rb)) => input_of(la, ra, at) == input_of(lb, rb, bt),
        (Act::Update(..), Act::Update(..)) => a == b,
        _ => false,
    }
}

proof fn lemma_sides_alike<
    S,
    K: Fn(Biquad<S>, S) -> S,
    M: Fn(S, S) -> S,
    D: Fn(S, S) -> bool,
>(
    differs: D,
    sa: Seq<Crossover<S, K, M>>,
    acts_a: Seq<Act<S>>,
    outs_a: Seq<Seq<S>>,
    at: Side,
    sb: Seq<Crossover<S, K, M>>,
    acts_b: Seq<Act<S>>,
    outs_b: Seq<Seq<S>>,
    bt: Side,
    n: int,
)
    requires
        all_done(differs, sa, acts_a, outs_a),
        all_done(differs, sb, acts_b, outs_b),
        acts_a.len() == acts_b.len(),
        forall|i: int|
            0 <= i < acts_a.len() ==> acts_alike(#[trigger] acts_a[i], at, acts_b[i], bt),
        same_settings(sa[0], sb[0]),
        splitter_of(sa[0], at) == splitter_of(sb[0], bt),
        deterministic(splitter_of(sa[0], at).kernel),
        deterministic(sa[0].scale),
        deterministic(differs),
        0 <= n <= acts_a.len(),
    ensures
        same_settings(sa[n], sb[n]),
        splitter_of(sa[n], at) == splitter_of(sb[n], bt),
        splitter_of(sa[n], at).kernel == splitter_of(sa[0], at).kernel,
        sa[n].scale == sa[0].scale,
        forall|i: int|
            0 <= i < n && acts_a[i] is Frame ==> same_outputs(
                #[trigger] outs_a[i],
                at,
                outs_b[i],
                bt,
            ),
    decreases n,
{
    if n > 0 {
        let k = n - 1;
        lemma_sides_alike(differs, sa, acts_a, outs_a, at, sb, acts_b, outs_b, bt, k);
        assert(acts_alike(acts_a[k], at, acts_b[k], bt));
        assert(act_done(differs, sa[k], acts_a[k], sa[n], outs_a[k]));
        assert(act_done(differs, sb[k], acts_b[k], sb[n], outs_b[k]));
        match (acts_a[k], acts_b[k]) {
            (Act::Frame(la, ra), Act::Frame(lb, rb)) => {
                lemma_frame_alike(
                    sa[k],
                    la,
                    ra,
                    sa[n],
                    outs_a[k],
                    at,
                    sb[k],
                    lb,
                    rb,
                    sb[n],
                    outs_b[k],
                    bt,
                );
            },
            (Act::Update(cfg, low, mid), _) => {
                lemma_cuts_alike(
                    differs,
                    splitter_of(sa[k], at),
                    low,
                    mid,
                    splitter_of(sa[n], at),
                    splitter_of(sb[n], bt),
                );
            },
            _ => {},
        }
    }
}

/// The outputs of a channel depend on the inputs of that channel only: whatever
/// the other channel gets, they are the same.
pub proof fn channels_do_not_mix<
    S,
    K: Fn(Biquad<S>, S) -> S,
    M: Fn(S, S) -> S,
    D: Fn(S, S) -> bool,
>(
    differs: D,
    sa: Seq<Crossover<S, K, M>>,
    acts_a: Seq<Act<S>>,
    outs_a: Seq<Seq<S>>,
    sb: Seq<Crossover<S, K, M>>,
    acts_b: Seq<Act<S>>,
    outs_b: Seq<Seq<S>>,
    side: Side,
    i: int,
)
    requires
        all_deterministic(differs, sa[0]),
        sa[0] == sb[0],
        all_done(differs, sa, acts_a, outs_a),
        all_done(differs, sb, acts_b, outs_b),
        acts_a.len() == acts_b.len(),
        forall|k: int|
            0 <= k < acts_a.len() ==> acts_alike(#[trigger] acts_a[k], side, acts_b[k], side),
        0 <= i < acts_a.len(),
        acts_a[i] is Frame,
    ensures
        same_outputs(outs_a[i], side, outs_b[i], side),
{
    let n = acts_a.len() as int;
    lemma_sides_alike(differs, sa, acts_a, outs_a, side, sb, acts_b, outs_b, side, n);
}

/// A crossover whose channels are the same, and that has got the same sample on
/// both in every frame, gives the same outputs on both.
pub proof fn equal_inputs_give_equal_outputs<
    S,
    K: Fn(Biquad<S>, S) -> S,
    M: Fn(S, S) -> S,
    D: Fn(S, S) -> bool,
>(
    differs: D,
    states: Seq<Crossover<S, K, M>>,
    acts: Seq<Act<S>>,
    outs: Seq<Seq<S>>,
    i: int,
)
    requires
        all_deterministic(differs, states[0]),
        states[0].left == states[0].right,
        all_done(differs, states, acts, outs),
        forall|k: int|
            0 <= k < acts.len() ==> ((#[trigger] acts[k]) matches Act::Frame(l, r) ==> l == r),
        0 <= i < acts.len(),
        acts[i] is Frame,
    ensures
        same_outputs(outs[i], Side::Left, outs[i], Side::Right),
{
    let n = acts.len() as int;
    assert forall|k: int| 0 <= k < acts.len() implies acts_alike(
        #[trigger] acts[k],
        Side::Left,
        acts[k],
        Side::Right,
    ) by {}
    lemma_sides_alike(
        differs,
        states,
        acts,
        outs,
        Side::Left,
        states,
        acts,
        outs,
        Side::Right,
        n,
    );
}

/// Two crossovers that are the same stay so while the same is done with both, and
/// give the same outputs.
pub proof fn the_same_acts_give_the_same_outputs<
    S,
    K: Fn(Biquad<S>, S) -> S,
    M: Fn(S, S) -> S,
    D: Fn(S, S) -> bool,
>(
    differs: D,
    sa: Seq<Crossover<S, K, M>>,
    outs_a: Seq<Seq<S>>,
    sb: Seq<Crossover<S, K, M>>,
    outs_b: Seq<Seq<S>>,
    acts: Seq<Act<S>>,
)
    requires
        all_deterministic(differs, sa[0]),
        sa[0] == sb[0],
        all_done(differs, sa, acts, outs_a),
        all_done(differs, sb, acts, outs_b),
    ensures
        sa == sb,
        outs_a == outs_b,
{
    let n = acts.len() as int;
    assert forall|i: int| 0 <= i <= n implies sa[i] == sb[i] by {
        lemma_sides_alike(differs, sa, acts, outs_a, Side::Left, sb, acts, outs_b, Side::Left, i);
        lemma_sides_alike(
            differs,
            sa,
            acts,
            outs_a,
            Side::Right,
            sb,
            acts,
            outs_b,
            Side::Right,
            i,
        );
    }
    lemma_sides_alike(differs, sa, acts, outs_a, Side::Left, sb, acts, outs_b, Side::Left, n);
    lemma_sides_alike(differs, sa, acts, outs_a, Side::Right, sb, acts, outs_b, Side::Right, n);
    assert forall|i: int| 0 <= i < n implies #[trigger] outs_a[i] == outs_b[i] by {
        assert(act_done(differs, sa[i], acts[i], sa[i + 1], outs_a[i]));
        assert(act_done(differs, sb[i], acts[i], sb[i + 1], outs_b[i]));
        if acts[i] is Frame {
            lemma_sides_make_a_frame(outs_a[i], outs_b[i]);
        }
    }
    assert(sa == sb);
    assert(outs_a == outs_b);
}

proof fn lemma_sides_make_a_frame<S>(a: Seq<S>, b: Seq<S>)
    requires
        a.len() == 6,
        b.len() == 6,
        same_outputs(a, Side::Left, b, Side::Left),
        same_outputs(a, Side::Right, b, Side::Right),
    ensures
        a == b,
{
    assert(a[out_of(Band::Low, Side::Left)] == b[out_of(Band::Low, Side::Left)]);
    assert(a[out_of(Band::Mid, Side::Left)] == b[out_of(Band::Mid, Side::Left)]);
    assert(a[out_of(Band::High, Side::Left)] == b[out_of(Band::High, Side::Left)]);
    assert(a[out_of(Band::Low, Side::Right)] == b[out_of(Band::Low, Side::Right)]);
    assert(a[out_of(Band::Mid, Side::Right)] == b[out_of(Band::Mid, Side::Right)]);
    assert(a[out_of(Band::High, Side::Right)] == b[out_of(Band::High, Side::Right)]);
    assert(a == b);
}

/// The two acts play the same frame, or set the same cuts; the gains and switches
/// that they take over may differ.
pub open spec fn same_but_for_settings<S>(a: Act<S>, b: Act<S>) -> bool {
    match (a, b) {
        (Act::Frame(..), Act::Frame(..)) => a == b,
        (Act::Update(_, low_a, mid_a), Act::Update(_, low_b, mid_b)) => low_a == low_b && mid_a
            == mid_b,
        _ => false,
    }
}

proof fn lemma_filters_alike<
    S,
    K: Fn(Biquad<S>, S) -> S,
    M: Fn(S, S) -> S,
    D: Fn(S, S) -> bool,
>(
    differs: D,
    sa: Seq<Crossover<S, K, M>>,
    acts_a: Seq<Act<S>>,
    outs_a: Seq<Seq<S>>,
    sb: Seq<Crossover<S, K, M>>,
    acts_b: Seq<Act<S>>,
    outs_b: Seq<Seq<S>>,
    n: int,
)
    requires
        all_deterministic(differs, sa[0]),
        all_done(differs, sa, acts_a, outs_a),
        all_done(differs, sb, acts_b, outs_b),
        acts_a.len() == acts_b.len(),
        forall|i: int|
            0 <= i < acts_a.len() ==> same_but_for_settings(#[trigger] acts_a[i], acts_b[i]),
        sa[0].left == sb[0].left,
        sa[0].right == sb[0].right,
        sa[0].scale == sb[0].scale,
        sa[0].silence == sb[0].silence,
        0 <= n <= acts_a.len(),
    ensures
        sa[n].left == sb[n].left,
        sa[n].right == sb[n].right,
        sa[n].scale == sb[n].scale,
        sa[n].silence == sb[n].silence,
        all_deterministic(differs, sa[n]),
    decreases n,
{
    if n > 0 {
        let k = n - 1;
        lemma_filters_alike(differs, sa, acts_a, outs_a, sb, acts_b, outs_b, k);
        assert(same_but_for_settings(acts_a[k], acts_b[k]));
        assert(act_done(differs, sa[k], acts_a[k], sa[n], outs_a[k]));
        assert(act_done(differs, sb[k], acts_b[k], sb[n], outs_b[k]));
        match acts_a[k] {
            Act::Frame(l, r) => {
                let (la, ra) = bands_behind(sa[k], l, r, sa[n], outs_a[k]);
                let (lb, rb) = bands_behind(sb[k], l, r, sb[n], outs_b[k]);
                splitting_is_deterministic(sa[k].left, l, sa[n].left, la, sb[n].left, lb);
                splitting_is_deterministic(sa[k].right, r, sa[n].right, ra, sb[n].right, rb);
            },
            Act::Update(_, low, mid) => {
                lemma_cuts_alike(differs, sa[k].left, low, mid, sa[n].left, sb[n].left);
                lemma_cuts_alike(differs, sa[k].right, low, mid, sa[n].right, sb[n].right);
            },
        }
    }
}

/// Gains and switches leave no trace. Two crossovers start with the same filters,
/// whatever their gains and switches are, and get the same frames and cuts,
/// whatever gains and switches they get. Once both take over the same
/// configuration they are the same, and give the same outputs from there on: a
/// band that is muted, bypassed or not soloed is filtered all the same.
pub proof fn earlier_settings_leave_no_trace<
    S,
    K: Fn(Biquad<S>, S) -> S,
    M: Fn(S, S) -> S,
    D: Fn(S, S) -> bool,
>(
    differs: D,
    sa: Seq<Crossover<S, K, M>>,
    acts_a: Seq<Act<S>>,
    outs_a: Seq<Seq<S>>,
    sb: Seq<Crossover<S, K, M>>,
    acts_b: Seq<Act<S>>,
    outs_b: Seq<Seq<S>>,
    cfg: AudioRuntimeConfig<S>,
    low: Edge<S>,
    mid: Edge<S>,
    later_a: Seq<Crossover<S, K, M>>,
    later_outs_a: Seq<Seq<S>>,
    later_b: Seq<Crossover<S, K, M>>,
    later_outs_b: Seq<Seq<S>>,
    later: Seq<Act<S>>,
)
    requires
        all_deterministic(differs, sa[0]),
        sa[0].left == sb[0].left,
        sa[0].right == sb[0].right,
        sa[0].scale == sb[0].scale,
        sa[0].silence == sb[0].silence,
        all_done(differs, sa, acts_a, outs_a),
        all_done(differs, sb, acts_b, outs_b),
        acts_a.len() == acts_b.len(),
        forall|i: int|
            0 <= i < acts_a.len() ==> same_but_for_settings(#[trigger] acts_a[i], acts_b[i]),
        crossover_updates(differs, sa.last(), cfg, low, mid, later_a[0]),
        crossover_updates(differs, sb.last(), cfg, low, mid, later_b[0]),
        all_done(differs, later_a, later, later_outs_a),
        all_done(differs, later_b, later, later_outs_b),
    ensures
        later_a == later_b,
        later_outs_a == later_outs_b,
{
    let n = acts_a.len() as int;
    lemma_filters_alike(differs, sa, acts_a, outs_a, sb, acts_b, outs_b, n);
    lemma_cuts_alike(differs, sa[n].left, low, mid, later_a[0].left, later_b[0].left);
    lemma_cuts_alike(differs, sa[n].right, low, mid, later_a[0].right, later_b[0].right);
    the_same_acts_give_the_same_outputs(
        differs,
        later_a,
        later_outs_a,
        later_b,
        later_outs_b,
        later,
    );
}

/// `differs` tells exactly whether the two frequencies are different.
pub open spec fn tells<S, D: Fn(S, S) -> bool>(differs: D, new: S, current: S) -> bool {
    forall|moved: bool|
        #[trigger] call_ensures(differs, (new, current), moved) ==> moved == (new != current)
}

/// Both sections of the cut have a silent history.
pub open spec fn at_rest<S>(edge: Edge<S>, silence: S) -> bool {
    &&& section_at_rest(edge.lpf, silence)
    &&& section_at_rest(edge.hpf, silence)
}

/// The section has a silent history.
pub open spec fn section_at_rest<S>(section: Biquad<S>, silence: S) -> bool {
    &&& section.x1 == silence
    &&& section.x2 == silence
    &&& section.y1 == silence
    &&& section.y2 == silence
}

/// A cut at the same frequency has the same sections.
pub open spec fn designed_alike<S>(a: Edge<S>, b: Edge<S>) -> bool {
    a.cut == b.cut ==> a == b
}

proof fn lemma_fresh_moves<S, K, D: Fn(S, S) -> bool>(
    differs: D,
    low1: Edge<S>,
    mid1: Edge<S>,
    low2: Edge<S>,
    mid2: Edge<S>,
    sample_rate: S,
    kernel: K,
    silence: S,
    post: LrBandSplitter<S, K>,
)
    requires
        at_rest(low1, silence) && at_rest(low2, silence),
        at_rest(mid1, silence) && at_rest(mid2, silence),
        designed_alike(low1, low2) && designed_alike(mid1, mid2),
        tells(differs, low2.cut, low1.cut),
        tells(differs, mid2.cut, mid1.cut),
        cuts_set(
            differs,
            fresh_splitter(low1, mid1, sample_rate, kernel),
            low2,
            mid2,
            post,
        ),
    ensures
        post == fresh_splitter(low2, mid2, sample_rate, kernel),
{
    let pre = fresh_splitter(low1, mid1, sample_rate, kernel);
    assert(low1.lpf.with_coeffs_of(low2.lpf) == low2.lpf);
    assert(low1.hpf.with_coeffs_of(low2.hpf) == low2.hpf);
    assert(mid1.lpf.with_coeffs_of(mid2.lpf) == mid2.lpf);
    assert(mid1.hpf.with_coeffs_of(mid2.hpf) == mid2.hpf);
}

/// A configuration that is taken over before the first frame leaves nothing of the
/// one before: the crossover is as if it had been made with the new one. Taking it
/// over again changes nothing.
pub proof fn an_update_before_the_first_frame_starts_over<S, K, M, D: Fn(S, S) -> bool>(
    differs: D,
    pre: Crossover<S, K, M>,
    cfg1: AudioRuntimeConfig<S>,
    low1: Edge<S>,
    mid1: Edge<S>,
    sample_rate: S,
    kernel: K,
    cfg2: AudioRuntimeConfig<S>,
    low2: Edge<S>,
    mid2: Edge<S>,
    post: Crossover<S, K, M>,
    fresh: Crossover<S, K, M>,
    again: Crossover<S, K, M>,
)
    requires
        at_rest(low1, pre.silence) && at_rest(low2, pre.silence),
        at_rest(mid1, pre.silence) && at_rest(mid2, pre.silence),
        designed_alike(low1, low2) && designed_alike(mid1, mid2),
        tells(differs, low2.cut, low1.cut),
        tells(differs, mid2.cut, mid1.cut),
        tells(differs, low2.cut, low2.cut),
        tells(differs, mid2.cut, mid2.cut),
        crossover_fresh(pre, cfg1, low1, mid1, sample_rate, kernel),
        crossover_updates(differs, pre, cfg2, low2, mid2, post),
        crossover_fresh(fresh, cfg2, low2, mid2, sample_rate, kernel),
        fresh.scale == pre.scale,
        fresh.silence == pre.silence,
        crossover_updates(differs, post, cfg2, low2, mid2, again),
    ensures
        post == fresh,
        again == post,
{
    let silence = pre.silence;
    lemma_fresh_moves(
        differs,
        low1,
        mid1,
        low2,
        mid2,
        sample_rate,
        kernel,
        silence,
        post.left,
    );
    lemma_fresh_moves(
        differs,
        low1,
        mid1,
        low2,
        mid2,
        sample_rate,
        kernel,
        silence,
        post.right,
    );
    lemma_fresh_moves(
        differs,
        low2,
        mid2,
        low2,
        mid2,
        sample_rate,
        kernel,
        silence,
        again.left,
    );
    lemma_fresh_moves(
        differs,
        low2,
        mid2,
        low2,
        mid2,
        sample_rate,
        kernel,
        silence,
        again.right,
    );
}

} // verus!
