//! Laws of the control panel.

use crate::config::{is_number, AudioRuntimeConfig};
use crate::laws::audio::number;
use crate::laws::text::{find_is_first, never_reads, reads};
use crate::tui::{
    apply_nudge, bound_is, command, config_url, default_freq, exact_on_whole, freq_ref,
    gain_kept, gain_ref, nudge, nudge_fits, nudge_of, nudged, reset_value, status_url, turn_bypass, turn_mute, turn_solo,
    update_error, update_url, value_of, with_value, ws_url, Arithmetic, Bound, Command, Key, Nudge,
    Outcome, Panel, Selected,
};
use vstd::prelude::*;

verus! {

// ---------------------------------------------------------------------------
// Values and switches
// ---------------------------------------------------------------------------
/// The selected value of a configuration.
pub open spec fn chosen<R>(cfg: AudioRuntimeConfig<R>, sel: Selected) -> R {
    match sel {
        Selected::Master => cfg.volume,
        Selected::Low => cfg.low_gain,
        Selected::Mid => cfg.mid_gain,
        Selected::High => cfg.high_gain,
        Selected::LowCut => cfg.low_cut_hz,
        Selected::MidCut => cfg.mid_cut_hz,
    }
}

/// All values but the selected one are the same.
pub open spec fn others_agree<R>(
    a: AudioRuntimeConfig<R>,
    b: AudioRuntimeConfig<R>,
    sel: Selected,
) -> bool {
    forall|other: Selected| other != sel ==> #[trigger] chosen(a, other) == chosen(b, other)
}

/// All values are the same.
pub open spec fn values_agree<R>(a: AudioRuntimeConfig<R>, b: AudioRuntimeConfig<R>) -> bool {
    &&& a.volume == b.volume
    &&& a.low_gain == b.low_gain && a.mid_gain == b.mid_gain && a.high_gain == b.high_gain
    &&& a.low_cut_hz == b.low_cut_hz && a.mid_cut_hz == b.mid_cut_hz
}

/// The mute switches are the same.
pub open spec fn mutes_agree<R>(a: AudioRuntimeConfig<R>, b: AudioRuntimeConfig<R>) -> bool {
    a.low_mute == b.low_mute && a.mid_mute == b.mid_mute && a.high_mute == b.high_mute
}

/// The solo switches are the same.
pub open spec fn solos_agree<R>(a: AudioRuntimeConfig<R>, b: AudioRuntimeConfig<R>) -> bool {
    a.low_solo == b.low_solo && a.mid_solo == b.mid_solo && a.high_solo == b.high_solo
}

/// The bypass switches are the same.
pub open spec fn bypasses_agree<R>(a: AudioRuntimeConfig<R>, b: AudioRuntimeConfig<R>) -> bool {
    a.low_bypass == b.low_bypass && a.mid_bypass == b.mid_bypass && a.high_bypass == b.high_bypass
}

/// A cut is selected.
pub open spec fn on_a_cut(sel: Selected) -> bool {
    sel == Selected::LowCut || sel == Selected::MidCut
}

/// A band is selected.
pub open spec fn on_a_band(sel: Selected) -> bool {
    sel == Selected::Low || sel == Selected::Mid || sel == Selected::High
}

/// Mute and bypass turn the one switch of the selected band over and touch nothing
/// else; where no band is selected they touch nothing.
pub proof fn switches_turn_over_alone<R>(
    m: &mut AudioRuntimeConfig<R>,
    b: &mut AudioRuntimeConfig<R>,
    sel: Selected,
    muted: bool,
    bypassed: bool,
)
    requires
        call_ensures(turn_mute::<R>, (m, sel), muted),
        call_ensures(turn_bypass::<R>, (b, sel), bypassed),
    ensures
        muted == on_a_band(sel) && bypassed == on_a_band(sel),
        final(m).low_mute == (old(m).low_mute != (sel == Selected::Low)),
        final(m).mid_mute == (old(m).mid_mute != (sel == Selected::Mid)),
        final(m).high_mute == (old(m).high_mute != (sel == Selected::High)),
        values_agree(*final(m), *old(m)),
        solos_agree(*final(m), *old(m)),
        bypasses_agree(*final(m), *old(m)),
        final(b).low_bypass == (old(b).low_bypass != (sel == Selected::Low)),
        final(b).mid_bypass == (old(b).mid_bypass != (sel == Selected::Mid)),
        final(b).high_bypass == (old(b).high_bypass != (sel == Selected::High)),
        values_agree(*final(b), *old(b)),
        mutes_agree(*final(b), *old(b)),
        solos_agree(*final(b), *old(b)),
{
}

/// Solo turns the switch of the selected band over and the two others off, and
/// touches nothing else; where no band is selected it touches nothing.
pub proof fn solo_is_for_one_band<R>(c: &mut AudioRuntimeConfig<R>, sel: Selected, r: bool)
    requires
        call_ensures(turn_solo::<R>, (c, sel), r),
    ensures
        r == on_a_band(sel),
        sel == Selected::Low ==> final(c).low_solo != old(c).low_solo && !final(c).mid_solo
            && !final(c).high_solo,
        sel == Selected::Mid ==> final(c).mid_solo != old(c).mid_solo && !final(c).low_solo
            && !final(c).high_solo,
        sel == Selected::High ==> final(c).high_solo != old(c).high_solo && !final(c).low_solo
            && !final(c).mid_solo,
        !on_a_band(sel) ==> solos_agree(*final(c), *old(c)),
        values_agree(*final(c), *old(c)),
        mutes_agree(*final(c), *old(c)),
        bypasses_agree(*final(c), *old(c)),
{
}

/// A reset gives the selected value its default and touches nothing else: one for a
/// gain, 1000 Hz for the low cut, 10000 Hz for the mid cut.
pub proof fn a_reset_gives_the_default<R: From<u16>>(
    c: &mut AudioRuntimeConfig<R>,
    sel: Selected,
    r: (),
    hz: u16,
)
    requires
        call_ensures(reset_value::<R>, (c, sel), r),
        call_ensures(default_freq, (sel,), hz),
    ensures
        sel == Selected::LowCut ==> number(1000, final(c).low_cut_hz) && hz == 1000,
        sel == Selected::MidCut ==> number(10000, final(c).mid_cut_hz) && hz == 10000,
        !on_a_cut(sel) ==> number(1, chosen(*final(c), sel)),
        others_agree(*final(c), *old(c), sel),
        mutes_agree(*final(c), *old(c)),
        solos_agree(*final(c), *old(c)),
        bypasses_agree(*final(c), *old(c)),
{
    assert forall|other: Selected| other != sel implies #[trigger] chosen(*final(c), other)
        == chosen(*old(c), other) by {
        match other {
            Selected::Master => {},
            Selected::Low => {},
            Selected::Mid => {},
            Selected::High => {},
            Selected::LowCut => {},
            Selected::MidCut => {},
        }
    }
}

// ---------------------------------------------------------------------------
// Steps
// ---------------------------------------------------------------------------
/// The arithmetic is exact on hundredths; `cents` tells how many a value is, if it
/// is a whole number of them.
pub open spec fn exact_on_cents<
    R,
    P: Fn(R, R) -> R,
    N: Fn(R, R) -> R,
    X: Fn(R, R) -> R,
    Y: Fn(R, R) -> R,
    C: Fn(R, R, R) -> R,
    H: Fn(u16) -> R,
>(ops: Arithmetic<P, N, X, Y, C, H>, cents: spec_fn(R) -> Option<int>) -> bool {
    &&& forall|n: u16, r: R|
        #[trigger] call_ensures(ops.hundredths, (n,), r) ==> cents(r) == Some(n as int)
    &&& forall|a: R, b: R, r: R|
        #[trigger] call_ensures(ops.plus, (a, b), r) && cents(a) is Some && cents(b) is Some
            ==> cents(r) == Some(cents(a)->0 + cents(b)->0)
    &&& forall|a: R, b: R, r: R|
        #[trigger] call_ensures(ops.minus, (a, b), r) && cents(a) is Some && cents(b) is Some
            ==> cents(r) == Some(cents(a)->0 - cents(b)->0)
    &&& forall|a: R, lo: R, hi: R, r: R|
        #[trigger] call_ensures(ops.clamp, (a, lo, hi), r) && cents(a) is Some && cents(lo) is Some
            && cents(hi) is Some && cents(lo)->0 <= cents(hi)->0 ==> cents(r) == Some(
            within(cents(a)->0, cents(lo)->0, cents(hi)->0),
        )
}

/// The number in the range that is nearest to `x`.
pub open spec fn within(x: int, lo: int, hi: int) -> int {
    if x < lo {
        lo
    } else if x > hi {
        hi
    } else {
        x
    }
}

/// The lower of two numbers.
pub open spec fn lower_of(x: int, y: int) -> int {
    if x < y {
        x
    } else {
        y
    }
}

/// The higher of two numbers.
pub open spec fn higher_of(x: int, y: int) -> int {
    if x < y {
        y
    } else {
        x
    }
}

/// Nothing but the selected value differs.
pub open spec fn only_differs_at<R>(
    a: AudioRuntimeConfig<R>,
    b: AudioRuntimeConfig<R>,
    sel: Selected,
) -> bool {
    &&& others_agree(a, b, sel)
    &&& mutes_agree(a, b)
    &&& solos_agree(a, b)
    &&& bypasses_agree(a, b)
}

/// The size of a step of a gain, in hundredths.
pub open spec fn gain_step(fine: bool) -> int {
    if fine {
        1
    } else {
        5
    }
}

/// The size of a step of a cut, in Hz.
pub open spec fn cut_step(fine: bool) -> int {
    if fine {
        5
    } else {
        50
    }
}

/// `now`, a step further up or down.
pub open spec fn stepped(now: int, step: int, up: bool) -> int {
    if up {
        now + step
    } else {
        now - step
    }
}

/// The selected gain goes a step up or down, and stops at nothing and at twice.
pub open spec fn gain_moves<R>(
    before: AudioRuntimeConfig<R>,
    after: AudioRuntimeConfig<R>,
    sel: Selected,
    up: bool,
    fine: bool,
    cents: spec_fn(R) -> Option<int>,
) -> bool {
    &&& cents(chosen(after, sel)) == Some(
        within(stepped(cents(chosen(before, sel))->0, gain_step(fine), up), 0, 200),
    )
    &&& only_differs_at(after, before, sel)
}

/// The selected cut goes a step up or down. The low cut stops at 20 Hz, and on the
/// way up 100 Hz below the mid cut, or at 20 Hz where that is lower still; the mid
/// cut stops 100 Hz above the low cut and at 20000 Hz.
pub open spec fn cut_moves<R>(
    before: AudioRuntimeConfig<R>,
    after: AudioRuntimeConfig<R>,
    sel: Selected,
    up: bool,
    fine: bool,
    hz: spec_fn(R) -> Option<int>,
) -> bool {
    let low = hz(before.low_cut_hz)->0;
    let mid = hz(before.mid_cut_hz)->0;
    &&& sel == Selected::LowCut ==> hz(after.low_cut_hz) == Some(
        if up {
            lower_of(low + cut_step(fine), higher_of(mid - 100, 20))
        } else {
            higher_of(low - cut_step(fine), 20)
        },
    )
    &&& sel == Selected::MidCut ==> hz(after.mid_cut_hz) == Some(
        if up {
            lower_of(mid + cut_step(fine), 20000)
        } else {
            higher_of(mid - cut_step(fine), low + 100)
        },
    )
    &&& only_differs_at(after, before, sel)
}

/// Both cuts are whole numbers of Hz, and not too large to be computed with.
pub open spec fn cuts_are_whole<R>(
    cfg: AudioRuntimeConfig<R>,
    hz: spec_fn(R) -> Option<int>,
) -> bool {
    &&& hz(cfg.low_cut_hz) is Some && 0 <= hz(cfg.low_cut_hz)->0 <= 100000
    &&& hz(cfg.mid_cut_hz) is Some && 0 <= hz(cfg.mid_cut_hz)->0 <= 100000
}

proof fn lemma_others<R>(a: AudioRuntimeConfig<R>, b: AudioRuntimeConfig<R>, sel: Selected)
    requires
        b == with_value(a, sel, value_of(b, sel)),
    ensures
        only_differs_at(b, a, sel),
{
    assert forall|other: Selected| other != sel implies #[trigger] chosen(b, other) == chosen(
        a,
        other,
    ) by {
        match other {
            Selected::Master => {},
            Selected::Low => {},
            Selected::Mid => {},
            Selected::High => {},
            Selected::LowCut => {},
            Selected::MidCut => {},
        }
    }
}

proof fn lemma_gain<
    R: From<u16>,
    P: Fn(R, R) -> R,
    N: Fn(R, R) -> R,
    X: Fn(R, R) -> R,
    Y: Fn(R, R) -> R,
    C: Fn(R, R, R) -> R,
    H: Fn(u16) -> R,
>(
    ops: Arithmetic<P, N, X, Y, C, H>,
    cents: spec_fn(R) -> Option<int>,
    before: AudioRuntimeConfig<R>,
    after: AudioRuntimeConfig<R>,
    sel: Selected,
    up: bool,
    fine: bool,
)
    requires
        !on_a_cut(sel),
        exact_on_cents(ops, cents),
        cents(chosen(before, sel)) is Some,
        nudged(ops, before, sel, nudge_of(sel, up, fine), value_of(after, sel)),
        after == with_value(before, sel, value_of(after, sel)),
    ensures
        gain_moves(before, after, sel, up, fine, cents),
{
    lemma_others(before, after, sel);
    let now = value_of(before, sel);
    let v = value_of(after, sel);
    assert(now == chosen(before, sel) && v == chosen(after, sel));
    match nudge_of(sel, up, fine) {
        Nudge::GainUp(k) => {
            let (step, moved) = choose|step: R, moved: R|
                {
                    &&& call_ensures(ops.hundredths, (k,), step)
                    &&& #[trigger] call_ensures(ops.plus, (now, step), moved)
                    &&& gain_kept(ops.clamp, ops.hundredths, moved, v)
                };
            assert(cents(moved) == Some(cents(now)->0 + k));
            assert(gain_kept(ops.clamp, ops.hundredths, moved, v));
        },
        Nudge::GainDown(k) => {
            let (step, moved) = choose|step: R, moved: R|
                {
                    &&& call_ensures(ops.hundredths, (k,), step)
                    &&& #[trigger] call_ensures(ops.minus, (now, step), moved)
                    &&& gain_kept(ops.clamp, ops.hundredths, moved, v)
                };
            assert(cents(moved) == Some(cents(now)->0 - k));
            assert(gain_kept(ops.clamp, ops.hundredths, moved, v));
        },
        _ => {},
    }
}

proof fn lemma_cut<
    R: From<u16>,
    P: Fn(R, R) -> R,
    N: Fn(R, R) -> R,
    X: Fn(R, R) -> R,
    Y: Fn(R, R) -> R,
    C: Fn(R, R, R) -> R,
    H: Fn(u16) -> R,
>(
    ops: Arithmetic<P, N, X, Y, C, H>,
    hz: spec_fn(R) -> Option<int>,
    before: AudioRuntimeConfig<R>,
    after: AudioRuntimeConfig<R>,
    sel: Selected,
    up: bool,
    fine: bool,
)
    requires
        on_a_cut(sel),
        exact_on_whole(ops, hz),
        cuts_are_whole(before, hz),
        nudged(ops, before, sel, nudge_of(sel, up, fine), value_of(after, sel)),
        after == with_value(before, sel, value_of(after, sel)),
    ensures
        cut_moves(before, after, sel, up, fine, hz),
{
    lemma_others(before, after, sel);
    let now = value_of(before, sel);
    let v = value_of(after, sel);
    match nudge_of(sel, up, fine) {
        Nudge::FreqDown(k, bound) => {
            let (step, moved, least) = choose|step: R, moved: R, least: R|
                {
                    &&& is_number(k, step)
                    &&& bound_is(ops, before, bound, least)
                    &&& #[trigger] call_ensures(ops.minus, (now, step), moved)
                    &&& #[trigger] call_ensures(ops.larger, (moved, least), v)
                };
            lemma_bound_hz(ops, hz, before, bound, least);
            assert(hz(moved) == Some(hz(now)->0 - k));
        },
        Nudge::FreqUp(k, bound) => {
            let (step, moved, most) = choose|step: R, moved: R, most: R|
                {
                    &&& is_number(k, step)
                    &&& bound_is(ops, before, bound, most)
                    &&& #[trigger] call_ensures(ops.plus, (now, step), moved)
                    &&& #[trigger] call_ensures(ops.smaller, (moved, most), v)
                };
            lemma_bound_hz(ops, hz, before, bound, most);
            assert(hz(moved) == Some(hz(now)->0 + k));
        },
        _ => {},
    }
}

proof fn lemma_bound_hz<
    R: From<u16>,
    P: Fn(R, R) -> R,
    N: Fn(R, R) -> R,
    X: Fn(R, R) -> R,
    Y: Fn(R, R) -> R,
    C: Fn(R, R, R) -> R,
    H: Fn(u16) -> R,
>(
    ops: Arithmetic<P, N, X, Y, C, H>,
    hz: spec_fn(R) -> Option<int>,
    cfg: AudioRuntimeConfig<R>,
    bound: Bound,
    r: R,
)
    requires
        exact_on_whole(ops, hz),
        cuts_are_whole(cfg, hz),
        bound_is(ops, cfg, bound, r),
    ensures
        bound matches Bound::Hz(k) ==> hz(r) == Some(k as int),
        bound matches Bound::AboveLowCut(k) ==> hz(r) == Some(hz(cfg.low_cut_hz)->0 + k),
        bound matches Bound::BelowMidCut(k) ==> hz(r) == Some(
            higher_of(hz(cfg.mid_cut_hz)->0 - k, 20),
        ),
{
}

/// A step of a gain is five hundredths, or one where it is fine, up or down as
/// asked, and stops at nothing and at twice. It touches no other value and no
/// switch.
pub proof fn gains_move_by_their_step<
    R: Copy + From<u16>,
    P: Fn(R, R) -> R,
    N: Fn(R, R) -> R,
    X: Fn(R, R) -> R,
    Y: Fn(R, R) -> R,
    C: Fn(R, R, R) -> R,
    H: Fn(u16) -> R,
>(
    c: &mut AudioRuntimeConfig<R>,
    sel: Selected,
    up: bool,
    fine: bool,
    n: Nudge,
    ops: Arithmetic<P, N, X, Y, C, H>,
    r: (),
    cents: spec_fn(R) -> Option<int>,
)
    requires
        !on_a_cut(sel),
        call_ensures(nudge, (sel, up, fine), n),
        call_ensures(apply_nudge::<R, P, N, X, Y, C, H>, (c, sel, n, &ops), r),
        exact_on_cents(ops, cents),
        cents(chosen(*old(c), sel)) is Some,
    ensures
        gain_moves(*old(c), *final(c), sel, up, fine, cents),
{
    lemma_gain(ops, cents, *old(c), *final(c), sel, up, fine);
}

/// A step of a cut is 50 Hz, or 5 where it is fine, up or down as asked, between its
/// bounds. It touches no other value and no switch.
pub proof fn cuts_move_by_their_step<
    R: Copy + From<u16>,
    P: Fn(R, R) -> R,
    N: Fn(R, R) -> R,
    X: Fn(R, R) -> R,
    Y: Fn(R, R) -> R,
    C: Fn(R, R, R) -> R,
    H: Fn(u16) -> R,
>(
    c: &mut AudioRuntimeConfig<R>,
    sel: Selected,
    up: bool,
    fine: bool,
    n: Nudge,
    ops: Arithmetic<P, N, X, Y, C, H>,
    r: (),
    hz: spec_fn(R) -> Option<int>,
)
    requires
        on_a_cut(sel),
        call_ensures(nudge, (sel, up, fine), n),
        call_ensures(apply_nudge::<R, P, N, X, Y, C, H>, (c, sel, n, &ops), r),
        exact_on_whole(ops, hz),
        cuts_are_whole(*old(c), hz),
    ensures
        cut_moves(*old(c), *final(c), sel, up, fine, hz),
{
    lemma_cut(ops, hz, *old(c), *final(c), sel, up, fine);
}

/// A key that asks for more or less asks for a step, which moves the selected value
/// of the panel up or down by its size, a fine one with the shift key.
pub proof fn keys_move_the_selected_value<
    R: Copy + From<u16>,
    P: Fn(R, R) -> R,
    N: Fn(R, R) -> R,
    X: Fn(R, R) -> R,
    Y: Fn(R, R) -> R,
    C: Fn(R, R, R) -> R,
    H: Fn(u16) -> R,
>(
    p: &mut Panel<R>,
    key: Key,
    shift: bool,
    outcome: Outcome,
    up: bool,
    c: &mut AudioRuntimeConfig<R>,
    ops: Arithmetic<P, N, X, Y, C, H>,
    r: (),
    cents: spec_fn(R) -> Option<int>,
    hz: spec_fn(R) -> Option<int>,
)
    requires
        if up {
            asks_for_more(key)
        } else {
            asks_for_less(key)
        },
        call_ensures(Panel::<R>::handle_key, (p, key, true, shift), outcome),
        *old(c) == final(p).cfg,
        outcome is Nudge ==> call_ensures(
            apply_nudge::<R, P, N, X, Y, C, H>,
            (c, final(p).selected, outcome->Nudge_0, &ops),
            r,
        ),
        exact_on_cents(ops, cents),
        exact_on_whole(ops, hz),
        !on_a_cut(old(p).selected) ==> cents(chosen(old(p).cfg, old(p).selected)) is Some,
        on_a_cut(old(p).selected) ==> cuts_are_whole(old(p).cfg, hz),
    ensures
        outcome is Nudge,
        final(p).selected == old(p).selected,
        !on_a_cut(old(p).selected) ==> gain_moves(
            old(p).cfg,
            *final(c),
            old(p).selected,
            up,
            shift,
            cents,
        ),
        on_a_cut(old(p).selected) ==> cut_moves(
            old(p).cfg,
            *final(c),
            old(p).selected,
            up,
            shift,
            hz,
        ),
{
    let sel = old(p).selected;
    if on_a_cut(sel) {
        lemma_cut(ops, hz, old(p).cfg, *final(c), sel, up, shift);
    } else {
        lemma_gain(ops, cents, old(p).cfg, *final(c), sel, up, shift);
    }
}

/// The arithmetic keeps the order `le`, as rounded arithmetic does: what is added to
/// a value that compares does not lower it, what is taken away does not raise it, and
/// what is kept between two ends, or is the smaller or the larger of two, stays on
/// its side of a value between or beside them.
pub open spec fn keeps_the_order<
    R: From<u16>,
    P: Fn(R, R) -> R,
    N: Fn(R, R) -> R,
    X: Fn(R, R) -> R,
    Y: Fn(R, R) -> R,
    C: Fn(R, R, R) -> R,
    H: Fn(u16) -> R,
>(ops: Arithmetic<P, N, X, Y, C, H>, le: spec_fn(R, R) -> bool) -> bool {
    &&& forall|k: u16, step: R, v: R, moved: R|
        (call_ensures(ops.hundredths, (k,), step) || is_number(k, step)) && call_ensures(
            ops.plus,
            (v, step),
            moved,
        ) && le(v, v) ==> #[trigger] above_by(le, v, moved, k, step)
    &&& forall|k: u16, step: R, v: R, moved: R|
        (call_ensures(ops.hundredths, (k,), step) || is_number(k, step)) && call_ensures(
            ops.minus,
            (v, step),
            moved,
        ) && le(v, v) ==> #[trigger] below_by(le, v, moved, k, step)
    &&& forall|v: R, moved: R, lo: R, hi: R, kept: R|
        #[trigger] call_ensures(ops.clamp, (moved, lo, hi), kept) && #[trigger] le(lo, v) && le(
            v,
            hi,
        ) ==> {
            &&& le(v, moved) ==> le(v, kept)
            &&& le(moved, v) ==> le(kept, v)
        }
    &&& forall|v: R, a: R, b: R, m: R|
        #[trigger] call_ensures(ops.smaller, (a, b), m) && #[trigger] le(v, a) && le(v, b) ==> le(
            v,
            m,
        )
    &&& forall|v: R, a: R, b: R, m: R|
        #[trigger] call_ensures(ops.larger, (a, b), m) && #[trigger] le(a, v) && le(b, v) ==> le(
            m,
            v,
        )
}

/// `moved`, to which a step of `k` units took `v`, is not below it.
pub open spec fn above_by<R>(
    le: spec_fn(R, R) -> bool,
    v: R,
    moved: R,
    k: u16,
    step: R,
) -> bool {
    le(v, moved)
}

/// `moved`, to which a step of `k` units took `v`, is not above it.
pub open spec fn below_by<R>(
    le: spec_fn(R, R) -> bool,
    v: R,
    moved: R,
    k: u16,
    step: R,
) -> bool {
    le(moved, v)
}

/// The selected gain lies between nothing and twice.
pub open spec fn gain_between<R, H: Fn(u16) -> R>(
    hundredths: H,
    le: spec_fn(R, R) -> bool,
    v: R,
) -> bool {
    &&& le(v, v)
    &&& forall|lo: R| #[trigger] call_ensures(hundredths, (0u16,), lo) ==> le(lo, v)
    &&& forall|hi: R| #[trigger] call_ensures(hundredths, (200u16,), hi) ==> le(v, hi)
}

/// A step up never lowers a gain that lies in its range, and a step down never raises
/// it, whatever the arithmetic rounds, as long as it keeps the order.
pub proof fn gains_go_the_way_they_say<
    R: Copy + From<u16>,
    P: Fn(R, R) -> R,
    N: Fn(R, R) -> R,
    X: Fn(R, R) -> R,
    Y: Fn(R, R) -> R,
    C: Fn(R, R, R) -> R,
    H: Fn(u16) -> R,
>(
    c: &mut AudioRuntimeConfig<R>,
    sel: Selected,
    up: bool,
    fine: bool,
    n: Nudge,
    ops: Arithmetic<P, N, X, Y, C, H>,
    r: (),
    le: spec_fn(R, R) -> bool,
)
    requires
        !on_a_cut(sel),
        call_ensures(nudge, (sel, up, fine), n),
        call_ensures(apply_nudge::<R, P, N, X, Y, C, H>, (c, sel, n, &ops), r),
        keeps_the_order(ops, le),
        gain_between(ops.hundredths, le, chosen(*old(c), sel)),
    ensures
        up ==> le(chosen(*old(c), sel), chosen(*final(c), sel)),
        !up ==> le(chosen(*final(c), sel), chosen(*old(c), sel)),
{
    let now = chosen(*old(c), sel);
    let v = chosen(*final(c), sel);
    assert(now == value_of(*old(c), sel) && v == value_of(*final(c), sel));
    assert(nudged(ops, *old(c), sel, n, v));
    match n {
        Nudge::GainUp(k) => {
            let (step, moved) = choose|step: R, moved: R|
                {
                    &&& call_ensures(ops.hundredths, (k,), step)
                    &&& #[trigger] call_ensures(ops.plus, (now, step), moved)
                    &&& gain_kept(ops.clamp, ops.hundredths, moved, v)
                };
            assert(above_by(le, now, moved, k, step));
            assert(gain_kept(ops.clamp, ops.hundredths, moved, v));
        },
        Nudge::GainDown(k) => {
            let (step, moved) = choose|step: R, moved: R|
                {
                    &&& call_ensures(ops.hundredths, (k,), step)
                    &&& #[trigger] call_ensures(ops.minus, (now, step), moved)
                    &&& gain_kept(ops.clamp, ops.hundredths, moved, v)
                };
            assert(below_by(le, now, moved, k, step));
            assert(gain_kept(ops.clamp, ops.hundredths, moved, v));
        },
        _ => {},
    }
}

/// The selected cut lies between its bounds: 20 Hz and 100 Hz below the mid cut for
/// the low cut, 100 Hz above the low cut and 20000 Hz for the mid cut.
pub open spec fn cut_between<
    R: From<u16>,
    P: Fn(R, R) -> R,
    N: Fn(R, R) -> R,
    X: Fn(R, R) -> R,
    Y: Fn(R, R) -> R,
    C: Fn(R, R, R) -> R,
    H: Fn(u16) -> R,
>(
    ops: Arithmetic<P, N, X, Y, C, H>,
    le: spec_fn(R, R) -> bool,
    cfg: AudioRuntimeConfig<R>,
    sel: Selected,
) -> bool {
    let v = chosen(cfg, sel);
    &&& le(v, v)
    &&& sel == Selected::LowCut ==> {
        &&& forall|lo: R| #[trigger] is_number(20, lo) ==> le(lo, v)
        &&& forall|d: R, least: R, below: R, hi: R|
            is_number(100, d) && is_number(20, least) && #[trigger] call_ensures(
                ops.minus,
                (cfg.mid_cut_hz, d),
                below,
            ) && #[trigger] call_ensures(ops.larger, (below, least), hi) ==> le(v, hi)
    }
    &&& sel == Selected::MidCut ==> {
        &&& forall|d: R, lo: R|
            is_number(100, d) && #[trigger] call_ensures(ops.plus, (cfg.low_cut_hz, d), lo) ==> le(
                lo,
                v,
            )
        &&& forall|hi: R| #[trigger] is_number(20000, hi) ==> le(v, hi)
    }
}

/// A step up never lowers a cut that lies between its bounds, and a step down never
/// raises it, whatever the arithmetic rounds, as long as it keeps the order.
pub proof fn cuts_go_the_way_they_say<
    R: Copy + From<u16>,
    P: Fn(R, R) -> R,
    N: Fn(R, R) -> R,
    X: Fn(R, R) -> R,
    Y: Fn(R, R) -> R,
    C: Fn(R, R, R) -> R,
    H: Fn(u16) -> R,
>(
    c: &mut AudioRuntimeConfig<R>,
    sel: Selected,
    up: bool,
    fine: bool,
    n: Nudge,
    ops: Arithmetic<P, N, X, Y, C, H>,
    r: (),
    le: spec_fn(R, R) -> bool,
)
    requires
        on_a_cut(sel),
        call_ensures(nudge, (sel, up, fine), n),
        call_ensures(apply_nudge::<R, P, N, X, Y, C, H>, (c, sel, n, &ops), r),
        keeps_the_order(ops, le),
        cut_between(ops, le, *old(c), sel),
    ensures
        up ==> le(chosen(*old(c), sel), chosen(*final(c), sel)),
        !up ==> le(chosen(*final(c), sel), chosen(*old(c), sel)),
{
    let cfg = *old(c);
    let now = chosen(cfg, sel);
    let v = chosen(*final(c), sel);
    assert(now == value_of(cfg, sel) && v == value_of(*final(c), sel));
    assert(nudged(ops, cfg, sel, n, v));
    match n {
        Nudge::FreqDown(k, bound) => {
            let (step, moved, least) = choose|step: R, moved: R, least: R|
                {
                    &&& is_number(k, step)
                    &&& bound_is(ops, cfg, bound, least)
                    &&& #[trigger] call_ensures(ops.minus, (now, step), moved)
                    &&& #[trigger] call_ensures(ops.larger, (moved, least), v)
                };
            assert(below_by(le, now, moved, k, step));
            assert(le(moved, now));
            assert(le(least, now));
        },
        Nudge::FreqUp(k, bound) => {
            let (step, moved, most) = choose|step: R, moved: R, most: R|
                {
                    &&& is_number(k, step)
                    &&& bound_is(ops, cfg, bound, most)
                    &&& #[trigger] call_ensures(ops.plus, (now, step), moved)
                    &&& #[trigger] call_ensures(ops.smaller, (moved, most), v)
                };
            assert(above_by(le, now, moved, k, step));
            assert(le(now, moved));
            assert(le(now, most));
        },
        _ => {},
    }
}

/// A step up and a step down of the same kind lead back to the gain before, and so do
/// a step down and a step up, wherever the first of them stays in the range.
pub proof fn gain_steps_lead_back<
    R: Copy + From<u16>,
    P: Fn(R, R) -> R,
    N: Fn(R, R) -> R,
    X: Fn(R, R) -> R,
    Y: Fn(R, R) -> R,
    C: Fn(R, R, R) -> R,
    H: Fn(u16) -> R,
>(
    a: &mut AudioRuntimeConfig<R>,
    b: &mut AudioRuntimeConfig<R>,
    sel: Selected,
    up: bool,
    fine: bool,
    there: Nudge,
    back: Nudge,
    ops: Arithmetic<P, N, X, Y, C, H>,
    ra: (),
    rb: (),
    cents: spec_fn(R) -> Option<int>,
    now: int,
)
    requires
        !on_a_cut(sel),
        call_ensures(nudge, (sel, up, fine), there),
        call_ensures(nudge, (sel, !up, fine), back),
        call_ensures(apply_nudge::<R, P, N, X, Y, C, H>, (a, sel, there, &ops), ra),
        call_ensures(apply_nudge::<R, P, N, X, Y, C, H>, (b, sel, back, &ops), rb),
        *old(b) == *final(a),
        exact_on_cents(ops, cents),
        cents(chosen(*old(a), sel)) == Some(now),
        0 <= now <= 200,
        0 <= stepped(now, gain_step(fine), up) <= 200,
    ensures
        cents(chosen(*final(a), sel)) == Some(stepped(now, gain_step(fine), up)),
        cents(chosen(*final(b), sel)) == Some(now),
        only_differs_at(*final(b), *old(a), sel),
{
    gains_move_by_their_step(a, sel, up, fine, there, ops, ra, cents);
    gains_move_by_their_step(b, sel, !up, fine, back, ops, rb, cents);
    assert forall|other: Selected| other != sel implies #[trigger] chosen(*final(b), other)
        == chosen(*old(a), other) by {
        assert(chosen(*final(b), other) == chosen(*old(b), other));
        assert(chosen(*final(a), other) == chosen(*old(a), other));
    }
}

/// A step up and a step down of the same kind lead back to the cut before, and so do
/// a step down and a step up, wherever the first of them stays between the bounds.
pub proof fn cut_steps_lead_back<
    R: Copy + From<u16>,
    P: Fn(R, R) -> R,
    N: Fn(R, R) -> R,
    X: Fn(R, R) -> R,
    Y: Fn(R, R) -> R,
    C: Fn(R, R, R) -> R,
    H: Fn(u16) -> R,
>(
    a: &mut AudioRuntimeConfig<R>,
    b: &mut AudioRuntimeConfig<R>,
    sel: Selected,
    up: bool,
    fine: bool,
    there: Nudge,
    back: Nudge,
    ops: Arithmetic<P, N, X, Y, C, H>,
    ra: (),
    rb: (),
    hz: spec_fn(R) -> Option<int>,
    now: int,
    lowest: int,
    highest: int,
)
    requires
        on_a_cut(sel),
        call_ensures(nudge, (sel, up, fine), there),
        call_ensures(nudge, (sel, !up, fine), back),
        call_ensures(apply_nudge::<R, P, N, X, Y, C, H>, (a, sel, there, &ops), ra),
        call_ensures(apply_nudge::<R, P, N, X, Y, C, H>, (b, sel, back, &ops), rb),
        *old(b) == *final(a),
        exact_on_whole(ops, hz),
        cuts_are_whole(*old(a), hz),
        hz(chosen(*old(a), sel)) == Some(now),
        sel == Selected::LowCut ==> lowest == 20 && highest == hz(old(a).mid_cut_hz)->0 - 100,
        sel == Selected::MidCut ==> lowest == hz(old(a).low_cut_hz)->0 + 100 && highest == 20000,
        lowest <= now <= highest,
        lowest <= stepped(now, cut_step(fine), up) <= highest,
    ensures
        hz(chosen(*final(a), sel)) == Some(stepped(now, cut_step(fine), up)),
        hz(chosen(*final(b), sel)) == Some(now),
        only_differs_at(*final(b), *old(a), sel),
{
    cuts_move_by_their_step(a, sel, up, fine, there, ops, ra, hz);
    assert(chosen(*final(a), Selected::LowCut) == final(a).low_cut_hz);
    assert(chosen(*final(a), Selected::MidCut) == final(a).mid_cut_hz);
    cuts_move_by_their_step(b, sel, !up, fine, back, ops, rb, hz);
    assert forall|other: Selected| other != sel implies #[trigger] chosen(*final(b), other)
        == chosen(*old(a), other) by {
        assert(chosen(*final(b), other) == chosen(*old(b), other));
        assert(chosen(*final(a), other) == chosen(*old(a), other));
    }
}

// ---------------------------------------------------------------------------
// Keys
// ---------------------------------------------------------------------------
/// The key asks to leave.
pub open spec fn leaves(key: Key) -> bool {
    key == Key::Esc || key == Key::Char('q')
}

/// The key moves the selection down.
pub open spec fn moves_on(key: Key) -> bool {
    key == Key::Tab || key == Key::Down
}

/// The key moves the selection up.
pub open spec fn moves_back(key: Key) -> bool {
    key == Key::BackTab || key == Key::Up
}

/// The key asks for more.
pub open spec fn asks_for_more(key: Key) -> bool {
    key == Key::Right || key == Key::Char('+') || key == Key::Char('=')
}

/// The key asks for less.
pub open spec fn asks_for_less(key: Key) -> bool {
    key == Key::Left || key == Key::Char('-')
}

/// The key selects a value by its number.
pub open spec fn picks(key: Key, sel: Selected) -> bool {
    match sel {
        Selected::Master => key == Key::Char('1'),
        Selected::Low => key == Key::Char('2'),
        Selected::Mid => key == Key::Char('3'),
        Selected::High => key == Key::Char('4'),
        Selected::LowCut => key == Key::Char('5'),
        Selected::MidCut => key == Key::Char('6'),
    }
}

/// The key means nothing.
pub open spec fn means_nothing(key: Key) -> bool {
    &&& !leaves(key) && !moves_on(key) && !moves_back(key)
    &&& !asks_for_more(key) && !asks_for_less(key)
    &&& forall|sel: Selected| !#[trigger] picks(key, sel)
    &&& key != Key::Char('m') && key != Key::Char('s') && key != Key::Char('b')
    &&& key != Key::Char('0') && key != Key::Char('r')
}

/// Each command has its own keys, and every other key means nothing.
pub proof fn every_command_has_its_keys(key: Key, r: Command, sel: Selected)
    requires
        call_ensures(command, (key,), r),
    ensures
        r == Command::Quit <==> leaves(key),
        r == Command::Next <==> moves_on(key),
        r == Command::Prev <==> moves_back(key),
        r == Command::Increase <==> asks_for_more(key),
        r == Command::Decrease <==> asks_for_less(key),
        r == Command::Select(sel) <==> picks(key, sel),
        r == Command::Mute <==> key == Key::Char('m'),
        r == Command::Solo <==> key == Key::Char('s'),
        r == Command::Bypass <==> key == Key::Char('b'),
        r == Command::Reset <==> key == Key::Char('0'),
        r == Command::ResetAll <==> key == Key::Char('r'),
        r == Command::Nothing <==> means_nothing(key),
{
    lemma_picks(key);
}

proof fn lemma_picks(key: Key)
    ensures
        (exists|sel: Selected| #[trigger] picks(key, sel)) <==> {
            ||| key == Key::Char('1')
            ||| key == Key::Char('2')
            ||| key == Key::Char('3')
            ||| key == Key::Char('4')
            ||| key == Key::Char('5')
            ||| key == Key::Char('6')
        },
{
    if key == Key::Char('1') {
        assert(picks(key, Selected::Master));
    }
    if key == Key::Char('2') {
        assert(picks(key, Selected::Low));
    }
    if key == Key::Char('3') {
        assert(picks(key, Selected::Mid));
    }
    if key == Key::Char('4') {
        assert(picks(key, Selected::High));
    }
    if key == Key::Char('5') {
        assert(picks(key, Selected::LowCut));
    }
    if key == Key::Char('6') {
        assert(picks(key, Selected::MidCut));
    }
}

/// The keys that ask for more or less ask for a step up or down of the selected
/// value, a fine one with the shift key, and change nothing by themselves.
pub proof fn more_and_less_ask_for_steps<R: Copy + From<u16>>(
    p: &mut Panel<R>,
    key: Key,
    shift: bool,
    outcome: Outcome,
    up: bool,
    n: Nudge,
)
    requires
        call_ensures(Panel::<R>::handle_key, (p, key, true, shift), outcome),
        if up {
            asks_for_more(key)
        } else {
            asks_for_less(key)
        },
        call_ensures(nudge, (old(p).selected, up, shift), n),
    ensures
        outcome == Outcome::Nudge(n),
        *final(p) == *old(p),
        nudge_fits(n, final(p).selected),
{
}

/// The switch keys do to the configuration what the switches do, and have it sent
/// where a band is selected; the selection stays.
pub proof fn switch_keys_turn_switches<R: Copy + From<u16>>(
    p: &mut Panel<R>,
    key: Key,
    shift: bool,
    outcome: Outcome,
    m: &mut AudioRuntimeConfig<R>,
    s: &mut AudioRuntimeConfig<R>,
    b: &mut AudioRuntimeConfig<R>,
    rm: bool,
    rs: bool,
    rb: bool,
)
    requires
        call_ensures(Panel::<R>::handle_key, (p, key, true, shift), outcome),
        call_ensures(turn_mute::<R>, (m, old(p).selected), rm),
        call_ensures(turn_solo::<R>, (s, old(p).selected), rs),
        call_ensures(turn_bypass::<R>, (b, old(p).selected), rb),
        *old(m) == old(p).cfg && *old(s) == old(p).cfg && *old(b) == old(p).cfg,
    ensures
        key == Key::Char('m') ==> final(p).cfg == *final(m),
        key == Key::Char('s') ==> final(p).cfg == *final(s),
        key == Key::Char('b') ==> final(p).cfg == *final(b),
        key == Key::Char('m') || key == Key::Char('s') || key == Key::Char('b') ==> {
            &&& final(p).selected == old(p).selected
            &&& outcome == (if on_a_band(old(p).selected) {
                Outcome::Changed
            } else {
                Outcome::Unchanged
            })
        },
{
}

/// The other keys: one that leaves, one that moves the selection, one that resets,
/// and one that means nothing; a key that is not pressed does nothing.
pub proof fn the_other_keys<R: Copy + From<u16>>(
    p: &mut Panel<R>,
    key: Key,
    pressed: bool,
    shift: bool,
    outcome: Outcome,
    below: Selected,
    above: Selected,
    sel: Selected,
)
    requires
        call_ensures(Panel::<R>::handle_key, (p, key, pressed, shift), outcome),
        call_ensures(Selected::next, (old(p).selected,), below),
        call_ensures(Selected::prev, (old(p).selected,), above),
    ensures
        !pressed ==> *final(p) == *old(p) && outcome == Outcome::Unchanged,
        outcome == Outcome::Quit <==> pressed && leaves(key),
        pressed && leaves(key) ==> *final(p) == *old(p),
        pressed && moves_on(key) ==> final(p).cfg == old(p).cfg && final(p).selected == below
            && outcome == Outcome::Unchanged,
        pressed && moves_back(key) ==> final(p).cfg == old(p).cfg && final(p).selected == above
            && outcome == Outcome::Unchanged,
        pressed && picks(key, sel) ==> final(p).cfg == old(p).cfg && final(p).selected == sel
            && outcome == Outcome::Unchanged,
        pressed && means_nothing(key) ==> *final(p) == *old(p) && outcome == Outcome::Unchanged,
        pressed && key == Key::Char('0') ==> {
            &&& outcome == Outcome::Changed
            &&& final(p).selected == old(p).selected
            &&& old(p).selected == Selected::LowCut ==> number(1000, final(p).cfg.low_cut_hz)
            &&& old(p).selected == Selected::MidCut ==> number(10000, final(p).cfg.mid_cut_hz)
            &&& !on_a_cut(old(p).selected) ==> number(1, chosen(final(p).cfg, old(p).selected))
            &&& others_agree(final(p).cfg, old(p).cfg, old(p).selected)
            &&& mutes_agree(final(p).cfg, old(p).cfg)
            &&& solos_agree(final(p).cfg, old(p).cfg)
            &&& bypasses_agree(final(p).cfg, old(p).cfg)
        },
        pressed && key == Key::Char('r') ==> {
            let cfg = final(p).cfg;
            &&& outcome == Outcome::Changed
            &&& final(p).selected == old(p).selected
            &&& number(1, cfg.volume) && number(1, cfg.low_gain)
            &&& number(1, cfg.mid_gain) && number(1, cfg.high_gain)
            &&& number(1000, cfg.low_cut_hz) && number(10000, cfg.mid_cut_hz)
            &&& !cfg.low_mute && !cfg.mid_mute && !cfg.high_mute
            &&& !cfg.low_solo && !cfg.mid_solo && !cfg.high_solo
            &&& !cfg.low_bypass && !cfg.mid_bypass && !cfg.high_bypass
        },
{
    lemma_picks(key);
    if pressed && key == Key::Char('0') {
        lemma_others(old(p).cfg, final(p).cfg, old(p).selected);
    }
}

/// Going down from every value in turn visits all six and comes back.
pub proof fn the_selection_is_a_ring(
    a: Selected,
    b: Selected,
    c: Selected,
    d: Selected,
    e: Selected,
    f: Selected,
    g: Selected,
    back: Selected,
)
    requires
        call_ensures(Selected::next, (a,), b),
        call_ensures(Selected::next, (b,), c),
        call_ensures(Selected::next, (c,), d),
        call_ensures(Selected::next, (d,), e),
        call_ensures(Selected::next, (e,), f),
        call_ensures(Selected::next, (f,), g),
        call_ensures(Selected::prev, (b,), back),
    ensures
        g == a,
        back == a,
        a != b && a != c && a != d && a != e && a != f,
        b != c && b != d && b != e && b != f,
        c != d && c != e && c != f && d != e && d != f && e != f,
{
}

/// The selection goes down through the master gain, the gains of the bands from low to
/// high, and the two cuts, and up the other way.
pub proof fn the_selection_follows_the_rows(sel: Selected, below: Selected, above: Selected)
    requires
        call_ensures(Selected::next, (sel,), below),
        call_ensures(Selected::prev, (sel,), above),
    ensures
        below == Selected::Low <==> sel == Selected::Master,
        below == Selected::Mid <==> sel == Selected::Low,
        below == Selected::High <==> sel == Selected::Mid,
        below == Selected::LowCut <==> sel == Selected::High,
        below == Selected::MidCut <==> sel == Selected::LowCut,
        below == Selected::Master <==> sel == Selected::MidCut,
        sel == Selected::Low <==> above == Selected::Master,
        sel == Selected::Mid <==> above == Selected::Low,
        sel == Selected::High <==> above == Selected::Mid,
        sel == Selected::LowCut <==> above == Selected::High,
        sel == Selected::MidCut <==> above == Selected::LowCut,
        sel == Selected::Master <==> above == Selected::MidCut,
{
}

/// A new panel shows the configuration, with the master gain selected.
pub proof fn a_new_panel_shows_the_configuration<R: Copy + From<u16>>(
    cfg: AudioRuntimeConfig<R>,
    p: Panel<R>,
)
    requires
        call_ensures(Panel::<R>::new, (cfg,), p),
    ensures
        p.cfg == cfg,
        p.selected == Selected::Master,
{
}

/// The cuts are the frequencies, and every value has its name.
pub proof fn values_have_their_names(sel: Selected, freq: bool, label: &'static str)
    requires
        call_ensures(Selected::is_freq, (sel,), freq),
        call_ensures(Selected::label, (sel,), label),
    ensures
        freq <==> on_a_cut(sel),
        sel == Selected::Master ==> label@ == seq!['M', 'a', 's', 't', 'e', 'r'],
        sel == Selected::Low ==> label@ == seq!['L', 'o', 'w'],
        sel == Selected::Mid ==> label@ == seq!['M', 'i', 'd'],
        sel == Selected::High ==> label@ == seq!['H', 'i', 'g', 'h'],
        sel == Selected::LowCut ==> label@ == seq!['L', 'o', 'w', ' ', 'c', 'u', 't'],
        sel == Selected::MidCut ==> label@ == seq!['M', 'i', 'd', ' ', 'c', 'u', 't'],
{
    reveal_strlit("Master");
    reveal_strlit("Low");
    reveal_strlit("Mid");
    reveal_strlit("High");
    reveal_strlit("Low cut");
    reveal_strlit("Mid cut");
}

/// The selected gain, or cut, can be read and changed through a reference, and
/// nothing else.
pub proof fn references_reach_the_selected_value<R>(
    g: &mut AudioRuntimeConfig<R>,
    f: &mut AudioRuntimeConfig<R>,
    gain: Selected,
    cut: Selected,
    rg: &mut R,
    rf: &mut R,
)
    requires
        !on_a_cut(gain),
        on_a_cut(cut),
        call_ensures(gain_ref::<R>, (g, gain), rg),
        call_ensures(freq_ref::<R>, (f, cut), rf),
    ensures
        *old(rg) == chosen(*old(g), gain),
        chosen(*final(g), gain) == *final(rg),
        only_differs_at(*final(g), *old(g), gain),
        *old(rf) == chosen(*old(f), cut),
        chosen(*final(f), cut) == *final(rf),
        only_differs_at(*final(f), *old(f), cut),
{
    assert(value_of(*final(g), gain) == *final(rg));
    assert(value_of(*final(f), cut) == *final(rf));
    lemma_others(*old(g), *final(g), gain);
    lemma_others(*old(f), *final(f), cut);
}

// ---------------------------------------------------------------------------
// Addresses and messages
// ---------------------------------------------------------------------------
/// The paths of the server follow its address.
pub proof fn paths_follow_the_address(
    base: &str,
    status: String,
    config: String,
    update: String,
)
    requires
        call_ensures(status_url, (base,), status),
        call_ensures(config_url, (base,), config),
        call_ensures(update_url, (base,), update),
    ensures
        status@ == base@ + seq!['/', 's', 't', 'a', 't', 'u', 's'],
        config@ == base@ + seq!['/', 'c', 'o', 'n', 'f', 'i', 'g'],
        update@ == base@ + seq![
            '/',
            'u',
            'p',
            'd',
            'a',
            't',
            'e',
            '_',
            'c',
            'o',
            'n',
            'f',
            'i',
            'g',
        ],
{
    reveal_strlit("/status");
    reveal_strlit("/config");
    reveal_strlit("/update_config");
    assert("/status"@ == seq!['/', 's', 't', 'a', 't', 'u', 's']);
    assert("/config"@ == seq!['/', 'c', 'o', 'n', 'f', 'i', 'g']);
    assert("/update_config"@ == seq![
        '/',
        'u',
        'p',
        'd',
        'a',
        't',
        'e',
        '_',
        'c',
        'o',
        'n',
        'f',
        'i',
        'g',
    ]);
}

/// The scheme of a server.
pub open spec fn http() -> Seq<char> {
    seq!['h', 't', 't', 'p', ':', '/', '/']
}

/// The scheme of a server over an encrypted connection.
pub open spec fn https() -> Seq<char> {
    seq!['h', 't', 't', 'p', 's', ':', '/', '/']
}

/// The scheme of a stream.
pub open spec fn ws() -> Seq<char> {
    seq!['w', 's', ':', '/', '/']
}

/// The scheme of a stream over an encrypted connection.
pub open spec fn wss() -> Seq<char> {
    seq!['w', 's', 's', ':', '/', '/']
}

/// The path of the spectrum stream.
pub open spec fn spectrum_path() -> Seq<char> {
    seq!['/', 'w', 's', '/', 'f', 'f', 't']
}

proof fn lemma_replace(s: Seq<char>, pat: Seq<char>, with: Seq<char>, rest: Seq<char>)
    ensures
        never_reads(s, pat, 0) ==> crate::text::replace_first(s, pat, with) == s,
        s == pat + rest ==> crate::text::replace_first(s, pat, with) == with + rest,
{
    find_is_first(s, pat, 0);
    if s == pat + rest {
        assert(reads(s, 0, pat)) by {
            assert forall|k: int| 0 <= k < pat.len() implies s[0 + k] == #[trigger] pat[k] by {}
        }
        match crate::text::find(s, pat) {
            Some(i) => {
                if i > 0 {
                    assert(!reads(s, 0, pat));
                }
                assert(i == 0);
                assert(s.take(0) == Seq::<char>::empty());
                assert(s.skip(pat.len() as int) == rest);
                assert(s.take(0) + with + s.skip(pat.len() as int) == with + rest);
            },
            None => {},
        }
    } else if never_reads(s, pat, 0) {
        if let Some(i) = crate::text::find(s, pat) {
            assert(reads(s, i, pat));
        }
    }
}

/// The spectrum stream of a server at `http://` is at `ws://`, and that of one at
/// `https://` at `wss://`, under the same host, where the host does not hold such a
/// scheme itself; without a scheme nothing of the address changes.
pub proof fn the_stream_is_on_the_same_host(base: &str, r: String, host: Seq<char>)
    requires
        call_ensures(ws_url, (base,), r),
        never_reads(host, http(), 0),
        never_reads(host, https(), 0),
    ensures
        base@ == http() + host ==> r@ == ws() + host + spectrum_path(),
        base@ == https() + host ==> r@ == wss() + host + spectrum_path(),
        base@ == host ==> r@ == host + spectrum_path(),
{
    reveal_strlit("http://");
    reveal_strlit("https://");
    reveal_strlit("ws://");
    reveal_strlit("wss://");
    reveal_strlit("/ws/fft");
    assert("http://"@ == http());
    assert("https://"@ == https());
    assert("ws://"@ == ws());
    assert("wss://"@ == wss());
    assert("/ws/fft"@ == spectrum_path());
    if base@ == http() + host {
        lemma_behind_scheme(http(), host, https());
        lemma_replace(base@, https(), wss(), host);
        lemma_replace(base@, http(), ws(), host);
    }
    if base@ == https() + host {
        lemma_replace(base@, https(), wss(), host);
        lemma_behind_scheme(wss(), host, http());
        lemma_replace(wss() + host, http(), ws(), host);
    }
    if base@ == host {
        lemma_replace(host, https(), wss(), host);
        lemma_replace(host, http(), ws(), host);
    }
}

/// A scheme that is not the one in front does not stand across its end.
proof fn lemma_behind_scheme(front: Seq<char>, host: Seq<char>, scheme: Seq<char>)
    requires
        never_reads(host, scheme, 0),
        front == http() && scheme == https() || front == wss() && scheme == http(),
    ensures
        never_reads(front + host, scheme, 0),
{
    let s = front + host;
    assert forall|j: int| 0 <= j implies !#[trigger] reads(s, j, scheme) by {
        if reads(s, j, scheme) {
            if j >= front.len() {
                let i = j - front.len();
                assert forall|k: int| 0 <= k < scheme.len() implies host[i + k]
                    == #[trigger] scheme[k] by {
                    assert(s[j + k] == scheme[k]);
                    assert(s[j + k] == host[i + k]);
                }
                assert(reads(host, i, scheme));
            } else {
                assert(s[j + 0] == scheme[0]);
                assert(s[j] == front[j]);
                if front == http() {
                    assert(j == 0);
                    assert(s[j + 4] == scheme[4]);
                    assert(s[4] == front[4]);
                }
            }
        }
    }
}

/// A failure is shown with its reason, and nothing where there was none.
pub proof fn failures_are_shown(reason: &str, none: Option<String>, some: Option<String>)
    requires
        call_ensures(update_error, (None,), none),
        call_ensures(update_error, (Some(reason),), some),
    ensures
        none is None,
        some is Some,
        some->0@.len() >= reason@.len(),
        some->0@.skip(some->0@.len() - reason@.len()) == reason@,
        some->0@.take(some->0@.len() - reason@.len()) == seq![
            'u',
            'p',
            'd',
            'a',
            't',
            'e',
            ' ',
            'f',
            'a',
            'i',
            'l',
            'e',
            'd',
            ':',
            ' ',
        ],
{
    reveal_strlit("update failed: ");
    let head = "update failed: "@;
    assert(some->0@ == head + reason@);
    assert(some->0@.skip(head.len() as int) == reason@);
    assert(some->0@.take(head.len() as int) == head);
    assert(head == seq![
        'u',
        'p',
        'd',
        'a',
        't',
        'e',
        ' ',
        'f',
        'a',
        'i',
        'l',
        'e',
        'd',
        ':',
        ' ',
    ]);
}

} // verus!
