//! The control panel: which value is selected, what a key does, and the
//! addresses of the server.

use crate::config::{is_number, AudioRuntimeConfig, DEFAULT_LOW_CUT_HZ, DEFAULT_MID_CUT_HZ};
use crate::text;
use vstd::prelude::*;

verus! {

/// Largest gain, in hundredths.
pub const GAIN_MAX_HUNDREDTHS: u16 = 200;

/// Smallest gain, in hundredths.
pub const GAIN_MIN_HUNDREDTHS: u16 = 0;

/// Lowest cut frequency, in Hz.
pub const FREQ_MIN_HZ: u16 = 20;

/// Highest cut frequency, in Hz.
pub const FREQ_MAX_HZ: u16 = 20000;

/// Least distance between the two cuts, in Hz.
pub const CUT_DISTANCE_HZ: u16 = 100;

/// The value that the keys act on.
#[derive(Clone, Copy, Debug, PartialEq, Eq, Structural)]
pub enum Selected {
    Master,
    Low,
    Mid,
    High,
    LowCut,
    MidCut,
}

impl Selected {
    /// The place of the value in the panel, from the top.
    pub open spec fn place(self) -> int {
        match self {
            Selected::Master => 0,
            Selected::Low => 1,
            Selected::Mid => 2,
            Selected::High => 3,
            Selected::LowCut => 4,
            Selected::MidCut => 5,
        }
    }

    /// The value is a cut frequency.
    pub open spec fn spec_is_freq(self) -> bool {
        self == Selected::LowCut || self == Selected::MidCut
    }

    /// The value is the gain of a band.
    pub open spec fn is_band(self) -> bool {
        self == Selected::Low || self == Selected::Mid || self == Selected::High
    }

    /// The name of the value.
    pub open spec fn spec_label(self) -> Seq<char> {
        match self {
            Selected::Master => "Master"@,
            Selected::Low => "Low"@,
            Selected::Mid => "Mid"@,
            Selected::High => "High"@,
            Selected::LowCut => "Low cut"@,
            Selected::MidCut => "Mid cut"@,
        }
    }

    /// The value below; the first one below the last.
    pub fn next(self) -> (r: Self)
        ensures
            r.place() == (self.place() + 1) % 6,
    {
        match self {
            Selected::Master => Selected::Low,
            Selected::Low => Selected::Mid,
            Selected::Mid => Selected::High,
            Selected::High => Selected::LowCut,
            Selected::LowCut => Selected::MidCut,
            Selected::MidCut => Selected::Master,
        }
    }

    /// The value above; the last one above the first.
    pub fn prev(self) -> (r: Self)
        ensures
            r.place() == (self.place() + 5) % 6,
    {
        match self {
            Selected::Master => Selected::MidCut,
            Selected::Low => Selected::Master,
            Selected::Mid => Selected::Low,
            Selected::High => Selected::Mid,
            Selected::LowCut => Selected::High,
            Selected::MidCut => Selected::LowCut,
        }
    }

    /// The name of the value.
    pub fn label(self) -> (r: &'static str)
        ensures
            r@ == self.spec_label(),
    {
        match self {
            Selected::Master => "Master",
            Selected::Low => "Low",
            Selected::Mid => "Mid",
            Selected::High => "High",
            Selected::LowCut => "Low cut",
            Selected::MidCut => "Mid cut",
        }
    }

    /// Whether the value is a cut frequency.
    pub fn is_freq(self) -> (r: bool)
        ensures
            r == self.spec_is_freq(),
    {
        matches!(self, Selected::LowCut | Selected::MidCut)
    }
}

/// A selection is determined by its place.
pub proof fn place_determines_selection(a: Selected, b: Selected)
    ensures
        a.place() == b.place() ==> a == b,
        0 <= a.place() < 6,
{
}

/// One step down and one step up lead back, in either order.
pub proof fn next_and_prev_are_inverse(s: Selected, down: Selected, up: Selected)
    requires
        down.place() == (s.place() + 1) % 6,
        up.place() == (s.place() + 5) % 6,
    ensures
        (down.place() + 5) % 6 == s.place(),
        (up.place() + 1) % 6 == s.place(),
{
}

/// Going down from any value reaches every value, within five steps.
pub proof fn next_reaches_every_value(from: Selected, to: Selected) -> (steps: int)
    ensures
        0 <= steps < 6,
        (from.place() + steps) % 6 == to.place(),
{
    (to.place() - from.place() + 6) % 6
}

// ---------------------------------------------------------------------------
// Values of a configuration
// ---------------------------------------------------------------------------
/// A value of the configuration.
pub open spec fn value_of<R>(cfg: AudioRuntimeConfig<R>, sel: Selected) -> R {
    match sel {
        Selected::Master => cfg.volume,
        Selected::Low => cfg.low_gain,
        Selected::Mid => cfg.mid_gain,
        Selected::High => cfg.high_gain,
        Selected::LowCut => cfg.low_cut_hz,
        Selected::MidCut => cfg.mid_cut_hz,
    }
}

/// The configuration with one value replaced.
pub open spec fn with_value<R>(
    cfg: AudioRuntimeConfig<R>,
    sel: Selected,
    v: R,
) -> AudioRuntimeConfig<R> {
    match sel {
        Selected::Master => AudioRuntimeConfig { volume: v, ..cfg },
        Selected::Low => AudioRuntimeConfig { low_gain: v, ..cfg },
        Selected::Mid => AudioRuntimeConfig { mid_gain: v, ..cfg },
        Selected::High => AudioRuntimeConfig { high_gain: v, ..cfg },
        Selected::LowCut => AudioRuntimeConfig { low_cut_hz: v, ..cfg },
        Selected::MidCut => AudioRuntimeConfig { mid_cut_hz: v, ..cfg },
    }
}

/// The selected gain, to be changed.
pub fn gain_ref<R>(cfg: &mut AudioRuntimeConfig<R>, sel: Selected) -> (r: &mut R)
    requires
        !sel.spec_is_freq(),
    ensures
        *r == value_of(*old(cfg), sel),
        *final(cfg) == with_value(*old(cfg), sel, *final(r)),
{
    match sel {
        Selected::Master => &mut cfg.volume,
        Selected::Low => &mut cfg.low_gain,
        Selected::Mid => &mut cfg.mid_gain,
        _ => &mut cfg.high_gain,
    }
}

/// The selected cut frequency, to be changed.
pub fn freq_ref<R>(cfg: &mut AudioRuntimeConfig<R>, sel: Selected) -> (r: &mut R)
    requires
        sel.spec_is_freq(),
    ensures
        *r == value_of(*old(cfg), sel),
        *final(cfg) == with_value(*old(cfg), sel, *final(r)),
{
    match sel {
        Selected::LowCut => &mut cfg.low_cut_hz,
        _ => &mut cfg.mid_cut_hz,
    }
}

/// The default of a value, in Hz for a cut.
pub open spec fn default_of(sel: Selected) -> u16 {
    match sel {
        Selected::LowCut => DEFAULT_LOW_CUT_HZ,
        Selected::MidCut => DEFAULT_MID_CUT_HZ,
        _ => 1,
    }
}

/// The default of a cut frequency, in Hz.
pub fn default_freq(sel: Selected) -> (r: u16)
    requires
        sel.spec_is_freq(),
    ensures
        r == default_of(sel),
{
    match sel {
        Selected::LowCut => DEFAULT_LOW_CUT_HZ,
        _ => DEFAULT_MID_CUT_HZ,
    }
}

/// The configuration with the mute switch of the selected band turned over.
pub open spec fn mute_turned<R>(
    cfg: AudioRuntimeConfig<R>,
    sel: Selected,
) -> AudioRuntimeConfig<R> {
    match sel {
        Selected::Low => AudioRuntimeConfig { low_mute: !cfg.low_mute, ..cfg },
        Selected::Mid => AudioRuntimeConfig { mid_mute: !cfg.mid_mute, ..cfg },
        Selected::High => AudioRuntimeConfig { high_mute: !cfg.high_mute, ..cfg },
        _ => cfg,
    }
}

/// The configuration with the bypass switch of the selected band turned over.
pub open spec fn bypass_turned<R>(
    cfg: AudioRuntimeConfig<R>,
    sel: Selected,
) -> AudioRuntimeConfig<R> {
    match sel {
        Selected::Low => AudioRuntimeConfig { low_bypass: !cfg.low_bypass, ..cfg },
        Selected::Mid => AudioRuntimeConfig { mid_bypass: !cfg.mid_bypass, ..cfg },
        Selected::High => AudioRuntimeConfig { high_bypass: !cfg.high_bypass, ..cfg },
        _ => cfg,
    }
}

/// The configuration with the solo switch of the selected band turned over and
/// those of the other bands off.
pub open spec fn solo_turned<R>(
    cfg: AudioRuntimeConfig<R>,
    sel: Selected,
) -> AudioRuntimeConfig<R> {
    if sel.is_band() {
        AudioRuntimeConfig {
            low_solo: sel == Selected::Low && !cfg.low_solo,
            mid_solo: sel == Selected::Mid && !cfg.mid_solo,
            high_solo: sel == Selected::High && !cfg.high_solo,
            ..cfg
        }
    } else {
        cfg
    }
}

// ---------------------------------------------------------------------------
// Keys
// ---------------------------------------------------------------------------
/// A key.
#[derive(Clone, Copy, Debug, PartialEq, Eq, Structural)]
pub enum Key {
    Char(char),
    Esc,
    Tab,
    BackTab,
    Up,
    Down,
    Left,
    Right,
    Other,
}

/// What a key means to the panel.
#[derive(Clone, Copy, Debug, PartialEq, Eq, Structural)]
pub enum Command {
    Quit,
    Next,
    Prev,
    Select(Selected),
    Mute,
    Solo,
    Bypass,
    Decrease,
    Increase,
    Reset,
    ResetAll,
    Nothing,
}

/// The command of a key.
pub open spec fn command_of(key: Key) -> Command {
    match key {
        Key::Esc => Command::Quit,
        Key::Tab | Key::Down => Command::Next,
        Key::BackTab | Key::Up => Command::Prev,
        Key::Left => Command::Decrease,
        Key::Right => Command::Increase,
        Key::Char(c) => if c == 'q' {
            Command::Quit
        } else if c == '1' {
            Command::Select(Selected::Master)
        } else if c == '2' {
            Command::Select(Selected::Low)
        } else if c == '3' {
            Command::Select(Selected::Mid)
        } else if c == '4' {
            Command::Select(Selected::High)
        } else if c == '5' {
            Command::Select(Selected::LowCut)
        } else if c == '6' {
            Command::Select(Selected::MidCut)
        } else if c == 'm' {
            Command::Mute
        } else if c == 's' {
            Command::Solo
        } else if c == 'b' {
            Command::Bypass
        } else if c == '-' {
            Command::Decrease
        } else if c == '+' || c == '=' {
            Command::Increase
        } else if c == '0' {
            Command::Reset
        } else if c == 'r' {
            Command::ResetAll
        } else {
            Command::Nothing
        },
        Key::Other => Command::Nothing,
    }
}

/// The command of a key.
pub fn command(key: Key) -> (r: Command)
    ensures
        r == command_of(key),
{
    match key {
        Key::Esc => Command::Quit,
        Key::Tab | Key::Down => Command::Next,
        Key::BackTab | Key::Up => Command::Prev,
        Key::Left => Command::Decrease,
        Key::Right => Command::Increase,
        Key::Char(c) => match c {
            'q' => Command::Quit,
            '1' => Command::Select(Selected::Master),
            '2' => Command::Select(Selected::Low),
            '3' => Command::Select(Selected::Mid),
            '4' => Command::Select(Selected::High),
            '5' => Command::Select(Selected::LowCut),
            '6' => Command::Select(Selected::MidCut),
            'm' => Command::Mute,
            's' => Command::Solo,
            'b' => Command::Bypass,
            '-' => Command::Decrease,
            '+' | '=' => Command::Increase,
            '0' => Command::Reset,
            'r' => Command::ResetAll,
            _ => Command::Nothing,
        },
        Key::Other => Command::Nothing,
    }
}

/// A bound on a cut frequency.
#[derive(Clone, Copy, Debug, PartialEq, Eq, Structural)]
pub enum Bound {
    /// This frequency, in Hz.
    Hz(u16),
    /// So many Hz above the low cut.
    AboveLowCut(u16),
    /// So many Hz below the mid cut, but not below the lowest frequency.
    BelowMidCut(u16),
}

/// A change of the selected value by one step.
#[derive(Clone, Copy, Debug, PartialEq, Eq, Structural)]
pub enum Nudge {
    /// Take hundredths off a gain, and keep it between the smallest and the
    /// largest gain.
    GainDown(u16),
    /// Add hundredths to a gain, and keep it between the smallest and the
    /// largest gain.
    GainUp(u16),
    /// Take Hz off a cut, but do not go below the bound.
    FreqDown(u16, Bound),
    /// Add Hz to a cut, but do not go above the bound.
    FreqUp(u16, Bound),
}

/// The change that a step makes. A fine step is smaller.
pub open spec fn nudge_of(sel: Selected, up: bool, fine: bool) -> Nudge {
    let hundredths: u16 = if fine {
        1
    } else {
        5
    };
    let hz: u16 = if fine {
        5
    } else {
        50
    };
    match (sel, up) {
        (Selected::LowCut, false) => Nudge::FreqDown(hz, Bound::Hz(FREQ_MIN_HZ)),
        (Selected::MidCut, false) => Nudge::FreqDown(hz, Bound::AboveLowCut(CUT_DISTANCE_HZ)),
        (Selected::LowCut, true) => Nudge::FreqUp(hz, Bound::BelowMidCut(CUT_DISTANCE_HZ)),
        (Selected::MidCut, true) => Nudge::FreqUp(hz, Bound::Hz(FREQ_MAX_HZ)),
        (_, false) => Nudge::GainDown(hundredths),
        (_, true) => Nudge::GainUp(hundredths),
    }
}

/// The change that one step makes to the selected value.
pub fn nudge(sel: Selected, up: bool, fine: bool) -> (r: Nudge)
    ensures
        r == nudge_of(sel, up, fine),
{
    let hundredths: u16 = if fine {
        1
    } else {
        5
    };
    let hz: u16 = if fine {
        5
    } else {
        50
    };
    if sel.is_freq() {
        let low = sel == Selected::LowCut;
        if up {
            if low {
                Nudge::FreqUp(hz, Bound::BelowMidCut(CUT_DISTANCE_HZ))
            } else {
                Nudge::FreqUp(hz, Bound::Hz(FREQ_MAX_HZ))
            }
        } else if low {
            Nudge::FreqDown(hz, Bound::Hz(FREQ_MIN_HZ))
        } else {
            Nudge::FreqDown(hz, Bound::AboveLowCut(CUT_DISTANCE_HZ))
        }
    } else if up {
        Nudge::GainUp(hundredths)
    } else {
        Nudge::GainDown(hundredths)
    }
}

/// The arithmetic on gains and frequencies: sum and difference, the larger and the
/// smaller of two, a value kept between two others, and so many hundredths.
#[derive(Clone, Copy, Debug)]
pub struct Arithmetic<P, N, X, Y, C, H> {
    pub plus: P,
    pub minus: N,
    pub larger: X,
    pub smaller: Y,
    pub clamp: C,
    pub hundredths: H,
}

/// The functions can be applied to all values.
pub open spec fn arithmetic_total<
    R,
    P: Fn(R, R) -> R,
    N: Fn(R, R) -> R,
    X: Fn(R, R) -> R,
    Y: Fn(R, R) -> R,
    C: Fn(R, R, R) -> R,
    H: Fn(u16) -> R,
>(ops: Arithmetic<P, N, X, Y, C, H>) -> bool {
    &&& forall|a: R, b: R| #[trigger] call_requires(ops.plus, (a, b))
    &&& forall|a: R, b: R| #[trigger] call_requires(ops.minus, (a, b))
    &&& forall|a: R, b: R| #[trigger] call_requires(ops.larger, (a, b))
    &&& forall|a: R, b: R| #[trigger] call_requires(ops.smaller, (a, b))
    &&& forall|a: R, b: R, c: R| #[trigger] call_requires(ops.clamp, (a, b, c))
    &&& forall|n: u16| #[trigger] call_requires(ops.hundredths, (n,))
}

/// `r` may be the frequency of a bound.
pub open spec fn bound_is<
    R: From<u16>,
    P: Fn(R, R) -> R,
    N: Fn(R, R) -> R,
    X: Fn(R, R) -> R,
    Y: Fn(R, R) -> R,
    C: Fn(R, R, R) -> R,
    H: Fn(u16) -> R,
>(
    ops: Arithmetic<P, N, X, Y, C, H>,
    cfg: AudioRuntimeConfig<R>,
    bound: Bound,
    r: R,
) -> bool {
    match bound {
        Bound::Hz(n) => is_number(n, r),
        Bound::AboveLowCut(n) => exists|d: R|
            is_number(n, d) && #[trigger] call_ensures(ops.plus, (cfg.low_cut_hz, d), r),
        Bound::BelowMidCut(n) => exists|d: R, below: R, least: R|
            {
                &&& is_number(n, d)
                &&& is_number(FREQ_MIN_HZ, least)
                &&& #[trigger] call_ensures(ops.minus, (cfg.mid_cut_hz, d), below)
                &&& #[trigger] call_ensures(ops.larger, (below, least), r)
            },
    }
}

/// A gain may become `v` when it is changed to `moved` and then kept between the
/// smallest and the largest gain.
pub open spec fn gain_kept<R, C: Fn(R, R, R) -> R, H: Fn(u16) -> R>(
    clamp: C,
    hundredths: H,
    moved: R,
    v: R,
) -> bool {
    exists|least: R, most: R|
        {
            &&& #[trigger] call_ensures(hundredths, (GAIN_MIN_HUNDREDTHS,), least)
            &&& #[trigger] call_ensures(hundredths, (GAIN_MAX_HUNDREDTHS,), most)
            &&& call_ensures(clamp, (moved, least, most), v)
        }
}

/// The selected value may become `v` by the change.
pub open spec fn nudged<
    R: From<u16>,
    P: Fn(R, R) -> R,
    N: Fn(R, R) -> R,
    X: Fn(R, R) -> R,
    Y: Fn(R, R) -> R,
    C: Fn(R, R, R) -> R,
    H: Fn(u16) -> R,
>(
    ops: Arithmetic<P, N, X, Y, C, H>,
    cfg: AudioRuntimeConfig<R>,
    sel: Selected,
    nudge: Nudge,
    v: R,
) -> bool {
    let now = value_of(cfg, sel);
    match nudge {
        Nudge::GainDown(n) => exists|step: R, moved: R|
            {
                &&& call_ensures(ops.hundredths, (n,), step)
                &&& #[trigger] call_ensures(ops.minus, (now, step), moved)
                &&& gain_kept(ops.clamp, ops.hundredths, moved, v)
            },
        Nudge::GainUp(n) => exists|step: R, moved: R|
            {
                &&& call_ensures(ops.hundredths, (n,), step)
                &&& #[trigger] call_ensures(ops.plus, (now, step), moved)
                &&& gain_kept(ops.clamp, ops.hundredths, moved, v)
            },
        Nudge::FreqDown(n, bound) => exists|step: R, moved: R, least: R|
            {
                &&& is_number(n, step)
                &&& bound_is(ops, cfg, bound, least)
                &&& #[trigger] call_ensures(ops.minus, (now, step), moved)
                &&& #[trigger] call_ensures(ops.larger, (moved, least), v)
            },
        Nudge::FreqUp(n, bound) => exists|step: R, moved: R, most: R|
            {
                &&& is_number(n, step)
                &&& bound_is(ops, cfg, bound, most)
                &&& #[trigger] call_ensures(ops.plus, (now, step), moved)
                &&& #[trigger] call_ensures(ops.smaller, (moved, most), v)
            },
    }
}

/// The change is one of a gain where a gain is selected, and one of a cut where a
/// cut is.
pub open spec fn nudge_fits(nudge: Nudge, sel: Selected) -> bool {
    match nudge {
        Nudge::GainDown(_) | Nudge::GainUp(_) => !sel.spec_is_freq(),
        Nudge::FreqDown(..) | Nudge::FreqUp(..) => sel.spec_is_freq(),
    }
}

fn bound_hz<
    R: Copy + From<u16>,
    P: Fn(R, R) -> R,
    N: Fn(R, R) -> R,
    X: Fn(R, R) -> R,
    Y: Fn(R, R) -> R,
    C: Fn(R, R, R) -> R,
    H: Fn(u16) -> R,
>(cfg: &AudioRuntimeConfig<R>, bound: Bound, ops: &Arithmetic<P, N, X, Y, C, H>) -> (r: R)
    requires
        arithmetic_total::<R, P, N, X, Y, C, H>(*ops),
    ensures
        bound_is(*ops, *cfg, bound, r),
{
    match bound {
        Bound::Hz(n) => R::from(n),
        Bound::AboveLowCut(n) => {
            let d = R::from(n);
            (ops.plus)(cfg.low_cut_hz, d)
        },
        Bound::BelowMidCut(n) => {
            let d = R::from(n);
            let below = (ops.minus)(cfg.mid_cut_hz, d);
            let least = R::from(FREQ_MIN_HZ);
            (ops.larger)(below, least)
        },
    }
}

fn kept_gain<R: Copy, C: Fn(R, R, R) -> R, H: Fn(u16) -> R>(
    moved: R,
    clamp: &C,
    hundredths: &H,
) -> (v: R)
    requires
        forall|a: R, b: R, c: R| #[trigger] call_requires(*clamp, (a, b, c)),
        forall|n: u16| #[trigger] call_requires(*hundredths, (n,)),
    ensures
        gain_kept(*clamp, *hundredths, moved, v),
{
    let least = hundredths(GAIN_MIN_HUNDREDTHS);
    let most = hundredths(GAIN_MAX_HUNDREDTHS);
    clamp(moved, least, most)
}

/// Changes the selected value by one step.
pub fn apply_nudge<
    R: Copy + From<u16>,
    P: Fn(R, R) -> R,
    N: Fn(R, R) -> R,
    X: Fn(R, R) -> R,
    Y: Fn(R, R) -> R,
    C: Fn(R, R, R) -> R,
    H: Fn(u16) -> R,
>(
    cfg: &mut AudioRuntimeConfig<R>,
    sel: Selected,
    nudge: Nudge,
    ops: &Arithmetic<P, N, X, Y, C, H>,
)
    requires
        nudge_fits(nudge, sel),
        arithmetic_total::<R, P, N, X, Y, C, H>(*ops),
    ensures
        nudged(*ops, *old(cfg), sel, nudge, value_of(*final(cfg), sel)),
        *final(cfg) == with_value(*old(cfg), sel, value_of(*final(cfg), sel)),
{
    match nudge {
        Nudge::GainDown(n) => {
            let step = (ops.hundredths)(n);
            let v = gain_ref(cfg, sel);
            let moved = (ops.minus)(*v, step);
            *v = kept_gain(moved, &ops.clamp, &ops.hundredths);
        },
        Nudge::GainUp(n) => {
            let step = (ops.hundredths)(n);
            let v = gain_ref(cfg, sel);
            let moved = (ops.plus)(*v, step);
            *v = kept_gain(moved, &ops.clamp, &ops.hundredths);
        },
        Nudge::FreqDown(n, bound) => {
            let least = bound_hz(cfg, bound, ops);
            let step = R::from(n);
            let v = freq_ref(cfg, sel);
            let moved = (ops.minus)(*v, step);
            *v = (ops.larger)(moved, least);
        },
        Nudge::FreqUp(n, bound) => {
            let most = bound_hz(cfg, bound, ops);
            let step = R::from(n);
            let v = freq_ref(cfg, sel);
            let moved = (ops.plus)(*v, step);
            *v = (ops.smaller)(moved, most);
        },
    }
}

/// What the panel asks for after a key.
#[derive(Clone, Copy, Debug, PartialEq, Eq, Structural)]
pub enum Outcome {
    /// Leave the panel.
    Quit,
    /// Nothing to send.
    Unchanged,
    /// The configuration has changed and is to be sent.
    Changed,
    /// The selected value is to be changed, and the configuration sent.
    Nudge(Nudge),
}

/// The control panel: the configuration that it shows, and the selected value.
#[derive(Clone, Copy, Debug)]
pub struct Panel<R> {
    pub cfg: AudioRuntimeConfig<R>,
    pub selected: Selected,
}

/// The command may turn the panel `pre` into `post` with this outcome.
pub open spec fn command_acts<R: From<u16>>(
    pre: Panel<R>,
    command: Command,
    fine: bool,
    post: Panel<R>,
    outcome: Outcome,
) -> bool {
    let sel = pre.selected;
    let switched = if sel.is_band() {
        Outcome::Changed
    } else {
        Outcome::Unchanged
    };
    match command {
        Command::Quit => post == pre && outcome == Outcome::Quit,
        Command::Nothing => post == pre && outcome == Outcome::Unchanged,
        Command::Next => {
            &&& post.cfg == pre.cfg
            &&& post.selected.place() == (sel.place() + 1) % 6
            &&& outcome == Outcome::Unchanged
        },
        Command::Prev => {
            &&& post.cfg == pre.cfg
            &&& post.selected.place() == (sel.place() + 5) % 6
            &&& outcome == Outcome::Unchanged
        },
        Command::Select(s) => post == (Panel { cfg: pre.cfg, selected: s }) && outcome
            == Outcome::Unchanged,
        Command::Mute => post == (Panel { cfg: mute_turned(pre.cfg, sel), selected: sel })
            && outcome == switched,
        Command::Solo => post == (Panel { cfg: solo_turned(pre.cfg, sel), selected: sel })
            && outcome == switched,
        Command::Bypass => post == (Panel { cfg: bypass_turned(pre.cfg, sel), selected: sel })
            && outcome == switched,
        Command::Decrease => post == pre && outcome == Outcome::Nudge(nudge_of(sel, false, fine)),
        Command::Increase => post == pre && outcome == Outcome::Nudge(nudge_of(sel, true, fine)),
        Command::Reset => {
            &&& is_number(default_of(sel), value_of(post.cfg, sel))
            &&& post == (Panel {
                cfg: with_value(pre.cfg, sel, value_of(post.cfg, sel)),
                selected: sel,
            })
            &&& outcome == Outcome::Changed
        },
        Command::ResetAll => {
            &&& post.cfg.is_default()
            &&& post.selected == sel
            &&& outcome == Outcome::Changed
        },
    }
}

/// Turns the mute switch of the selected band over. Gives whether there is one.
pub fn turn_mute<R>(cfg: &mut AudioRuntimeConfig<R>, sel: Selected) -> (r: bool)
    ensures
        *final(cfg) == mute_turned(*old(cfg), sel),
        r == sel.is_band(),
{
    match sel {
        Selected::Low => {
            cfg.low_mute = !cfg.low_mute;
            true
        },
        Selected::Mid => {
            cfg.mid_mute = !cfg.mid_mute;
            true
        },
        Selected::High => {
            cfg.high_mute = !cfg.high_mute;
            true
        },
        _ => false,
    }
}

/// Turns the solo switch of the selected band over and those of the other bands
/// off. Gives whether there is one.
pub fn turn_solo<R>(cfg: &mut AudioRuntimeConfig<R>, sel: Selected) -> (r: bool)
    ensures
        *final(cfg) == solo_turned(*old(cfg), sel),
        r == sel.is_band(),
{
    match sel {
        Selected::Low => {
            cfg.low_solo = !cfg.low_solo;
            cfg.mid_solo = false;
            cfg.high_solo = false;
            true
        },
        Selected::Mid => {
            cfg.mid_solo = !cfg.mid_solo;
            cfg.low_solo = false;
            cfg.high_solo = false;
            true
        },
        Selected::High => {
            cfg.high_solo = !cfg.high_solo;
            cfg.low_solo = false;
            cfg.mid_solo = false;
            true
        },
        _ => false,
    }
}

/// Turns the bypass switch of the selected band over. Gives whether there is one.
pub fn turn_bypass<R>(cfg: &mut AudioRuntimeConfig<R>, sel: Selected) -> (r: bool)
    ensures
        *final(cfg) == bypass_turned(*old(cfg), sel),
        r == sel.is_band(),
{
    match sel {
        Selected::Low => {
            cfg.low_bypass = !cfg.low_bypass;
            true
        },
        Selected::Mid => {
            cfg.mid_bypass = !cfg.mid_bypass;
            true
        },
        Selected::High => {
            cfg.high_bypass = !cfg.high_bypass;
            true
        },
        _ => false,
    }
}

/// Gives the selected value its default.
pub fn reset_value<R: From<u16>>(cfg: &mut AudioRuntimeConfig<R>, sel: Selected)
    ensures
        is_number(default_of(sel), value_of(*final(cfg), sel)),
        *final(cfg) == with_value(*old(cfg), sel, value_of(*final(cfg), sel)),
{
    if sel.is_freq() {
        *freq_ref(cfg, sel) = R::from(default_freq(sel));
    } else {
        *gain_ref(cfg, sel) = R::from(1u16);
    }
}

fn sent_if(changed: bool) -> (r: Outcome)
    ensures
        r == (if changed {
            Outcome::Changed
        } else {
            Outcome::Unchanged
        }),
{
    if changed {
        Outcome::Changed
    } else {
        Outcome::Unchanged
    }
}

impl<R: Copy + From<u16>> Panel<R> {
    /// A panel that shows a configuration, with the master gain selected.
    pub fn new(cfg: AudioRuntimeConfig<R>) -> (p: Self)
        ensures
            p.cfg == cfg,
            p.selected == Selected::Master,
    {
        Panel { cfg, selected: Selected::Master }
    }

    /// Acts on a key that was pressed, with or without the shift key. The other
    /// reports of a key, such as its release, change nothing.
    pub fn handle_key(&mut self, key: Key, pressed: bool, shift: bool) -> (outcome: Outcome)
        ensures
            pressed ==> command_acts(
                *old(self),
                command_of(key),
                shift,
                *final(self),
                outcome,
            ),
            !pressed ==> *final(self) == *old(self) && outcome == Outcome::Unchanged,
    {
        if !pressed {
            return Outcome::Unchanged;
        }
        let sel = self.selected;
        match command(key) {
            Command::Quit => Outcome::Quit,
            Command::Nothing => Outcome::Unchanged,
            Command::Next => {
                self.selected = sel.next();
                Outcome::Unchanged
            },
            Command::Prev => {
                self.selected = sel.prev();
                Outcome::Unchanged
            },
            Command::Select(s) => {
                self.selected = s;
                Outcome::Unchanged
            },
            Command::Mute => sent_if(turn_mute(&mut self.cfg, sel)),
            Command::Solo => sent_if(turn_solo(&mut self.cfg, sel)),
            Command::Bypass => sent_if(turn_bypass(&mut self.cfg, sel)),
            Command::Decrease => Outcome::Nudge(nudge(sel, false, shift)),
            Command::Increase => Outcome::Nudge(nudge(sel, true, shift)),
            Command::Reset => {
                reset_value(&mut self.cfg, sel);
                Outcome::Changed
            },
            Command::ResetAll => {
                self.cfg = AudioRuntimeConfig::default();
                Outcome::Changed
            },
        }
    }
}

/// At most one band is soloed.
pub open spec fn at_most_one_solo<R>(cfg: AudioRuntimeConfig<R>) -> bool {
    &&& !(cfg.low_solo && cfg.mid_solo)
    &&& !(cfg.low_solo && cfg.high_solo)
    &&& !(cfg.mid_solo && cfg.high_solo)
}

/// No command makes two bands soloed, and the solo command on a band leaves at
/// most one, whatever was soloed before.
pub proof fn commands_keep_one_solo<R: From<u16>>(
    pre: Panel<R>,
    command: Command,
    fine: bool,
    post: Panel<R>,
    outcome: Outcome,
)
    requires
        command_acts(pre, command, fine, post, outcome),
    ensures
        at_most_one_solo(pre.cfg) ==> at_most_one_solo(post.cfg),
        command == Command::Solo && pre.selected.is_band() ==> at_most_one_solo(post.cfg),
{
}

/// One command turns the panel `pre` into `post`: it acts, and where it asks for
/// the selected value to be changed, that is done.
pub open spec fn command_done<
    R: From<u16>,
    P: Fn(R, R) -> R,
    N: Fn(R, R) -> R,
    X: Fn(R, R) -> R,
    Y: Fn(R, R) -> R,
    C: Fn(R, R, R) -> R,
    H: Fn(u16) -> R,
>(
    ops: Arithmetic<P, N, X, Y, C, H>,
    pre: Panel<R>,
    command: Command,
    fine: bool,
    acted: Panel<R>,
    outcome: Outcome,
    post: Panel<R>,
) -> bool {
    let sel = acted.selected;
    &&& command_acts(pre, command, fine, acted, outcome)
    &&& post.selected == sel
    &&& match outcome {
        Outcome::Nudge(nudge) => {
            &&& nudged(ops, acted.cfg, sel, nudge, value_of(post.cfg, sel))
            &&& post.cfg == with_value(acted.cfg, sel, value_of(post.cfg, sel))
        },
        _ => post.cfg == acted.cfg,
    }
}

/// From the default settings, the commands are done one after the other; `panels`
/// are the panel before the first command and after each.
pub open spec fn commands_done<
    R: From<u16>,
    P: Fn(R, R) -> R,
    N: Fn(R, R) -> R,
    X: Fn(R, R) -> R,
    Y: Fn(R, R) -> R,
    C: Fn(R, R, R) -> R,
    H: Fn(u16) -> R,
>(
    ops: Arithmetic<P, N, X, Y, C, H>,
    panels: Seq<Panel<R>>,
    commands: Seq<Command>,
    fine: Seq<bool>,
    acted: Seq<Panel<R>>,
    outcomes: Seq<Outcome>,
) -> bool {
    &&& panels[0].cfg.is_default()
    &&& panels.len() == commands.len() + 1
    &&& forall|i: int|
        0 <= i < commands.len() ==> command_done(
            ops,
            panels[i],
            #[trigger] commands[i],
            fine[i],
            acted[i],
            outcomes[i],
            panels[i + 1],
        )
}

/// From the default settings, no row of commands makes two bands soloed: at most
/// one is in every configuration on the way.
pub proof fn one_solo_from_the_default_on<
    R: From<u16>,
    P: Fn(R, R) -> R,
    N: Fn(R, R) -> R,
    X: Fn(R, R) -> R,
    Y: Fn(R, R) -> R,
    C: Fn(R, R, R) -> R,
    H: Fn(u16) -> R,
>(
    ops: Arithmetic<P, N, X, Y, C, H>,
    panels: Seq<Panel<R>>,
    commands: Seq<Command>,
    fine: Seq<bool>,
    acted: Seq<Panel<R>>,
    outcomes: Seq<Outcome>,
    n: int,
)
    requires
        commands_done(ops, panels, commands, fine, acted, outcomes),
        0 <= n < panels.len(),
    ensures
        at_most_one_solo(panels[n].cfg),
    decreases n,
{
    if n > 0 {
        let k = n - 1;
        one_solo_from_the_default_on(ops, panels, commands, fine, acted, outcomes, k);
        assert(command_done(
            ops,
            panels[k],
            commands[k],
            fine[k],
            acted[k],
            outcomes[k],
            panels[n],
        ));
        commands_keep_one_solo(panels[k], commands[k], fine[k], acted[k], outcomes[k]);
    }
}

/// A whole number that is not too large to be computed with exactly.
pub open spec fn computable(x: int) -> bool {
    -100000 <= x <= 100000
}

/// The arithmetic is exact on whole numbers; `hz` tells which one a value is, if
/// it is one.
pub open spec fn exact_on_whole<
    R: From<u16>,
    P: Fn(R, R) -> R,
    N: Fn(R, R) -> R,
    X: Fn(R, R) -> R,
    Y: Fn(R, R) -> R,
    C: Fn(R, R, R) -> R,
    H: Fn(u16) -> R,
>(ops: Arithmetic<P, N, X, Y, C, H>, hz: spec_fn(R) -> Option<int>) -> bool {
    &&& forall|n: u16, r: R| #[trigger] is_number(n, r) ==> hz(r) == Some(n as int)
    &&& forall|a: R, b: R, r: R|
        #[trigger] call_ensures(ops.plus, (a, b), r) && hz(a) is Some && hz(b) is Some
            && computable(hz(a)->0) && computable(hz(b)->0) ==> hz(r) == Some(hz(a)->0 + hz(b)->0)
    &&& forall|a: R, b: R, r: R|
        #[trigger] call_ensures(ops.minus, (a, b), r) && hz(a) is Some && hz(b) is Some
            && computable(hz(a)->0) && computable(hz(b)->0) ==> hz(r) == Some(hz(a)->0 - hz(b)->0)
    &&& forall|a: R, b: R, r: R|
        #[trigger] call_ensures(ops.larger, (a, b), r) && hz(a) is Some && hz(b) is Some ==> hz(r)
            == Some(
            if hz(a)->0 < hz(b)->0 {
                hz(b)->0
            } else {
                hz(a)->0
            },
        )
    &&& forall|a: R, b: R, r: R|
        #[trigger] call_ensures(ops.smaller, (a, b), r) && hz(a) is Some && hz(b) is Some ==> hz(r)
            == Some(
            if hz(a)->0 < hz(b)->0 {
                hz(a)->0
            } else {
                hz(b)->0
            },
        )
}

/// The value is a gain between the smallest and the largest one.
pub open spec fn is_gain<R>(le: spec_fn(R, R) -> bool, least: R, most: R, v: R) -> bool {
    le(least, v) && le(v, most)
}

/// `least` and `most` are the smallest and the largest gain, and the gain one lies
/// between. A step from a gain gives a number, and keeping a number between two
/// others gives one that is between them.
pub open spec fn clamps_gains<
    R: From<u16>,
    P: Fn(R, R) -> R,
    N: Fn(R, R) -> R,
    X: Fn(R, R) -> R,
    Y: Fn(R, R) -> R,
    C: Fn(R, R, R) -> R,
    H: Fn(u16) -> R,
>(
    ops: Arithmetic<P, N, X, Y, C, H>,
    le: spec_fn(R, R) -> bool,
    number: spec_fn(R) -> bool,
    least: R,
    most: R,
) -> bool {
    &&& forall|r: R| #[trigger] call_ensures(ops.hundredths, (GAIN_MIN_HUNDREDTHS,), r) ==> r == least
    &&& forall|r: R| #[trigger] call_ensures(ops.hundredths, (GAIN_MAX_HUNDREDTHS,), r) ==> r == most
    &&& forall|r: R| #[trigger] is_number(1, r) ==> is_gain(le, least, most, r)
    &&& forall|n: u16, v: R, step: R, r: R|
        #[trigger] call_ensures(ops.hundredths, (n,), step) && #[trigger] call_ensures(
            ops.plus,
            (v, step),
            r,
        ) && is_gain(le, least, most, v) ==> number(r)
    &&& forall|n: u16, v: R, step: R, r: R|
        #[trigger] call_ensures(ops.hundredths, (n,), step) && #[trigger] call_ensures(
            ops.minus,
            (v, step),
            r,
        ) && is_gain(le, least, most, v) ==> number(r)
    &&& forall|x: R, r: R|
        #[trigger] call_ensures(ops.clamp, (x, least, most), r) && number(x) ==> is_gain(
            le,
            least,
            most,
            r,
        )
}

/// All gains are between the smallest and the largest one.
pub open spec fn gains_in_range<R>(
    cfg: AudioRuntimeConfig<R>,
    le: spec_fn(R, R) -> bool,
    least: R,
    most: R,
) -> bool {
    &&& is_gain(le, least, most, cfg.volume)
    &&& is_gain(le, least, most, cfg.low_gain)
    &&& is_gain(le, least, most, cfg.mid_gain)
    &&& is_gain(le, least, most, cfg.high_gain)
}

/// Both cuts are whole numbers of Hz between the lowest and the highest frequency;
/// the low cut leaves room for the mid cut above it, and the mid cut leaves room
/// for the low cut below it.
pub open spec fn cuts_in_range<R>(
    cfg: AudioRuntimeConfig<R>,
    hz: spec_fn(R) -> Option<int>,
) -> bool {
    &&& hz(cfg.low_cut_hz) matches Some(low)
    &&& hz(cfg.mid_cut_hz) matches Some(mid)
    &&& FREQ_MIN_HZ <= low <= FREQ_MAX_HZ - CUT_DISTANCE_HZ
    &&& FREQ_MIN_HZ + CUT_DISTANCE_HZ <= mid <= FREQ_MAX_HZ
}

/// The low cut lies below the mid cut by the least distance or more.
pub open spec fn cuts_apart<R>(cfg: AudioRuntimeConfig<R>, hz: spec_fn(R) -> Option<int>) -> bool {
    hz(cfg.low_cut_hz)->0 + CUT_DISTANCE_HZ <= hz(cfg.mid_cut_hz)->0
}

/// A reset of the selected cut would bring the two cuts too close together.
pub open spec fn reset_too_close<R>(panel: Panel<R>, hz: spec_fn(R) -> Option<int>) -> bool {
    ||| panel.selected == Selected::LowCut && hz(panel.cfg.mid_cut_hz)->0 < DEFAULT_LOW_CUT_HZ
        + CUT_DISTANCE_HZ
    ||| panel.selected == Selected::MidCut && hz(panel.cfg.low_cut_hz)->0 + CUT_DISTANCE_HZ
        > DEFAULT_MID_CUT_HZ
}

proof fn lemma_gains_step<
    R: From<u16>,
    P: Fn(R, R) -> R,
    N: Fn(R, R) -> R,
    X: Fn(R, R) -> R,
    Y: Fn(R, R) -> R,
    C: Fn(R, R, R) -> R,
    H: Fn(u16) -> R,
>(
    ops: Arithmetic<P, N, X, Y, C, H>,
    le: spec_fn(R, R) -> bool,
    number: spec_fn(R) -> bool,
    least: R,
    most: R,
    pre: Panel<R>,
    command: Command,
    fine: bool,
    acted: Panel<R>,
    outcome: Outcome,
    post: Panel<R>,
)
    requires
        clamps_gains(ops, le, number, least, most),
        gains_in_range(pre.cfg, le, least, most),
        command_done(ops, pre, command, fine, acted, outcome, post),
    ensures
        gains_in_range(post.cfg, le, least, most),
{
    match outcome {
        Outcome::Nudge(nudge) => {
            if !pre.selected.spec_is_freq() {
                lemma_nudged_gain(
                    ops,
                    le,
                    number,
                    least,
                    most,
                    pre.cfg,
                    pre.selected,
                    nudge,
                    value_of(post.cfg, pre.selected),
                );
            }
        },
        _ => {
            if command == Command::ResetAll {
                assert(post.cfg.is_default());
            }
            if command == Command::Reset {
                assert(is_number(default_of(pre.selected), value_of(post.cfg, pre.selected)));
            }
        },
    }
}

proof fn lemma_nudged_gain<
    R: From<u16>,
    P: Fn(R, R) -> R,
    N: Fn(R, R) -> R,
    X: Fn(R, R) -> R,
    Y: Fn(R, R) -> R,
    C: Fn(R, R, R) -> R,
    H: Fn(u16) -> R,
>(
    ops: Arithmetic<P, N, X, Y, C, H>,
    le: spec_fn(R, R) -> bool,
    number: spec_fn(R) -> bool,
    least: R,
    most: R,
    cfg: AudioRuntimeConfig<R>,
    sel: Selected,
    nudge: Nudge,
    v: R,
)
    requires
        clamps_gains(ops, le, number, least, most),
        is_gain(le, least, most, value_of(cfg, sel)),
        !(nudge is FreqDown) && !(nudge is FreqUp),
        nudged(ops, cfg, sel, nudge, v),
    ensures
        is_gain(le, least, most, v),
{
}

proof fn lemma_cuts_step<
    R: From<u16>,
    P: Fn(R, R) -> R,
    N: Fn(R, R) -> R,
    X: Fn(R, R) -> R,
    Y: Fn(R, R) -> R,
    C: Fn(R, R, R) -> R,
    H: Fn(u16) -> R,
>(
    ops: Arithmetic<P, N, X, Y, C, H>,
    hz: spec_fn(R) -> Option<int>,
    pre: Panel<R>,
    command: Command,
    fine: bool,
    acted: Panel<R>,
    outcome: Outcome,
    post: Panel<R>,
)
    requires
        exact_on_whole(ops, hz),
        cuts_in_range(pre.cfg, hz),
        command_done(ops, pre, command, fine, acted, outcome, post),
    ensures
        cuts_in_range(post.cfg, hz),
        cuts_apart(pre.cfg, hz) && !(command == Command::Reset && reset_too_close(pre, hz))
            ==> cuts_apart(post.cfg, hz),
{
    match outcome {
        Outcome::Nudge(nudge) => {
            if pre.selected.spec_is_freq() {
                lemma_nudged_cut(
                    ops,
                    hz,
                    pre.cfg,
                    pre.selected,
                    command == Command::Increase,
                    fine,
                    value_of(post.cfg, pre.selected),
                );
            }
        },
        _ => {
            if command == Command::ResetAll {
                assert(post.cfg.is_default());
            }
            if command == Command::Reset {
                assert(is_number(default_of(pre.selected), value_of(post.cfg, pre.selected)));
            }
        },
    }
}

proof fn lemma_bound<
    R: From<u16>,
    P: Fn(R, R) -> R,
    N: Fn(R, R) -> R,
    X: Fn(R, R) -> R,
    Y: Fn(R, R) -> R,
    C: Fn(R, R, R) -> R,
    H: Fn(u16) -> R,
>(
    ops: Arithmetic<P, N, X, Y, C, H>,
    hz: spec_fn(R) -> Option<int>,
    cfg: AudioRuntimeConfig<R>,
    bound: Bound,
    r: R,
)
    requires
        exact_on_whole(ops, hz),
        cuts_in_range(cfg, hz),
        bound_is(ops, cfg, bound, r),
    ensures
        hz(r) == Some(
            match bound {
                Bound::Hz(n) => n as int,
                Bound::AboveLowCut(n) => hz(cfg.low_cut_hz)->0 + n,
                Bound::BelowMidCut(n) => if hz(cfg.mid_cut_hz)->0 - n < FREQ_MIN_HZ {
                    FREQ_MIN_HZ as int
                } else {
                    hz(cfg.mid_cut_hz)->0 - n
                },
            },
        ),
{
}

proof fn lemma_nudged_cut<
    R: From<u16>,
    P: Fn(R, R) -> R,
    N: Fn(R, R) -> R,
    X: Fn(R, R) -> R,
    Y: Fn(R, R) -> R,
    C: Fn(R, R, R) -> R,
    H: Fn(u16) -> R,
>(
    ops: Arithmetic<P, N, X, Y, C, H>,
    hz: spec_fn(R) -> Option<int>,
    cfg: AudioRuntimeConfig<R>,
    sel: Selected,
    up: bool,
    fine: bool,
    v: R,
)
    requires
        exact_on_whole(ops, hz),
        cuts_in_range(cfg, hz),
        sel.spec_is_freq(),
        nudged(ops, cfg, sel, nudge_of(sel, up, fine), v),
    ensures
        cuts_in_range(with_value(cfg, sel, v), hz),
        cuts_apart(cfg, hz) ==> cuts_apart(with_value(cfg, sel, v), hz),
{
    let now = value_of(cfg, sel);
    match nudge_of(sel, up, fine) {
        Nudge::FreqDown(n, bound) => {
            let (step, moved, least) = choose|step: R, moved: R, least: R|
                {
                    &&& is_number(n, step)
                    &&& bound_is(ops, cfg, bound, least)
                    &&& #[trigger] call_ensures(ops.minus, (now, step), moved)
                    &&& #[trigger] call_ensures(ops.larger, (moved, least), v)
                };
            lemma_bound(ops, hz, cfg, bound, least);
            assert(hz(moved) == Some(hz(now)->0 - n));
        },
        Nudge::FreqUp(n, bound) => {
            let (step, moved, most) = choose|step: R, moved: R, most: R|
                {
                    &&& is_number(n, step)
                    &&& bound_is(ops, cfg, bound, most)
                    &&& #[trigger] call_ensures(ops.plus, (now, step), moved)
                    &&& #[trigger] call_ensures(ops.smaller, (moved, most), v)
                };
            lemma_bound(ops, hz, cfg, bound, most);
            assert(hz(moved) == Some(hz(now)->0 + n));
        },
        _ => {},
    }
}

/// From the default settings, no row of commands leads a gain out of its range,
/// where the arithmetic keeps a number between two others.
pub proof fn gains_stay_in_range<
    R: From<u16>,
    P: Fn(R, R) -> R,
    N: Fn(R, R) -> R,
    X: Fn(R, R) -> R,
    Y: Fn(R, R) -> R,
    C: Fn(R, R, R) -> R,
    H: Fn(u16) -> R,
>(
    le: spec_fn(R, R) -> bool,
    number: spec_fn(R) -> bool,
    least: R,
    most: R,
    ops: Arithmetic<P, N, X, Y, C, H>,
    panels: Seq<Panel<R>>,
    commands: Seq<Command>,
    fine: Seq<bool>,
    acted: Seq<Panel<R>>,
    outcomes: Seq<Outcome>,
    n: int,
)
    requires
        clamps_gains(ops, le, number, least, most),
        commands_done(ops, panels, commands, fine, acted, outcomes),
        0 <= n < panels.len(),
    ensures
        gains_in_range(panels[n].cfg, le, least, most),
    decreases n,
{
    if n > 0 {
        let k = n - 1;
        gains_stay_in_range(
            le,
            number,
            least,
            most,
            ops,
            panels,
            commands,
            fine,
            acted,
            outcomes,
            k,
        );
        assert(command_done(
            ops,
            panels[k],
            commands[k],
            fine[k],
            acted[k],
            outcomes[k],
            panels[n],
        ));
        lemma_gains_step(
            ops,
            le,
            number,
            least,
            most,
            panels[k],
            commands[k],
            fine[k],
            acted[k],
            outcomes[k],
            panels[n],
        );
    }
}

/// From the default settings, no row of commands leads a cut out of its range,
/// where the arithmetic is exact on whole numbers.
pub proof fn cuts_stay_in_range<
    R: From<u16>,
    P: Fn(R, R) -> R,
    N: Fn(R, R) -> R,
    X: Fn(R, R) -> R,
    Y: Fn(R, R) -> R,
    C: Fn(R, R, R) -> R,
    H: Fn(u16) -> R,
>(
    hz: spec_fn(R) -> Option<int>,
    ops: Arithmetic<P, N, X, Y, C, H>,
    panels: Seq<Panel<R>>,
    commands: Seq<Command>,
    fine: Seq<bool>,
    acted: Seq<Panel<R>>,
    outcomes: Seq<Outcome>,
    n: int,
)
    requires
        exact_on_whole(ops, hz),
        commands_done(ops, panels, commands, fine, acted, outcomes),
        0 <= n < panels.len(),
    ensures
        cuts_in_range(panels[n].cfg, hz),
    decreases n,
{
    if n > 0 {
        let k = n - 1;
        cuts_stay_in_range(hz, ops, panels, commands, fine, acted, outcomes, k);
        assert(command_done(
            ops,
            panels[k],
            commands[k],
            fine[k],
            acted[k],
            outcomes[k],
            panels[n],
        ));
        lemma_cuts_step(
            ops,
            hz,
            panels[k],
            commands[k],
            fine[k],
            acted[k],
            outcomes[k],
            panels[n],
        );
    }
}

/// From the default settings, the cuts keep their distance, unless one of them is
/// reset while the other is too close to its default.
pub proof fn cuts_keep_their_distance<
    R: From<u16>,
    P: Fn(R, R) -> R,
    N: Fn(R, R) -> R,
    X: Fn(R, R) -> R,
    Y: Fn(R, R) -> R,
    C: Fn(R, R, R) -> R,
    H: Fn(u16) -> R,
>(
    hz: spec_fn(R) -> Option<int>,
    ops: Arithmetic<P, N, X, Y, C, H>,
    panels: Seq<Panel<R>>,
    commands: Seq<Command>,
    fine: Seq<bool>,
    acted: Seq<Panel<R>>,
    outcomes: Seq<Outcome>,
    n: int,
)
    requires
        exact_on_whole(ops, hz),
        commands_done(ops, panels, commands, fine, acted, outcomes),
        forall|i: int|
            0 <= i < commands.len() && #[trigger] commands[i] == Command::Reset
                ==> !reset_too_close(panels[i], hz),
        0 <= n < panels.len(),
    ensures
        cuts_apart(panels[n].cfg, hz),
    decreases n,
{
    if n > 0 {
        let k = n - 1;
        cuts_keep_their_distance(hz, ops, panels, commands, fine, acted, outcomes, k);
        cuts_stay_in_range(hz, ops, panels, commands, fine, acted, outcomes, k);
        assert(command_done(
            ops,
            panels[k],
            commands[k],
            fine[k],
            acted[k],
            outcomes[k],
            panels[n],
        ));
        lemma_cuts_step(
            ops,
            hz,
            panels[k],
            commands[k],
            fine[k],
            acted[k],
            outcomes[k],
            panels[n],
        );
    }
}

/// Mute or bypass twice on the same value leads back to the configuration before.
pub proof fn mute_and_bypass_undo_themselves<R>(cfg: AudioRuntimeConfig<R>, sel: Selected)
    ensures
        mute_turned(mute_turned(cfg, sel), sel) == cfg,
        bypass_turned(bypass_turned(cfg, sel), sel) == cfg,
{
}

/// Solo twice on the same value leads back too, unless it is a band and another
/// band was soloed.
pub proof fn solo_undoes_itself_alone<R>(cfg: AudioRuntimeConfig<R>, sel: Selected)
    requires
        sel.is_band() ==> {
            &&& sel != Selected::Low ==> !cfg.low_solo
            &&& sel != Selected::Mid ==> !cfg.mid_solo
            &&& sel != Selected::High ==> !cfg.high_solo
        },
    ensures
        solo_turned(solo_turned(cfg, sel), sel) == cfg,
{
}

/// A command that has nothing to send leaves the configuration as it is, and a
/// command that changes the configuration has it sent.
pub proof fn changes_are_sent<R: From<u16>>(
    pre: Panel<R>,
    command: Command,
    fine: bool,
    post: Panel<R>,
    outcome: Outcome,
)
    requires
        command_acts(pre, command, fine, post, outcome),
    ensures
        outcome != Outcome::Changed ==> post.cfg == pre.cfg,
        post.cfg != pre.cfg ==> outcome == Outcome::Changed,
{
}

/// The mute, solo and bypass switches of the two configurations are the same.
pub open spec fn same_switches<R>(a: AudioRuntimeConfig<R>, b: AudioRuntimeConfig<R>) -> bool {
    &&& a.low_mute == b.low_mute && a.mid_mute == b.mid_mute && a.high_mute == b.high_mute
    &&& a.low_solo == b.low_solo && a.mid_solo == b.mid_solo && a.high_solo == b.high_solo
    &&& a.low_bypass == b.low_bypass && a.mid_bypass == b.mid_bypass && a.high_bypass
        == b.high_bypass
}

/// Apart from the reset of all values, a command keeps every value, but for the
/// selected one where it is reset, and only the three switch commands touch
/// switches.
pub proof fn commands_keep_the_rest<R: From<u16>>(
    pre: Panel<R>,
    command: Command,
    fine: bool,
    post: Panel<R>,
    outcome: Outcome,
    value: Selected,
)
    requires
        command_acts(pre, command, fine, post, outcome),
        command != Command::ResetAll,
    ensures
        value != pre.selected || command != Command::Reset ==> value_of(post.cfg, value)
            == value_of(pre.cfg, value),
        command != Command::Mute && command != Command::Solo && command != Command::Bypass
            ==> same_switches(post.cfg, pre.cfg),
{
}

// ---------------------------------------------------------------------------
// Addresses and messages
// ---------------------------------------------------------------------------
/// The address of the spectrum stream of a server.
pub open spec fn stream_address(base: Seq<char>) -> Seq<char> {
    text::replace_first(text::replace_first(base, "https://"@, "wss://"@), "http://"@, "ws://"@)
        + "/ws/fft"@
}

/// Where to read the status of a server.
pub fn status_url(base: &str) -> (r: String)
    ensures
        r@ == base@ + "/status"@,
{
    text::joined(base, "/status")
}

/// Where to read the configuration of a server.
pub fn config_url(base: &str) -> (r: String)
    ensures
        r@ == base@ + "/config"@,
{
    text::joined(base, "/config")
}

/// Where to send a configuration to a server.
pub fn update_url(base: &str) -> (r: String)
    ensures
        r@ == base@ + "/update_config"@,
{
    text::joined(base, "/update_config")
}

/// The address of the spectrum stream of a server.
pub fn ws_url(base: &str) -> (r: String)
    ensures
        r@ == stream_address(base@),
{
    let secure = text::replaced_first(base, "https://", "wss://");
    let plain = text::replaced_first(secure.as_str(), "http://", "ws://");
    text::joined(plain.as_str(), "/ws/fft")
}

/// What the panel shows after a configuration was sent: nothing where it
/// arrived, and the reason where it did not.
pub fn update_error(failure: Option<&str>) -> (r: Option<String>)
    ensures
        match (failure, r) {
            (None, None) => true,
            (Some(e), Some(m)) => m@ == "update failed: "@ + e@,
            _ => false,
        },
{
    match failure {
        Some(e) => Some(text::joined("update failed: ", e)),
        None => None,
    }
}

} // verus!
