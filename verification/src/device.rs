//! Choice of the output device, of its rate and of its sample format.

use crate::config::OUTPUT_CHANNELS;
use crate::text;
use vstd::prelude::*;

verus! {

/// The rate that is tried first, in frames per second.
pub const PREFERRED_RATE: u32 = 96000;

/// The rate that is tried when the preferred one finds no device.
pub const SECOND_RATE: u32 = 48000;

/// Most channels that real hardware is taken to have. A device with more is a
/// software router.
pub const HONEST_CHANNELS: u16 = 8;

/// How a device wants its samples.
#[derive(Clone, Copy, Debug, PartialEq, Eq, Structural)]
pub enum SampleFormat {
    F32,
    I32,
    U32,
    I16,
    U16,
    /// Any format that the output stage does not write.
    Other,
}

/// One configuration that a device offers.
#[derive(Clone, Copy, Debug, PartialEq, Eq, Structural)]
pub struct OutputConfig {
    pub channels: u16,
    pub min_rate: u32,
    pub max_rate: u32,
    pub format: SampleFormat,
}

/// An output device: its name, and the configurations that it offers. Each is
/// `None` where the device did not answer.
#[derive(Debug)]
pub struct DeviceInfo {
    pub name: Option<String>,
    pub configs: Option<Vec<OutputConfig>>,
}

/// The configuration has all output channels and its range of rates includes
/// `rate`.
pub open spec fn config_fits(c: OutputConfig, rate: u32) -> bool {
    c.channels == OUTPUT_CHANNELS && c.min_rate <= rate <= c.max_rate
}

/// One of the configurations fits at `rate`.
pub open spec fn some_config_fits(cs: Seq<OutputConfig>, rate: u32) -> bool {
    exists|i: int| 0 <= i < cs.len() && config_fits(#[trigger] cs[i], rate)
}

/// The largest channel count among the configurations, zero where there is none.
pub open spec fn most_channels(cs: Seq<OutputConfig>) -> u16
    decreases cs.len(),
{
    if cs.len() == 0 {
        0
    } else if cs.last().channels > most_channels(cs.drop_last()) {
        cs.last().channels
    } else {
        most_channels(cs.drop_last())
    }
}

/// A device name that stands for an HDMI or DisplayPort output.
pub open spec fn names_hdmi_or_dp(name: Seq<char>) -> bool {
    let n = text::lower(name);
    ||| text::find(n, "hdmi"@) is Some
    ||| text::find(n, "displayport"@) is Some
    ||| text::find(n, "dp,"@) is Some
    ||| text::find(n, "nvidia"@) is Some
}

/// A device name that stands for direct access to hardware.
pub open spec fn names_direct(name: Seq<char>) -> bool {
    text::occurs_at(name, "hw:"@, 0)
}

impl DeviceInfo {
    /// The most channels of any configuration.
    pub open spec fn spec_max_channels(self) -> u16 {
        match self.configs {
            Some(cs) => most_channels(cs@),
            None => 0,
        }
    }

    /// Some configuration fits at `rate`.
    pub open spec fn supports(self, rate: u32) -> bool {
        match self.configs {
            Some(cs) => some_config_fits(cs@, rate),
            None => false,
        }
    }

    /// The device has no more channels than real hardware has.
    pub open spec fn honest(self) -> bool {
        self.spec_max_channels() <= HONEST_CHANNELS
    }

    /// The device has the name `n`.
    pub open spec fn named(self, n: Seq<char>) -> bool {
        match self.name {
            Some(m) => m@ == n,
            None => false,
        }
    }

    /// The name of the device, empty where it has none.
    pub open spec fn name_or_empty(self) -> Seq<char> {
        match self.name {
            Some(m) => m@,
            None => Seq::empty(),
        }
    }
}

/// The classes of devices that the search goes through, in this order.
#[derive(Clone, Copy, Debug, PartialEq, Eq, Structural)]
pub enum Tier {
    /// A sound server or a default device: neither direct hardware nor HDMI.
    Auto,
    /// Honest direct hardware that is not HDMI.
    DirectHardware,
    /// Any honest hardware.
    HonestHardware,
}

/// Device `d` belongs to the class, and can play at `rate`.
pub open spec fn qualifies(tier: Tier, d: DeviceInfo, rate: u32) -> bool {
    match tier {
        Tier::Auto => match d.name {
            Some(n) => !names_direct(n@) && !names_hdmi_or_dp(n@) && d.supports(rate),
            None => false,
        },
        Tier::DirectHardware => match d.name {
            Some(n) => d.honest() && !names_hdmi_or_dp(n@) && names_direct(n@) && d.supports(rate),
            None => false,
        },
        Tier::HonestHardware => d.honest() && d.supports(rate),
    }
}

/// The first device at or after `from` that qualifies.
pub open spec fn first_qualified(
    devices: Seq<DeviceInfo>,
    tier: Tier,
    rate: u32,
    from: int,
) -> Option<int>
    decreases devices.len() - from,
{
    if from < 0 || from >= devices.len() {
        None
    } else if qualifies(tier, devices[from], rate) {
        Some(from)
    } else {
        first_qualified(devices, tier, rate, from + 1)
    }
}

/// The first device at or after `from` that has the name.
pub open spec fn first_named(devices: Seq<DeviceInfo>, name: Seq<char>, from: int) -> Option<int>
    decreases devices.len() - from,
{
    if from < 0 || from >= devices.len() {
        None
    } else if devices[from].named(name) {
        Some(from)
    } else {
        first_named(devices, name, from + 1)
    }
}

/// The first device of a class, and the rate: the preferred rate is tried on
/// all devices before the second one.
pub open spec fn tier_choice(devices: Seq<DeviceInfo>, tier: Tier) -> Option<(int, u32)> {
    match first_qualified(devices, tier, PREFERRED_RATE, 0) {
        Some(i) => Some((i, PREFERRED_RATE)),
        None => match first_qualified(devices, tier, SECOND_RATE, 0) {
            Some(i) => Some((i, SECOND_RATE)),
            None => None,
        },
    }
}

/// The best rate at which a device can play.
pub open spec fn best_rate(d: DeviceInfo) -> Option<u32> {
    if d.supports(PREFERRED_RATE) {
        Some(PREFERRED_RATE)
    } else if d.supports(SECOND_RATE) {
        Some(SECOND_RATE)
    } else {
        None
    }
}

/// Why a device was chosen.
#[derive(Clone, Copy, Debug, PartialEq, Eq, Structural)]
pub enum Reason {
    /// It is the configured device.
    Configured,
    /// The search found it in this class.
    Found(Tier),
}

/// Why a configured device was passed over.
#[derive(Clone, Copy, Debug, PartialEq, Eq, Structural)]
pub enum Fallback {
    /// It has no configuration with all output channels at a known rate.
    Unsupported,
    /// No device has that name.
    NotFound,
}

/// The device that the search over the classes gives.
pub open spec fn auto_choice(devices: Seq<DeviceInfo>) -> Option<(Reason, int, u32)> {
    match tier_choice(devices, Tier::Auto) {
        Some((i, rate)) => Some((Reason::Found(Tier::Auto), i, rate)),
        None => match tier_choice(devices, Tier::DirectHardware) {
            Some((i, rate)) => Some((Reason::Found(Tier::DirectHardware), i, rate)),
            None => match tier_choice(devices, Tier::HonestHardware) {
                Some((i, rate)) => Some((Reason::Found(Tier::HonestHardware), i, rate)),
                None => None,
            },
        },
    }
}

/// Why the configured device is passed over, if one is configured and it is.
pub open spec fn fallback(devices: Seq<DeviceInfo>, configured: Seq<char>) -> Option<Fallback> {
    if configured.len() == 0 {
        None
    } else {
        match first_named(devices, configured, 0) {
            Some(i) => match best_rate(devices[i]) {
                Some(_) => None,
                None => Some(Fallback::Unsupported),
            },
            None => Some(Fallback::NotFound),
        }
    }
}

/// The device that is chosen, why, and at which rate.
pub open spec fn choice(devices: Seq<DeviceInfo>, configured: Seq<char>) -> Option<
    (Reason, int, u32),
> {
    if configured.len() > 0 && fallback(devices, configured) is None {
        let i = first_named(devices, configured, 0)->0;
        Some((Reason::Configured, i, best_rate(devices[i])->0))
    } else {
        auto_choice(devices)
    }
}

/// A chosen device.
#[derive(Debug)]
pub struct Pick {
    pub reason: Reason,
    /// Position of the device that was chosen.
    pub found: usize,
    /// Name of the device that was chosen, empty where it has none.
    pub name: String,
    pub rate: u32,
    /// Position of the device that is opened: the first one with that name.
    pub device: Option<usize>,
}

/// The outcome of the device search.
#[derive(Debug)]
pub struct Selection {
    /// Why a configured device was passed over.
    pub fallback: Option<Fallback>,
    pub pick: Option<Pick>,
}

impl Selection {
    /// The outcome is the one that `fallback` and `choice` say, and the device
    /// that is opened is the first one with the name of the chosen one.
    pub open spec fn describes(self, devices: Seq<DeviceInfo>, configured: Seq<char>) -> bool {
        &&& self.fallback == fallback(devices, configured)
        &&& match choice(devices, configured) {
            None => self.pick is None,
            Some((reason, i, rate)) => {
                &&& self.pick matches Some(p)
                &&& p.reason == reason
                &&& p.found == i
                &&& p.rate == rate
                &&& p.name@ == devices[i].name_or_empty()
                &&& match first_named(devices, p.name@, 0) {
                    Some(k) => p.device == Some(k as usize) && k < devices.len(),
                    None => p.device is None,
                }
            },
        }
    }
}

/// What the list of available devices says of one of them.
#[derive(Debug)]
pub struct DeviceSummary {
    pub name: String,
    pub max_channels: u16,
    pub honest: bool,
    pub hdmi: bool,
    /// The known rates at which it can play, preferred one first.
    pub rates: Vec<u32>,
}

/// Whether a configuration fits at a rate.
pub fn fits(c: &OutputConfig, rate: u32) -> (r: bool)
    ensures
        r == config_fits(*c, rate),
{
    c.channels as usize == OUTPUT_CHANNELS && c.min_rate <= rate && rate <= c.max_rate
}

/// The most channels that any configuration of a device has.
pub fn max_channels(d: &DeviceInfo) -> (r: u16)
    ensures
        r == d.spec_max_channels(),
{
    match &d.configs {
        Some(cs) => {
            let mut most: u16 = 0;
            let mut i: usize = 0;
            while i < cs.len()
                invariant
                    i <= cs.len(),
                    most == most_channels(cs@.take(i as int)),
                decreases cs.len() - i,
            {
                proof {
                    assert(cs@.take(i + 1).drop_last() == cs@.take(i as int));
                }
                if cs[i].channels > most {
                    most = cs[i].channels;
                }
                i += 1;
            }
            proof {
                assert(cs@.take(i as int) == cs@);
            }
            most
        },
        None => 0,
    }
}

/// Whether a device has all output channels at a rate.
pub fn supports_6ch_at_rate(d: &DeviceInfo, rate: u32) -> (r: bool)
    ensures
        r == d.supports(rate),
{
    match &d.configs {
        Some(cs) => {
            let mut i: usize = 0;
            while i < cs.len()
                invariant
                    d.configs == Some(*cs),
                    i <= cs.len(),
                    forall|j: int| 0 <= j < i ==> !config_fits(#[trigger] cs@[j], rate),
                decreases cs.len() - i,
            {
                if fits(&cs[i], rate) {
                    proof {
                        assert(some_config_fits(cs@, rate));
                    }
                    return true;
                }
                i += 1;
            }
            false
        },
        None => false,
    }
}

/// Whether a device has no more channels than real hardware has.
pub fn is_honest_hardware(d: &DeviceInfo) -> (r: bool)
    ensures
        r == d.honest(),
{
    max_channels(d) <= HONEST_CHANNELS
}

/// Whether a name stands for an HDMI or DisplayPort output.
pub fn is_hdmi_or_dp(name: &str) -> (r: bool)
    ensures
        r == names_hdmi_or_dp(name@),
{
    let n = text::to_lower(name);
    text::contains(&n, "hdmi") || text::contains(&n, "displayport") || text::contains(&n, "dp,")
        || text::contains(&n, "nvidia")
}

/// What the list of available devices says of a device.
pub fn describe(d: &DeviceInfo) -> (r: DeviceSummary)
    ensures
        r.name@ == (match d.name {
            Some(n) => n@,
            None => "<unknown>"@,
        }),
        r.max_channels == d.spec_max_channels(),
        r.honest == d.honest(),
        r.hdmi == names_hdmi_or_dp(r.name@),
        r.rates@ == seq![PREFERRED_RATE, SECOND_RATE].filter(|rate: u32| d.supports(rate)),
{
    let name = match &d.name {
        Some(n) => n.clone(),
        None => "<unknown>".to_owned(),
    };
    let mut rates: Vec<u32> = Vec::new();
    if supports_6ch_at_rate(d, PREFERRED_RATE) {
        rates.push(PREFERRED_RATE);
    }
    if supports_6ch_at_rate(d, SECOND_RATE) {
        rates.push(SECOND_RATE);
    }
    proof {
        let p = |rate: u32| d.supports(rate);
        let s = seq![PREFERRED_RATE, SECOND_RATE];
        reveal_with_fuel(Seq::filter, 3);
        assert(s.drop_last() == seq![PREFERRED_RATE]);
        assert(s.drop_last().drop_last() == Seq::<u32>::empty());
        assert(rates@ == s.filter(p));
    }
    let hdmi = is_hdmi_or_dp(name.as_str());
    DeviceSummary {
        name,
        max_channels: max_channels(d),
        honest: is_honest_hardware(d),
        hdmi,
        rates,
    }
}

/// Whether a device belongs to a class and can play at a rate.
pub fn in_tier(tier: Tier, d: &DeviceInfo, rate: u32) -> (r: bool)
    ensures
        r == qualifies(tier, *d, rate),
{
    match tier {
        Tier::Auto => match &d.name {
            Some(n) => {
                let v = text::chars_of(n.as_str());
                !text::starts_with(&v, "hw:") && !is_hdmi_or_dp(n.as_str()) && supports_6ch_at_rate(
                    d,
                    rate,
                )
            },
            None => false,
        },
        Tier::DirectHardware => match &d.name {
            Some(n) => {
                let v = text::chars_of(n.as_str());
                is_honest_hardware(d) && !is_hdmi_or_dp(n.as_str()) && text::starts_with(&v, "hw:")
                    && supports_6ch_at_rate(d, rate)
            },
            None => false,
        },
        Tier::HonestHardware => is_honest_hardware(d) && supports_6ch_at_rate(d, rate),
    }
}

fn find_in_tier(devices: &Vec<DeviceInfo>, tier: Tier) -> (r: Option<(usize, u32)>)
    ensures
        match r {
            Some((i, rate)) => i < devices.len() && tier_choice(devices@, tier) == Some(
                (i as int, rate),
            ),
            None => tier_choice(devices@, tier) is None,
        },
{
    match find_at_rate(devices, tier, PREFERRED_RATE) {
        Some(i) => Some((i, PREFERRED_RATE)),
        None => match find_at_rate(devices, tier, SECOND_RATE) {
            Some(i) => Some((i, SECOND_RATE)),
            None => None,
        },
    }
}

fn find_at_rate(devices: &Vec<DeviceInfo>, tier: Tier, rate: u32) -> (r: Option<usize>)
    ensures
        match r {
            Some(i) => i < devices.len() && first_qualified(devices@, tier, rate, 0) == Some(
                i as int,
            ),
            None => first_qualified(devices@, tier, rate, 0) is None,
        },
{
    let mut i: usize = 0;
    while i < devices.len()
        invariant
            i <= devices.len(),
            first_qualified(devices@, tier, rate, 0) == first_qualified(
                devices@,
                tier,
                rate,
                i as int,
            ),
        decreases devices.len() - i,
    {
        if in_tier(tier, &devices[i], rate) {
            return Some(i);
        }
        i += 1;
    }
    None
}

fn find_named(devices: &Vec<DeviceInfo>, name: &str) -> (r: Option<usize>)
    ensures
        match r {
            Some(i) => i < devices.len() && first_named(devices@, name@, 0) == Some(i as int),
            None => first_named(devices@, name@, 0) is None,
        },
{
    let mut i: usize = 0;
    while i < devices.len()
        invariant
            i <= devices.len(),
            first_named(devices@, name@, 0) == first_named(devices@, name@, i as int),
        decreases devices.len() - i,
    {
        let hit = match &devices[i].name {
            Some(m) => text::same(m.as_str(), name),
            None => false,
        };
        if hit {
            return Some(i);
        }
        i += 1;
    }
    None
}

fn pick_device(devices: &Vec<DeviceInfo>, reason: Reason, found: usize, rate: u32) -> (p: Pick)
    requires
        found < devices.len(),
    ensures
        p.reason == reason,
        p.found == found,
        p.rate == rate,
        p.name@ == devices@[found as int].name_or_empty(),
        match first_named(devices@, p.name@, 0) {
            Some(k) => p.device == Some(k as usize) && k < devices.len(),
            None => p.device is None,
        },
{
    let name = match &devices[found].name {
        Some(n) => n.clone(),
        None => String::new(),
    };
    let device = find_named(devices, name.as_str());
    Pick { reason, found, name, rate, device }
}

/// Chooses the output device. A configured device is taken if it exists and can
/// play; otherwise the classes of devices are searched in order.
pub fn select_device(devices: &Vec<DeviceInfo>, configured: &str) -> (r: Selection)
    ensures
        r.describes(devices@, configured@),
{
    let mut passed_over: Option<Fallback> = None;
    if !configured.is_empty() {
        match find_named(devices, configured) {
            Some(i) => {
                if supports_6ch_at_rate(&devices[i], PREFERRED_RATE) {
                    let p = pick_device(devices, Reason::Configured, i, PREFERRED_RATE);
                    return Selection { fallback: None, pick: Some(p) };
                }
                if supports_6ch_at_rate(&devices[i], SECOND_RATE) {
                    let p = pick_device(devices, Reason::Configured, i, SECOND_RATE);
                    return Selection { fallback: None, pick: Some(p) };
                }
                passed_over = Some(Fallback::Unsupported);
            },
            None => {
                passed_over = Some(Fallback::NotFound);
            },
        }
    }
    match find_in_tier(devices, Tier::Auto) {
        Some((i, rate)) => {
            let p = pick_device(devices, Reason::Found(Tier::Auto), i, rate);
            return Selection { fallback: passed_over, pick: Some(p) };
        },
        None => {},
    }
    match find_in_tier(devices, Tier::DirectHardware) {
        Some((i, rate)) => {
            let p = pick_device(devices, Reason::Found(Tier::DirectHardware), i, rate);
            return Selection { fallback: passed_over, pick: Some(p) };
        },
        None => {},
    }
    match find_in_tier(devices, Tier::HonestHardware) {
        Some((i, rate)) => {
            let p = pick_device(devices, Reason::Found(Tier::HonestHardware), i, rate);
            return Selection { fallback: passed_over, pick: Some(p) };
        },
        None => {},
    }
    Selection { fallback: passed_over, pick: None }
}

/// How much a format is wanted: the higher, the more.
pub open spec fn format_rank(f: SampleFormat) -> int {
    match f {
        SampleFormat::F32 => 5,
        SampleFormat::I32 => 4,
        SampleFormat::U32 => 3,
        SampleFormat::I16 => 2,
        SampleFormat::U16 => 1,
        SampleFormat::Other => 0,
    }
}

/// Configuration `i` fits at the rate, no fitting one has a format that is
/// wanted more, and none behind it has one that is wanted as much.
pub open spec fn is_best_config(cs: Seq<OutputConfig>, rate: u32, i: int) -> bool {
    &&& 0 <= i < cs.len()
    &&& config_fits(cs[i], rate)
    &&& forall|j: int|
        0 <= j < cs.len() && config_fits(#[trigger] cs[j], rate) ==> {
            &&& format_rank(cs[j].format) <= format_rank(cs[i].format)
            &&& i < j ==> format_rank(cs[j].format) < format_rank(cs[i].format)
        }
}

fn rank_of(f: SampleFormat) -> (r: u8)
    ensures
        r == format_rank(f),
{
    match f {
        SampleFormat::F32 => 5,
        SampleFormat::I32 => 4,
        SampleFormat::U32 => 3,
        SampleFormat::I16 => 2,
        SampleFormat::U16 => 1,
        SampleFormat::Other => 0,
    }
}

/// The position of the configuration to open at a rate: among those that fit,
/// the last one of the most wanted format.
pub fn best_config(cs: &Vec<OutputConfig>, rate: u32) -> (r: Option<usize>)
    ensures
        match r {
            Some(i) => is_best_config(cs@, rate, i as int),
            None => !some_config_fits(cs@, rate),
        },
{
    let mut best: Option<usize> = None;
    let mut i: usize = 0;
    while i < cs.len()
        invariant
            i <= cs.len(),
            match best {
                Some(b) => is_best_config(cs@.take(i as int), rate, b as int),
                None => forall|j: int| 0 <= j < i ==> !config_fits(#[trigger] cs@[j], rate),
            },
        decreases cs.len() - i,
    {
        let ghost before = cs@.take(i as int);
        let ghost after = cs@.take(i + 1);
        proof {
            assert(forall|j: int| 0 <= j < i ==> #[trigger] after[j] == before[j]);
            assert(forall|j: int| 0 <= j < i ==> #[trigger] after[j] == cs@[j]);
            assert(after[i as int] == cs@[i as int]);
        }
        if fits(&cs[i], rate) {
            best = match best {
                None => Some(i),
                Some(b) => if rank_of(cs[i].format) >= rank_of(cs[b].format) {
                    Some(i)
                } else {
                    Some(b)
                },
            };
        }
        i += 1;
    }
    proof {
        assert(cs@.take(i as int) == cs@);
    }
    best
}

/// The format in which the output stage writes: the one of the device where it
/// can, 32-bit floating point otherwise.
pub open spec fn written_format(f: SampleFormat) -> SampleFormat {
    if f == SampleFormat::Other {
        SampleFormat::F32
    } else {
        f
    }
}

/// The format in which the output stage writes to a device of format `f`.
pub fn stream_format(f: SampleFormat) -> (r: SampleFormat)
    ensures
        r == written_format(f),
{
    match f {
        SampleFormat::Other => SampleFormat::F32,
        _ => f,
    }
}

// ---------------------------------------------------------------------------
// What holds of the choice
// ---------------------------------------------------------------------------

pub proof fn lemma_first_qualified(devices: Seq<DeviceInfo>, tier: Tier, rate: u32, from: int)
    requires
        0 <= from,
    ensures
        match first_qualified(devices, tier, rate, from) {
            Some(i) => from <= i < devices.len() && qualifies(tier, devices[i], rate) && forall|
                j: int,
            |
                from <= j < i ==> !qualifies(tier, #[trigger] devices[j], rate),
            None => forall|j: int|
                from <= j < devices.len() ==> !qualifies(tier, #[trigger] devices[j], rate),
        },
    decreases devices.len() - from,
{
    if from < devices.len() && !qualifies(tier, devices[from], rate) {
        lemma_first_qualified(devices, tier, rate, from + 1);
    }
}

pub proof fn lemma_first_named(devices: Seq<DeviceInfo>, name: Seq<char>, from: int)
    requires
        0 <= from,
    ensures
        match first_named(devices, name, from) {
            Some(i) => from <= i < devices.len() && devices[i].named(name) && forall|j: int|
                from <= j < i ==> !(#[trigger] devices[j]).named(name),
            None => forall|j: int|
                from <= j < devices.len() ==> !(#[trigger] devices[j]).named(name),
        },
    decreases devices.len() - from,
{
    if from < devices.len() && !devices[from].named(name) {
        lemma_first_named(devices, name, from + 1);
    }
}

/// The chosen device can play all output channels at the chosen rate, which is
/// one of the two known rates.
pub proof fn chosen_device_can_play(devices: Seq<DeviceInfo>, configured: Seq<char>)
    ensures
        match choice(devices, configured) {
            Some((_, i, rate)) => {
                &&& 0 <= i < devices.len()
                &&& devices[i].supports(rate)
                &&& rate == PREFERRED_RATE || rate == SECOND_RATE
            },
            None => true,
        },
{
    lemma_first_named(devices, configured, 0);
    lemma_all_tiers(devices);
}

proof fn lemma_all_tiers(devices: Seq<DeviceInfo>)
    ensures
        forall|t: Tier|
            match #[trigger] tier_choice(devices, t) {
                Some((i, rate)) => {
                    &&& 0 <= i < devices.len()
                    &&& qualifies(t, devices[i], rate)
                    &&& rate == PREFERRED_RATE || rate == SECOND_RATE
                    &&& forall|j: int|
                        0 <= j < i ==> !qualifies(t, #[trigger] devices[j], rate)
                    &&& rate == SECOND_RATE ==> forall|j: int|
                        0 <= j < devices.len() ==> !qualifies(
                            t,
                            #[trigger] devices[j],
                            PREFERRED_RATE,
                        )
                },
                None => forall|j: int|
                    0 <= j < devices.len() ==> !qualifies(
                        t,
                        #[trigger] devices[j],
                        PREFERRED_RATE,
                    ) && !qualifies(t, devices[j], SECOND_RATE),
            },
{
    assert forall|t: Tier|
        match #[trigger] tier_choice(devices, t) {
            Some((i, rate)) => {
                &&& 0 <= i < devices.len()
                &&& qualifies(t, devices[i], rate)
                &&& rate == PREFERRED_RATE || rate == SECOND_RATE
                &&& forall|j: int| 0 <= j < i ==> !qualifies(t, #[trigger] devices[j], rate)
                &&& rate == SECOND_RATE ==> forall|j: int|
                    0 <= j < devices.len() ==> !qualifies(t, #[trigger] devices[j], PREFERRED_RATE)
            },
            None => forall|j: int|
                0 <= j < devices.len() ==> !qualifies(t, #[trigger] devices[j], PREFERRED_RATE)
                    && !qualifies(t, devices[j], SECOND_RATE),
        } by {
        lemma_first_qualified(devices, t, PREFERRED_RATE, 0);
        lemma_first_qualified(devices, t, SECOND_RATE, 0);
    }
}

/// The search takes a device of a later class only where no device qualifies in
/// an earlier one at either rate, and the second rate only where no device of
/// the class can play at the preferred one. It finds nothing only where no
/// device qualifies in any class.
pub proof fn search_follows_the_order(devices: Seq<DeviceInfo>)
    ensures
        match auto_choice(devices) {
            Some((Reason::Found(t), i, rate)) => {
                &&& 0 <= i < devices.len()
                &&& qualifies(t, devices[i], rate)
                &&& forall|j: int| 0 <= j < i ==> !qualifies(t, #[trigger] devices[j], rate)
                &&& rate == SECOND_RATE ==> forall|j: int|
                    0 <= j < devices.len() ==> !qualifies(t, #[trigger] devices[j], PREFERRED_RATE)
                &&& t != Tier::Auto ==> no_device_in(devices, Tier::Auto)
                &&& t == Tier::HonestHardware ==> no_device_in(devices, Tier::DirectHardware)
            },
            Some(_) => false,
            None => no_device_in(devices, Tier::Auto) && no_device_in(devices, Tier::DirectHardware)
                && no_device_in(devices, Tier::HonestHardware),
        },
{
    lemma_all_tiers(devices);
}

/// No device qualifies in the class, at either rate.
pub open spec fn no_device_in(devices: Seq<DeviceInfo>, tier: Tier) -> bool {
    forall|j: int|
        0 <= j < devices.len() ==> !qualifies(tier, #[trigger] devices[j], PREFERRED_RATE)
            && !qualifies(tier, devices[j], SECOND_RATE)
}

/// A device with more channels than real hardware has is never chosen for
/// direct access, and an HDMI device only as a last resort.
pub proof fn search_avoids_routers_and_hdmi(devices: Seq<DeviceInfo>)
    ensures
        match auto_choice(devices) {
            Some((Reason::Found(t), i, _)) => {
                &&& t != Tier::Auto ==> devices[i].honest()
                &&& t != Tier::HonestHardware ==> !names_hdmi_or_dp(devices[i].name_or_empty())
                &&& t == Tier::DirectHardware ==> names_direct(devices[i].name_or_empty())
                &&& t == Tier::Auto ==> !names_direct(devices[i].name_or_empty())
            },
            _ => true,
        },
{
    lemma_all_tiers(devices);
}

/// The device that is opened has the name of the chosen one and stands at or
/// before it; where names are unique it is the chosen one.
pub proof fn opened_device_has_the_chosen_name(
    devices: Seq<DeviceInfo>,
    configured: Seq<char>,
    s: Selection,
)
    requires
        s.describes(devices, configured),
    ensures
        s.pick matches Some(p) ==> {
            &&& p.found < devices.len()
            &&& devices[p.found as int].name is Some ==> {
                &&& p.device matches Some(k)
                &&& k <= p.found
                &&& devices[k as int].named(p.name@)
            }
            &&& devices[p.found as int].name is Some && (forall|j: int|
                0 <= j < devices.len() && j != p.found ==> !(#[trigger] devices[j]).named(p.name@))
                ==> p.device == Some(p.found)
        },
{
    chosen_device_can_play(devices, configured);
    if let Some(p) = s.pick {
        lemma_first_named(devices, p.name@, 0);
        let d = devices[p.found as int];
        if d.name is Some {
            assert(d.named(p.name@));
        }
    }
}

/// With a device configured that exists and can play, that device is chosen,
/// whatever the other devices are.
pub proof fn configured_device_wins(devices: Seq<DeviceInfo>, configured: Seq<char>, i: int)
    requires
        configured.len() > 0,
        0 <= i < devices.len(),
        devices[i].named(configured),
        forall|j: int| 0 <= j < i ==> !(#[trigger] devices[j]).named(configured),
        devices[i].supports(PREFERRED_RATE) || devices[i].supports(SECOND_RATE),
    ensures
        choice(devices, configured) == Some(
            (
                Reason::Configured,
                i,
                if devices[i].supports(PREFERRED_RATE) {
                    PREFERRED_RATE
                } else {
                    SECOND_RATE
                },
            ),
        ),
        fallback(devices, configured) is None,
{
    lemma_first_named(devices, configured, 0);
}

} // verus!
