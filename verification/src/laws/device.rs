//! Laws of the choice of the output device.

use crate::device::{
    best_config, best_rate, choice, config_fits, describe, fits, first_named, first_qualified,
    format_rank, in_tier, is_hdmi_or_dp, is_honest_hardware, lemma_first_named,
    lemma_first_qualified, max_channels, most_channels, names_direct, names_hdmi_or_dp, qualifies,
    select_device, some_config_fits, stream_format, supports_6ch_at_rate, tier_choice, DeviceInfo,
    DeviceSummary, Fallback, OutputConfig, Pick, Reason, SampleFormat, Selection, Tier,
};
use crate::laws::text::{find_is_first, occurs_is_reads, reads};
use vstd::prelude::*;

verus! {

// ---------------------------------------------------------------------------
// One device
// ---------------------------------------------------------------------------
/// The device offers six channels at the rate.
pub open spec fn plays(d: DeviceInfo, rate: u32) -> bool {
    &&& d.configs is Some
    &&& exists|i: int|
        0 <= i < d.configs->0@.len() && (#[trigger] d.configs->0@[i]).channels == 6
            && d.configs->0@[i].min_rate <= rate && rate <= d.configs->0@[i].max_rate
}

/// None of the configurations of the device has more than eight channels.
pub open spec fn eight_at_most(d: DeviceInfo) -> bool {
    d.configs is Some ==> forall|i: int|
        0 <= i < d.configs->0@.len() ==> (#[trigger] d.configs->0@[i]).channels <= 8
}

/// A character in small letters is this one.
pub open spec fn small_is(c: char, small: char) -> bool {
    small as int == (if 65 <= c as int <= 90 {
        c as int + 32
    } else {
        c as int
    })
}

/// The word stands in the name at position `i`, in small letters or capitals.
pub open spec fn spells(name: Seq<char>, i: int, word: Seq<char>) -> bool {
    &&& 0 <= i
    &&& i + word.len() <= name.len()
    &&& forall|k: int| 0 <= k < word.len() ==> small_is(name[i + k], #[trigger] word[k])
}

/// The word stands somewhere in the name.
pub open spec fn speaks_of(name: Seq<char>, word: Seq<char>) -> bool {
    exists|i: int| #[trigger] spells(name, i, word)
}

/// The name has one of the four words by which HDMI and DisplayPort outputs go.
pub open spec fn is_screen(name: Seq<char>) -> bool {
    ||| speaks_of(name, seq!['h', 'd', 'm', 'i'])
    ||| speaks_of(name, seq!['d', 'i', 's', 'p', 'l', 'a', 'y', 'p', 'o', 'r', 't'])
    ||| speaks_of(name, seq!['d', 'p', ','])
    ||| speaks_of(name, seq!['n', 'v', 'i', 'd', 'i', 'a'])
}

/// The name begins with `hw:`.
pub open spec fn is_raw(name: Seq<char>) -> bool {
    name.len() >= 3 && name[0] == 'h' && name[1] == 'w' && name[2] == ':'
}

proof fn lemma_spells(name: Seq<char>, word: Seq<char>)
    ensures
        crate::text::find(crate::text::lower(name), word) is Some <==> speaks_of(name, word),
{
    let n = crate::text::lower(name);
    find_is_first(n, word, 0);
    assert forall|i: int| reads(n, i, word) <==> #[trigger] spells(name, i, word) by {
        if reads(n, i, word) {
            assert forall|k: int| 0 <= k < word.len() implies small_is(
                name[i + k],
                #[trigger] word[k],
            ) by {
                assert(n[i + k] == word[k]);
            }
        }
        if spells(name, i, word) {
            assert forall|k: int| 0 <= k < word.len() implies n[i + k] == #[trigger] word[k] by {
                assert(small_is(name[i + k], word[k]));
            }
        }
    }
    if let Some(i) = crate::text::find(n, word) {
        assert(spells(name, i, word));
    }
    if speaks_of(name, word) {
        let i = choose|i: int| #[trigger] spells(name, i, word);
        assert(reads(n, i, word));
    }
}

proof fn lemma_names(name: Seq<char>)
    ensures
        names_hdmi_or_dp(name) <==> is_screen(name),
        names_direct(name) <==> is_raw(name),
{
    reveal_strlit("hdmi");
    reveal_strlit("displayport");
    reveal_strlit("dp,");
    reveal_strlit("nvidia");
    reveal_strlit("hw:");
    assert("hdmi"@ == seq!['h', 'd', 'm', 'i']);
    assert("displayport"@ == seq!['d', 'i', 's', 'p', 'l', 'a', 'y', 'p', 'o', 'r', 't']);
    assert("dp,"@ == seq!['d', 'p', ',']);
    assert("nvidia"@ == seq!['n', 'v', 'i', 'd', 'i', 'a']);
    assert("hw:"@ == seq!['h', 'w', ':']);
    lemma_spells(name, "hdmi"@);
    lemma_spells(name, "displayport"@);
    lemma_spells(name, "dp,"@);
    lemma_spells(name, "nvidia"@);
    occurs_is_reads(name, "hw:"@, 0);
    if is_raw(name) {
        assert forall|k: int| 0 <= k < 3 implies name[0 + k] == #[trigger] "hw:"@[k] by {}
        assert(reads(name, 0, "hw:"@));
    }
    if reads(name, 0, "hw:"@) {
        let word = "hw:"@;
        assert(name[0] == word[0] && name[1] == word[1] && name[2] == word[2]);
    }
}

proof fn lemma_most(cs: Seq<OutputConfig>)
    ensures
        forall|i: int| 0 <= i < cs.len() ==> (#[trigger] cs[i]).channels <= most_channels(cs),
        cs.len() == 0 ==> most_channels(cs) == 0,
        most_channels(cs) > 0 ==> exists|i: int|
            0 <= i < cs.len() && (#[trigger] cs[i]).channels == most_channels(cs),
    decreases cs.len(),
{
    if cs.len() > 0 {
        let init = cs.drop_last();
        lemma_most(init);
        assert forall|i: int| 0 <= i < cs.len() implies (#[trigger] cs[i]).channels
            <= most_channels(cs) by {
            if i < init.len() {
                assert(init[i] == cs[i]);
            }
        }
        if most_channels(cs) > 0 {
            if cs.last().channels > most_channels(init) {
                assert(cs[cs.len() - 1].channels == most_channels(cs));
            } else {
                let i = choose|i: int|
                    0 <= i < init.len() && (#[trigger] init[i]).channels == most_channels(init);
                assert(cs[i].channels == most_channels(cs));
            }
        }
    }
}

proof fn lemma_device(d: DeviceInfo, rate: u32)
    ensures
        d.supports(rate) <==> plays(d, rate),
        d.honest() <==> eight_at_most(d),
{
    if d.configs is Some {
        let cs = d.configs->0@;
        lemma_most(cs);
        if d.supports(rate) {
            let i = choose|i: int| 0 <= i < cs.len() && config_fits(#[trigger] cs[i], rate);
            assert(d.configs->0@[i].channels == 6);
        }
        if plays(d, rate) {
            let i = choose|i: int|
                0 <= i < d.configs->0@.len() && (#[trigger] d.configs->0@[i]).channels == 6
                    && d.configs->0@[i].min_rate <= rate && rate <= d.configs->0@[i].max_rate;
            assert(config_fits(cs[i], rate));
        }
    }
}

/// A configuration fits exactly where it has six channels and the rate lies in its
/// range; a device can play exactly where one of its configurations fits.
pub proof fn a_device_plays_what_it_offers(
    c: OutputConfig,
    d: DeviceInfo,
    rate: u32,
    one: bool,
    any: bool,
)
    requires
        call_ensures(fits, (&c, rate), one),
        call_ensures(supports_6ch_at_rate, (&d, rate), any),
    ensures
        one <==> c.channels == 6 && c.min_rate <= rate && rate <= c.max_rate,
        any <==> plays(d, rate),
{
    lemma_device(d, rate);
}

/// The most channels of a device are as many as one of its configurations has, and
/// none has more; a device is honest exactly where none has more than eight.
pub proof fn the_most_channels_are_the_most(d: DeviceInfo, most: u16, honest: bool)
    requires
        call_ensures(max_channels, (&d,), most),
        call_ensures(is_honest_hardware, (&d,), honest),
    ensures
        d.configs is Some ==> {
            &&& forall|i: int|
                0 <= i < d.configs->0@.len() ==> (#[trigger] d.configs->0@[i]).channels <= most
            &&& most > 0 ==> exists|i: int|
                0 <= i < d.configs->0@.len() && (#[trigger] d.configs->0@[i]).channels == most
        },
        d.configs is None ==> most == 0,
        honest <==> eight_at_most(d),
{
    lemma_device(d, 0);
    if d.configs is Some {
        lemma_most(d.configs->0@);
    }
}

/// A name stands for an HDMI or DisplayPort output exactly where it has one of the
/// words hdmi, displayport, dp with a comma, and nvidia, in small letters or
/// capitals.
pub proof fn screens_go_by_four_words(name: &str, r: bool)
    requires
        call_ensures(is_hdmi_or_dp, (name,), r),
    ensures
        r <==> is_screen(name@),
{
    lemma_names(name@);
}

/// A sound server or default device has a name, which neither begins with `hw:` nor
/// is that of a screen.
pub open spec fn is_server(d: DeviceInfo) -> bool {
    d.name is Some && !is_raw(d.name->0@) && !is_screen(d.name->0@)
}

/// Direct hardware has a name that begins with `hw:` and is not that of a screen,
/// and no more than eight channels.
pub open spec fn is_hardware(d: DeviceInfo) -> bool {
    d.name is Some && is_raw(d.name->0@) && !is_screen(d.name->0@) && eight_at_most(d)
}

/// The device is of the class.
pub open spec fn is_of(tier: Tier, d: DeviceInfo) -> bool {
    match tier {
        Tier::Auto => is_server(d),
        Tier::DirectHardware => is_hardware(d),
        Tier::HonestHardware => eight_at_most(d),
    }
}

proof fn lemma_qualifies(tier: Tier, d: DeviceInfo, rate: u32)
    ensures
        qualifies(tier, d, rate) <==> is_of(tier, d) && plays(d, rate),
{
    lemma_device(d, rate);
    if d.name is Some {
        lemma_names(d.name->0@);
    }
}

/// A device counts for a class at a rate exactly where it is of that class and can
/// play at that rate.
pub proof fn classes_go_by_name_and_channels(tier: Tier, d: DeviceInfo, rate: u32, r: bool)
    requires
        call_ensures(in_tier, (tier, &d, rate), r),
    ensures
        r <==> is_of(tier, d) && plays(d, rate),
{
    lemma_qualifies(tier, d, rate);
}

/// The summary of a device says what holds of it.
pub proof fn summaries_are_true(d: DeviceInfo, r: DeviceSummary)
    requires
        call_ensures(describe, (&d,), r),
    ensures
        d.name is Some ==> r.name@ == d.name->0@,
        d.name is None ==> r.name@ == seq!['<', 'u', 'n', 'k', 'n', 'o', 'w', 'n', '>'],
        r.honest <==> eight_at_most(d),
        r.hdmi <==> is_screen(r.name@),
        r.rates@.contains(96000) <==> plays(d, 96000),
        r.rates@.contains(48000) <==> plays(d, 48000),
        plays(d, 96000) ==> r.rates@[0] == 96000,
        r.rates@.len() == (if plays(d, 96000) {
            1int
        } else {
            0
        }) + (if plays(d, 48000) {
            1int
        } else {
            0
        }),
{
    lemma_device(d, 96000);
    lemma_device(d, 48000);
    lemma_names(r.name@);
    reveal_strlit("<unknown>");
    if d.name is None {
        assert(r.name@ == seq!['<', 'u', 'n', 'k', 'n', 'o', 'w', 'n', '>']);
    }
    let p = |rate: u32| d.supports(rate);
    let s = seq![96000u32, 48000u32];
    assert(r.rates@ == s.filter(p));
    reveal_with_fuel(Seq::filter, 3);
    assert(s.drop_last() == seq![96000u32]);
    assert(s.drop_last().drop_last() == Seq::<u32>::empty());
    let e = Seq::<u32>::empty();
    if p(96000) && p(48000) {
        assert(r.rates@ == seq![96000u32, 48000u32]);
        assert(r.rates@[0] == 96000 && r.rates@[1] == 48000);
    } else if p(96000) {
        assert(r.rates@ == seq![96000u32]);
        assert(r.rates@[0] == 96000);
    } else if p(48000) {
        assert(r.rates@ == seq![48000u32]);
        assert(r.rates@[0] == 48000);
    } else {
        assert(r.rates@ == e);
    }
}

// ---------------------------------------------------------------------------
// The choice
// ---------------------------------------------------------------------------
/// A device of the class can play at the rate.
pub open spec fn some_device(devices: Seq<DeviceInfo>, tier: Tier, rate: u32) -> bool {
    exists|i: int|
        0 <= i < devices.len() && is_of(tier, #[trigger] devices[i]) && plays(devices[i], rate)
}

/// A device of the class can play at one of the two rates.
pub open spec fn any_device(devices: Seq<DeviceInfo>, tier: Tier) -> bool {
    some_device(devices, tier, 96000) || some_device(devices, tier, 48000)
}

/// Device `i` is the first of its class that can play at the rate, and no device of
/// the class can play at the higher rate where this is the lower one.
pub open spec fn best_of(devices: Seq<DeviceInfo>, tier: Tier, i: int, rate: u32) -> bool {
    &&& 0 <= i < devices.len()
    &&& is_of(tier, devices[i])
    &&& plays(devices[i], rate)
    &&& forall|j: int| 0 <= j < i && is_of(tier, #[trigger] devices[j]) ==> !plays(devices[j], rate)
    &&& rate == 96000 || rate == 48000 && !some_device(devices, tier, 96000)
}

/// The device has the name.
pub open spec fn has_name(d: DeviceInfo, name: Seq<char>) -> bool {
    d.name is Some && d.name->0@ == name
}

/// Device `i` is the first one with the name.
pub open spec fn first_with_name(devices: Seq<DeviceInfo>, name: Seq<char>, i: int) -> bool {
    &&& 0 <= i < devices.len()
    &&& has_name(devices[i], name)
    &&& forall|j: int| 0 <= j < i ==> !has_name(#[trigger] devices[j], name)
}

/// No device has the name.
pub open spec fn nobody_has_name(devices: Seq<DeviceInfo>, name: Seq<char>) -> bool {
    forall|j: int| 0 <= j < devices.len() ==> !has_name(#[trigger] devices[j], name)
}

proof fn lemma_tier(devices: Seq<DeviceInfo>, tier: Tier)
    ensures
        match tier_choice(devices, tier) {
            Some((i, rate)) => best_of(devices, tier, i, rate),
            None => !any_device(devices, tier),
        },
{
    assert forall|j: int, rate: u32| 0 <= j < devices.len() implies (qualifies(
        tier,
        #[trigger] devices[j],
        rate,
    ) <==> is_of(tier, devices[j]) && #[trigger] plays(devices[j], rate)) by {
        lemma_qualifies(tier, devices[j], rate);
    }
    lemma_first_qualified(devices, tier, 96000, 0);
    lemma_first_qualified(devices, tier, 48000, 0);
    if first_qualified(devices, tier, 96000, 0) is None {
        assert(!some_device(devices, tier, 96000)) by {
            if some_device(devices, tier, 96000) {
                let i = choose|i: int|
                    0 <= i < devices.len() && is_of(tier, #[trigger] devices[i]) && plays(
                        devices[i],
                        96000,
                    );
                assert(qualifies(tier, devices[i], 96000));
            }
        }
        if first_qualified(devices, tier, 48000, 0) is None {
            if some_device(devices, tier, 48000) {
                let i = choose|i: int|
                    0 <= i < devices.len() && is_of(tier, #[trigger] devices[i]) && plays(
                        devices[i],
                        48000,
                    );
                assert(qualifies(tier, devices[i], 48000));
            }
        }
    }
    if let Some((i, rate)) = tier_choice(devices, tier) {
        lemma_qualifies(tier, devices[i], rate);
        assert forall|j: int| 0 <= j < i && is_of(tier, #[trigger] devices[j]) implies !plays(
            devices[j],
            rate,
        ) by {
            lemma_qualifies(tier, devices[j], rate);
        }
    }
}

proof fn lemma_named(devices: Seq<DeviceInfo>, name: Seq<char>)
    ensures
        match first_named(devices, name, 0) {
            Some(i) => first_with_name(devices, name, i),
            None => nobody_has_name(devices, name),
        },
{
    lemma_first_named(devices, name, 0);
    assert forall|j: int| 0 <= j < devices.len() implies (#[trigger] devices[j]).named(name)
        == has_name(devices[j], name) by {}
}

/// The configured device can be used: a device has its name, and the first one that
/// has it can play at one of the two rates.
pub open spec fn configured_is_usable(devices: Seq<DeviceInfo>, configured: Seq<char>) -> bool {
    &&& configured.len() > 0
    &&& exists|i: int|
        #[trigger] first_with_name(devices, configured, i) && (plays(devices[i], 96000) || plays(
            devices[i],
            48000,
        ))
}

/// What the choice of the device promises.
///
/// A configured device that can be used is taken, at the higher rate where it can
/// play at it. Otherwise the search takes a sound server, then direct hardware,
/// then any device with no more than eight channels: a device of a later class only
/// where no device of an earlier one can play at all, the first one of its class,
/// and the lower rate only where no device of the class can play at the higher.
/// Nothing is taken exactly where no device of any class can play.
pub proof fn the_best_device_is_chosen(devices: Vec<DeviceInfo>, configured: &str, s: Selection)
    requires
        call_ensures(select_device, (&devices, configured), s),
    ensures
        match s.pick {
            Some(p) => {
                &&& p.found < devices@.len()
                &&& plays(devices@[p.found as int], p.rate)
                &&& match p.reason {
                    Reason::Configured => {
                        &&& configured@.len() > 0
                        &&& first_with_name(devices@, configured@, p.found as int)
                        &&& p.rate == 96000 || p.rate == 48000 && !plays(
                            devices@[p.found as int],
                            96000,
                        )
                    },
                    Reason::Found(tier) => {
                        &&& !configured_is_usable(devices@, configured@)
                        &&& best_of(devices@, tier, p.found as int, p.rate)
                        &&& tier != Tier::Auto ==> !any_device(devices@, Tier::Auto)
                        &&& tier == Tier::HonestHardware ==> !any_device(
                            devices@,
                            Tier::DirectHardware,
                        )
                    },
                }
            },
            None => {
                &&& !configured_is_usable(devices@, configured@)
                &&& !any_device(devices@, Tier::Auto)
                &&& !any_device(devices@, Tier::DirectHardware)
                &&& !any_device(devices@, Tier::HonestHardware)
            },
        },
{
    let ds = devices@;
    lemma_named(ds, configured@);
    lemma_tier(ds, Tier::Auto);
    lemma_tier(ds, Tier::DirectHardware);
    lemma_tier(ds, Tier::HonestHardware);
    assert(s.describes(ds, configured@));
    if configured@.len() > 0 {
        match first_named(ds, configured@, 0) {
            Some(i) => {
                lemma_device(ds[i], 96000);
                lemma_device(ds[i], 48000);
                if best_rate(ds[i]) is Some {
                    assert(first_with_name(ds, configured@, i));
                    assert(configured_is_usable(ds, configured@));
                } else {
                    assert(!configured_is_usable(ds, configured@)) by {
                        if configured_is_usable(ds, configured@) {
                            let k = choose|k: int|
                                #[trigger] first_with_name(ds, configured@, k) && (plays(
                                    ds[k],
                                    96000,
                                ) || plays(ds[k], 48000));
                            assert(k == i) by {
                                if k < i {
                                    assert(!has_name(ds[k], configured@));
                                }
                                if i < k {
                                    assert(!has_name(ds[i], configured@));
                                }
                            }
                        }
                    }
                }
            },
            None => {
                assert(!configured_is_usable(ds, configured@));
            },
        }
    }
}

/// What is opened is the first device with the name of the chosen one, and a
/// configured device that is passed over is reported with the reason.
pub proof fn the_chosen_name_is_opened(devices: Vec<DeviceInfo>, configured: &str, s: Selection)
    requires
        call_ensures(select_device, (&devices, configured), s),
    ensures
        s.pick matches Some(p) ==> {
            &&& devices@[p.found as int].name is Some ==> p.name@ == devices@[p.found
                as int].name->0@
            &&& devices@[p.found as int].name is None ==> p.name@.len() == 0
            &&& match p.device {
                Some(k) => first_with_name(devices@, p.name@, k as int),
                None => nobody_has_name(devices@, p.name@),
            }
        },
        s.fallback == Some(Fallback::NotFound) <==> configured@.len() > 0 && nobody_has_name(
            devices@,
            configured@,
        ),
        s.fallback == Some(Fallback::Unsupported) <==> configured@.len() > 0 && !nobody_has_name(
            devices@,
            configured@,
        ) && !configured_is_usable(devices@, configured@),
{
    let ds = devices@;
    the_best_device_is_chosen(devices, configured, s);
    lemma_named(ds, configured@);
    assert(s.describes(ds, configured@));
    let n: usize = devices.len();
    assert(n == ds.len());
    if let Some(p) = s.pick {
        lemma_named(ds, p.name@);
        if let Some(k) = first_named(ds, p.name@, 0) {
            assert(p.device == Some(k as usize));
            assert(k as usize as int == k);
        }
        let d = ds[p.found as int];
        assert(p.name@ == d.name_or_empty());
    }
    if configured@.len() > 0 {
        if let Some(i) = first_named(ds, configured@, 0) {
            lemma_device(ds[i], 96000);
            lemma_device(ds[i], 48000);
            assert(has_name(ds[i], configured@));
            if best_rate(ds[i]) is Some {
                assert(first_with_name(ds, configured@, i));
            } else if configured_is_usable(ds, configured@) {
                let k = choose|k: int|
                    #[trigger] first_with_name(ds, configured@, k) && (plays(ds[k], 96000)
                        || plays(ds[k], 48000));
                assert(k == i) by {
                    if k < i {
                        assert(!has_name(ds[k], configured@));
                    }
                    if i < k {
                        assert(!has_name(ds[i], configured@));
                    }
                }
            }
        } else if configured_is_usable(ds, configured@) {
            let k = choose|k: int|
                #[trigger] first_with_name(ds, configured@, k) && (plays(ds[k], 96000) || plays(
                    ds[k],
                    48000,
                ));
            assert(has_name(ds[k], configured@));
        }
    }
}

/// The one format is wanted more than the other: 32-bit floating point most, then
/// 32 bits signed and unsigned, then 16 bits signed and unsigned, then any other.
pub open spec fn wanted_more(a: SampleFormat, b: SampleFormat) -> bool {
    match a {
        SampleFormat::F32 => b != SampleFormat::F32,
        SampleFormat::I32 => b == SampleFormat::U32 || b == SampleFormat::I16 || b
            == SampleFormat::U16 || b == SampleFormat::Other,
        SampleFormat::U32 => b == SampleFormat::I16 || b == SampleFormat::U16 || b
            == SampleFormat::Other,
        SampleFormat::I16 => b == SampleFormat::U16 || b == SampleFormat::Other,
        SampleFormat::U16 => b == SampleFormat::Other,
        SampleFormat::Other => false,
    }
}

/// Of the configurations that fit, one of the most wanted format is opened, the
/// last one of them; none is opened exactly where none fits.
pub proof fn the_most_wanted_format_is_opened(
    cs: Vec<OutputConfig>,
    rate: u32,
    r: Option<usize>,
    j: int,
)
    requires
        call_ensures(best_config, (&cs, rate), r),
        0 <= j < cs@.len(),
        cs@[j].channels == 6 && cs@[j].min_rate <= rate && rate <= cs@[j].max_rate,
    ensures
        r is Some,
        r->0 < cs@.len(),
        cs@[r->0 as int].channels == 6,
        cs@[r->0 as int].min_rate <= rate && rate <= cs@[r->0 as int].max_rate,
        !wanted_more(cs@[j].format, cs@[r->0 as int].format),
        r->0 < j ==> wanted_more(cs@[r->0 as int].format, cs@[j].format),
{
    assert(config_fits(cs@[j], rate));
    assert(some_config_fits(cs@, rate));
}

/// What is opened fits.
pub proof fn what_is_opened_fits(cs: Vec<OutputConfig>, rate: u32, r: Option<usize>)
    requires
        call_ensures(best_config, (&cs, rate), r),
    ensures
        r matches Some(i) ==> i < cs@.len() && cs@[i as int].channels == 6 && cs@[i as int].min_rate
            <= rate && rate <= cs@[i as int].max_rate,
{
}

/// A known format is written as it is, and any other as 32-bit floating point.
pub proof fn known_formats_are_written(f: SampleFormat, r: SampleFormat)
    requires
        call_ensures(stream_format, (f,), r),
    ensures
        f != SampleFormat::Other ==> r == f,
        f == SampleFormat::Other ==> r == SampleFormat::F32,
{
}

} // verus!
