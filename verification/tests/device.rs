use digital_crossover::device::{
    best_config, describe, fits, in_tier, is_hdmi_or_dp, is_honest_hardware, max_channels,
    select_device, stream_format, supports_6ch_at_rate, DeviceInfo, Fallback, OutputConfig, Reason,
    SampleFormat, Tier,
};

fn cfg(channels: u16, min_rate: u32, max_rate: u32, format: SampleFormat) -> OutputConfig {
    OutputConfig { channels, min_rate, max_rate, format }
}

fn dev(name: &str, configs: Vec<OutputConfig>) -> DeviceInfo {
    DeviceInfo { name: Some(name.to_string()), configs: Some(configs) }
}

fn six(min_rate: u32, max_rate: u32) -> Vec<OutputConfig> {
    vec![cfg(2, 8000, 192000, SampleFormat::I16), cfg(6, min_rate, max_rate, SampleFormat::F32)]
}

#[test]
fn a_configuration_must_have_six_channels_and_the_rate() {
    assert!(fits(&cfg(6, 48000, 96000, SampleFormat::F32), 96000));
    assert!(fits(&cfg(6, 48000, 96000, SampleFormat::F32), 48000));
    assert!(!fits(&cfg(6, 48001, 96000, SampleFormat::F32), 48000));
    assert!(!fits(&cfg(6, 44100, 95999, SampleFormat::F32), 96000));
    assert!(!fits(&cfg(8, 48000, 96000, SampleFormat::F32), 96000));
    let d = dev("x", six(96000, 96000));
    assert!(supports_6ch_at_rate(&d, 96000));
    assert!(!supports_6ch_at_rate(&d, 48000));
    assert!(!supports_6ch_at_rate(&DeviceInfo { name: None, configs: None }, 48000));
}

#[test]
fn routers_have_more_than_eight_channels() {
    let d = dev("x", vec![cfg(2, 1, 1, SampleFormat::F32), cfg(8, 1, 1, SampleFormat::F32)]);
    assert_eq!(max_channels(&d), 8);
    assert!(is_honest_hardware(&d));
    let d = dev("x", vec![cfg(9, 1, 1, SampleFormat::F32), cfg(2, 1, 1, SampleFormat::F32)]);
    assert_eq!(max_channels(&d), 9);
    assert!(!is_honest_hardware(&d));
    assert_eq!(max_channels(&dev("x", vec![])), 0);
    assert_eq!(max_channels(&DeviceInfo { name: None, configs: None }), 0);
}

#[test]
fn names_of_hdmi_outputs() {
    for n in ["HDMI 0", "hw:CARD=NVidia,DEV=3", "DisplayPort", "x DP,1", "my-hdmi-sink"] {
        assert!(is_hdmi_or_dp(n), "{n}");
    }
    for n in ["hw:CARD=Intel,DEV=0", "default", "pipewire", "dp", ""] {
        assert!(!is_hdmi_or_dp(n), "{n}");
    }
}

#[test]
fn classes_of_devices() {
    let pw = dev("pipewire", six(44100, 96000));
    assert!(in_tier(Tier::Auto, &pw, 48000));
    assert!(!in_tier(Tier::DirectHardware, &pw, 48000));
    assert!(in_tier(Tier::HonestHardware, &pw, 48000));
    let hw = dev("hw:1,0", six(44100, 96000));
    assert!(!in_tier(Tier::Auto, &hw, 48000));
    assert!(in_tier(Tier::DirectHardware, &hw, 48000));
    let hdmi = dev("hw:HDMI", six(44100, 96000));
    assert!(!in_tier(Tier::DirectHardware, &hdmi, 48000));
    assert!(in_tier(Tier::HonestHardware, &hdmi, 48000));
    let nameless = DeviceInfo { name: None, configs: Some(six(44100, 96000)) };
    assert!(!in_tier(Tier::Auto, &nameless, 48000));
    assert!(in_tier(Tier::HonestHardware, &nameless, 48000));
}

#[test]
fn the_search_prefers_sound_servers_then_hardware_then_hdmi() {
    let hdmi = || dev("HDMI 1", six(48000, 96000));
    let hw = || dev("hw:1,0", six(48000, 96000));
    let pw = || {
        dev("pipewire", vec![cfg(32, 1, 192000, SampleFormat::F32), cfg(6, 48000, 48000, SampleFormat::F32)])
    };

    let s = select_device(&vec![hdmi(), hw(), pw()], "");
    let p = s.pick.unwrap();
    assert_eq!((p.reason, p.found, p.rate, p.device), (Reason::Found(Tier::Auto), 2, 48000, Some(2)));
    assert_eq!(p.name, "pipewire");
    assert_eq!(s.fallback, None);

    let p = select_device(&vec![hdmi(), hw()], "").pick.unwrap();
    assert_eq!(
        (p.reason, p.found, p.rate, p.device),
        (Reason::Found(Tier::DirectHardware), 1, 96000, Some(1))
    );

    let p = select_device(&vec![hdmi()], "").pick.unwrap();
    assert_eq!(
        (p.reason, p.found, p.rate, p.device),
        (Reason::Found(Tier::HonestHardware), 0, 96000, Some(0))
    );
}

#[test]
fn the_preferred_rate_is_tried_on_all_devices_first() {
    let devices = vec![dev("a", six(48000, 48000)), dev("b", six(96000, 96000))];
    let p = select_device(&devices, "").pick.unwrap();
    assert_eq!((p.found, p.rate), (1, 96000));
}

#[test]
fn nothing_is_found_among_routers_and_stereo_devices() {
    let stereo = dev("default", vec![cfg(2, 8000, 192000, SampleFormat::F32)]);
    let mut configs = six(48000, 96000);
    configs.push(cfg(32, 48000, 96000, SampleFormat::F32));
    let router = dev("hw:loopback", configs);
    let s = select_device(&vec![stereo, router], "");
    assert!(s.pick.is_none());
    assert!(s.fallback.is_none());
    assert!(select_device(&vec![], "").pick.is_none());
}

#[test]
fn a_configured_device_is_taken_if_it_can_play() {
    let devices = vec![dev("default", six(48000, 96000)), dev("hw:2,0", six(48000, 48000))];
    let s = select_device(&devices, "hw:2,0");
    let p = s.pick.unwrap();
    assert_eq!(
        (p.reason, p.found, p.rate, p.device),
        (Reason::Configured, 1, 48000, Some(1))
    );
    assert_eq!(p.name, "hw:2,0");
    assert_eq!(s.fallback, None);

    let s = select_device(&devices, "hw:9,9");
    assert_eq!(s.fallback, Some(Fallback::NotFound));
    assert_eq!(s.pick.unwrap().reason, Reason::Found(Tier::Auto));

    let devices = vec![
        dev("hw:3,0", vec![cfg(2, 1, 96000, SampleFormat::F32)]),
        dev("default", six(48000, 96000)),
    ];
    let s = select_device(&devices, "hw:3,0");
    assert_eq!(s.fallback, Some(Fallback::Unsupported));
    assert_eq!(s.pick.unwrap().found, 1);
}

#[test]
fn the_first_device_of_the_chosen_name_is_opened() {
    let devices = vec![
        dev("default", vec![cfg(2, 48000, 96000, SampleFormat::F32)]),
        dev("default", six(48000, 96000)),
    ];
    let p = select_device(&devices, "").pick.unwrap();
    assert_eq!((p.found, p.device), (1, Some(0)));

    let nameless = vec![DeviceInfo { name: None, configs: Some(six(48000, 96000)) }];
    let p = select_device(&nameless, "").pick.unwrap();
    assert_eq!((p.found, p.device), (0, None));
    assert_eq!(p.name, "");
}

#[test]
fn the_list_of_devices() {
    let s = describe(&dev("HDMI", six(48000, 96000)));
    assert_eq!(s.name, "HDMI");
    assert_eq!(s.max_channels, 6);
    assert!(s.honest && s.hdmi);
    assert_eq!(s.rates, vec![96000, 48000]);
    let s = describe(&DeviceInfo { name: None, configs: None });
    assert_eq!(s.name, "<unknown>");
    assert_eq!(s.max_channels, 0);
    assert!(s.honest && !s.hdmi);
    assert!(s.rates.is_empty());
    assert_eq!(describe(&dev("x", six(44100, 48000))).rates, vec![48000]);
}

#[test]
fn the_best_format_is_the_last_of_the_most_wanted() {
    let cs = vec![
        cfg(6, 48000, 96000, SampleFormat::I16),
        cfg(6, 48000, 96000, SampleFormat::I32),
        cfg(6, 48000, 48000, SampleFormat::F32),
        cfg(6, 44100, 96000, SampleFormat::I32),
        cfg(2, 48000, 96000, SampleFormat::F32),
        cfg(6, 48000, 96000, SampleFormat::U32),
        cfg(6, 48000, 96000, SampleFormat::U16),
        cfg(6, 48000, 96000, SampleFormat::Other),
    ];
    assert_eq!(best_config(&cs, 96000), Some(3));
    assert_eq!(best_config(&cs, 48000), Some(2));
    assert_eq!(best_config(&cs, 44100), Some(3));
    assert_eq!(best_config(&cs, 8000), None);
    let others = vec![
        cfg(6, 48000, 96000, SampleFormat::Other),
        cfg(6, 48000, 96000, SampleFormat::Other),
    ];
    assert_eq!(best_config(&others, 48000), Some(1));
    assert_eq!(stream_format(SampleFormat::Other), SampleFormat::F32);
    assert_eq!(stream_format(SampleFormat::U16), SampleFormat::U16);
}
