use digital_crossover::config::{AppState, AudioRuntimeConfig, StatusReport};
use digital_crossover::server::{feed_step, FeedEvent, FeedStep};
use digital_crossover::tui::{
    apply_nudge, command, config_url, default_freq, freq_ref, gain_ref, nudge, reset_value, status_url,
    turn_bypass, turn_mute, turn_solo, update_error, update_url, ws_url, Arithmetic, Bound,
    Command, Key,
    Nudge, Outcome, Panel, Selected,
};
use digital_crossover::view::{
    badge_colors, bin_range, cell_at, color_of_column, column_bars, cut_rows, fill_color, footer, gain_rows,
    output_text, peak_of, playback_color, row_prefix, spectrum_grid, spectrum_ready, spectrum_title, Bar,
    Cell, Color,
};

const ALL: [Selected; 6] = [
    Selected::Master,
    Selected::Low,
    Selected::Mid,
    Selected::High,
    Selected::LowCut,
    Selected::MidCut,
];

#[test]
fn the_selection_goes_round() {
    for i in 0..6 {
        assert_eq!(ALL[i].next(), ALL[(i + 1) % 6]);
        assert_eq!(ALL[i].prev(), ALL[(i + 5) % 6]);
        assert_eq!(ALL[i].next().prev(), ALL[i]);
        assert_eq!(ALL[i].prev().next(), ALL[i]);
    }
}

#[test]
fn labels_and_kinds_of_values() {
    let labels: Vec<&str> = ALL.iter().map(|s| s.label()).collect();
    assert_eq!(labels, vec!["Master", "Low", "Mid", "High", "Low cut", "Mid cut"]);
    let freqs: Vec<bool> = ALL.iter().map(|s| s.is_freq()).collect();
    assert_eq!(freqs, vec![false, false, false, false, true, true]);
    assert_eq!(default_freq(Selected::LowCut), 1000);
    assert_eq!(default_freq(Selected::MidCut), 10000);
}

#[test]
fn default_settings() {
    let c: AudioRuntimeConfig<f32> = AudioRuntimeConfig::default();
    assert_eq!((c.volume, c.low_gain, c.mid_gain, c.high_gain), (1.0, 1.0, 1.0, 1.0));
    assert_eq!((c.low_cut_hz, c.mid_cut_hz), (1000.0, 10000.0));
    assert!(!(c.low_mute || c.mid_mute || c.high_mute));
    assert!(!(c.low_solo || c.mid_solo || c.high_solo));
    assert!(!(c.low_bypass || c.mid_bypass || c.high_bypass));
}

#[test]
fn the_state_of_the_server() {
    let mut s: AppState<f64> = AppState::default();
    assert_eq!(s.playback, "Unknown");
    assert_eq!((s.track.as_str(), s.artist.as_str(), s.album.as_str()), ("", "", ""));
    assert_eq!((s.buffer_fill, s.resample_ratio, s.chunks_processed, s.output_rate), (0.0, 0.0, 0, 0));
    assert_eq!((s.buffer_fill_avg, s.buffer_fill_min, s.buffer_fill_max), (0.0, 0.0, 0.0));
    s.set_output(96000, "F32".to_string());
    assert_eq!((s.output_rate, s.output_format.as_str()), (96000, "F32"));
    let report = || StatusReport {
        fill: 1.0,
        fill_avg: 2.0,
        fill_min: 3.0,
        fill_max: 4.0,
        ratio: 5.0,
        chunks: 6,
    };
    s.publish(report());
    assert_eq!(s.playback, "Playing");
    assert_eq!((s.buffer_fill, s.buffer_fill_avg, s.buffer_fill_min), (1.0, 2.0, 3.0));
    assert_eq!((s.buffer_fill_max, s.resample_ratio, s.chunks_processed), (4.0, 5.0, 6));
    assert_eq!(s.output_rate, 96000);
    s.playback = "Stopped".to_string();
    s.publish(report());
    assert_eq!(s.playback, "Stopped");
}

#[test]
fn keys_and_their_commands() {
    assert_eq!(command(Key::Esc), Command::Quit);
    assert_eq!(command(Key::Char('q')), Command::Quit);
    assert_eq!(command(Key::Tab), Command::Next);
    assert_eq!(command(Key::Down), Command::Next);
    assert_eq!(command(Key::BackTab), Command::Prev);
    assert_eq!(command(Key::Up), Command::Prev);
    for (c, s) in "123456".chars().zip(ALL) {
        assert_eq!(command(Key::Char(c)), Command::Select(s));
    }
    assert_eq!(command(Key::Char('m')), Command::Mute);
    assert_eq!(command(Key::Char('s')), Command::Solo);
    assert_eq!(command(Key::Char('b')), Command::Bypass);
    assert_eq!(command(Key::Left), Command::Decrease);
    assert_eq!(command(Key::Char('-')), Command::Decrease);
    assert_eq!(command(Key::Right), Command::Increase);
    assert_eq!(command(Key::Char('+')), Command::Increase);
    assert_eq!(command(Key::Char('=')), Command::Increase);
    assert_eq!(command(Key::Char('0')), Command::Reset);
    assert_eq!(command(Key::Char('r')), Command::ResetAll);
    assert_eq!(command(Key::Char('Q')), Command::Nothing);
    assert_eq!(command(Key::Char('7')), Command::Nothing);
    assert_eq!(command(Key::Other), Command::Nothing);
}

#[test]
fn steps_of_the_values() {
    assert_eq!(nudge(Selected::Master, false, false), Nudge::GainDown(5));
    assert_eq!(nudge(Selected::High, true, true), Nudge::GainUp(1));
    assert_eq!(nudge(Selected::LowCut, false, false), Nudge::FreqDown(50, Bound::Hz(20)));
    assert_eq!(nudge(Selected::MidCut, false, true), Nudge::FreqDown(5, Bound::AboveLowCut(100)));
    assert_eq!(nudge(Selected::LowCut, true, true), Nudge::FreqUp(5, Bound::BelowMidCut(100)));
    assert_eq!(nudge(Selected::MidCut, true, false), Nudge::FreqUp(50, Bound::Hz(20000)));
}

fn flags(c: &AudioRuntimeConfig<f32>) -> [bool; 9] {
    [
        c.low_mute, c.mid_mute, c.high_mute, c.low_solo, c.mid_solo, c.high_solo, c.low_bypass,
        c.mid_bypass, c.high_bypass,
    ]
}

#[test]
fn the_panel_acts_on_keys() {
    let mut p: Panel<f32> = Panel::new(AudioRuntimeConfig::default());
    assert_eq!(p.selected, Selected::Master);
    assert_eq!(p.handle_key(Key::Char('m'), true, false), Outcome::Unchanged);
    assert_eq!(flags(&p.cfg), [false; 9]);
    assert_eq!(p.handle_key(Key::Tab, true, false), Outcome::Unchanged);
    assert_eq!(p.selected, Selected::Low);
    assert_eq!(p.handle_key(Key::Char('m'), false, false), Outcome::Unchanged);
    assert_eq!(flags(&p.cfg), [false; 9]);
    assert_eq!(p.handle_key(Key::Char('m'), true, false), Outcome::Changed);
    assert!(p.cfg.low_mute);
    assert_eq!(p.handle_key(Key::Char('m'), true, false), Outcome::Changed);
    assert_eq!(flags(&p.cfg), [false; 9]);
    assert_eq!(p.handle_key(Key::Up, true, false), Outcome::Unchanged);
    assert_eq!(p.selected, Selected::Master);
    assert_eq!(p.handle_key(Key::Char('5'), true, false), Outcome::Unchanged);
    assert_eq!(p.selected, Selected::LowCut);
    p.cfg.low_cut_hz = 77.0;
    assert_eq!(p.handle_key(Key::Char('0'), true, false), Outcome::Changed);
    assert_eq!(p.cfg.low_cut_hz, 1000.0);
    assert_eq!(
        p.handle_key(Key::Left, true, true),
        Outcome::Nudge(Nudge::FreqDown(5, Bound::Hz(20)))
    );
    assert_eq!(p.cfg.low_cut_hz, 1000.0);
    p.cfg.mid_gain = 0.5;
    p.cfg.mid_cut_hz = 123.0;
    p.cfg.high_bypass = true;
    assert_eq!(p.handle_key(Key::Char('r'), true, false), Outcome::Changed);
    assert_eq!((p.cfg.mid_gain, p.cfg.mid_cut_hz), (1.0, 10000.0));
    assert_eq!(flags(&p.cfg), [false; 9]);
    assert_eq!(p.selected, Selected::LowCut);
    assert_eq!(p.handle_key(Key::Char('x'), true, false), Outcome::Unchanged);
    assert_eq!(p.handle_key(Key::Esc, true, false), Outcome::Quit);
}

#[test]
fn solo_is_exclusive() {
    let mut c: AudioRuntimeConfig<f32> = AudioRuntimeConfig::default();
    assert!(turn_solo(&mut c, Selected::Low));
    assert_eq!((c.low_solo, c.mid_solo, c.high_solo), (true, false, false));
    assert!(turn_solo(&mut c, Selected::High));
    assert_eq!((c.low_solo, c.mid_solo, c.high_solo), (false, false, true));
    assert!(turn_solo(&mut c, Selected::High));
    assert_eq!((c.low_solo, c.mid_solo, c.high_solo), (false, false, false));
    c.low_solo = true;
    c.high_solo = true;
    assert!(turn_solo(&mut c, Selected::Mid));
    assert_eq!((c.low_solo, c.mid_solo, c.high_solo), (false, true, false));
    assert!(!turn_solo(&mut c, Selected::MidCut));
    assert!(!turn_solo(&mut c, Selected::Master));
    assert!(c.mid_solo);
}

type Pair = fn(f32, f32) -> f32;

fn arithmetic(
) -> Arithmetic<Pair, Pair, Pair, Pair, fn(f32, f32, f32) -> f32, fn(u16) -> f32> {
    Arithmetic {
        plus: |a, b| a + b,
        minus: |a, b| a - b,
        larger: f32::max,
        smaller: f32::min,
        clamp: f32::clamp,
        hundredths: |n| f32::from(n) / 100.0,
    }
}

fn press(p: &mut Panel<f32>, key: Key, shift: bool) {
    if let Outcome::Nudge(nudge) = p.handle_key(key, true, shift) {
        apply_nudge(&mut p.cfg, p.selected, nudge, &arithmetic());
    }
}

#[test]
fn steps_stop_at_their_bounds() {
    let ops = arithmetic();
    let mut c: AudioRuntimeConfig<f32> = AudioRuntimeConfig::default();
    apply_nudge(&mut c, Selected::Mid, Nudge::GainUp(5), &ops);
    assert_eq!(c.mid_gain, 1.05);
    apply_nudge(&mut c, Selected::Mid, Nudge::GainDown(1), &ops);
    assert_eq!(c.mid_gain, 1.05 - 0.01);
    for _ in 0..60 {
        apply_nudge(&mut c, Selected::Low, Nudge::GainUp(5), &ops);
        apply_nudge(&mut c, Selected::High, Nudge::GainDown(5), &ops);
    }
    assert_eq!((c.low_gain, c.high_gain, c.volume), (2.0, 0.0, 1.0));
    apply_nudge(&mut c, Selected::LowCut, Nudge::FreqDown(50, Bound::Hz(20)), &ops);
    assert_eq!(c.low_cut_hz, 950.0);
    c.low_cut_hz = 40.0;
    apply_nudge(&mut c, Selected::LowCut, Nudge::FreqDown(50, Bound::Hz(20)), &ops);
    assert_eq!(c.low_cut_hz, 20.0);
    c.mid_cut_hz = 140.0;
    apply_nudge(&mut c, Selected::MidCut, Nudge::FreqDown(50, Bound::AboveLowCut(100)), &ops);
    assert_eq!(c.mid_cut_hz, 120.0);
    apply_nudge(&mut c, Selected::LowCut, Nudge::FreqUp(50, Bound::BelowMidCut(100)), &ops);
    assert_eq!(c.low_cut_hz, 20.0);
    c.mid_cut_hz = 19980.0;
    apply_nudge(&mut c, Selected::MidCut, Nudge::FreqUp(50, Bound::Hz(20000)), &ops);
    assert_eq!((c.low_cut_hz, c.mid_cut_hz), (20.0, 20000.0));
    c.mid_cut_hz = 60.0;
    apply_nudge(&mut c, Selected::LowCut, Nudge::FreqUp(50, Bound::BelowMidCut(100)), &ops);
    assert_eq!(c.low_cut_hz, 20.0);
}

#[test]
fn no_row_of_keys_leaves_the_ranges() {
    let mut p: Panel<f32> = Panel::new(AudioRuntimeConfig::default());
    let mut state: u32 = 12345;
    let mut apart = true;
    for _ in 0..20000 {
        state ^= state << 13;
        state ^= state >> 17;
        state ^= state << 5;
        let key = "123456-+=0msbr".chars().nth((state % 14) as usize).unwrap();
        if key == 'r' && state % 5 != 0 {
            continue;
        }
        for _ in 0..(state / 14 % 40) {
            press(&mut p, Key::Char(key), state & 1024 != 0);
        }
        if key == 'r' {
            apart = true;
        }
        let c = &p.cfg;
        for g in [c.volume, c.low_gain, c.mid_gain, c.high_gain] {
            assert!((0.0..=2.0).contains(&g));
        }
        assert!((20.0..=19900.0).contains(&c.low_cut_hz));
        assert!((120.0..=20000.0).contains(&c.mid_cut_hz));
        if key == '0' && c.low_cut_hz > c.mid_cut_hz - 100.0 {
            apart = false;
        }
        if apart {
            assert!(c.low_cut_hz <= c.mid_cut_hz - 100.0);
        }
    }
}

#[test]
fn a_reset_can_bring_the_cuts_together() {
    let mut p: Panel<f32> = Panel::new(AudioRuntimeConfig::default());
    press(&mut p, Key::Char('5'), false);
    p.cfg.low_cut_hz = 20.0;
    press(&mut p, Key::Char('6'), false);
    p.cfg.mid_cut_hz = 500.0;
    press(&mut p, Key::Char('5'), false);
    press(&mut p, Key::Char('0'), false);
    assert_eq!((p.cfg.low_cut_hz, p.cfg.mid_cut_hz), (1000.0, 500.0));
}

#[test]
fn no_row_of_keys_makes_two_bands_soloed() {
    let keys: Vec<Key> = "2s3s4ss2s3mb0r4s-s2+s3s".chars().map(Key::Char).collect();
    let mut p: Panel<f32> = Panel::new(AudioRuntimeConfig::default());
    for key in keys {
        p.handle_key(key, true, false);
        let solos = [p.cfg.low_solo, p.cfg.mid_solo, p.cfg.high_solo];
        assert!(solos.iter().filter(|s| **s).count() <= 1);
    }
}

#[test]
fn switches_of_the_selected_band() {
    let mut c: AudioRuntimeConfig<f32> = AudioRuntimeConfig::default();
    assert!(turn_mute(&mut c, Selected::Mid));
    assert!(turn_mute(&mut c, Selected::High));
    assert!(turn_bypass(&mut c, Selected::Low));
    assert!(turn_bypass(&mut c, Selected::High));
    assert!(!turn_mute(&mut c, Selected::Master));
    assert!(!turn_bypass(&mut c, Selected::LowCut));
    assert_eq!(flags(&c), [false, true, true, false, false, false, true, false, true]);
    turn_mute(&mut c, Selected::High);
    turn_bypass(&mut c, Selected::Low);
    turn_bypass(&mut c, Selected::Mid);
    assert_eq!(flags(&c), [false, true, false, false, false, false, false, true, true]);
}

#[test]
fn values_are_found_by_their_selection() {
    let mut c: AudioRuntimeConfig<f32> = AudioRuntimeConfig::default();
    *gain_ref(&mut c, Selected::Master) = 0.1;
    *gain_ref(&mut c, Selected::Low) = 0.2;
    *gain_ref(&mut c, Selected::Mid) = 0.3;
    *gain_ref(&mut c, Selected::High) = 0.4;
    *freq_ref(&mut c, Selected::LowCut) = 5.0;
    *freq_ref(&mut c, Selected::MidCut) = 6.0;
    assert_eq!(
        (c.volume, c.low_gain, c.mid_gain, c.high_gain, c.low_cut_hz, c.mid_cut_hz),
        (0.1, 0.2, 0.3, 0.4, 5.0, 6.0)
    );
    reset_value(&mut c, Selected::Mid);
    reset_value(&mut c, Selected::MidCut);
    assert_eq!(
        (c.volume, c.low_gain, c.mid_gain, c.high_gain, c.low_cut_hz, c.mid_cut_hz),
        (0.1, 0.2, 1.0, 0.4, 5.0, 10000.0)
    );
}

#[test]
fn addresses_of_the_server() {
    assert_eq!(status_url("http://h:3000"), "http://h:3000/status");
    assert_eq!(config_url("http://h"), "http://h/config");
    assert_eq!(update_url("http://h"), "http://h/update_config");
    assert_eq!(ws_url("http://127.0.0.1:3000"), "ws://127.0.0.1:3000/ws/fft");
    assert_eq!(ws_url("https://h"), "wss://h/ws/fft");
    assert_eq!(ws_url("h"), "h/ws/fft");
    assert_eq!(ws_url("http://a/http://b"), "ws://a/http://b/ws/fft");
    assert_eq!(update_error(None), None);
    assert_eq!(update_error(Some("refused")), Some("update failed: refused".to_string()));
}

#[test]
fn the_stream_to_a_client() {
    assert_eq!(feed_step(FeedEvent::Frame), FeedStep::Send);
    assert_eq!(feed_step(FeedEvent::Sent), FeedStep::Receive);
    assert_eq!(feed_step(FeedEvent::Lagged), FeedStep::Receive);
    assert_eq!(feed_step(FeedEvent::Closed), FeedStep::Stop);
    assert_eq!(feed_step(FeedEvent::SendFailed), FeedStep::Stop);
}

#[test]
fn colours_and_texts() {
    assert_eq!(playback_color("Playing"), Color::Green);
    assert_eq!(playback_color("Stopped"), Color::Red);
    assert_eq!(playback_color("Unknown"), Color::Yellow);
    assert_eq!(fill_color(true, true), Color::Green);
    assert_eq!(fill_color(false, true), Color::Yellow);
    assert_eq!(fill_color(false, false), Color::Red);
    assert_eq!(output_text(96000, "F32"), "96000 Hz · F32 · 6ch");
    assert_eq!(output_text(0, "F32"), "—");
    assert_eq!(spectrum_title(96000), " Spectrum  (20 Hz – 48 kHz) ");
    assert_eq!(spectrum_title(44100), " Spectrum  (20 Hz – 22 kHz) ");
    assert_eq!(spectrum_title(0), " Spectrum ");
    assert_eq!(footer(Some("bad")), (" bad ".to_string(), Color::Red));
    assert_eq!(
        footer(None),
        (
            " 1-4: gains  5-6: cutoffs  m: mute  s: solo  b: bypass  Tab/↑↓: sel  ←→: adjust  Shift: fine  0: reset  r: all".to_string(),
            Color::DarkGray
        )
    );
}

#[test]
fn rows_of_the_panel() {
    let mut c: AudioRuntimeConfig<f32> = AudioRuntimeConfig::default();
    c.mid_gain = 0.5;
    c.mid_mute = true;
    c.high_solo = true;
    c.low_bypass = true;
    let rows = gain_rows(&c, Selected::Mid);
    let shown: Vec<(Selected, f32, Color, bool, bool)> =
        rows.iter().map(|r| (r.sel, r.value, r.color, r.selected, r.switches)).collect();
    assert_eq!(
        shown,
        vec![
            (Selected::Master, 1.0, Color::Cyan, false, false),
            (Selected::Low, 1.0, Color::Green, false, true),
            (Selected::Mid, 0.5, Color::Yellow, true, true),
            (Selected::High, 1.0, Color::Magenta, false, true),
        ]
    );
    assert_eq!(badge_colors(&rows[1]), (Color::DarkGray, Color::DarkGray, Color::Cyan));
    assert_eq!(badge_colors(&rows[2]), (Color::Red, Color::DarkGray, Color::DarkGray));
    assert_eq!(badge_colors(&rows[3]), (Color::DarkGray, Color::Yellow, Color::DarkGray));
    let cuts = cut_rows(&c, Selected::MidCut);
    let shown: Vec<(Selected, f32, Color, bool)> =
        cuts.iter().map(|r| (r.sel, r.value, r.color, r.selected)).collect();
    assert_eq!(
        shown,
        vec![
            (Selected::LowCut, 1000.0, Color::Green, false),
            (Selected::MidCut, 10000.0, Color::Yellow, true),
        ]
    );
    for sel in ALL {
        for width in [0usize, 3, 6, 8, 12] {
            assert_eq!(row_prefix(sel, true, width), format!("> {:<width$} ", sel.label()));
            assert_eq!(row_prefix(sel, false, width), format!("  {:<width$} ", sel.label()));
        }
    }
}

#[test]
fn bins_of_a_column() {
    for n in 1usize..6 {
        for start in 0usize..8 {
            for end in 0usize..8 {
                let b1 = end.min(n);
                let b0 = start.min(b1.saturating_sub(1));
                let b1 = b1.max(b0 + 1).min(n);
                assert_eq!(bin_range(start, end, n), (b0, b1));
                assert!(b0 < b1 && b1 <= n);
            }
        }
    }
    assert!(spectrum_ready(1, 1, 1));
    assert!(!spectrum_ready(0, 1, 1) && !spectrum_ready(1, 0, 1) && !spectrum_ready(1, 1, 0));
}

#[test]
fn bars_of_the_columns() {
    let bins = vec![3u32, 9, 1, 4, 4, 20, 0, 7];
    let bar = |level: u32| Bar {
        cells: (level / 8) as usize,
        part: if level % 8 > 0 { Some((level % 8) as usize) } else { None },
    };
    let louder = |a: u32, b: u32| a.max(b);
    let bars = column_bars(&bins, 4, &|col| 2 * col, 0, &louder, &bar);
    assert_eq!(bars, vec![bar(9), bar(4), bar(20), bar(7)]);
    // positions beyond the last bin show the last one, and a column is never empty
    assert_eq!(column_bars(&bins, 2, &|_| 50, 0, &louder, &bar), vec![bar(7), bar(7)]);
    assert_eq!(column_bars(&bins, 1, &|_| 0, 0, &louder, &bar), vec![bar(3)]);
    assert_eq!(peak_of(&bins, 2, 2, 5, &louder), 5);
    assert_eq!(peak_of(&bins, 2, 6, 5, &louder), 20);
    assert!(column_bars(&bins, 0, &|col| col, 0, &louder, &bar).is_empty());
}

#[test]
fn raising_a_bin_lowers_no_cell() {
    let bar = |level: u32| Bar {
        cells: (level / 8) as usize,
        part: if level % 8 > 0 { Some((level % 8) as usize) } else { None },
    };
    let louder = |a: u32, b: u32| a.max(b);
    let bins = vec![3u32, 9, 1, 4, 4, 20, 0, 7];
    let draw = |bins: &Vec<u32>| {
        let bars = column_bars(bins, 4, &|col| 2 * col, 0, &louder, &bar);
        spectrum_grid(&bars, 4, 1, 2)
    };
    let before = draw(&bins);
    for i in 0..bins.len() {
        for up in 0..32 {
            let mut raised = bins.clone();
            raised[i] += up;
            for (row, raised_row) in before.iter().zip(draw(&raised)) {
                for (a, b) in row.iter().zip(raised_row) {
                    assert!(a.glyph <= b.glyph);
                    assert!(a.color.is_none() || b.color == a.color);
                }
            }
        }
    }
    // a full column, and a blank one
    let full = spectrum_grid(&vec![bar(32), bar(0)], 4, 0, 0);
    for row in full {
        assert_eq!((row[0].glyph, row[1].glyph, row[1].color), ('█', ' ', None));
    }
}

#[test]
fn cells_of_the_spectrum() {
    let blocks = [' ', '▁', '▂', '▃', '▄', '▅', '▆', '▇', '▇', '▇'];
    for (i, b) in blocks.iter().enumerate() {
        let cell = cell_at(Bar { cells: 2, part: Some(i) }, 2, Color::Red);
        assert_eq!(cell, Cell { glyph: *b, color: Some(Color::Red) });
    }
    assert_eq!(
        cell_at(Bar { cells: 2, part: Some(3) }, 1, Color::Red),
        Cell { glyph: '█', color: Some(Color::Red) }
    );
    assert_eq!(
        cell_at(Bar { cells: 2, part: Some(3) }, 3, Color::Red),
        Cell { glyph: ' ', color: None }
    );
    assert_eq!(
        cell_at(Bar { cells: 2, part: None }, 2, Color::Red),
        Cell { glyph: ' ', color: None }
    );
    assert_eq!(color_of_column(3, 4, 6), Color::Green);
    assert_eq!(color_of_column(4, 4, 6), Color::Yellow);
    assert_eq!(color_of_column(6, 4, 6), Color::Magenta);
    let grid = spectrum_grid(
        &vec![
            Bar { cells: 1, part: Some(4) },
            Bar { cells: 2, part: None },
            Bar { cells: 0, part: None },
        ],
        2,
        1,
        2,
    );
    let lit = |glyph: char, color: Color| Cell { glyph, color: Some(color) };
    let dark = Cell { glyph: ' ', color: None };
    assert_eq!(
        grid,
        vec![
            vec![lit('▄', Color::Green), lit('█', Color::Yellow), dark],
            vec![lit('█', Color::Green), lit('█', Color::Yellow), dark],
        ]
    );
    assert!(spectrum_grid(&vec![], 0, 0, 0).is_empty());
}
