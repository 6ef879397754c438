//! Constants of the audio path, the settings that a client can change while
//! audio plays, and the state that a client can read.

use crate::metadata::MetadataEvent;
use crate::text;
use vstd::prelude::*;

verus! {

/// Rate of the samples that come in, in frames per second.
pub const INPUT_RATE: u32 = 48000;

/// Channels that come in.
pub const CHANNELS: usize = 2;

/// Channels that go out: three bands, left and right.
pub const OUTPUT_CHANNELS: usize = 6;

/// Where the samples come from.
pub const PIPE_PATH: &'static str = "/tmp/shairport-sync-audio";

/// Where the track metadata comes from.
pub const METADATA_PATH: &'static str = "/tmp/shairport-sync-metadata";

/// Frames that are resampled at once.
pub const RESAMPLE_CHUNK: usize = 1024;

/// How long to wait for a pipe to become readable, in milliseconds.
pub const POLL_TIMEOUT_MS: i32 = 200;

/// Samples in one spectrum window. A spectrum has half as many bins.
pub const FFT_SIZE: usize = 2048;

/// Name of the device to open for output, such as `hw:1,0`. The empty string
/// leaves the choice to the device search.
pub const DEVICE_NAME: &'static str = "";

/// Default cut between the low and the mid band, in Hz.
pub const DEFAULT_LOW_CUT_HZ: u16 = 1000;

/// Default cut between the mid and the high band, in Hz.
pub const DEFAULT_MID_CUT_HZ: u16 = 10000;

/// `r` is what the number type `R` makes of the whole number `n`.
pub open spec fn is_number<R: From<u16>>(n: u16, r: R) -> bool {
    call_ensures(<R as From<u16>>::from, (n,), r)
}

/// What a client can set while audio plays: gains, cut frequencies and three
/// switches for each band. `R` is the type of the gains and frequencies.
#[derive(Clone, Copy, Debug)]
pub struct AudioRuntimeConfig<R> {
    pub volume: R,
    pub low_gain: R,
    pub mid_gain: R,
    pub high_gain: R,
    pub low_cut_hz: R,
    pub mid_cut_hz: R,
    pub low_mute: bool,
    pub mid_mute: bool,
    pub high_mute: bool,
    pub low_solo: bool,
    pub mid_solo: bool,
    pub high_solo: bool,
    pub low_bypass: bool,
    pub mid_bypass: bool,
    pub high_bypass: bool,
}

impl<R: From<u16>> AudioRuntimeConfig<R> {
    /// Every gain is one, the cuts are at their default frequencies, and no
    /// switch is on.
    pub open spec fn is_default(self) -> bool {
        &&& is_number(1, self.volume)
        &&& is_number(1, self.low_gain)
        &&& is_number(1, self.mid_gain)
        &&& is_number(1, self.high_gain)
        &&& is_number(DEFAULT_LOW_CUT_HZ, self.low_cut_hz)
        &&& is_number(DEFAULT_MID_CUT_HZ, self.mid_cut_hz)
        &&& !self.low_mute && !self.mid_mute && !self.high_mute
        &&& !self.low_solo && !self.mid_solo && !self.high_solo
        &&& !self.low_bypass && !self.mid_bypass && !self.high_bypass
    }
}

impl<R: From<u16>> Default for AudioRuntimeConfig<R> {
    fn default() -> (cfg: Self)
        ensures
            cfg.is_default(),
    {
        AudioRuntimeConfig {
            volume: R::from(1u16),
            low_gain: R::from(1u16),
            mid_gain: R::from(1u16),
            high_gain: R::from(1u16),
            low_cut_hz: R::from(DEFAULT_LOW_CUT_HZ),
            mid_cut_hz: R::from(DEFAULT_MID_CUT_HZ),
            low_mute: false,
            mid_mute: false,
            high_mute: false,
            low_solo: false,
            mid_solo: false,
            high_solo: false,
            low_bypass: false,
            mid_bypass: false,
            high_bypass: false,
        }
    }
}

/// What a client can read: the track that plays and how the audio path does.
/// `R` is the type of the measured quantities.
#[derive(Clone, Debug)]
pub struct AppState<R> {
    pub track: String,
    pub artist: String,
    pub album: String,
    pub playback: String,
    pub buffer_fill: R,
    pub buffer_fill_avg: R,
    pub buffer_fill_min: R,
    pub buffer_fill_max: R,
    pub resample_ratio: R,
    pub chunks_processed: u64,
    pub output_rate: u32,
    pub output_format: String,
}

impl<R: Default> Default for AppState<R> {
    fn default() -> (s: Self)
        ensures
            s.track@ == Seq::<char>::empty(),
            s.artist@ == Seq::<char>::empty(),
            s.album@ == Seq::<char>::empty(),
            s.playback@ == "Unknown"@,
            call_ensures(R::default, (), s.buffer_fill),
            call_ensures(R::default, (), s.buffer_fill_avg),
            call_ensures(R::default, (), s.buffer_fill_min),
            call_ensures(R::default, (), s.buffer_fill_max),
            call_ensures(R::default, (), s.resample_ratio),
            s.chunks_processed == 0,
            s.output_rate == 0,
            s.output_format@ == Seq::<char>::empty(),
    {
        AppState {
            track: String::new(),
            artist: String::new(),
            album: String::new(),
            playback: "Unknown".to_owned(),
            buffer_fill: R::default(),
            buffer_fill_avg: R::default(),
            buffer_fill_min: R::default(),
            buffer_fill_max: R::default(),
            resample_ratio: R::default(),
            chunks_processed: 0,
            output_rate: 0,
            output_format: String::new(),
        }
    }
}

/// Measurements of the last status interval.
pub struct StatusReport<R> {
    pub fill: R,
    pub fill_avg: R,
    pub fill_min: R,
    pub fill_max: R,
    pub ratio: R,
    pub chunks: u64,
}

/// The playback text after audio was processed: an unknown state becomes
/// playing, any other stays.
pub open spec fn playback_after(playback: Seq<char>) -> Seq<char> {
    if playback == "Unknown"@ {
        "Playing"@
    } else {
        playback
    }
}

impl<R> AppState<R> {
    /// Records which device format was opened, and at which rate.
    pub fn set_output(&mut self, rate: u32, format: String)
        ensures
            *final(self) == (AppState {
                output_rate: rate,
                output_format: format,
                ..*old(self)
            }),
    {
        self.output_rate = rate;
        self.output_format = format;
    }

    /// Takes over what the metadata stream announced: the title, the artist or the
    /// album, and whether playback started or stopped. A flush changes nothing.
    pub fn note(&mut self, event: MetadataEvent)
        ensures
            match event {
                MetadataEvent::Track(s) => *final(self) == (AppState { track: s, ..*old(self) }),
                MetadataEvent::Artist(s) => *final(self) == (AppState { artist: s, ..*old(self) }),
                MetadataEvent::Album(s) => *final(self) == (AppState { album: s, ..*old(self) }),
                MetadataEvent::PlaybackStarted => {
                    &&& final(self).playback@ == "Playing"@
                    &&& *final(self) == (AppState {
                        playback: final(self).playback,
                        ..*old(self)
                    })
                },
                MetadataEvent::PlaybackStopped => {
                    &&& final(self).playback@ == "Stopped"@
                    &&& *final(self) == (AppState {
                        playback: final(self).playback,
                        ..*old(self)
                    })
                },
                MetadataEvent::StreamFlushed => *final(self) == *old(self),
            },
    {
        match event {
            MetadataEvent::Track(s) => {
                self.track = s;
            },
            MetadataEvent::Artist(s) => {
                self.artist = s;
            },
            MetadataEvent::Album(s) => {
                self.album = s;
            },
            MetadataEvent::PlaybackStarted => {
                self.playback = "Playing".to_owned();
            },
            MetadataEvent::PlaybackStopped => {
                self.playback = "Stopped".to_owned();
            },
            MetadataEvent::StreamFlushed => {},
        }
    }

    /// Records the measurements of one status interval.
    pub fn publish(&mut self, report: StatusReport<R>)
        ensures
            final(self).buffer_fill == report.fill,
            final(self).buffer_fill_avg == report.fill_avg,
            final(self).buffer_fill_min == report.fill_min,
            final(self).buffer_fill_max == report.fill_max,
            final(self).resample_ratio == report.ratio,
            final(self).chunks_processed == report.chunks,
            final(self).playback@ == playback_after(old(self).playback@),
            final(self).track == old(self).track,
            final(self).artist == old(self).artist,
            final(self).album == old(self).album,
            final(self).output_rate == old(self).output_rate,
            final(self).output_format == old(self).output_format,
    {
        self.buffer_fill = report.fill;
        self.buffer_fill_avg = report.fill_avg;
        self.buffer_fill_min = report.fill_min;
        self.buffer_fill_max = report.fill_max;
        self.resample_ratio = report.ratio;
        self.chunks_processed = report.chunks;
        if text::same(self.playback.as_str(), "Unknown") {
            self.playback = "Playing".to_owned();
        }
    }
}

} // verus!
