use digital_crossover::config::{AudioRuntimeConfig, FFT_SIZE};
use digital_crossover::crossover::{Biquad, Crossover, Edge};
use digital_crossover::dsp::{
    buffer_capacity, deinterleave, play_chunk, push_frame, AudioLoop, AudioReply, AudioStep,
    ChunkBuffer, FillWindow, OverlapBuffer, CHUNK_BYTES, FFT_HOP,
};
use digital_crossover::ring::{new_ring, next_sample, ring_used, sample_or_silence, used_slots};

#[test]
fn the_ring_holds_two_seconds() {
    assert_eq!(buffer_capacity(96000), 1152000);
    assert_eq!(buffer_capacity(48000), 576000);
}

#[test]
fn a_chunk_is_collected_from_pieces() {
    let mut b = ChunkBuffer::new();
    assert_eq!(b.wanted(), 8192);
    assert!(b.accept(&[1, 2, 3]).is_none());
    assert_eq!(b.wanted(), 8189);
    assert!(b.accept(&[]).is_none());
    let rest = vec![9u8; 8189];
    let chunk = b.accept(&rest).unwrap();
    assert_eq!(chunk.len(), CHUNK_BYTES);
    assert_eq!(&chunk[..4], &[1, 2, 3, 9]);
    assert_eq!(b.wanted(), 8192);
    assert_eq!(b.accept(&chunk).unwrap(), chunk);
}

#[test]
fn chunks_and_the_rest_are_the_stream() {
    let stream: Vec<u8> = (0..40000u32).map(|i| (i * 7 % 251) as u8).collect();
    for size in [1usize, 100, 4096, 5000, 8192, 9000] {
        let mut b = ChunkBuffer::new();
        let mut got: Vec<u8> = Vec::new();
        let mut at = 0;
        while at < stream.len() {
            let n = size.min(b.wanted()).min(stream.len() - at);
            if let Some(chunk) = b.accept(&stream[at..at + n]) {
                assert_eq!(chunk.len(), 1024 * 2 * 4);
                got.extend(chunk);
            }
            at += n;
        }
        assert_eq!(got, stream[..32768]);
        assert_eq!(b.wanted(), 8192 - (40000 - 32768));
    }
}

#[test]
fn a_ring_gives_back_what_was_sent_while_it_wraps() {
    let (mut p, mut q) = new_ring(8);
    let mut received = Vec::new();
    for round in 0..20u32 {
        assert!(push_frame(&mut p, &[1u32, 2, 3, 4, 5, 6], &|x| 100 * round + x));
        for _ in 0..6 {
            received.push(next_sample(&mut q));
        }
    }
    let sent: Vec<u32> = (0..20).flat_map(|r| (1..=6).map(move |x| 100 * r + x)).collect();
    assert_eq!(received, sent);
}

#[test]
fn channels_are_taken_apart() {
    let samples: Vec<i32> = (0..2048i64)
        .map(|i| match i {
            0 => i32::MIN,
            1 => i32::MAX,
            2 => -1,
            3 => 0,
            _ => ((i * 2654435761) & 0xffff_ffff) as u32 as i32,
        })
        .collect();
    let raw: Vec<u8> = samples.iter().flat_map(|s| s.to_le_bytes()).collect();
    let rows = deinterleave(&raw);
    assert_eq!(rows.len(), 2);
    for ch in 0..2 {
        let expected: Vec<i32> = samples.iter().skip(ch).step_by(2).copied().collect();
        assert_eq!(rows[ch], expected);
    }
    let back: Vec<u8> = (0..1024)
        .flat_map(|i| [rows[0][i], rows[1][i]])
        .flat_map(|s| s.to_le_bytes())
        .collect();
    assert_eq!(back, raw);
}

#[test]
fn the_fill_window_reports_once_a_second() {
    let mut w = FillWindow::new(100);
    w.note(40);
    w.note(60);
    w.note(50);
    assert_eq!(w.report(0), None);
    let seen = w.report(1).unwrap();
    assert_eq!((seen.chunks, seen.min_used, seen.max_used, seen.capacity), (3, 40, 60, 100));
    assert_eq!((w.chunks, w.min_used, w.max_used, w.capacity), (0, 100, 0, 100));
    w.note(100);
    let seen = w.report(7).unwrap();
    assert_eq!((seen.chunks, seen.min_used, seen.max_used), (1, 100, 100));
}

#[test]
fn spectrum_windows_overlap_by_half() {
    let mut b: OverlapBuffer<usize> = OverlapBuffer::new();
    let mut windows = Vec::new();
    for i in 0..5000 {
        if let Some(w) = b.push(i) {
            windows.push(w);
        }
    }
    assert_eq!(windows.len(), 3);
    for (k, w) in windows.iter().enumerate() {
        let expected: Vec<usize> = (k * FFT_HOP..k * FFT_HOP + FFT_SIZE).collect();
        assert_eq!(*w, expected);
    }
    assert_eq!(windows[0][FFT_HOP..], windows[1][..FFT_SIZE - FFT_HOP]);
}

type Plain = Crossover<u32, fn(Biquad<u32>, u32) -> u32, fn(u32, u32) -> u32>;

fn pass(_: Biquad<u32>, x: u32) -> u32 {
    x + 1
}

fn times(x: u32, g: u32) -> u32 {
    x * g
}

fn plain() -> Plain {
    let mut cfg: AudioRuntimeConfig<u32> = AudioRuntimeConfig::default();
    cfg.low_gain = 1;
    cfg.mid_gain = 10;
    cfg.high_gain = 100;
    let b = Biquad::identity(1, 0);
    let e = Edge { cut: 1, lpf: b, hpf: b };
    Crossover::new(&cfg, e, e, 48000, pass, times, 0)
}

#[test]
fn a_chunk_is_played_frame_by_frame() {
    let mut c = plain();
    let mut spectrum: OverlapBuffer<u32> = OverlapBuffer::new();
    let (mut p, mut q) = new_ring(100);
    assert_eq!(ring_used(&p, 100), 0);
    let report = play_chunk(
        &mut c,
        &mut spectrum,
        &mut p,
        &vec![1, 2],
        &vec![5, 6],
        &|l, r| l + r,
        &|x| x + 1000,
    );
    assert_eq!((report.frames, report.overflow, report.windows.len()), (2, false, 0));
    assert_eq!(ring_used(&p, 100), 12);
    // each filter adds one per section: two for low and high, four for mid
    let mut expected = Vec::new();
    for (l, r) in [(1u32, 5u32), (2, 6)] {
        expected.extend([
            (l + 4) * 10 + 1000,
            (r + 4) * 10 + 1000,
            l + 2 + 1000,
            r + 2 + 1000,
            (l + 2) * 100 + 1000,
            (r + 2) * 100 + 1000,
        ]);
    }
    let got: Vec<u32> = (0..12).map(|_| next_sample(&mut q)).collect();
    assert_eq!(got, expected);
    assert_eq!(next_sample(&mut q), 0);
    assert_eq!(ring_used(&p, 100), 0);
    assert_eq!(c.left.lpf_low.a.x1, 2);
    assert_eq!(c.left.lpf_low.a.x2, 1);
}

#[test]
fn a_full_ring_drops_the_rest_of_the_chunk() {
    let mut c = plain();
    let mut spectrum: OverlapBuffer<u32> = OverlapBuffer::new();
    let (mut p, mut q) = new_ring(8);
    let report = play_chunk(
        &mut c,
        &mut spectrum,
        &mut p,
        &vec![1, 2, 3],
        &vec![1, 2, 3],
        &|l, _| l,
        &|x| x,
    );
    assert_eq!((report.frames, report.overflow), (2, true));
    // the third frame never reached the filters
    assert_eq!(c.left.lpf_low.a.x1, 2);
    let got: Vec<u32> = (0..8).map(|_| next_sample(&mut q)).collect();
    assert_eq!(got, vec![50, 50, 3, 3, 300, 300, 60, 60]);
    assert_eq!(next_sample(&mut q), 0);
}

#[test]
fn a_chunk_fills_spectrum_windows_with_its_mono_mix() {
    let mut c = plain();
    let mut spectrum: OverlapBuffer<u32> = OverlapBuffer::new();
    let (mut p, _q) = new_ring(20000);
    let left: Vec<u32> = (0..3100).collect();
    let report =
        play_chunk(&mut c, &mut spectrum, &mut p, &left, &left, &|l, r| l + r, &|_| 7);
    assert!(!report.overflow);
    assert_eq!(report.windows.len(), 2);
    assert_eq!(report.windows[0], (0..2048).map(|x| 2 * x).collect::<Vec<u32>>());
    assert_eq!(report.windows[1], (1024..3072).map(|x| 2 * x).collect::<Vec<u32>>());
}

#[test]
fn windows_go_on_over_chunks() {
    let samples: Vec<u32> = (0..4000).collect();
    let mut whole = Vec::new();
    let mut b: OverlapBuffer<u32> = OverlapBuffer::new();
    for x in &samples {
        whole.extend(b.push(*x));
    }
    let mut c = plain();
    let mut spectrum: OverlapBuffer<u32> = OverlapBuffer::new();
    let (mut p, _q) = new_ring(30000);
    let mut got = Vec::new();
    for chunk in samples.chunks(700) {
        let chunk = chunk.to_vec();
        let report =
            play_chunk(&mut c, &mut spectrum, &mut p, &chunk, &chunk, &|l, _| l, &|_| 0);
        assert!(!report.overflow && report.frames == chunk.len());
        got.extend(report.windows);
    }
    assert_eq!(got, whole);
}

#[test]
fn a_frame_is_sent_until_the_ring_is_full() {
    let (mut p, mut q) = new_ring(8);
    assert!(push_frame(&mut p, &[1u8, 2, 3, 4, 5, 6], &|x| x as u32 * 2));
    assert!(!push_frame(&mut p, &[7u8, 8, 9, 10, 11, 12], &|x| x as u32 * 2));
    assert_eq!(ring_used(&p, 8), 8);
    assert_eq!(next_sample(&mut q), 2);
    assert_eq!(ring_used(&p, 8), 7);
    assert!(!push_frame(&mut p, &[0u8; 6], &|_| 99));
    let got: Vec<u32> = (0..8).map(|_| next_sample(&mut q)).collect();
    assert_eq!(got, vec![4, 6, 8, 10, 12, 14, 16, 99]);
}

#[test]
fn silence_is_played_from_an_empty_ring() {
    assert_eq!(sample_or_silence(None), 0);
    assert_eq!(sample_or_silence(Some(5)), 5);
    assert_eq!(f32::from_bits(sample_or_silence(None)), 0.0);
    assert_eq!(used_slots(10, 4), 6);
    let (_p, mut q) = new_ring(4);
    assert_eq!(next_sample(&mut q), 0);
}

#[test]
fn the_audio_thread_starts_streams_and_plays() {
    let mut a = AudioLoop::new();
    for (reply, next) in [
        (AudioReply::No, AudioStep::StartSession),
        (AudioReply::Done, AudioStep::AskWhileWaiting),
        (AudioReply::No, AudioStep::LookForPipe),
        (AudioReply::No, AudioStep::SleepForPipe),
        (AudioReply::Done, AudioStep::AskWhileWaiting),
        (AudioReply::No, AudioStep::LookForPipe),
        (AudioReply::Yes, AudioStep::OpenPipe),
        (AudioReply::Done, AudioStep::AskWhileStreaming),
        (AudioReply::No, AudioStep::CheckConfig),
        (AudioReply::Yes, AudioStep::ApplyConfig),
        (AudioReply::Done, AudioStep::Poll),
        (AudioReply::No, AudioStep::AskWhileStreaming),
        (AudioReply::No, AudioStep::CheckConfig),
        (AudioReply::No, AudioStep::Poll),
        (AudioReply::Yes, AudioStep::Read),
        (AudioReply::EndOfFile, AudioStep::SleepBriefly),
        (AudioReply::Done, AudioStep::AskWhileStreaming),
        (AudioReply::No, AudioStep::CheckConfig),
        (AudioReply::No, AudioStep::Poll),
        (AudioReply::Yes, AudioStep::Read),
        (AudioReply::WouldBlock, AudioStep::AskWhileStreaming),
        (AudioReply::No, AudioStep::CheckConfig),
        (AudioReply::No, AudioStep::Poll),
        (AudioReply::Yes, AudioStep::Read),
    ] {
        assert!(a.advance(reply, &[]).is_none());
        assert_eq!(a.step, next);
    }
    assert!(a.advance(AudioReply::Data, &[1; 100]).is_none());
    assert_eq!(a.step, AudioStep::AskWhileStreaming);
    assert_eq!(a.wanted(), 8092);
    for reply in [AudioReply::No, AudioReply::No, AudioReply::Yes] {
        a.advance(reply, &[]);
    }
    let chunk = a.advance(AudioReply::Data, &[2; 8092]).unwrap();
    assert_eq!(chunk.len(), 8192);
    assert_eq!((chunk[99], chunk[100]), (1, 2));
    assert_eq!(a.step, AudioStep::PlayChunk);
    a.advance(AudioReply::Done, &[]);
    assert_eq!(a.step, AudioStep::AskWhileStreaming);
}

#[test]
fn the_audio_thread_starts_over_after_an_error_and_stops_when_told() {
    let mut a = AudioLoop::new();
    let to_read = [
        AudioReply::No,
        AudioReply::Done,
        AudioReply::No,
        AudioReply::Yes,
        AudioReply::Done,
        AudioReply::No,
        AudioReply::No,
        AudioReply::Yes,
    ];
    for reply in to_read {
        a.advance(reply, &[]);
    }
    assert_eq!(a.step, AudioStep::Read);
    a.advance(AudioReply::Data, &[1; 10]);
    for reply in [AudioReply::No, AudioReply::No, AudioReply::Yes] {
        a.advance(reply, &[]);
    }
    a.advance(AudioReply::Failed, &[]);
    assert_eq!(a.step, AudioStep::AskBeforeSession);
    for reply in to_read {
        a.advance(reply, &[]);
    }
    assert_eq!(a.step, AudioStep::Read);
    assert_eq!(a.wanted(), 8192);
    a.advance(AudioReply::WouldBlock, &[]);
    a.advance(AudioReply::Yes, &[]);
    assert_eq!(a.step, AudioStep::AskBeforeSession);
    a.advance(AudioReply::Yes, &[]);
    assert_eq!(a.step, AudioStep::Stop);
    a.advance(AudioReply::No, &[]);
    assert_eq!(a.step, AudioStep::Stop);
    let mut b = AudioLoop::new();
    b.advance(AudioReply::No, &[]);
    b.advance(AudioReply::Done, &[]);
    b.advance(AudioReply::Yes, &[]);
    assert_eq!(b.step, AudioStep::Stop);
}
