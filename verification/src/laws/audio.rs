//! Laws of the audio path.

use crate::config::{AppState, AudioRuntimeConfig, StatusReport};
use crate::crossover::{crossover_plays, Biquad, Crossover};
use crate::dsp::{
    buffer_capacity, chunk_played, deinterleave, newly_sent, pending_after, play_chunk, push_frame,
    sample_at, sample_offset, window_views, windows_of, AudioLoop, AudioReply, AudioStep,
    ChunkBuffer, ChunkReport, ChunkTrace, FillWindow, OverlapBuffer,
};
use crate::laws::crossover::{frames_are_played, plays_frame};
use crate::ring::{
    new_ring, next_sample, ring_capacity, ring_received, ring_sent, ring_used, sample_or_silence,
    used_slots,
};
use crate::server::{feed_step, FeedEvent, FeedStep};
use vstd::prelude::*;

verus! {

// ---------------------------------------------------------------------------
// Chunks
// ---------------------------------------------------------------------------
/// The ring buffer has room for two seconds: twice the rate for each of the six
/// channels.
pub proof fn the_ring_has_room_for_two_seconds(rate: u32, r: usize)
    requires
        call_ensures(buffer_capacity, (rate,), r),
    ensures
        r == 12 * rate,
{
}

/// A chunk is given once the bytes that came make up its 8192 bytes, with all of
/// them in the order in which they came; until then all of them are kept.
pub proof fn bytes_make_up_chunks(b: &mut ChunkBuffer, data: &[u8], r: Option<Vec<u8>>)
    requires
        call_ensures(ChunkBuffer::accept, (b, data), r),
        old(b)@.len() < 8192,
        old(b)@.len() + data@.len() <= 8192,
    ensures
        r is Some <==> old(b)@.len() + data@.len() == 8192,
        r matches Some(chunk) ==> chunk@ == old(b)@ + data@ && final(b)@.len() == 0,
        r is None ==> final(b)@ == old(b)@ + data@,
{
}

/// A new chunk is empty, and a chunk wants what it lacks.
pub proof fn a_chunk_wants_what_it_lacks(fresh: ChunkBuffer, b: ChunkBuffer, wanted: usize)
    requires
        call_ensures(ChunkBuffer::new, (), fresh),
        call_ensures(ChunkBuffer::wanted, (&b,), wanted),
        b@.len() < 8192,
    ensures
        fresh@.len() == 0,
        wanted + b@.len() == 8192,
{
}

/// The number whose two's complement the four bytes are, lowest first.
pub open spec fn number_of(b0: u8, b1: u8, b2: u8, b3: u8) -> int {
    b0 + 256 * b1 + 65536 * b2 + 16777216 * b3 - (if b3 >= 128 {
        4294967296int
    } else {
        0
    })
}

/// The samples of a chunk are taken apart by channel: frame `f` of channel `c` is
/// the number in the four bytes at the eighth byte per frame and the fourth per
/// channel.
pub proof fn samples_come_out_by_channel(
    raw: Vec<u8>,
    r: Vec<Vec<i32>>,
    channel: int,
    frame: int,
)
    requires
        call_ensures(deinterleave, (&raw,), r),
        raw@.len() == 8192,
        0 <= channel < 2,
        0 <= frame < 1024,
    ensures
        r@.len() == 2,
        r@[channel]@.len() == 1024,
        r@[channel]@[frame] == number_of(
            raw@[8 * frame + 4 * channel],
            raw@[8 * frame + 4 * channel + 1],
            raw@[8 * frame + 4 * channel + 2],
            raw@[8 * frame + 4 * channel + 3],
        ),
{
    let at = sample_offset(frame, channel);
    assert(at == 8 * frame + 4 * channel);
    assert(r@[channel]@[frame] == sample_at(raw@, at));
}

// ---------------------------------------------------------------------------
// How full the ring buffer is
// ---------------------------------------------------------------------------
/// Each chunk counts once, and the least and the most are those of the fills that
/// were noted.
pub proof fn fills_are_noted(w: &mut FillWindow, used: usize, r: ())
    requires
        call_ensures(FillWindow::note, (w, used), r),
        old(w).chunks < u64::MAX,
    ensures
        final(w).chunks == old(w).chunks + 1,
        final(w).min_used <= used && final(w).min_used <= old(w).min_used,
        final(w).min_used == used || final(w).min_used == old(w).min_used,
        final(w).max_used >= used && final(w).max_used >= old(w).max_used,
        final(w).max_used == used || final(w).max_used == old(w).max_used,
        final(w).capacity == old(w).capacity,
{
}

/// A report comes as soon as a second has passed, with all that was noted, and the
/// window starts over as a new one; before that nothing is lost.
pub proof fn reports_come_once_a_second(
    w: &mut FillWindow,
    elapsed: u64,
    r: Option<FillWindow>,
    fresh: FillWindow,
)
    requires
        call_ensures(FillWindow::report, (w, elapsed), r),
        call_ensures(FillWindow::new, (old(w).capacity,), fresh),
    ensures
        r is Some <==> elapsed > 0,
        r matches Some(seen) ==> seen == *old(w) && *final(w) == fresh,
        r is None ==> *final(w) == *old(w),
        fresh.chunks == 0,
        fresh.max_used == 0,
        fresh.min_used == old(w).capacity,
        fresh.capacity == old(w).capacity,
{
}

// ---------------------------------------------------------------------------
// Windows
// ---------------------------------------------------------------------------
/// A window is given once 2048 samples wait, with all of them in order, and its
/// second half waits on for the next one.
pub proof fn windows_are_full_and_overlap<S: Copy>(
    b: &mut OverlapBuffer<S>,
    x: S,
    r: Option<Vec<S>>,
)
    requires
        call_ensures(OverlapBuffer::<S>::push, (b, x), r),
        old(b)@.len() < 2048,
    ensures
        r is Some <==> old(b)@.len() == 2047,
        r matches Some(w) ==> {
            &&& w@ == old(b)@.push(x)
            &&& final(b)@ == w@.subrange(1024, 2048)
        },
        r is None ==> final(b)@ == old(b)@.push(x),
{
    if let Some(w) = r {
        assert(w@.skip(1024) == w@.subrange(1024, 2048));
    }
}

/// How many windows fit into so many samples, each 1024 behind the one before.
pub open spec fn windows_in(n: int) -> int {
    if n < 2048 {
        0
    } else {
        (n - 2048) / 1024 + 1
    }
}

/// The windows that these samples fill, behind what waits: window `k` starts 1024
/// times `k` behind the start, and what belongs to the next one waits.
pub proof fn windows_follow_the_stream<S>(waiting: Seq<S>, xs: Seq<S>)
    requires
        waiting.len() < 2048,
    ensures
        windows_of(waiting, xs).len() == windows_in((waiting + xs).len() as int),
        forall|k: int|
            0 <= k < windows_of(waiting, xs).len() ==> 1024 * k + 2048 <= (waiting + xs).len()
                && #[trigger] windows_of(waiting, xs)[k] == (waiting + xs).subrange(
                1024 * k,
                1024 * k + 2048,
            ),
        1024 * windows_in((waiting + xs).len() as int) <= (waiting + xs).len(),
        pending_after(waiting, xs) == (waiting + xs).skip(
            1024 * windows_in((waiting + xs).len() as int),
        ),
    decreases xs.len(),
{
    let all = waiting + xs;
    if xs.len() == 0 {
        assert(all == waiting);
        assert(all.skip(0) == all);
    } else {
        let before = xs.drop_last();
        windows_follow_the_stream(waiting, before);
        let prev = waiting + before;
        let c = windows_in(prev.len() as int);
        assert(prev.push(xs.last()) == all);
        let now = pending_after(waiting, before).push(xs.last());
        assert(now == all.skip(1024 * c));
        assert forall|k: int| 0 <= k < windows_of(waiting, xs).len() implies 1024 * k + 2048
            <= all.len() && #[trigger] windows_of(waiting, xs)[k] == all.subrange(
            1024 * k,
            1024 * k + 2048,
        ) by {
            if k < c {
                assert(windows_of(waiting, before)[k] == prev.subrange(
                    1024 * k,
                    1024 * k + 2048,
                ));
                assert(prev.subrange(1024 * k, 1024 * k + 2048) == all.subrange(
                    1024 * k,
                    1024 * k + 2048,
                ));
            } else {
                assert(now == all.subrange(1024 * k, 1024 * k + 2048));
            }
        }
        if now.len() == 2048 {
            assert(now.skip(1024) == all.skip(1024 * (c + 1)));
        }
    }
}

// ---------------------------------------------------------------------------
// Playing
// ---------------------------------------------------------------------------
/// The outputs of a frame are sent in order, each as its pattern, until one finds
/// the ring full; nothing that was sent before changes.
pub proof fn frames_are_sent_in_order<S: Copy, E: Fn(S) -> u32>(
    ring: &mut rtrb::Producer<u32>,
    six: [S; 6],
    encode: E,
    all: bool,
)
    requires
        call_ensures(push_frame::<S, E>, (ring, &six, &encode), all),
    ensures
        ring_sent(*final(ring)).len() >= ring_sent(*old(ring)).len(),
        ring_sent(*final(ring)).take(ring_sent(*old(ring)).len() as int) == ring_sent(*old(ring)),
        all <==> ring_sent(*final(ring)).len() == ring_sent(*old(ring)).len() + 6,
        forall|j: int|
            ring_sent(*old(ring)).len() <= j < ring_sent(*final(ring)).len() ==> call_ensures(
                encode,
                (six@[j - ring_sent(*old(ring)).len()],),
                #[trigger] ring_sent(*final(ring))[j],
            ),
        !all ==> ring_sent(*final(ring)).len() >= ring_capacity(*final(ring)),
        ring_capacity(*final(ring)) == ring_capacity(*old(ring)),
{
    let before = ring_sent(*old(ring));
    let after = ring_sent(*final(ring));
    let sent = newly_sent(before, after);
    assert(after == before + sent);
    assert(after.take(before.len() as int) == before);
    assert forall|j: int| before.len() <= j < after.len() implies call_ensures(
        encode,
        (six@[j - before.len()],),
        #[trigger] after[j],
    ) by {
        assert(after[j] == sent[j - before.len()]);
    }
}

/// How a chunk was played: the crossover before the first frame and after each, the
/// outputs of each frame, and its mono mix.
pub struct Played<S, K, M> {
    pub states: Seq<Crossover<S, K, M>>,
    pub outs: Seq<Seq<S>>,
    pub monos: Seq<S>,
}

/// The frames went through the crossover one after the other, each in the state that
/// the one before left, and were mixed to mono.
pub open spec fn went_through<
    S,
    K: Fn(Biquad<S>, S) -> S,
    M: Fn(S, S) -> S,
    X: Fn(S, S) -> S,
>(
    p: Played<S, K, M>,
    pre: Crossover<S, K, M>,
    left: Seq<S>,
    right: Seq<S>,
    frames: int,
    mono: X,
    post: Crossover<S, K, M>,
) -> bool {
    &&& 0 <= frames <= left.len()
    &&& p.states.len() == frames + 1
    &&& p.outs.len() == frames
    &&& p.monos.len() == frames
    &&& p.states[0] == pre
    &&& p.states[frames] == post
    &&& forall|i: int|
        0 <= i < frames ==> plays_frame(
            #[trigger] p.states[i],
            left[i],
            right[i],
            p.states[i + 1],
            p.outs[i],
        )
    &&& forall|i: int|
        0 <= i < frames ==> call_ensures(mono, (left[i], right[i]), #[trigger] p.monos[i])
}

/// The outputs of the frames were sent in order, as their patterns, behind what had
/// been sent: all of them, or all before the one that found the ring full in the
/// last frame.
pub open spec fn were_sent<S, E: Fn(S) -> u32>(
    outs: Seq<Seq<S>>,
    encode: E,
    before: Seq<u32>,
    after: Seq<u32>,
    overflow: bool,
) -> bool {
    &&& before.len() <= after.len() <= before.len() + 6 * outs.len()
    &&& forall|j: int| 0 <= j < before.len() ==> #[trigger] after[j] == before[j]
    &&& forall|j: int|
        before.len() <= j < after.len() ==> call_ensures(
            encode,
            (outs[(j - before.len()) / 6][(j - before.len()) % 6],),
            #[trigger] after[j],
        )
    &&& !overflow ==> after.len() == before.len() + 6 * outs.len()
    &&& overflow ==> before.len() + 6 * (outs.len() - 1) <= after.len() < before.len() + 6
        * outs.len()
}

/// The windows that were given are those of the stream of what waited and the mono
/// mixes, each 1024 samples behind the one before, and the rest waits on.
pub open spec fn windows_given<S>(
    windows: Seq<Vec<S>>,
    waiting: Seq<S>,
    monos: Seq<S>,
    waiting_on: Seq<S>,
) -> bool {
    let stream = waiting + monos;
    &&& windows.len() == windows_in(stream.len() as int)
    &&& forall|k: int|
        0 <= k < windows.len() ==> (#[trigger] windows[k])@ == stream.subrange(
            1024 * k,
            1024 * k + 2048,
        )
    &&& waiting_on == stream.skip(1024 * windows_in(stream.len() as int))
}

/// A chunk is played frame by frame and in order: every frame goes through the
/// crossover, the mono mixes go on with the stream of spectrum windows, and the
/// outputs are sent behind what was sent before. All frames are played, unless an
/// output finds the ring full; the chunk ends with the frame of that output.
pub proof fn chunks_are_played_in_order<
    S: Copy + Send,
    K: Fn(Biquad<S>, S) -> S + Copy + Send,
    M: Fn(S, S) -> S + Copy,
    X: Fn(S, S) -> S,
    E: Fn(S) -> u32,
>(
    crossover: &mut Crossover<S, K, M>,
    spectrum: &mut OverlapBuffer<S>,
    ring: &mut rtrb::Producer<u32>,
    left: Vec<S>,
    right: Vec<S>,
    mono: X,
    encode: E,
    report: ChunkReport<S>,
)
    requires
        call_ensures(
            play_chunk::<S, K, M, X, E>,
            (crossover, spectrum, ring, &left, &right, &mono, &encode),
            report,
        ),
        left@.len() <= right@.len(),
        old(spectrum)@.len() < 2048,
    ensures
        exists|p: Played<S, K, M>|
            {
                &&& #[trigger] went_through(
                    p,
                    *old(crossover),
                    left@,
                    right@,
                    report.frames as int,
                    mono,
                    *final(crossover),
                )
                &&& were_sent(
                    p.outs,
                    encode,
                    ring_sent(*old(ring)),
                    ring_sent(*final(ring)),
                    report.overflow,
                )
                &&& windows_given(report.windows@, old(spectrum)@, p.monos, final(spectrum)@)
            },
        !report.overflow ==> report.frames == left@.len(),
        report.overflow ==> ring_sent(*final(ring)).len() >= ring_capacity(*final(ring)),
        ring_sent(*old(ring)).len() + 6 * left@.len() <= ring_capacity(*old(ring))
            ==> !report.overflow,
        ring_capacity(*final(ring)) == ring_capacity(*old(ring)),
{
    let before = ring_sent(*old(ring));
    let after = ring_sent(*final(ring));
    let sent = newly_sent(before, after);
    let t = choose|t: ChunkTrace<S, K, M>|
        #[trigger] chunk_played(
            t,
            *old(crossover),
            *final(crossover),
            left@,
            right@,
            mono,
            encode,
            old(spectrum)@,
            final(spectrum)@,
            sent,
            report,
        );
    let frames = report.frames as int;
    let p = Played { states: t.states, outs: t.outs, monos: t.monos };
    assert forall|i: int| 0 <= i < frames implies plays_frame(
        #[trigger] p.states[i],
        left@[i],
        right@[i],
        p.states[i + 1],
        p.outs[i],
    ) by {
        assert(crossover_plays(t.states[i], left@[i], right@[i], t.states[i + 1], t.outs[i]));
        frames_are_played(t.states[i], left@[i], right@[i], t.states[i + 1], t.outs[i]);
    }
    assert(went_through(p, *old(crossover), left@, right@, frames, mono, *final(crossover)));
    assert(after == before + sent);
    assert forall|j: int| before.len() <= j < after.len() implies call_ensures(
        encode,
        (p.outs[(j - before.len()) / 6][(j - before.len()) % 6],),
        #[trigger] after[j],
    ) by {
        assert(after[j] == t.codes[j - before.len()]);
    }
    assert(were_sent(p.outs, encode, before, after, report.overflow));
    windows_follow_the_stream(old(spectrum)@, t.monos);
    let ws = windows_of(old(spectrum)@, t.monos);
    assert(window_views(report.windows@) == ws);
    assert(window_views(report.windows@).len() == report.windows@.len());
    assert forall|k: int| 0 <= k < report.windows@.len() implies (#[trigger] report.windows@[k])@
        == (old(spectrum)@ + t.monos).subrange(1024 * k, 1024 * k + 2048) by {
        assert(window_views(report.windows@)[k] == report.windows@[k]@);
        assert(ws[k] == (old(spectrum)@ + t.monos).subrange(1024 * k, 1024 * k + 2048));
    }
    assert(windows_given(report.windows@, old(spectrum)@, t.monos, final(spectrum)@));
}

// ---------------------------------------------------------------------------
// The ring
// ---------------------------------------------------------------------------
/// What is taken out of the ring is played as it is, and silence, the pattern zero,
/// where there is nothing.
pub proof fn samples_are_played_as_they_are(item: u32, some: u32, none: u32)
    requires
        call_ensures(sample_or_silence, (Some(item),), some),
        call_ensures(sample_or_silence, (None,), none),
    ensures
        some == item,
        none == 0,
{
}

/// The slots that are used and those that are free make up the capacity.
pub proof fn used_and_free_make_up_the_ring(capacity: usize, free: usize, used: usize)
    requires
        call_ensures(used_slots, (capacity, free), used),
        free <= capacity,
    ensures
        used + free == capacity,
{
}

/// A new ring is empty and has the room that was asked for; the sample that is
/// played next is the next one received, or silence where none was.
pub proof fn rings_start_empty(
    capacity: usize,
    ends: (rtrb::Producer<u32>, rtrb::Consumer<u32>),
    used: usize,
    c: &mut rtrb::Consumer<u32>,
    sample: u32,
)
    requires
        call_ensures(new_ring, (capacity,), ends),
        call_ensures(ring_used, (&ends.0, capacity), used),
        call_ensures(next_sample, (c,), sample),
    ensures
        ring_sent(ends.0).len() == 0,
        ring_received(ends.1).len() == 0,
        ring_capacity(ends.0) == capacity,
        used == 0,
        ring_received(*final(c)) == ring_received(*old(c)) && sample == 0 || ring_received(
            *final(c),
        ) == ring_received(*old(c)).push(sample),
{
}

// ---------------------------------------------------------------------------
// The audio thread
// ---------------------------------------------------------------------------
/// The audio thread treats the bytes that it reads exactly as its chunk does; in any
/// other step no chunk comes and no byte is lost, until a pipe is opened, with an
/// empty chunk.
pub proof fn the_audio_thread_loses_no_byte(
    audio: &mut AudioLoop,
    reply: AudioReply,
    data: &[u8],
    r: Option<Vec<u8>>,
)
    requires
        call_ensures(AudioLoop::advance, (audio, reply, data), r),
        old(audio).chunk@.len() < 8192,
        old(audio).chunk@.len() + data@.len() <= 8192,
    ensures
        old(audio).step == AudioStep::Read && reply == AudioReply::Data ==> {
            &&& r is Some <==> old(audio).chunk@.len() + data@.len() == 8192
            &&& r matches Some(chunk) ==> chunk@ == old(audio).chunk@ + data@ && final(
                audio
            ).chunk@.len() == 0
            &&& r is None ==> final(audio).chunk@ == old(audio).chunk@ + data@
        },
        old(audio).step == AudioStep::OpenPipe ==> r is None && final(audio).chunk@.len() == 0,
        !(old(audio).step == AudioStep::Read && reply == AudioReply::Data) && old(audio).step
            != AudioStep::OpenPipe ==> r is None && final(audio).chunk@ == old(audio).chunk@,
{
}

/// Where the audio thread goes: it asks before every session, while it waits for the
/// pipe, and before every read, and ends exactly on a yes before a session or while
/// it waits. A complete chunk is played before anything else; a change of the
/// configuration is applied before the next read; a session ends on a yes while it
/// streams or where reading fails.
pub proof fn the_audio_thread_goes_round(
    audio: &mut AudioLoop,
    reply: AudioReply,
    data: &[u8],
    r: Option<Vec<u8>>,
)
    requires
        call_ensures(AudioLoop::advance, (audio, reply, data), r),
        old(audio).chunk@.len() < 8192,
        old(audio).chunk@.len() + data@.len() <= 8192,
    ensures
        final(audio).step == AudioStep::Stop <==> old(audio).step == AudioStep::Stop || (old(
            audio
        ).step == AudioStep::AskBeforeSession || old(audio).step == AudioStep::AskWhileWaiting)
            && reply == AudioReply::Yes,
        final(audio).step == AudioStep::PlayChunk <==> r is Some,
        final(audio).step == AudioStep::ApplyConfig <==> old(audio).step == AudioStep::CheckConfig
            && reply == AudioReply::Yes,
        final(audio).step == AudioStep::Poll <==> old(audio).step == AudioStep::ApplyConfig || old(
            audio
        ).step == AudioStep::CheckConfig && reply != AudioReply::Yes,
        final(audio).step == AudioStep::Read <==> old(audio).step == AudioStep::Poll && reply
            == AudioReply::Yes,
        final(audio).step == AudioStep::CheckConfig <==> old(audio).step
            == AudioStep::AskWhileStreaming && reply != AudioReply::Yes,
        final(audio).step == AudioStep::StartSession <==> old(audio).step
            == AudioStep::AskBeforeSession && reply != AudioReply::Yes,
        final(audio).step == AudioStep::OpenPipe <==> old(audio).step == AudioStep::LookForPipe
            && reply == AudioReply::Yes,
        final(audio).step == AudioStep::SleepForPipe <==> old(audio).step
            == AudioStep::LookForPipe && reply != AudioReply::Yes,
        final(audio).step == AudioStep::LookForPipe <==> old(audio).step
            == AudioStep::AskWhileWaiting && reply != AudioReply::Yes,
        final(audio).step == AudioStep::AskWhileWaiting <==> old(audio).step
            == AudioStep::StartSession || old(audio).step == AudioStep::SleepForPipe,
        final(audio).step == AudioStep::SleepBriefly <==> old(audio).step == AudioStep::Read
            && reply == AudioReply::EndOfFile,
        final(audio).step == AudioStep::AskBeforeSession <==> {
            ||| old(audio).step == AudioStep::AskWhileStreaming && reply == AudioReply::Yes
            ||| old(audio).step == AudioStep::Read && reply != AudioReply::Data && reply
                != AudioReply::EndOfFile && reply != AudioReply::WouldBlock
        },
{
}

// ---------------------------------------------------------------------------
// Settings and state
// ---------------------------------------------------------------------------
/// `r` is what the number type makes of `n`.
pub open spec fn number<R: From<u16>>(n: u16, r: R) -> bool {
    call_ensures(<R as From<u16>>::from, (n,), r)
}

/// By default every gain is one, the cuts are at 1000 and 10000 Hz, and no switch is
/// on.
pub proof fn the_default_is_neutral<R: From<u16>>(cfg: AudioRuntimeConfig<R>)
    requires
        call_ensures(<AudioRuntimeConfig<R> as Default>::default, (), cfg),
    ensures
        number(1, cfg.volume),
        number(1, cfg.low_gain) && number(1, cfg.mid_gain) && number(1, cfg.high_gain),
        number(1000, cfg.low_cut_hz) && number(10000, cfg.mid_cut_hz),
        !cfg.low_mute && !cfg.mid_mute && !cfg.high_mute,
        !cfg.low_solo && !cfg.mid_solo && !cfg.high_solo,
        !cfg.low_bypass && !cfg.mid_bypass && !cfg.high_bypass,
{
}

/// A status report is published as it is, and turns an unknown playback state into
/// playing, but no other.
pub proof fn reports_are_published<R>(state: &mut AppState<R>, report: StatusReport<R>, r: ())
    requires
        call_ensures(AppState::<R>::publish, (state, report), r),
    ensures
        final(state).buffer_fill == report.fill,
        final(state).buffer_fill_avg == report.fill_avg,
        final(state).buffer_fill_min == report.fill_min,
        final(state).buffer_fill_max == report.fill_max,
        final(state).resample_ratio == report.ratio,
        final(state).chunks_processed == report.chunks,
        old(state).playback@ == seq!['U', 'n', 'k', 'n', 'o', 'w', 'n'] ==> final(state).playback@
            == seq!['P', 'l', 'a', 'y', 'i', 'n', 'g'],
        old(state).playback@ != seq!['U', 'n', 'k', 'n', 'o', 'w', 'n'] ==> final(state).playback@
            == old(state).playback@,
        final(state).track@ == old(state).track@,
        final(state).artist@ == old(state).artist@,
        final(state).album@ == old(state).album@,
        final(state).output_rate == old(state).output_rate,
        final(state).output_format@ == old(state).output_format@,
{
    reveal_strlit("Unknown");
    reveal_strlit("Playing");
    assert("Unknown"@ == seq!['U', 'n', 'k', 'n', 'o', 'w', 'n']);
    assert("Playing"@ == seq!['P', 'l', 'a', 'y', 'i', 'n', 'g']);
}

/// The format and the rate that were opened are published, and nothing else changes.
pub proof fn the_output_is_published<R>(
    state: &mut AppState<R>,
    rate: u32,
    format: String,
    r: (),
)
    requires
        call_ensures(AppState::<R>::set_output, (state, rate, format), r),
    ensures
        final(state).output_rate == rate,
        final(state).output_format@ == format@,
        final(state).track@ == old(state).track@,
        final(state).artist@ == old(state).artist@,
        final(state).album@ == old(state).album@,
        final(state).playback@ == old(state).playback@,
        final(state).buffer_fill == old(state).buffer_fill,
        final(state).buffer_fill_avg == old(state).buffer_fill_avg,
        final(state).buffer_fill_min == old(state).buffer_fill_min,
        final(state).buffer_fill_max == old(state).buffer_fill_max,
        final(state).resample_ratio == old(state).resample_ratio,
        final(state).chunks_processed == old(state).chunks_processed,
{
}

/// Before anything was heard of, there is no track and no output, nothing was
/// processed, and the playback state is unknown.
pub proof fn the_state_starts_unknown<R: Default>(state: AppState<R>)
    requires
        call_ensures(<AppState<R> as Default>::default, (), state),
    ensures
        state.track@.len() == 0 && state.artist@.len() == 0 && state.album@.len() == 0,
        state.playback@ == seq!['U', 'n', 'k', 'n', 'o', 'w', 'n'],
        call_ensures(R::default, (), state.buffer_fill),
        call_ensures(R::default, (), state.buffer_fill_avg),
        call_ensures(R::default, (), state.buffer_fill_min),
        call_ensures(R::default, (), state.buffer_fill_max),
        call_ensures(R::default, (), state.resample_ratio),
        state.chunks_processed == 0 && state.output_rate == 0,
        state.output_format@.len() == 0,
{
    reveal_strlit("Unknown");
    assert("Unknown"@ == seq!['U', 'n', 'k', 'n', 'o', 'w', 'n']);
}

/// The audio thread starts before its first session, without a byte, and wants what
/// its chunk lacks; a new window buffer holds no sample.
pub proof fn the_audio_thread_starts_empty<S: Copy>(
    fresh: AudioLoop,
    audio: AudioLoop,
    wanted: usize,
    windows: OverlapBuffer<S>,
)
    requires
        call_ensures(AudioLoop::new, (), fresh),
        call_ensures(AudioLoop::wanted, (&audio,), wanted),
        call_ensures(OverlapBuffer::<S>::new, (), windows),
        audio.chunk@.len() < 8192,
    ensures
        fresh.step == AudioStep::AskBeforeSession,
        fresh.chunk@.len() == 0,
        wanted + audio.chunk@.len() == 8192,
        windows@.len() == 0,
{
}

/// A spectrum that came is sent to the client; the next one is waited for once it was
/// sent, or where some were skipped; and the stream ends with the spectra or with the
/// client.
pub proof fn spectra_are_sent_as_they_come(event: FeedEvent, r: FeedStep)
    requires
        call_ensures(feed_step, (event,), r),
    ensures
        event == FeedEvent::Frame ==> r == FeedStep::Send,
        event == FeedEvent::Sent ==> r == FeedStep::Receive,
        event == FeedEvent::Lagged ==> r == FeedStep::Receive,
        event == FeedEvent::Closed ==> r == FeedStep::Stop,
        event == FeedEvent::SendFailed ==> r == FeedStep::Stop,
{
}

} // verus!
