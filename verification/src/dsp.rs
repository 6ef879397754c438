//! The audio path: collecting chunks of samples, taking the channels apart,
//! windows for the spectrum, and playing a chunk through the crossover into the
//! ring buffer.

use crate::config::{CHANNELS, FFT_SIZE, OUTPUT_CHANNELS, RESAMPLE_CHUNK};
use crate::crossover::{crossover_plays, Biquad, Crossover};
use crate::ring::{ring_capacity, ring_inflow, ring_push, ring_sent, ring_taken, sends_in_order};
use vstd::prelude::*;

verus! {

/// Bytes of one sample.
pub const SAMPLE_BYTES: usize = 4;

/// Bytes of one chunk: its frames, each with a sample for every channel.
pub const CHUNK_BYTES: usize = 8192;

/// A chunk is made of exactly as many whole frames as are resampled at once.
pub proof fn chunk_is_made_of_frames()
    ensures
        CHUNK_BYTES == RESAMPLE_CHUNK * CHANNELS * SAMPLE_BYTES,
{
}

/// Room in the ring buffer: two seconds of output.
pub fn buffer_capacity(output_rate: u32) -> (r: usize)
    requires
        output_rate * OUTPUT_CHANNELS * 2 <= usize::MAX,
    ensures
        r == output_rate * OUTPUT_CHANNELS * 2,
{
    output_rate as usize * OUTPUT_CHANNELS * 2
}

// ---------------------------------------------------------------------------
// Collecting a chunk
// ---------------------------------------------------------------------------
/// The bytes of a chunk that is not complete yet.
pub struct ChunkBuffer {
    bytes: Vec<u8>,
}

impl View for ChunkBuffer {
    type V = Seq<u8>;

    closed spec fn view(&self) -> Seq<u8> {
        self.bytes@
    }
}

/// What comes of more bytes for a chunk: the chunk where they complete it, and
/// the bytes that are collected from there on.
pub open spec fn chunk_step(collected: Seq<u8>, data: Seq<u8>) -> (Option<Seq<u8>>, Seq<u8>) {
    let all = collected + data;
    if all.len() < CHUNK_BYTES {
        (None, all)
    } else {
        (Some(all), Seq::empty())
    }
}

/// An optional chunk as a sequence.
pub open spec fn chunk_view(chunk: Option<Vec<u8>>) -> Option<Seq<u8>> {
    match chunk {
        Some(c) => Some(c@),
        None => None,
    }
}

impl ChunkBuffer {
    /// The chunk is not complete.
    pub open spec fn wf(self) -> bool {
        self@.len() < CHUNK_BYTES
    }

    /// An empty chunk.
    pub fn new() -> (b: Self)
        ensures
            b.wf(),
            b@ == Seq::<u8>::empty(),
    {
        ChunkBuffer { bytes: Vec::new() }
    }

    /// How many bytes the chunk lacks.
    pub fn wanted(&self) -> (r: usize)
        requires
            self.wf(),
        ensures
            r == CHUNK_BYTES - self@.len(),
            r > 0,
    {
        CHUNK_BYTES - self.bytes.len()
    }

    /// Takes some of the bytes that the chunk lacks. Gives the chunk once it is
    /// complete, and starts a new one.
    pub fn accept(&mut self, data: &[u8]) -> (r: Option<Vec<u8>>)
        requires
            old(self).wf(),
            old(self)@.len() + data@.len() <= CHUNK_BYTES,
        ensures
            final(self).wf(),
            (chunk_view(r), final(self)@) == chunk_step(old(self)@, data@),
            r matches Some(chunk) ==> chunk@.len() == CHUNK_BYTES,
    {
        let mut i: usize = 0;
        while i < data.len()
            invariant
                i <= data@.len(),
                self@ == old(self)@ + data@.take(i as int),
            decreases data@.len() - i,
        {
            self.bytes.push(data[i]);
            proof {
                assert(data@.take(i + 1) == data@.take(i as int).push(data@[i as int]));
                assert(self@ == old(self)@ + data@.take(i + 1));
            }
            i += 1;
        }
        proof {
            assert(data@.take(data@.len() as int) == data@);
        }
        if self.bytes.len() < CHUNK_BYTES {
            None
        } else {
            let mut chunk: Vec<u8> = Vec::new();
            chunk.append(&mut self.bytes);
            Some(chunk)
        }
    }
}

/// The bytes one after the other.
pub open spec fn joined_bytes(parts: Seq<Seq<u8>>) -> Seq<u8>
    decreases parts.len(),
{
    if parts.len() == 0 {
        Seq::empty()
    } else {
        joined_bytes(parts.drop_last()) + parts.last()
    }
}

/// The bytes of the chunk that is not complete after these pieces.
pub open spec fn bytes_left(pieces: Seq<Seq<u8>>) -> Seq<u8>
    decreases pieces.len(),
{
    if pieces.len() == 0 {
        Seq::empty()
    } else {
        chunk_step(bytes_left(pieces.drop_last()), pieces.last()).1
    }
}

/// The chunks that these pieces complete.
pub open spec fn chunks_of(pieces: Seq<Seq<u8>>) -> Seq<Seq<u8>>
    decreases pieces.len(),
{
    if pieces.len() == 0 {
        Seq::empty()
    } else {
        let before = chunks_of(pieces.drop_last());
        match chunk_step(bytes_left(pieces.drop_last()), pieces.last()).0 {
            Some(chunk) => before.push(chunk),
            None => before,
        }
    }
}

/// No piece has more bytes than the chunk lacks when it comes.
pub open spec fn pieces_fit(pieces: Seq<Seq<u8>>) -> bool {
    forall|n: int|
        0 <= n < pieces.len() ==> bytes_left(#[trigger] pieces.take(n)).len() + pieces[n].len()
            <= CHUNK_BYTES
}

/// In whatever pieces the bytes come, none is lost and none changes its place:
/// the chunks and the bytes that are left are the stream, and every chunk has
/// its full length.
pub proof fn chunks_keep_the_stream(pieces: Seq<Seq<u8>>)
    requires
        pieces_fit(pieces),
    ensures
        joined_bytes(chunks_of(pieces)) + bytes_left(pieces) == joined_bytes(pieces),
        bytes_left(pieces).len() < CHUNK_BYTES,
        forall|k: int|
            0 <= k < chunks_of(pieces).len() ==> (#[trigger] chunks_of(pieces)[k]).len()
                == CHUNK_BYTES,
    decreases pieces.len(),
{
    if pieces.len() > 0 {
        let before = pieces.drop_last();
        assert forall|n: int| 0 <= n < before.len() implies bytes_left(
            #[trigger] before.take(n),
        ).len() + before[n].len() <= CHUNK_BYTES by {
            assert(before.take(n) == pieces.take(n));
        }
        chunks_keep_the_stream(before);
        assert(pieces.take(pieces.len() - 1) == before);
        let all = bytes_left(before) + pieces.last();
        assert(joined_bytes(chunks_of(before)) + all == joined_bytes(pieces));
        if all.len() >= CHUNK_BYTES {
            assert(chunks_of(pieces).drop_last() == chunks_of(before));
        }
    }
}

// ---------------------------------------------------------------------------
// Taking the channels apart
// ---------------------------------------------------------------------------
/// The signed number whose four bytes, lowest first, stand at position `at`.
pub open spec fn sample_at(raw: Seq<u8>, at: int) -> int {
    let u = raw[at] + 256 * raw[at + 1] + 65536 * raw[at + 2] + 16777216 * raw[at + 3];
    if u < 0x8000_0000 {
        u
    } else {
        u - 0x1_0000_0000
    }
}

/// Where the sample of a channel in a frame stands.
pub open spec fn sample_offset(frame: int, channel: int) -> int {
    (frame * CHANNELS + channel) * SAMPLE_BYTES
}

fn read_sample(raw: &Vec<u8>, at: usize) -> (r: i32)
    requires
        at + 4 <= raw.len(),
    ensures
        r == sample_at(raw@, at as int),
{
    let u: u32 = raw[at] as u32 + 256 * (raw[at + 1] as u32) + 65536 * (raw[at + 2] as u32)
        + 16777216 * (raw[at + 3] as u32);
    if u < 0x8000_0000 {
        u as i32
    } else {
        (u as i64 - 0x1_0000_0000) as i32
    }
}

/// Takes a chunk of interleaved samples apart: the samples of each channel, in
/// the order of the frames.
pub fn deinterleave(raw: &Vec<u8>) -> (r: Vec<Vec<i32>>)
    requires
        raw@.len() == CHUNK_BYTES,
    ensures
        r@.len() == CHANNELS,
        forall|ch: int| 0 <= ch < CHANNELS ==> (#[trigger] r@[ch])@.len() == RESAMPLE_CHUNK,
        forall|ch: int, frame: int|
            0 <= ch < CHANNELS && 0 <= frame < RESAMPLE_CHUNK ==> (#[trigger] r@[ch]@[frame])
                == sample_at(raw@, sample_offset(frame, ch)),
{
    let mut out: Vec<Vec<i32>> = Vec::new();
    let mut ch: usize = 0;
    while ch < CHANNELS
        invariant
            ch <= CHANNELS,
            raw@.len() == CHUNK_BYTES,
            out@.len() == ch,
            forall|c: int| 0 <= c < ch ==> (#[trigger] out@[c])@.len() == RESAMPLE_CHUNK,
            forall|c: int, frame: int|
                0 <= c < ch && 0 <= frame < RESAMPLE_CHUNK ==> (#[trigger] out@[c]@[frame])
                    == sample_at(raw@, sample_offset(frame, c)),
        decreases CHANNELS - ch,
    {
        let mut row: Vec<i32> = Vec::new();
        let mut frame: usize = 0;
        while frame < RESAMPLE_CHUNK
            invariant
                ch < CHANNELS,
                frame <= RESAMPLE_CHUNK,
                raw@.len() == CHUNK_BYTES,
                row@.len() == frame,
                forall|f: int|
                    0 <= f < frame ==> (#[trigger] row@[f]) == sample_at(
                        raw@,
                        sample_offset(f, ch as int),
                    ),
            decreases RESAMPLE_CHUNK - frame,
        {
            row.push(read_sample(raw, (frame * CHANNELS + ch) * SAMPLE_BYTES));
            frame += 1;
        }
        out.push(row);
        ch += 1;
    }
    out
}

/// The byte of a signed number, counted from the lowest.
pub open spec fn byte_of(v: int, k: int) -> int {
    let u = if v < 0 {
        v + 0x1_0000_0000
    } else {
        v
    };
    if k == 0 {
        u % 256
    } else if k == 1 {
        (u / 256) % 256
    } else if k == 2 {
        (u / 65536) % 256
    } else {
        u / 16777216
    }
}

proof fn lemma_bytes(b0: int, b1: int, b2: int, b3: int)
    requires
        0 <= b0 < 256,
        0 <= b1 < 256,
        0 <= b2 < 256,
        0 <= b3 < 256,
    ensures
        ({
            let u = b0 + 256 * b1 + 65536 * b2 + 16777216 * b3;
            &&& u % 256 == b0
            &&& (u / 256) % 256 == b1
            &&& (u / 65536) % 256 == b2
            &&& u / 16777216 == b3
        }),
{
    let u = b0 + 256 * b1 + 65536 * b2 + 16777216 * b3;
    assert(u == b0 + 256 * (b1 + 256 * b2 + 65536 * b3));
    assert(u / 256 == b1 + 256 * (b2 + 256 * b3));
    assert(u / 65536 == b2 + 256 * b3);
}

/// Taking the channels apart loses nothing: every byte of the chunk can be read
/// off the samples.
pub proof fn deinterleaving_keeps_every_byte(raw: Seq<u8>, frame: int, channel: int, k: int)
    requires
        raw.len() == CHUNK_BYTES,
        0 <= frame < RESAMPLE_CHUNK,
        0 <= channel < CHANNELS,
        0 <= k < SAMPLE_BYTES,
    ensures
        0 <= sample_offset(frame, channel) + k < raw.len(),
        raw[sample_offset(frame, channel) + k] == byte_of(
            sample_at(raw, sample_offset(frame, channel)),
            k,
        ),
{
    let at = sample_offset(frame, channel);
    lemma_bytes(raw[at] as int, raw[at + 1] as int, raw[at + 2] as int, raw[at + 3] as int);
}

/// Every byte of a chunk belongs to exactly one sample.
pub proof fn every_byte_has_its_sample(at: int)
    requires
        0 <= at < CHUNK_BYTES,
    ensures
        ({
            let frame = at / (CHANNELS * SAMPLE_BYTES);
            let channel = (at / SAMPLE_BYTES as int) % CHANNELS as int;
            let k = at % SAMPLE_BYTES as int;
            &&& 0 <= frame < RESAMPLE_CHUNK
            &&& 0 <= channel < CHANNELS
            &&& 0 <= k < SAMPLE_BYTES
            &&& at == sample_offset(frame, channel) + k
        }),
{
    let q = at / 4;
    assert(CHANNELS * SAMPLE_BYTES == 8);
    assert(at == 4 * q + at % 4);
    assert(q == 2 * (q / 2) + q % 2);
    assert(at / 8 == q / 2);
}

// ---------------------------------------------------------------------------
// How full the ring buffer is
// ---------------------------------------------------------------------------
/// What was seen of the ring buffer since the last report: how many chunks came,
/// and the least and the most samples that waited when one came.
#[derive(Clone, Copy, Debug, PartialEq, Eq, Structural)]
pub struct FillWindow {
    pub capacity: usize,
    pub chunks: u64,
    pub min_used: usize,
    pub max_used: usize,
}

impl FillWindow {
    /// The window in which nothing was seen yet.
    pub open spec fn fresh(capacity: usize) -> Self {
        FillWindow { capacity, chunks: 0, min_used: capacity, max_used: 0 }
    }

    /// The window after a chunk came while so many samples waited.
    pub open spec fn noted(self, used: usize) -> Self {
        FillWindow {
            capacity: self.capacity,
            chunks: (self.chunks + 1) as u64,
            min_used: if used < self.min_used {
                used
            } else {
                self.min_used
            },
            max_used: if used > self.max_used {
                used
            } else {
                self.max_used
            },
        }
    }

    /// The window after these chunks.
    pub open spec fn noted_all(self, seen: Seq<usize>) -> Self
        decreases seen.len(),
    {
        if seen.len() == 0 {
            self
        } else {
            self.noted_all(seen.drop_last()).noted(seen.last())
        }
    }

    /// A window in which nothing was seen yet.
    pub fn new(capacity: usize) -> (w: Self)
        ensures
            w == FillWindow::fresh(capacity),
    {
        FillWindow { capacity, chunks: 0, min_used: capacity, max_used: 0 }
    }

    /// Notes that a chunk came while so many samples waited.
    pub fn note(&mut self, used: usize)
        requires
            old(self).chunks < u64::MAX,
        ensures
            *final(self) == old(self).noted(used),
    {
        self.chunks = self.chunks + 1;
        if used < self.min_used {
            self.min_used = used;
        }
        if used > self.max_used {
            self.max_used = used;
        }
    }

    /// Once a second has passed, gives what was seen and starts over.
    pub fn report(&mut self, elapsed_secs: u64) -> (r: Option<FillWindow>)
        ensures
            elapsed_secs >= 1 ==> r == Some(*old(self)) && *final(self) == FillWindow::fresh(
                old(self).capacity,
            ),
            elapsed_secs < 1 ==> r is None && *final(self) == *old(self),
    {
        if elapsed_secs >= 1 {
            let seen = *self;
            *self = FillWindow::new(self.capacity);
            Some(seen)
        } else {
            None
        }
    }
}

/// The least and the most of a window are the least and the most that it saw,
/// and its count is how many chunks it saw.
pub proof fn window_spans_what_it_saw(capacity: usize, seen: Seq<usize>)
    requires
        seen.len() <= u64::MAX,
        forall|i: int| 0 <= i < seen.len() ==> seen[i] <= capacity,
    ensures
        ({
            let w = FillWindow::fresh(capacity).noted_all(seen);
            &&& w.chunks == seen.len()
            &&& w.capacity == capacity
            &&& forall|i: int| 0 <= i < seen.len() ==> w.min_used <= #[trigger] seen[i]
                <= w.max_used
            &&& seen.len() > 0 ==> seen.contains(w.min_used) && seen.contains(w.max_used)
        }),
    decreases seen.len(),
{
    if seen.len() > 0 {
        let before = seen.drop_last();
        window_spans_what_it_saw(capacity, before);
        let w = FillWindow::fresh(capacity).noted_all(before);
        let last = seen.last();
        assert(seen[seen.len() - 1] == last);
        assert forall|x: usize| before.contains(x) implies seen.contains(x) by {
            let i = choose|i: int| 0 <= i < before.len() && before[i] == x;
            assert(seen[i] == x);
        }
        assert forall|i: int| 0 <= i < seen.len() implies w.noted(last).min_used
            <= #[trigger] seen[i] <= w.noted(last).max_used by {
            if i < before.len() {
                assert(before[i] == seen[i]);
            }
        }
        if before.len() == 0 {
            assert(w == FillWindow::fresh(capacity));
        }
    }
}

// ---------------------------------------------------------------------------
// Windows for the spectrum
// ---------------------------------------------------------------------------
/// Samples by which one window follows the other.
pub const FFT_HOP: usize = 1024;

/// Samples that wait until they fill a window. Each window shares its second
/// half with the next one.
pub struct OverlapBuffer<S> {
    pending: Vec<S>,
}

impl<S> View for OverlapBuffer<S> {
    type V = Seq<S>;

    closed spec fn view(&self) -> Seq<S> {
        self.pending@
    }
}

/// What waits after one more sample.
pub open spec fn pending_step<S>(pending: Seq<S>, x: S) -> Seq<S> {
    let all = pending.push(x);
    if all.len() == FFT_SIZE {
        all.skip(FFT_HOP as int)
    } else {
        all
    }
}

/// What waits after these samples.
pub open spec fn pending_after<S>(pending: Seq<S>, xs: Seq<S>) -> Seq<S>
    decreases xs.len(),
{
    if xs.len() == 0 {
        pending
    } else {
        pending_step(pending_after(pending, xs.drop_last()), xs.last())
    }
}

/// The windows that these samples fill.
pub open spec fn windows_of<S>(pending: Seq<S>, xs: Seq<S>) -> Seq<Seq<S>>
    decreases xs.len(),
{
    if xs.len() == 0 {
        Seq::empty()
    } else {
        let before = windows_of(pending, xs.drop_last());
        let all = pending_after(pending, xs.drop_last()).push(xs.last());
        if all.len() == FFT_SIZE {
            before.push(all)
        } else {
            before
        }
    }
}

impl<S: Copy> OverlapBuffer<S> {
    /// No window is full.
    pub open spec fn wf(self) -> bool {
        self@.len() < FFT_SIZE
    }

    /// A buffer in which nothing waits.
    pub fn new() -> (b: Self)
        ensures
            b.wf(),
            b@ == Seq::<S>::empty(),
    {
        OverlapBuffer { pending: Vec::new() }
    }

    /// Takes one sample. Gives a window once it is full, and keeps its second
    /// half.
    pub fn push(&mut self, x: S) -> (r: Option<Vec<S>>)
        requires
            old(self).wf(),
        ensures
            final(self).wf(),
            final(self)@ == pending_step(old(self)@, x),
            match r {
                Some(w) => old(self)@.len() + 1 == FFT_SIZE && w@ == old(self)@.push(x),
                None => old(self)@.len() + 1 < FFT_SIZE,
            },
    {
        self.pending.push(x);
        if self.pending.len() == FFT_SIZE {
            let mut second: Vec<S> = Vec::new();
            let mut i: usize = FFT_HOP;
            while i < FFT_SIZE
                invariant
                    FFT_HOP <= i <= FFT_SIZE,
                    self.pending@.len() == FFT_SIZE,
                    self.pending@ == old(self)@.push(x),
                    second@ == self.pending@.subrange(FFT_HOP as int, i as int),
                decreases FFT_SIZE - i,
            {
                second.push(self.pending[i]);
                i += 1;
            }
            proof {
                assert(second@ == self.pending@.skip(FFT_HOP as int));
            }
            let mut window: Vec<S> = Vec::new();
            window.append(&mut self.pending);
            self.pending = second;
            proof {
                assert(window@ == old(self)@.push(x));
            }
            Some(window)
        } else {
            None
        }
    }
}

/// How many windows the first `n` samples of a stream fill.
pub open spec fn window_count(n: nat) -> nat {
    if n < FFT_SIZE {
        0
    } else {
        ((n - FFT_SIZE) / FFT_HOP as int + 1) as nat
    }
}

/// Window `k` of a stream starts `k` hops after the start of the stream, and is
/// made of the samples that follow; what waits is what belongs to the next one.
pub proof fn windows_cover_the_stream<S>(xs: Seq<S>)
    ensures
        windows_of(Seq::empty(), xs).len() == window_count(xs.len()),
        forall|k: int|
            0 <= k < window_count(xs.len()) ==> {
                &&& k * FFT_HOP + FFT_SIZE <= xs.len()
                &&& #[trigger] windows_of(Seq::empty(), xs)[k] == xs.subrange(
                    k * FFT_HOP,
                    k * FFT_HOP + FFT_SIZE,
                )
            },
        window_count(xs.len()) * FFT_HOP <= xs.len(),
        pending_after(Seq::empty(), xs) == xs.skip((window_count(xs.len()) * FFT_HOP) as int),
    decreases xs.len(),
{
    let e = Seq::<S>::empty();
    if xs.len() == 0 {
        assert(xs.skip(0) == e);
    } else {
        let before = xs.drop_last();
        windows_cover_the_stream(before);
        let c = window_count(before.len());
        let all = pending_after(e, before).push(xs.last());
        assert(all == xs.skip((c * FFT_HOP) as int));
        assert forall|k: int| 0 <= k < window_count(xs.len()) implies {
            &&& k * FFT_HOP + FFT_SIZE <= xs.len()
            &&& #[trigger] windows_of(e, xs)[k] == xs.subrange(k * FFT_HOP, k * FFT_HOP + FFT_SIZE)
        } by {
            if k < c {
                assert(windows_of(e, before)[k] == before.subrange(
                    k * FFT_HOP,
                    k * FFT_HOP + FFT_SIZE,
                ));
                assert(before.subrange(k * FFT_HOP, k * FFT_HOP + FFT_SIZE) == xs.subrange(
                    k * FFT_HOP,
                    k * FFT_HOP + FFT_SIZE,
                ));
            } else {
                assert(all == xs.subrange(k * FFT_HOP, k * FFT_HOP + FFT_SIZE));
            }
        }
        if all.len() == FFT_SIZE {
            assert(all.skip(FFT_HOP as int) == xs.skip(((c + 1) * FFT_HOP) as int));
        }
    }
}

/// It does not matter in which chunks the samples come: the windows of two chunks
/// are those of the first, followed by those of what it left and the second.
pub proof fn windows_do_not_depend_on_the_chunks<S>(pending: Seq<S>, xs: Seq<S>, ys: Seq<S>)
    ensures
        windows_of(pending, xs + ys) == windows_of(pending, xs) + windows_of(
            pending_after(pending, xs),
            ys,
        ),
        pending_after(pending, xs + ys) == pending_after(pending_after(pending, xs), ys),
    decreases ys.len(),
{
    if ys.len() == 0 {
        assert(xs + ys == xs);
    } else {
        windows_do_not_depend_on_the_chunks(pending, xs, ys.drop_last());
        assert((xs + ys).drop_last() == xs + ys.drop_last());
    }
}

/// Two windows that follow each other share half of their samples.
pub proof fn windows_overlap_by_half<S>(xs: Seq<S>, k: int)
    requires
        0 <= k,
        k + 1 < windows_of(Seq::<S>::empty(), xs).len(),
    ensures
        windows_of(Seq::<S>::empty(), xs)[k].skip(FFT_HOP as int) == windows_of(
            Seq::<S>::empty(),
            xs,
        )[k + 1].take(FFT_SIZE - FFT_HOP),
{
    windows_cover_the_stream(xs);
    let ws = windows_of(Seq::<S>::empty(), xs);
    assert(ws[k] == xs.subrange(k * FFT_HOP, k * FFT_HOP + FFT_SIZE));
    assert(ws[k + 1] == xs.subrange((k + 1) * FFT_HOP, (k + 1) * FFT_HOP + FFT_SIZE));
}

// ---------------------------------------------------------------------------
// Playing a chunk
// ---------------------------------------------------------------------------
/// What came of playing a chunk.
pub struct ChunkReport<S> {
    /// Frames that went through the crossover.
    pub frames: usize,
    /// The windows that were filled, for the spectrum.
    pub windows: Vec<Vec<S>>,
    /// The ring buffer was full, and the rest of the chunk was dropped.
    pub overflow: bool,
}

/// The windows of a report as sequences.
pub open spec fn window_views<S>(ws: Seq<Vec<S>>) -> Seq<Seq<S>> {
    ws.map_values(|w: Vec<S>| w@)
}

/// How the frames of a chunk went through the crossover, one after the other.
pub struct ChunkTrace<S, K, M> {
    /// The crossover before the first frame, and after each frame.
    pub states: Seq<Crossover<S, K, M>>,
    /// The outputs of each frame.
    pub outs: Seq<Seq<S>>,
    /// The mono mix of each frame.
    pub monos: Seq<S>,
    /// The outputs that reached the ring buffer, as patterns.
    pub codes: Seq<u32>,
}

impl<S, K: Fn(Biquad<S>, S) -> S, M: Fn(S, S) -> S> ChunkTrace<S, K, M> {
    /// The trace tells of the first `frames` frames of the two channels: each
    /// goes through the crossover in the state that the one before left, is
    /// mixed to mono, and its six outputs are encoded in order.
    pub open spec fn tells<X: Fn(S, S) -> S, E: Fn(S) -> u32>(
        self,
        pre: Crossover<S, K, M>,
        left: Seq<S>,
        right: Seq<S>,
        mono: X,
        encode: E,
        frames: int,
    ) -> bool {
        &&& self.states.len() == frames + 1
        &&& self.outs.len() == frames
        &&& self.monos.len() == frames
        &&& self.codes.len() <= 6 * frames
        &&& self.states[0] == pre
        &&& forall|i: int|
            0 <= i < frames ==> crossover_plays(
                #[trigger] self.states[i],
                left[i],
                right[i],
                self.states[i + 1],
                self.outs[i],
            )
        &&& forall|i: int|
            0 <= i < frames ==> call_ensures(mono, (left[i], right[i]), #[trigger] self.monos[i])
        &&& forall|j: int|
            0 <= j < self.codes.len() ==> call_ensures(
                encode,
                (self.outs[j / 6][j % 6],),
                #[trigger] self.codes[j],
            )
    }
}

/// `mono` can mix every pair of samples.
pub open spec fn mono_total<S, X: Fn(S, S) -> S>(mono: X) -> bool {
    forall|l: S, r: S| #[trigger] call_requires(mono, (l, r))
}

/// `encode` can encode every sample.
pub open spec fn encode_total<S, E: Fn(S) -> u32>(encode: E) -> bool {
    forall|x: S| #[trigger] call_requires(encode, (x,))
}

/// What was sent on top of what had been sent before.
pub open spec fn newly_sent(before: Seq<u32>, after: Seq<u32>) -> Seq<u32> {
    after.skip(before.len() as int)
}

/// Sends the six outputs of a frame in order, until one finds the ring buffer
/// full. Gives whether all were sent.
pub fn push_frame<S: Copy, E: Fn(S) -> u32>(
    ring: &mut rtrb::Producer<u32>,
    six: &[S; 6],
    encode: &E,
) -> (all: bool)
    requires
        encode_total(*encode),
    ensures
        ring_capacity(*final(ring)) == ring_capacity(*old(ring)),
        ring_inflow(*final(ring)) == ring_inflow(*old(ring)),
        ring_taken(*final(ring)) == ring_taken(*old(ring)),
        sends_in_order(*final(ring)),
        ({
            let sent = newly_sent(ring_sent(*old(ring)), ring_sent(*final(ring)));
            &&& ring_sent(*final(ring)) == ring_sent(*old(ring)) + sent
            &&& forall|j: int|
                0 <= j < sent.len() ==> call_ensures(*encode, (six@[j],), #[trigger] sent[j])
            &&& all ==> sent.len() == 6
            &&& !all ==> sent.len() < 6
        }),
        ring_sent(*old(ring)).len() + 6 <= ring_capacity(*old(ring)) ==> all,
        !all ==> ring_sent(*final(ring)).len() >= ring_capacity(*final(ring)),
{
    let ghost mut sent = Seq::<u32>::empty();
    let mut k: usize = 0;
    proof {
        assert(ring_sent(*ring) + sent == ring_sent(*ring));
    }
    while k < 6
        invariant
            k <= 6,
            sent.len() == k,
            encode_total(*encode),
            ring_capacity(*ring) == ring_capacity(*old(ring)),
            ring_inflow(*ring) == ring_inflow(*old(ring)),
            ring_taken(*ring) == ring_taken(*old(ring)),
            k > 0 ==> sends_in_order(*ring),
            ring_sent(*ring) == ring_sent(*old(ring)) + sent,
            forall|j: int| 0 <= j < k ==> call_ensures(*encode, (six@[j],), #[trigger] sent[j]),
        decreases 6 - k,
    {
        let code: u32 = encode(six[k]);
        match ring_push(ring, code) {
            Ok(_) => {
                proof {
                    sent = sent.push(code);
                    assert(ring_sent(*ring) == ring_sent(*old(ring)) + sent);
                }
            },
            Err(_) => {
                proof {
                    assert(newly_sent(ring_sent(*old(ring)), ring_sent(*ring)) == sent);
                }
                return false;
            },
        }
        k += 1;
    }
    proof {
        assert(newly_sent(ring_sent(*old(ring)), ring_sent(*ring)) == sent);
    }
    true
}

/// The trace tells what `play_chunk` did, given what it left and reported.
pub open spec fn chunk_played<
    S,
    K: Fn(Biquad<S>, S) -> S,
    M: Fn(S, S) -> S,
    X: Fn(S, S) -> S,
    E: Fn(S) -> u32,
>(
    t: ChunkTrace<S, K, M>,
    pre: Crossover<S, K, M>,
    post: Crossover<S, K, M>,
    left: Seq<S>,
    right: Seq<S>,
    mono: X,
    encode: E,
    pending: Seq<S>,
    new_pending: Seq<S>,
    sent: Seq<u32>,
    report: ChunkReport<S>,
) -> bool {
    &&& t.tells(pre, left, right, mono, encode, report.frames as int)
    &&& post == t.states.last()
    &&& window_views(report.windows@) == windows_of(pending, t.monos)
    &&& new_pending == pending_after(pending, t.monos)
    &&& sent == t.codes
    &&& report.frames <= left.len()
    &&& if report.overflow {
        6 * (report.frames - 1) <= t.codes.len() < 6 * report.frames
    } else {
        report.frames == left.len() && t.codes.len() == 6 * report.frames
    }
}

/// Plays a chunk of stereo frames: each frame goes through the crossover, its
/// mono mix is collected for the spectrum, and its six outputs are sent. Once an
/// output finds the ring buffer full, the rest of the chunk is dropped.
pub fn play_chunk<
    S: Copy + Send,
    K: Fn(Biquad<S>, S) -> S + Copy + Send,
    M: Fn(S, S) -> S + Copy,
    X: Fn(S, S) -> S,
    E: Fn(S) -> u32,
>(
    crossover: &mut Crossover<S, K, M>,
    spectrum: &mut OverlapBuffer<S>,
    ring: &mut rtrb::Producer<u32>,
    left: &Vec<S>,
    right: &Vec<S>,
    mono: &X,
    encode: &E,
) -> (report: ChunkReport<S>)
    requires
        left@.len() <= right@.len(),
        old(crossover).ready(),
        old(spectrum).wf(),
        mono_total(*mono),
        encode_total(*encode),
    ensures
        final(crossover).ready(),
        final(spectrum).wf(),
        ring_capacity(*final(ring)) == ring_capacity(*old(ring)),
        ring_inflow(*final(ring)) == ring_inflow(*old(ring)),
        ring_taken(*final(ring)) == ring_taken(*old(ring)),
        sends_in_order(*old(ring)) ==> sends_in_order(*final(ring)),
        ring_sent(*final(ring)) == ring_sent(*old(ring)) + newly_sent(
            ring_sent(*old(ring)),
            ring_sent(*final(ring)),
        ),
        exists|t: ChunkTrace<S, K, M>|
            #[trigger] chunk_played(
                t,
                *old(crossover),
                *final(crossover),
                left@,
                right@,
                *mono,
                *encode,
                old(spectrum)@,
                final(spectrum)@,
                newly_sent(ring_sent(*old(ring)), ring_sent(*final(ring))),
                report,
            ),
        ring_sent(*old(ring)).len() + 6 * left@.len() <= ring_capacity(*old(ring))
            ==> !report.overflow,
        report.overflow ==> ring_sent(*final(ring)).len() >= ring_capacity(*final(ring)),
{
    let mut windows: Vec<Vec<S>> = Vec::new();
    let mut frame: usize = 0;
    let ghost mut t = ChunkTrace {
        states: seq![*crossover],
        outs: Seq::<Seq<S>>::empty(),
        monos: Seq::<S>::empty(),
        codes: Seq::<u32>::empty(),
    };
    proof {
        assert(ring_sent(*ring) + t.codes == ring_sent(*ring));
        assert(window_views(windows@) == Seq::<Seq<S>>::empty());
    }
    while frame < left.len()
        invariant
            frame <= left@.len() <= right@.len(),
            crossover.ready(),
            spectrum.wf(),
            mono_total(*mono),
            encode_total(*encode),
            t.tells(*old(crossover), left@, right@, *mono, *encode, frame as int),
            *crossover == t.states[frame as int],
            t.codes.len() == 6 * frame,
            window_views(windows@) == windows_of(old(spectrum)@, t.monos),
            spectrum@ == pending_after(old(spectrum)@, t.monos),
            ring_capacity(*ring) == ring_capacity(*old(ring)),
            ring_inflow(*ring) == ring_inflow(*old(ring)),
            ring_taken(*ring) == ring_taken(*old(ring)),
            sends_in_order(*old(ring)) ==> sends_in_order(*ring),
            ring_sent(*ring) == ring_sent(*old(ring)) + t.codes,
        decreases left@.len() - frame,
    {
        let l = left[frame];
        let r = right[frame];
        let ghost t0 = t;
        let ghost sent0 = ring_sent(*ring);
        let six = crossover.process(l, r);
        let mixed = mono(l, r);
        let ghost windows0 = windows@;
        match spectrum.push(mixed) {
            Some(w) => {
                windows.push(w);
                proof {
                    assert(window_views(windows@) == window_views(windows0).push(w@));
                }
            },
            None => {},
        }
        let all = push_frame(ring, &six, encode);
        proof {
            let sent = newly_sent(sent0, ring_sent(*ring));
            t = ChunkTrace {
                states: t0.states.push(*crossover),
                outs: t0.outs.push(six@),
                monos: t0.monos.push(mixed),
                codes: t0.codes + sent,
            };
            assert(t.monos.drop_last() == t0.monos);
            assert(ring_sent(*ring) == ring_sent(*old(ring)) + t.codes);
            assert forall|i: int| 0 <= i < frame + 1 implies crossover_plays(
                #[trigger] t.states[i],
                left@[i],
                right@[i],
                t.states[i + 1],
                t.outs[i],
            ) by {
                if i < frame {
                    assert(t.states[i] == t0.states[i]);
                    assert(t.states[i + 1] == t0.states[i + 1]);
                    assert(t.outs[i] == t0.outs[i]);
                }
            }
            assert forall|j: int| 0 <= j < t.codes.len() implies call_ensures(
                *encode,
                (t.outs[j / 6][j % 6],),
                #[trigger] t.codes[j],
            ) by {
                if j < 6 * frame {
                    assert(t.codes[j] == t0.codes[j]);
                    assert(t.outs[j / 6] == t0.outs[j / 6]);
                } else {
                    assert(t.codes[j] == sent[j - 6 * frame]);
                    assert(j / 6 == frame && j % 6 == j - 6 * frame);
                }
            }
            assert(t.tells(*old(crossover), left@, right@, *mono, *encode, frame + 1));
        }
        frame += 1;
        if !all {
            let report = ChunkReport { frames: frame, windows, overflow: true };
            proof {
                assert(newly_sent(ring_sent(*old(ring)), ring_sent(*ring)) == t.codes);
                assert(chunk_played(
                    t,
                    *old(crossover),
                    *crossover,
                    left@,
                    right@,
                    *mono,
                    *encode,
                    old(spectrum)@,
                    spectrum@,
                    t.codes,
                    report,
                ));
            }
            return report;
        }
    }
    let report = ChunkReport { frames: frame, windows, overflow: false };
    proof {
        assert(newly_sent(ring_sent(*old(ring)), ring_sent(*ring)) == t.codes);
        assert(chunk_played(
            t,
            *old(crossover),
            *crossover,
            left@,
            right@,
            *mono,
            *encode,
            old(spectrum)@,
            spectrum@,
            t.codes,
            report,
        ));
    }
    report
}

// ---------------------------------------------------------------------------
// The steps of the audio thread
// ---------------------------------------------------------------------------
/// What the audio thread does next.
#[derive(Clone, Copy, Debug, PartialEq, Eq, Structural)]
pub enum AudioStep {
    /// Ask whether the program is shutting down, before a session.
    AskBeforeSession,
    /// Start a session: filters from the current configuration, a new ring
    /// buffer, and playback.
    StartSession,
    /// Ask whether the program is shutting down, while there is no pipe.
    AskWhileWaiting,
    /// Ask whether the pipe exists.
    LookForPipe,
    /// Sleep for a second.
    SleepForPipe,
    /// Open the pipe.
    OpenPipe,
    /// Ask whether the program is shutting down, within a session.
    AskWhileStreaming,
    /// Ask whether the configuration has changed.
    CheckConfig,
    /// Take over the configuration.
    ApplyConfig,
    /// Wait until the pipe is readable, for a limited time.
    Poll,
    /// Read what the chunk lacks.
    Read,
    /// Sleep for five milliseconds.
    SleepBriefly,
    /// Play the chunk that is now complete.
    PlayChunk,
    /// End.
    Stop,
}

/// What came of a step.
#[derive(Clone, Copy, Debug, PartialEq, Eq, Structural)]
pub enum AudioReply {
    /// The answer to a question, or the pipe became readable.
    Yes,
    /// The opposite.
    No,
    /// The step was done.
    Done,
    /// Bytes were read.
    Data,
    /// The writer closed the pipe.
    EndOfFile,
    /// There is nothing to read yet.
    WouldBlock,
    /// Reading failed.
    Failed,
}

/// The step that follows; `complete` tells whether the bytes that were read
/// complete a chunk.
pub open spec fn audio_step_after(
    step: AudioStep,
    reply: AudioReply,
    complete: bool,
) -> AudioStep {
    let yes = reply == AudioReply::Yes;
    match step {
        AudioStep::AskBeforeSession => if yes {
            AudioStep::Stop
        } else {
            AudioStep::StartSession
        },
        AudioStep::StartSession => AudioStep::AskWhileWaiting,
        AudioStep::AskWhileWaiting => if yes {
            AudioStep::Stop
        } else {
            AudioStep::LookForPipe
        },
        AudioStep::LookForPipe => if yes {
            AudioStep::OpenPipe
        } else {
            AudioStep::SleepForPipe
        },
        AudioStep::SleepForPipe => AudioStep::AskWhileWaiting,
        AudioStep::OpenPipe => AudioStep::AskWhileStreaming,
        AudioStep::AskWhileStreaming => if yes {
            AudioStep::AskBeforeSession
        } else {
            AudioStep::CheckConfig
        },
        AudioStep::CheckConfig => if yes {
            AudioStep::ApplyConfig
        } else {
            AudioStep::Poll
        },
        AudioStep::ApplyConfig => AudioStep::Poll,
        AudioStep::Poll => if yes {
            AudioStep::Read
        } else {
            AudioStep::AskWhileStreaming
        },
        AudioStep::Read => match reply {
            AudioReply::Data => if complete {
                AudioStep::PlayChunk
            } else {
                AudioStep::AskWhileStreaming
            },
            AudioReply::EndOfFile => AudioStep::SleepBriefly,
            AudioReply::WouldBlock => AudioStep::AskWhileStreaming,
            _ => AudioStep::AskBeforeSession,
        },
        AudioStep::SleepBriefly => AudioStep::AskWhileStreaming,
        AudioStep::PlayChunk => AudioStep::AskWhileStreaming,
        AudioStep::Stop => AudioStep::Stop,
    }
}

/// The audio thread: its next step, and the chunk that it is collecting.
pub struct AudioLoop {
    pub step: AudioStep,
    pub chunk: ChunkBuffer,
}

impl AudioLoop {
    /// The chunk is not complete.
    pub open spec fn wf(self) -> bool {
        self.chunk.wf()
    }

    /// An audio thread before its first session.
    pub fn new() -> (r: Self)
        ensures
            r.wf(),
            r.step == AudioStep::AskBeforeSession,
            r.chunk@ == Seq::<u8>::empty(),
    {
        AudioLoop { step: AudioStep::AskBeforeSession, chunk: ChunkBuffer::new() }
    }

    /// How many bytes the chunk lacks.
    pub fn wanted(&self) -> (r: usize)
        requires
            self.wf(),
        ensures
            r == CHUNK_BYTES - self.chunk@.len(),
            r > 0,
    {
        self.chunk.wanted()
    }

    /// Takes what came of the current step, with the bytes if some were read,
    /// and moves to the next step. Gives the chunk that the bytes completed. A
    /// new pipe starts with an empty chunk.
    pub fn advance(&mut self, reply: AudioReply, data: &[u8]) -> (r: Option<Vec<u8>>)
        requires
            old(self).wf(),
            data@.len() <= CHUNK_BYTES - old(self).chunk@.len(),
        ensures
            final(self).wf(),
            final(self).step == audio_step_after(old(self).step, reply, r is Some),
            match (old(self).step, reply) {
                (AudioStep::Read, AudioReply::Data) => {
                    &&& (chunk_view(r), final(self).chunk@) == chunk_step(old(self).chunk@, data@)
                    &&& r matches Some(chunk) ==> chunk@.len() == CHUNK_BYTES
                },
                (AudioStep::OpenPipe, _) => r is None && final(self).chunk@ == Seq::<u8>::empty(),
                _ => r is None && final(self).chunk == old(self).chunk,
            },
    {
        let yes = reply == AudioReply::Yes;
        let mut complete: Option<Vec<u8>> = None;
        self.step = match self.step {
            AudioStep::AskBeforeSession => if yes {
                AudioStep::Stop
            } else {
                AudioStep::StartSession
            },
            AudioStep::StartSession => AudioStep::AskWhileWaiting,
            AudioStep::AskWhileWaiting => if yes {
                AudioStep::Stop
            } else {
                AudioStep::LookForPipe
            },
            AudioStep::LookForPipe => if yes {
                AudioStep::OpenPipe
            } else {
                AudioStep::SleepForPipe
            },
            AudioStep::SleepForPipe => AudioStep::AskWhileWaiting,
            AudioStep::OpenPipe => {
                self.chunk = ChunkBuffer::new();
                AudioStep::AskWhileStreaming
            },
            AudioStep::AskWhileStreaming => if yes {
                AudioStep::AskBeforeSession
            } else {
                AudioStep::CheckConfig
            },
            AudioStep::CheckConfig => if yes {
                AudioStep::ApplyConfig
            } else {
                AudioStep::Poll
            },
            AudioStep::ApplyConfig => AudioStep::Poll,
            AudioStep::Poll => if yes {
                AudioStep::Read
            } else {
                AudioStep::AskWhileStreaming
            },
            AudioStep::Read => match reply {
                AudioReply::Data => {
                    complete = self.chunk.accept(data);
                    if complete.is_some() {
                        AudioStep::PlayChunk
                    } else {
                        AudioStep::AskWhileStreaming
                    }
                },
                AudioReply::EndOfFile => AudioStep::SleepBriefly,
                AudioReply::WouldBlock => AudioStep::AskWhileStreaming,
                _ => AudioStep::AskBeforeSession,
            },
            AudioStep::SleepBriefly => AudioStep::AskWhileStreaming,
            AudioStep::PlayChunk => AudioStep::AskWhileStreaming,
            AudioStep::Stop => AudioStep::Stop,
        };
        complete
    }
}

/// The step is a question about shutting down, or the end.
pub open spec fn audio_asks_or_ended(step: AudioStep) -> bool {
    ||| step == AudioStep::AskBeforeSession
    ||| step == AudioStep::AskWhileWaiting
    ||| step == AudioStep::AskWhileStreaming
    ||| step == AudioStep::Stop
}

/// The steps that a list of replies leads to.
pub open spec fn audio_steps_after(
    step: AudioStep,
    replies: Seq<(AudioReply, bool)>,
) -> AudioStep
    decreases replies.len(),
{
    if replies.len() == 0 {
        step
    } else {
        let last = replies.last();
        audio_step_after(audio_steps_after(step, replies.drop_last()), last.0, last.1)
    }
}

/// An answer of yes to the question about shutting down ends the thread: at once
/// where no session streams, and after one more such answer where one does. Once
/// it has ended, it stays so.
pub proof fn audio_obeys_shutdown(reply: AudioReply, complete: bool)
    ensures
        audio_step_after(AudioStep::AskBeforeSession, AudioReply::Yes, complete)
            == AudioStep::Stop,
        audio_step_after(AudioStep::AskWhileWaiting, AudioReply::Yes, complete) == AudioStep::Stop,
        audio_step_after(
            audio_step_after(AudioStep::AskWhileStreaming, AudioReply::Yes, complete),
            AudioReply::Yes,
            complete,
        ) == AudioStep::Stop,
        audio_step_after(AudioStep::Stop, reply, complete) == AudioStep::Stop,
{
}

/// However the steps turn out, the thread asks whether to shut down within five
/// of them.
pub proof fn audio_asks_often(step: AudioStep, replies: Seq<(AudioReply, bool)>)
    requires
        replies.len() == 5,
    ensures
        exists|n: int|
            0 <= n <= 5 && audio_asks_or_ended(
                #[trigger] audio_steps_after(step, replies.take(n)),
            ),
{
    let r = replies;
    assert(r.take(1).drop_last() == r.take(0));
    assert(r.take(2).drop_last() == r.take(1));
    assert(r.take(3).drop_last() == r.take(2));
    assert(r.take(4).drop_last() == r.take(3));
    assert(r.take(5).drop_last() == r.take(4));
    let s0 = audio_steps_after(step, r.take(0));
    let s1 = audio_steps_after(step, r.take(1));
    let s2 = audio_steps_after(step, r.take(2));
    let s3 = audio_steps_after(step, r.take(3));
    let s4 = audio_steps_after(step, r.take(4));
    let s5 = audio_steps_after(step, r.take(5));
    assert(s0 == step);
    assert(s1 == audio_step_after(s0, r[0].0, r[0].1));
    assert(s2 == audio_step_after(s1, r[1].0, r[1].1));
    assert(s3 == audio_step_after(s2, r[2].0, r[2].1));
    assert(s4 == audio_step_after(s3, r[3].0, r[3].1));
    assert(s5 == audio_step_after(s4, r[4].0, r[4].1));
}

} // verus!
