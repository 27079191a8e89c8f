//! The rolling buffer of captured sound, and the clip that is cut out of it.

use crate::clock::{law_whole_ticks_are_exact, ticks, ticks_nanos, Instant, NANOS_PER_SEC};
use std::collections::VecDeque;
use vstd::prelude::*;

verus! {

/// Seconds of sound that the ring keeps beyond the length of a clip.
pub const SPARE_SECS: u64 = 8;

/// One packet of captured sound.
pub struct AudioChunk {
    pub data: Vec<u8>,
    pub num_frames: u32,
    /// When the last frame of the packet was captured.
    pub captured_at: Instant,
}

/// The packets captured of late, oldest first.
pub struct AudioRing {
    chunks: VecDeque<AudioChunk>,
}

/// A stretch of time, and the sample format in which its sound is laid out.
pub struct Window {
    pub start: Instant,
    pub end: Instant,
    pub sample_rate: u32,
    pub block_align: u16,
}

/// The bytes of the whole frames that fit in `nanos` nanoseconds.
pub open spec fn span_bytes(nanos: nat, sample_rate: nat, block_align: nat) -> nat {
    nanos * sample_rate / (NANOS_PER_SEC as nat) * block_align
}

/// `chunks` without the run at its front that was captured before `cutoff`.
pub open spec fn without_aged(chunks: Seq<AudioChunk>, cutoff: int) -> Seq<AudioChunk>
    decreases chunks.len(),
{
    if chunks.len() > 0 && chunks.first().captured_at.nanos < cutoff {
        without_aged(chunks.drop_first(), cutoff)
    } else {
        chunks
    }
}

/// The moment before which a chunk is too old to keep.
pub open spec fn age_cutoff(clip_secs: u32, now: Instant) -> int {
    now.nanos - (clip_secs + SPARE_SECS) * NANOS_PER_SEC
}

impl Window {
    /// The bytes that the window's sound takes up.
    pub open spec fn total_bytes(self) -> nat {
        self.bytes_between(self.start.nanos as int, self.end.nanos as int)
    }

    /// The bytes from one time to a later one.
    pub open spec fn bytes_between(self, from: int, to: int) -> nat {
        span_bytes((to - from) as nat, self.sample_rate as nat, self.block_align as nat)
    }

    /// When the chunk's first frame was captured.
    pub open spec fn begin_of(self, c: AudioChunk) -> int {
        c.captured_at.nanos - ticks(c.num_frames as nat, self.sample_rate as nat)
    }

    /// Whether the chunk's time and the window overlap. A chunk that would begin before the
    /// clock's origin has no place.
    pub open spec fn overlaps(self, c: AudioChunk) -> bool {
        &&& self.begin_of(c) >= 0
        &&& c.captured_at.nanos > self.start.nanos
        &&& self.begin_of(c) < self.end.nanos
    }

    /// Where in the window's sound the chunk is laid down.
    pub open spec fn offset_of(self, c: AudioChunk) -> nat {
        if self.begin_of(c) >= self.start.nanos {
            self.bytes_between(self.start.nanos as int, self.begin_of(c))
        } else {
            0
        }
    }

    /// How many of the chunk's bytes come before the window.
    pub open spec fn skip_of(self, c: AudioChunk) -> nat {
        if self.begin_of(c) < self.start.nanos {
            self.bytes_between(self.begin_of(c), self.start.nanos as int)
        } else {
            0
        }
    }

    /// Whether the chunk has a byte for place `j` of the window's sound.
    pub open spec fn covers(self, c: AudioChunk, j: int) -> bool {
        &&& self.overlaps(c)
        &&& self.offset_of(c) <= j < self.offset_of(c) + c.data@.len() - self.skip_of(c)
    }

    /// The chunk's byte for place `j`.
    pub open spec fn byte_of(self, c: AudioChunk, j: int) -> u8 {
        c.data@[j - self.offset_of(c) + self.skip_of(c)]
    }

    /// The byte at place `j`: that of the last chunk that covers the place, silence where
    /// none does.
    pub open spec fn byte_at(self, chunks: Seq<AudioChunk>, j: int) -> u8
        decreases chunks.len(),
    {
        if chunks.len() == 0 {
            0
        } else if self.covers(chunks.last(), j) {
            self.byte_of(chunks.last(), j)
        } else {
            self.byte_at(chunks.drop_last(), j)
        }
    }

    /// The window's sound: nothing where the window ends no later than it starts.
    pub open spec fn sound(self, chunks: Seq<AudioChunk>) -> Seq<u8> {
        if self.end.nanos <= self.start.nanos {
            Seq::empty()
        } else {
            Seq::new(self.total_bytes(), |j: int| self.byte_at(chunks, j))
        }
    }
}

fn count_span_bytes(nanos: u64, sample_rate: u32, block_align: u16) -> (b: u128)
    ensures
        b == span_bytes(nanos as nat, sample_rate as nat, block_align as nat),
{
    proof {
        assert(nanos * sample_rate <= 0xFFFF_FFFF_FFFF_FFFF * 0xFFFF_FFFF) by (nonlinear_arith)
            requires
                0 <= nanos <= 0xFFFF_FFFF_FFFF_FFFF,
                0 <= sample_rate <= 0xFFFF_FFFF,
        ;
    }
    let frames: u128 = nanos as u128 * sample_rate as u128 / 1_000_000_000u128;
    proof {
        assert(frames * block_align <= 0xFFFF_FFFF_FFFF_FFFF * 0xFFFF_FFFF * 0xFFFF)
            by (nonlinear_arith)
            requires
                0 <= frames <= 0xFFFF_FFFF_FFFF_FFFF * 0xFFFF_FFFF,
                0 <= block_align <= 0xFFFF,
        ;
    }
    frames * block_align as u128
}

impl View for AudioRing {
    type V = Seq<AudioChunk>;

    closed spec fn view(&self) -> Seq<AudioChunk> {
        self.chunks@
    }
}

impl AudioRing {
    /// A ring that holds nothing yet.
    pub fn new() -> (r: AudioRing)
        ensures
            r@ == Seq::<AudioChunk>::empty(),
    {
        AudioRing { chunks: VecDeque::new() }
    }

    /// Adds a chunk, then lets go of the chunks at the front that are older than a clip of
    /// `clip_secs` seconds and the spare seconds need.
    pub fn push(&mut self, chunk: AudioChunk, clip_secs: u32, now: Instant)
        requires
            age_cutoff(clip_secs, now) >= 0,
        ensures
            final(self)@ == without_aged(old(self)@.push(chunk), age_cutoff(clip_secs, now)),
    {
        self.chunks.push_back(chunk);
        let ghost whole = self.chunks@;
        let max_secs: u64 = clip_secs as u64 + SPARE_SECS;
        let cutoff: u64 = now.nanos - max_secs * NANOS_PER_SEC;
        while self.chunks.len() > 0 && self.chunks[0].captured_at.nanos < cutoff
            invariant
                without_aged(self.chunks@, cutoff as int) == without_aged(whole, cutoff as int),
            decreases self.chunks@.len(),
        {
            let ghost before = self.chunks@;
            let _ = self.chunks.pop_front();
            assert(self.chunks@ =~= before.drop_first());
        }
    }

    /// Raw PCM bytes that cover exactly the time from `start` to `end`, with silence filling
    /// any gaps: each chunk is laid down at its own time offset.
    pub fn get_clip_data_for_range(
        &self,
        start: Instant,
        end: Instant,
        sample_rate: u32,
        block_align: u16,
    ) -> (r: Vec<u8>)
        requires
            start.nanos < end.nanos ==> block_align > 0 && (self@.len() > 0 ==> sample_rate > 0)
                && (Window { start, end, sample_rate, block_align }).total_bytes() <= isize::MAX,
        ensures
            r@ == (Window { start, end, sample_rate, block_align }).sound(self@),
    {
        let ghost w = Window { start, end, sample_rate, block_align };
        if end.nanos <= start.nanos {
            return Vec::new();
        }
        let total: usize = count_span_bytes(
            end.nanos - start.nanos,
            sample_rate,
            block_align,
        ) as usize;
        let mut result: Vec<u8> = vec![0u8; total];
        let mut i: usize = 0;
        assert(result@ =~= Seq::new(total as nat, |j: int| w.byte_at(self@.take(0), j)));
        while i < self.chunks.len()
            invariant
                i <= self.chunks@.len(),
                self@ == self.chunks@,
                self@.len() > 0 ==> sample_rate > 0,
                block_align > 0,
                start.nanos < end.nanos,
                w == (Window { start, end, sample_rate, block_align }),
                total == w.total_bytes(),
                result@ =~= Seq::new(total as nat, |j: int| w.byte_at(self@.take(i as int), j)),
            decreases self.chunks@.len() - i,
        {
            let ghost before = result@;
            lay_chunk(&mut result, &self.chunks[i], start, end, sample_rate, block_align);
            proof {
                let c = self@[i as int];
                assert(self@.take(i + 1).last() == c);
                assert(self@.take(i + 1).drop_last() =~= self@.take(i as int));
                assert forall|j: int| 0 <= j < total implies result@[j] == w.byte_at(
                    self@.take(i + 1),
                    j,
                ) by {
                    assert(before[j] == w.byte_at(self@.take(i as int), j));
                }
            }
            i = i + 1;
        }
        assert(self@.take(i as int) =~= self@);
        result
    }
}

/// Lays one chunk over the sound gathered so far.
fn lay_chunk(
    result: &mut Vec<u8>,
    chunk: &AudioChunk,
    start: Instant,
    end: Instant,
    sample_rate: u32,
    block_align: u16,
)
    requires
        sample_rate > 0,
        start.nanos < end.nanos,
    ensures
        final(result)@ == Seq::new(
            old(result)@.len(),
            |j: int|
                {
                    let w = Window { start, end, sample_rate, block_align };
                    if w.covers(*chunk, j) {
                        w.byte_of(*chunk, j)
                    } else {
                        old(result)@[j]
                    }
                },
        ),
{
    let ghost w = Window { start, end, sample_rate, block_align };
    let ghost before = result@;
    let length: u64 = ticks_nanos(chunk.num_frames, sample_rate);
    let begin: Instant = match chunk.captured_at.checked_sub(length) {
        Some(t) => t,
        None => {
            return ;
        },
    };
    if chunk.captured_at.nanos <= start.nanos || begin.nanos >= end.nanos {
        return ;
    }
    let offset: u128 = if begin.nanos >= start.nanos {
        count_span_bytes(begin.nanos - start.nanos, sample_rate, block_align)
    } else {
        0
    };
    let skip: u128 = if begin.nanos < start.nanos {
        count_span_bytes(start.nanos - begin.nanos, sample_rate, block_align)
    } else {
        0
    };
    if skip >= chunk.data.len() as u128 || offset >= result.len() as u128 {
        return ;
    }
    let from: usize = skip as usize;
    let at: usize = offset as usize;
    let left: usize = chunk.data.len() - from;
    let room: usize = result.len() - at;
    let len: usize = if left < room {
        left
    } else {
        room
    };
    let mut k: usize = 0;
    while k < len
        invariant
            k <= len,
            from + len <= chunk.data@.len() <= usize::MAX,
            at + len <= result@.len() <= usize::MAX,
            result@.len() == before.len(),
            forall|j: int|
                0 <= j < before.len() ==> #[trigger] result@[j] == if at <= j < at + k {
                    chunk.data@[j - at + from]
                } else {
                    before[j]
                },
        decreases len - k,
    {
        result.set(at + k, chunk.data[from + k]);
        k = k + 1;
    }
}

/// The sound of a window is whole frames, and the last frame that fits is not left out.
pub proof fn law_sound_is_whole_frames(w: Window, chunks: Seq<AudioChunk>)
    requires
        w.start.nanos < w.end.nanos,
        w.block_align > 0,
    ensures
        w.sound(chunks).len() % (w.block_align as nat) == 0,
        w.sound(chunks).len() * NANOS_PER_SEC <= (w.end.nanos - w.start.nanos) * w.sample_rate
            * w.block_align,
        (w.end.nanos - w.start.nanos) * w.sample_rate * w.block_align < (w.sound(chunks).len()
            + w.block_align) * NANOS_PER_SEC,
{
    let n = (w.end.nanos - w.start.nanos) as nat * w.sample_rate as nat;
    let frames = n / (NANOS_PER_SEC as nat);
    let b = w.block_align as nat;
    assert(frames * b % b == 0) by (nonlinear_arith)
        requires
            b > 0,
    ;
    assert(frames * b * NANOS_PER_SEC <= n * b < (frames * b + b) * NANOS_PER_SEC)
        by (nonlinear_arith)
        requires
            b > 0,
            frames * NANOS_PER_SEC <= n < (frames + 1) * NANOS_PER_SEC,
    ;
}

/// A window of `secs` whole seconds has the sound of exactly that many seconds.
pub proof fn law_whole_seconds(w: Window, chunks: Seq<AudioChunk>, secs: nat)
    requires
        secs > 0,
        w.end.nanos - w.start.nanos == secs * NANOS_PER_SEC,
    ensures
        w.sound(chunks).len() == secs * w.sample_rate * w.block_align,
{
    let n = NANOS_PER_SEC as nat;
    let r = w.sample_rate as nat;
    assert(secs * n * r / n == secs * r) by (nonlinear_arith)
        requires
            n == 1_000_000_000,
    ;
    assert(secs * n > 0) by (nonlinear_arith)
        requires
            secs > 0,
            n == 1_000_000_000,
    ;
}

/// Silence fills the gaps: a place that no chunk covers holds zero.
pub proof fn law_gaps_are_silent(w: Window, chunks: Seq<AudioChunk>, j: int)
    requires
        0 <= j < w.sound(chunks).len(),
        forall|k: int| 0 <= k < chunks.len() ==> !w.covers(#[trigger] chunks[k], j),
    ensures
        w.sound(chunks)[j] == 0,
{
    lemma_uncovered(w, chunks, j);
}

proof fn lemma_uncovered(w: Window, chunks: Seq<AudioChunk>, j: int)
    requires
        forall|k: int| 0 <= k < chunks.len() ==> !w.covers(#[trigger] chunks[k], j),
    ensures
        w.byte_at(chunks, j) == 0,
    decreases chunks.len(),
{
    if chunks.len() > 0 {
        assert(!w.covers(chunks[chunks.len() - 1], j));
        assert forall|k: int| 0 <= k < chunks.drop_last().len() implies !w.covers(
            #[trigger] chunks.drop_last()[k],
            j,
        ) by {
            assert(chunks.drop_last()[k] == chunks[k]);
        }
        lemma_uncovered(w, chunks.drop_last(), j);
    }
}

/// A place holds the byte of the latest chunk that covers it.
pub proof fn law_latest_chunk_is_heard(w: Window, chunks: Seq<AudioChunk>, k: int, j: int)
    requires
        0 <= j < w.sound(chunks).len(),
        0 <= k < chunks.len(),
        w.covers(chunks[k], j),
        forall|m: int| k < m < chunks.len() ==> !w.covers(#[trigger] chunks[m], j),
    ensures
        w.sound(chunks)[j] == w.byte_of(chunks[k], j),
{
    lemma_latest(w, chunks, k, j);
}

proof fn lemma_latest(w: Window, chunks: Seq<AudioChunk>, k: int, j: int)
    requires
        0 <= k < chunks.len(),
        w.covers(chunks[k], j),
        forall|m: int| k < m < chunks.len() ==> !w.covers(#[trigger] chunks[m], j),
    ensures
        w.byte_at(chunks, j) == w.byte_of(chunks[k], j),
    decreases chunks.len(),
{
    if k < chunks.len() - 1 {
        assert(!w.covers(chunks[chunks.len() - 1], j));
        assert forall|m: int| k < m < chunks.drop_last().len() implies !w.covers(
            #[trigger] chunks.drop_last()[m],
            j,
        ) by {
            assert(chunks.drop_last()[m] == chunks[m]);
        }
        lemma_latest(w, chunks.drop_last(), k, j);
    }
}

/// What a push leaves is the end of what was there, the new chunk at its back, and the first
/// chunk left is not too old.
pub proof fn law_push_keeps_the_back(chunks: Seq<AudioChunk>, cutoff: int)
    ensures
        without_aged(chunks, cutoff).len() <= chunks.len(),
        without_aged(chunks, cutoff) == chunks.skip(
            chunks.len() - without_aged(chunks, cutoff).len(),
        ),
        without_aged(chunks, cutoff).len() > 0 ==> without_aged(
            chunks,
            cutoff,
        )[0].captured_at.nanos >= cutoff,
    decreases chunks.len(),
{
    if chunks.len() > 0 && chunks.first().captured_at.nanos < cutoff {
        law_push_keeps_the_back(chunks.drop_first(), cutoff);
        let rest = without_aged(chunks.drop_first(), cutoff);
        assert(chunks.drop_first().skip(chunks.drop_first().len() - rest.len()) =~= chunks.skip(
            chunks.len() - rest.len(),
        ));
    } else {
        assert(chunks.skip(0) =~= chunks);
    }
}

/// No chunk that is recent enough is ever let go.
pub proof fn law_recent_chunks_stay(chunks: Seq<AudioChunk>, cutoff: int, k: int)
    requires
        0 <= k < chunks.len(),
        chunks[k].captured_at.nanos >= cutoff,
    ensures
        chunks.len() - without_aged(chunks, cutoff).len() <= k,
        without_aged(chunks, cutoff).contains(chunks[k]),
    decreases chunks.len(),
{
    if chunks.first().captured_at.nanos < cutoff {
        law_recent_chunks_stay(chunks.drop_first(), cutoff, k - 1);
    }
}

/// A push of a chunk: how long a clip was to be, and when it was made.
pub struct Push {
    pub chunk: AudioChunk,
    pub clip_secs: u32,
    pub now: Instant,
}

/// What a ring holds after these pushes, which begin with an empty one.
pub open spec fn kept_after(pushes: Seq<Push>) -> Seq<AudioChunk>
    decreases pushes.len(),
{
    if pushes.len() == 0 {
        Seq::empty()
    } else {
        let p = pushes.last();
        without_aged(
            kept_after(pushes.drop_last()).push(p.chunk),
            age_cutoff(p.clip_secs, p.now),
        )
    }
}

/// All chunks that were pushed.
pub open spec fn all_pushed(pushes: Seq<Push>) -> Seq<AudioChunk> {
    pushes.map_values(|p: Push| p.chunk)
}

proof fn lemma_first_unheard(w: Window, chunks: Seq<AudioChunk>, j: int)
    requires
        chunks.len() > 0,
        !w.covers(chunks.first(), j),
    ensures
        w.byte_at(chunks, j) == w.byte_at(chunks.drop_first(), j),
    decreases chunks.len(),
{
    if chunks.len() > 1 {
        lemma_first_unheard(w, chunks.drop_last(), j);
        assert(chunks.drop_last().drop_first() =~= chunks.drop_first().drop_last());
    } else {
        assert(chunks.drop_last() =~= Seq::<AudioChunk>::empty());
        assert(chunks.drop_first() =~= Seq::<AudioChunk>::empty());
    }
}

proof fn lemma_aged_unheard(w: Window, chunks: Seq<AudioChunk>, cutoff: int, j: int)
    requires
        cutoff <= w.start.nanos,
    ensures
        w.byte_at(without_aged(chunks, cutoff), j) == w.byte_at(chunks, j),
    decreases chunks.len(),
{
    if chunks.len() > 0 && chunks.first().captured_at.nanos < cutoff {
        lemma_first_unheard(w, chunks, j);
        lemma_aged_unheard(w, chunks.drop_first(), cutoff, j);
    }
}

proof fn lemma_nothing_is_missed(w: Window, pushes: Seq<Push>, j: int)
    requires
        forall|i: int|
            #![trigger pushes[i]]
            0 <= i < pushes.len() ==> age_cutoff(pushes[i].clip_secs, pushes[i].now)
                <= w.start.nanos,
    ensures
        w.byte_at(kept_after(pushes), j) == w.byte_at(all_pushed(pushes), j),
    decreases pushes.len(),
{
    if pushes.len() == 0 {
        assert(all_pushed(pushes) =~= Seq::<AudioChunk>::empty());
    } else {
        let p = pushes.last();
        let front = pushes.drop_last();
        assert forall|i: int| #![trigger front[i]] 0 <= i < front.len() implies age_cutoff(
            front[i].clip_secs,
            front[i].now,
        ) <= w.start.nanos by {
            assert(front[i] == pushes[i]);
        }
        lemma_nothing_is_missed(w, front, j);
        assert(p == pushes[pushes.len() - 1]);
        let whole = kept_after(front).push(p.chunk);
        lemma_aged_unheard(w, whole, age_cutoff(p.clip_secs, p.now), j);
        assert(whole.drop_last() =~= kept_after(front));
        assert(all_pushed(pushes).last() == p.chunk);
        assert(all_pushed(pushes).drop_last() =~= all_pushed(front));
    }
}

/// The ring is as good as one that never lets a chunk go: after any pushes at times up to `now`,
/// for clips of at least `secs` seconds, a window that starts within those seconds and the spare
/// ones has the same sound as if every chunk were still there.
pub proof fn law_ring_misses_nothing(w: Window, pushes: Seq<Push>, secs: u32, now: Instant)
    requires
        forall|i: int|
            #![trigger pushes[i]]
            0 <= i < pushes.len() ==> pushes[i].now.nanos <= now.nanos && pushes[i].clip_secs
                >= secs,
        age_cutoff(secs, now) <= w.start.nanos,
    ensures
        w.sound(kept_after(pushes)) == w.sound(all_pushed(pushes)),
{
    assert forall|i: int| #![trigger pushes[i]] 0 <= i < pushes.len() implies age_cutoff(
        pushes[i].clip_secs,
        pushes[i].now,
    ) <= w.start.nanos by {}
    assert forall|j: int| w.byte_at(kept_after(pushes), j) == w.byte_at(all_pushed(pushes), j) by {
        lemma_nothing_is_missed(w, pushes, j);
    }
    assert(w.sound(kept_after(pushes)) =~= w.sound(all_pushed(pushes)));
}

/// Where the chunks are in the order of their times, a push keeps exactly the recent ones.
pub proof fn law_aged_chunks_go(chunks: Seq<AudioChunk>, cutoff: int)
    requires
        forall|i: int, j: int|
            0 <= i <= j < chunks.len() ==> (#[trigger] chunks[i]).captured_at.nanos <= (
            #[trigger] chunks[j]).captured_at.nanos,
    ensures
        without_aged(chunks, cutoff) == chunks.filter(
            |c: AudioChunk| c.captured_at.nanos >= cutoff,
        ),
    decreases chunks.len(),
{
    let recent = |c: AudioChunk| c.captured_at.nanos >= cutoff;
    if chunks.len() == 0 {
        assert(chunks.filter(recent) =~= chunks) by {
            reveal(Seq::filter);
        }
    } else if chunks.first().captured_at.nanos < cutoff {
        let rest = chunks.drop_first();
        assert forall|i: int, j: int| 0 <= i <= j < rest.len() implies (
        #[trigger] rest[i]).captured_at.nanos <= (#[trigger] rest[j]).captured_at.nanos by {
            assert(rest[i] == chunks[i + 1] && rest[j] == chunks[j + 1]);
        }
        law_aged_chunks_go(rest, cutoff);
        assert(chunks =~= seq![chunks.first()] + rest);
        Seq::filter_distributes_over_add(seq![chunks.first()], rest, recent);
        assert(seq![chunks.first()].filter(recent) =~= Seq::<AudioChunk>::empty()) by {
            reveal_with_fuel(Seq::filter, 2);
            assert(seq![chunks.first()].drop_last() =~= Seq::<AudioChunk>::empty());
            assert(!recent(seq![chunks.first()].last()));
        }
        assert(Seq::<AudioChunk>::empty() + rest.filter(recent) =~= rest.filter(recent));
    } else {
        assert forall|i: int| 0 <= i < chunks.len() implies recent(#[trigger] chunks[i]) by {
            assert(chunks[0].captured_at.nanos <= chunks[i].captured_at.nanos);
        }
        lemma_filter_all(chunks, recent);
    }
}

proof fn lemma_filter_all(chunks: Seq<AudioChunk>, keep: spec_fn(AudioChunk) -> bool)
    requires
        forall|i: int| 0 <= i < chunks.len() ==> keep(#[trigger] chunks[i]),
    ensures
        chunks.filter(keep) == chunks,
    decreases chunks.len(),
{
    reveal(Seq::filter);
    if chunks.len() > 0 {
        assert forall|i: int| 0 <= i < chunks.drop_last().len() implies keep(
            #[trigger] chunks.drop_last()[i],
        ) by {
            assert(chunks.drop_last()[i] == chunks[i]);
        }
        lemma_filter_all(chunks.drop_last(), keep);
        assert(keep(chunks[chunks.len() - 1]));
        assert(chunks.drop_last().push(chunks.last()) =~= chunks);
    }
}

/// Without a chunk there is silence, as long as the stretch of time: one frame for each tick of
/// the sample rate that fits.
pub proof fn law_no_chunk_is_silence(w: Window, j: int)
    ensures
        w.end.nanos <= w.start.nanos ==> w.sound(Seq::empty()).len() == 0,
        w.start.nanos < w.end.nanos ==> w.sound(Seq::empty()).len() == (w.end.nanos
            - w.start.nanos) * w.sample_rate / 1_000_000_000 * w.block_align,
        0 <= j < w.sound(Seq::empty()).len() ==> w.sound(Seq::empty())[j] == 0,
{
}

/// Another chunk makes the sound no longer and no shorter.
pub proof fn law_length_is_that_of_the_time(w: Window, chunks: Seq<AudioChunk>)
    ensures
        w.sound(chunks).len() == w.sound(Seq::empty()).len(),
{
}

/// A chunk that begins so many nanoseconds into the window is heard from the frame on that is
/// due then, at any sample rate, whatever was there before.
pub proof fn law_chunk_is_heard_when_it_was_captured(
    w: Window,
    chunks: Seq<AudioChunk>,
    c: AudioChunk,
    into: nat,
    k: int,
)
    requires
        w.start.nanos < w.end.nanos,
        w.start.nanos + into < w.end.nanos,
        c.captured_at.nanos > w.start.nanos,
        c.captured_at.nanos == w.start.nanos + into + ticks(
            c.num_frames as nat,
            w.sample_rate as nat,
        ),
        0 <= k < c.data@.len(),
        into * w.sample_rate / 1_000_000_000 * w.block_align + k < w.sound(chunks).len(),
    ensures
        w.sound(chunks.push(c))[into * w.sample_rate / 1_000_000_000 * w.block_align + k]
            == c.data@[k],
{
    let j = into * w.sample_rate / 1_000_000_000 * w.block_align + k;
    assert(0 <= j) by {
        assert(0 <= into * w.sample_rate) by (nonlinear_arith)
            requires
                0 <= into,
                0 <= w.sample_rate,
        ;
        let f = into * w.sample_rate / 1_000_000_000;
        assert(0 <= f * w.block_align) by (nonlinear_arith)
            requires
                0 <= f,
                0 <= w.block_align,
        ;
    }
    assert(chunks.push(c).last() == c);
    assert(w.sound(chunks.push(c))[j] == w.byte_at(chunks.push(c), j));
}

/// Of a chunk that begins so many nanoseconds before the window, the frames that were due by
/// then are left out, and the rest is heard from the first frame on.
pub proof fn law_early_chunk_is_heard_from_the_start(
    w: Window,
    chunks: Seq<AudioChunk>,
    c: AudioChunk,
    before: nat,
    k: int,
)
    requires
        w.start.nanos < w.end.nanos,
        0 < before <= w.start.nanos,
        c.captured_at.nanos > w.start.nanos,
        c.captured_at.nanos == w.start.nanos - before + ticks(
            c.num_frames as nat,
            w.sample_rate as nat,
        ),
        0 <= k < w.sound(chunks).len(),
        before * w.sample_rate / 1_000_000_000 * w.block_align + k < c.data@.len(),
    ensures
        w.sound(chunks.push(c))[k] == c.data@[before * w.sample_rate / 1_000_000_000
            * w.block_align + k],
{
    assert(chunks.push(c).last() == c);
    assert(w.sound(chunks.push(c))[k] == w.byte_at(chunks.push(c), k));
}

/// A chunk changes nothing of the sound but where it is heard.
pub proof fn law_chunk_is_heard_nowhere_else(
    w: Window,
    chunks: Seq<AudioChunk>,
    c: AudioChunk,
    into: int,
    j: int,
)
    requires
        w.start.nanos < w.end.nanos,
        c.captured_at.nanos == w.start.nanos + into + ticks(
            c.num_frames as nat,
            w.sample_rate as nat,
        ),
        0 <= j < w.sound(chunks).len(),
        ({
            ||| c.captured_at.nanos <= w.start.nanos
            ||| w.end.nanos <= w.start.nanos + into
            ||| w.start.nanos + into < 0
            ||| 0 <= into && j < into * w.sample_rate / 1_000_000_000 * w.block_align
            ||| 0 <= into && j >= into * w.sample_rate / 1_000_000_000 * w.block_align
                + c.data@.len()
            ||| into < 0 && j >= c.data@.len() - (-into) * w.sample_rate / 1_000_000_000
                * w.block_align
        }),
    ensures
        w.sound(chunks.push(c))[j] == w.sound(chunks)[j],
{
    assert(chunks.push(c).last() == c);
    assert(chunks.push(c).drop_last() =~= chunks);
    assert(w.sound(chunks.push(c))[j] == w.byte_at(chunks.push(c), j));
}

/// Two chunks that join in time also join in the sound, where the first begins on a frame and
/// lasts a whole number of nanoseconds.
pub proof fn law_joined_chunks_join(
    w: Window,
    a: AudioChunk,
    b: AudioChunk,
    frame: nat,
    into: nat,
    length: nat,
    k: int,
)
    requires
        w.sample_rate > 0,
        w.start.nanos < w.end.nanos,
        into * w.sample_rate == frame * 1_000_000_000,
        a.num_frames * 1_000_000_000 == length * w.sample_rate,
        a.num_frames > 0,
        b.num_frames > 0,
        a.captured_at.nanos == w.start.nanos + into + length,
        b.captured_at.nanos == a.captured_at.nanos + ticks(
            b.num_frames as nat,
            w.sample_rate as nat,
        ),
        a.captured_at.nanos < w.end.nanos,
        a.captured_at.nanos > w.start.nanos,
        a.data@.len() == a.num_frames * w.block_align,
        0 <= k < a.data@.len() + b.data@.len(),
        frame * w.block_align + k < w.sound(Seq::empty()).len(),
    ensures
        w.sound(seq![a, b])[frame * w.block_align + k] == (a.data@ + b.data@)[k],
{
    let r = w.sample_rate as nat;
    let g = w.block_align as nat;
    let n = a.num_frames as nat;
    let none = Seq::<AudioChunk>::empty();
    let one = none.push(a);
    assert(seq![a, b] =~= one.push(b));
    law_whole_ticks_are_exact(n, r, length);
    assert(frame * 1_000_000_000 / 1_000_000_000 == frame);
    assert((into + length) * r == (frame + n) * 1_000_000_000) by (nonlinear_arith)
        requires
            into * r == frame * 1_000_000_000,
            n * 1_000_000_000 == length * r,
    ;
    assert((into + length) * r / 1_000_000_000 == frame + n);
    assert((frame + n) * g == frame * g + n * g) by (nonlinear_arith);
    let j = frame * g + k;
    if k < a.data@.len() {
        law_chunk_is_heard_when_it_was_captured(w, none, a, into, k);
        law_chunk_is_heard_nowhere_else(w, one, b, (into + length) as int, j);
    } else {
        law_chunk_is_heard_when_it_was_captured(w, one, b, into + length, k - a.data@.len());
    }
}

/// A push lets go of the oldest chunks only: each that goes is older than a clip and eight
/// seconds more, and the first one that stays is not.
pub proof fn law_push_lets_go_of_the_aged(
    before: Seq<AudioChunk>,
    chunk: AudioChunk,
    clip_secs: u32,
    now: Instant,
    i: int,
)
    requires
        0 <= i <= before.len(),
    ensures
        ({
            let whole = before.push(chunk);
            let after = without_aged(whole, age_cutoff(clip_secs, now));
            let gone = whole.len() - after.len();
            &&& 0 <= gone
            &&& after == whole.skip(gone)
            &&& i < gone ==> whole[i].captured_at.nanos + (clip_secs + 8) * 1_000_000_000
                < now.nanos
            &&& i == gone ==> whole[i].captured_at.nanos + (clip_secs + 8) * 1_000_000_000
                >= now.nanos
        }),
{
    let whole = before.push(chunk);
    let cutoff = age_cutoff(clip_secs, now);
    law_push_keeps_the_back(whole, cutoff);
    let gone = whole.len() - without_aged(whole, cutoff).len();
    if i < gone && whole[i].captured_at.nanos >= cutoff {
        law_recent_chunks_stay(whole, cutoff, i);
    }
    if i == gone {
        assert(whole.skip(gone)[0] == whole[gone]);
    }
}

} // verus!
