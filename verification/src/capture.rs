//! Screen capture: how often a frame is sent, which texture is read and which is written, and
//! how pixels come out of a texture.

use crate::clock::{
    law_ticks_are_nearest, law_whole_ticks_are_exact, ticks, ticks_nanos, Instant,
};
use std::sync::Arc;
use vstd::prelude::*;

verus! {

/// What `AcquireNextFrame` reports when no new frame came in time.
pub const E_WAIT_TIMEOUT: i32 = -2005270489;

/// What `AcquireNextFrame` reports when the desktop can no longer be duplicated.
pub const E_ACCESS_LOST: i32 = -2005270490;

/// What `Map` reports when it may not wait and the copy into the texture is not done.
pub const DXGI_ERROR_WAS_STILL_DRAWING: i32 = -2005270518;

/// Seconds to wait before the capture is started again after a failure.
pub const RETRY_SECS: u64 = 2;

/// One captured frame: its pixels, four bytes each, without padding between the rows.
pub struct Frame {
    pub data: Arc<Vec<u8>>,
}

/// The settings that the capture goes by.
pub struct CaptureConfig {
    pub monitor_index: u32,
    pub fps: u32,
}

/// What to do once a frame was asked for.
pub enum CaptureStep {
    /// No frame came, and there is nothing to send.
    Wait,
    /// No frame came: send this one again, to keep up the frame rate.
    Repeat(Frame),
    /// The desktop can no longer be duplicated: start over.
    AccessLost,
    /// The request failed: start over.
    Failed,
    /// A frame came, too early to be sent: release it.
    Release,
    /// A frame came, the first one: queue its copy into this texture, and release it.
    Prime { texture: usize },
    /// A frame came: read the earlier one out of this texture.
    Read { texture: usize },
}

/// How an attempt to read a texture went.
#[derive(Clone, Copy, PartialEq, Eq, Structural, Debug)]
pub enum MapOutcome {
    Ready,
    StillDrawing,
    Failed,
}

/// Where the capture stands.
pub struct CaptureState {
    /// The texture into which the next frame is copied: 0 or 1.
    pub staging_idx: usize,
    /// Whether the other texture holds a frame to read.
    pub has_pending: bool,
    /// The pixels sent last.
    pub last_frame: Option<Arc<Vec<u8>>>,
    /// When the frame sent last was due.
    pub last_send: Instant,
}

/// Nanoseconds from one frame to the next. No rate is below one frame a second.
pub open spec fn interval_of(fps: u32) -> nat {
    ticks(
        1,
        if fps == 0 {
            1
        } else {
            fps as nat
        },
    )
}

/// Milliseconds to wait for a frame.
pub open spec fn timeout_of(fps: u32) -> nat {
    interval_of(fps) / 1_000_000
}

/// How an attempt to read a texture went, by the error code that it gave, if any.
pub open spec fn outcome_of(error: Option<i32>) -> MapOutcome {
    match error {
        None => MapOutcome::Ready,
        Some(code) => if code == DXGI_ERROR_WAS_STILL_DRAWING {
            MapOutcome::StillDrawing
        } else {
            MapOutcome::Failed
        },
    }
}

/// Pixels out of the rows of a texture, which begin `pitch` bytes apart.
pub open spec fn packed_rows(src: Seq<u8>, width: nat, height: nat, pitch: nat) -> Seq<u8> {
    Seq::new(width * height * 4, |i: int| src[i / (width as int * 4) * pitch + i % (width as int * 4)])
}

impl CaptureConfig {
    /// Nanoseconds from one frame to the next.
    pub fn frame_interval(&self) -> (d: u64)
        ensures
            d == interval_of(self.fps),
            d <= 1_000_000_000,
    {
        let fps: u32 = if self.fps == 0 {
            1
        } else {
            self.fps
        };
        ticks_nanos(1, fps)
    }

    /// Milliseconds to wait for a frame: the frame interval, cut to whole milliseconds.
    pub fn timeout_ms(&self) -> (ms: u32)
        ensures
            ms == interval_of(self.fps) / 1_000_000,
            ms == timeout_of(self.fps),
    {
        (self.frame_interval() / 1_000_000) as u32
    }

    /// Whether the capture of monitor `target` has to be started again on another monitor.
    pub fn monitor_changed(&self, target: u32) -> (r: bool)
        ensures
            r == (self.monitor_index != target),
    {
        self.monitor_index != target
    }
}

/// How long to wait before a capture that broke off is started again: not at all where it broke
/// off to go to another monitor.
pub fn restart_delay_secs(monitor_changed: bool) -> (s: u64)
    ensures
        s == if monitor_changed {
            0
        } else {
            RETRY_SECS
        },
{
    if monitor_changed {
        0
    } else {
        RETRY_SECS
    }
}

/// How an attempt to read a texture went, by the error code that it gave, if any.
pub fn map_outcome(error: Option<i32>) -> (o: MapOutcome)
    ensures
        o == match error {
            None => MapOutcome::Ready,
            Some(code) => if code == DXGI_ERROR_WAS_STILL_DRAWING {
                MapOutcome::StillDrawing
            } else {
                MapOutcome::Failed
            },
        },
        o == outcome_of(error),
{
    match error {
        None => MapOutcome::Ready,
        Some(code) => if code == DXGI_ERROR_WAS_STILL_DRAWING {
            MapOutcome::StillDrawing
        } else {
            MapOutcome::Failed
        },
    }
}

/// The pixels of a frame, out of a texture whose rows begin `pitch` bytes apart.
pub fn copy_rows(src: &[u8], width: u32, height: u32, pitch: usize) -> (data: Vec<u8>)
    requires
        width * height * 4 <= u32::MAX,
        width * height * 4 <= isize::MAX,
        height > 0 ==> width * 4 <= pitch,
        pitch * height <= src@.len(),
    ensures
        data@ == packed_rows(src@, width as nat, height as nat, pitch as nat),
{
    let mut data: Vec<u8> = Vec::new();
    if width == 0 || height == 0 {
        assert(width * height * 4 == 0) by (nonlinear_arith)
            requires
                width == 0 || height == 0,
        ;
        assert(data@ =~= packed_rows(src@, width as nat, height as nat, pitch as nat));
        return data;
    }
    assert(width * 4 <= width * height * 4) by (nonlinear_arith)
        requires
            height >= 1,
            width >= 0,
    ;
    let row_bytes: usize = width as usize * 4;
    let available: usize = src.len();
    let mut row: u32 = 0;
    let mut from: usize = 0;
    proof {
        assert(packed_rows(src@, width as nat, 0, pitch as nat).len() == 0);
        assert(width * 0 * 4 == 0);
    }
    while row < height
        invariant
            row <= height,
            width > 0,
            row_bytes == width * 4,
            row_bytes <= pitch,
            from == row * pitch,
            pitch * height <= available == src@.len(),
            data@ =~= packed_rows(src@, width as nat, row as nat, pitch as nat),
        decreases height - row,
    {
        proof {
            assert(row * pitch + pitch <= pitch * height) by (nonlinear_arith)
                requires
                    row + 1 <= height,
                    pitch >= 0,
            ;
            assert(width * (row + 1) * 4 == width * row * 4 + row_bytes) by (nonlinear_arith)
                requires
                    row_bytes == width * 4,
            ;
        }
        let ghost before = data@;
        let mut col: usize = 0;
        while col < row_bytes
            invariant
                col <= row_bytes <= pitch,
                from + pitch <= available == src@.len(),
                data@ =~= before + src@.subrange(from as int, from + col),
            decreases row_bytes - col,
        {
            data.push(src[from + col]);
            col = col + 1;
        }
        proof {
            let next = packed_rows(src@, width as nat, (row + 1) as nat, pitch as nat);
            assert(next.len() == width * row * 4 + row_bytes);
            assert forall|i: int| 0 <= i < next.len() implies data@[i] == next[i] by {
                let w = row_bytes as int;
                if i < before.len() {
                    assert(before[i] == packed_rows(
                        src@,
                        width as nat,
                        row as nat,
                        pitch as nat,
                    )[i]);
                } else {
                    let k = i - before.len();
                    assert(before.len() == row * w) by (nonlinear_arith)
                        requires
                            before.len() == width * row * 4,
                            w == width * 4,
                    ;
                    assert(i / w == row && i % w == k) by (nonlinear_arith)
                        requires
                            i == row * w + k,
                            0 <= k < w,
                    ;
                }
            }
            assert(data@ =~= next);
        }
        row = row + 1;
        from = from + pitch;
        assert(from == row * pitch) by (nonlinear_arith)
            requires
                from == (row - 1) * pitch + pitch,
        ;
    }
    data
}

impl CaptureState {
    /// A texture is 0 or 1.
    pub open spec fn wf(self) -> bool {
        self.staging_idx <= 1
    }

    /// The texture that is not written next.
    pub open spec fn other_texture(self) -> int {
        1 - self.staging_idx
    }

    /// Whether it is time for a frame.
    pub open spec fn is_due(self, now: Instant, interval: nat) -> bool {
        now.since(self.last_send) >= interval
    }

    /// The state and the step that follow once a frame was asked for.
    pub open spec fn acquired(self, error: Option<i32>, now: Instant, interval: nat) -> (
        CaptureState,
        CaptureStep,
    ) {
        match error {
            Some(code) => if code == E_WAIT_TIMEOUT {
                match self.last_frame {
                    Some(data) if self.is_due(now, interval) => (
                        self.moved_on(interval),
                        CaptureStep::Repeat(Frame { data }),
                    ),
                    _ => (self, CaptureStep::Wait),
                }
            } else if code == E_ACCESS_LOST {
                (self, CaptureStep::AccessLost)
            } else {
                (self, CaptureStep::Failed)
            },
            None => if !self.is_due(now, interval) {
                (self, CaptureStep::Release)
            } else if self.has_pending {
                (self, CaptureStep::Read { texture: self.other_texture() as usize })
            } else {
                (
                    CaptureState {
                        has_pending: true,
                        staging_idx: self.other_texture() as usize,
                        ..self
                    },
                    CaptureStep::Prime { texture: self.staging_idx },
                )
            },
        }
    }

    /// The state in which the next frame is due an interval later.
    pub open spec fn moved_on(self, interval: nat) -> CaptureState {
        CaptureState {
            last_send: Instant { nanos: (self.last_send.nanos + interval) as u64 },
            ..self
        }
    }

    /// The texture that a new frame is copied into.
    pub open spec fn written_to(self) -> usize {
        self.staging_idx
    }

    /// The state once the texture to be read is found still being written.
    pub open spec fn stalled(self, interval: nat) -> CaptureState {
        if self.last_frame is Some {
            self.moved_on(interval)
        } else {
            self
        }
    }

    /// The state once these pixels are read and sent.
    pub open spec fn sent(self, data: Arc<Vec<u8>>, interval: nat) -> CaptureState {
        CaptureState {
            staging_idx: self.other_texture() as usize,
            has_pending: true,
            last_frame: Some(data),
            ..self.moved_on(interval)
        }
    }

    /// A capture that starts at `now`.
    pub fn new(now: Instant) -> (s: CaptureState)
        ensures
            s.wf(),
            s.staging_idx == 0,
            !s.has_pending,
            s.last_frame is None,
            s.last_send == now,
    {
        CaptureState { staging_idx: 0, has_pending: false, last_frame: None, last_send: now }
    }

    /// What to do once a frame was asked for, by the error code that the request gave, if any.
    pub fn on_acquire(&mut self, error: Option<i32>, now: Instant, interval: u64) -> (step:
        CaptureStep)
        requires
            old(self).wf(),
        ensures
            final(self).wf(),
            (*final(self), step) == old(self).acquired(error, now, interval as nat),
            final(self).last_frame == old(self).last_frame,
            match error {
                Some(code) => {
                    &&& final(self).staging_idx == old(self).staging_idx
                    &&& final(self).has_pending == old(self).has_pending
                    &&& if code == E_WAIT_TIMEOUT {
                        if old(self).is_due(now, interval as nat) && old(self).last_frame is Some {
                            &&& step == CaptureStep::Repeat(
                                Frame { data: old(self).last_frame->0 },
                            )
                            &&& final(self).last_send.nanos == old(self).last_send.nanos + interval
                        } else {
                            step is Wait && final(self).last_send == old(self).last_send
                        }
                    } else {
                        &&& final(self).last_send == old(self).last_send
                        &&& if code == E_ACCESS_LOST {
                            step is AccessLost
                        } else {
                            step is Failed
                        }
                    }
                },
                None => {
                    &&& final(self).last_send == old(self).last_send
                    &&& if !old(self).is_due(now, interval as nat) {
                        &&& step is Release
                        &&& final(self).staging_idx == old(self).staging_idx
                        &&& final(self).has_pending == old(self).has_pending
                    } else if old(self).has_pending {
                        &&& step == (CaptureStep::Read {
                            texture: old(self).other_texture() as usize,
                        })
                        &&& final(self).staging_idx == old(self).staging_idx
                        &&& final(self).has_pending
                    } else {
                        &&& step == (CaptureStep::Prime { texture: old(self).staging_idx })
                        &&& final(self).staging_idx == old(self).other_texture()
                        &&& final(self).has_pending
                    }
                },
            },
    {
        let due = now.duration_since(self.last_send) >= interval;
        match error {
            Some(code) => {
                if code == E_WAIT_TIMEOUT {
                    if due {
                        match &self.last_frame {
                            Some(data) => {
                                let frame = Frame { data: data.clone() };
                                proof {
                                    if interval > 0 {
                                        assert(self.last_send.nanos + interval <= now.nanos);
                                    }
                                }
                                self.last_send = Instant { nanos: self.last_send.nanos + interval };
                                return CaptureStep::Repeat(frame);
                            },
                            None => {},
                        }
                    }
                    CaptureStep::Wait
                } else if code == E_ACCESS_LOST {
                    CaptureStep::AccessLost
                } else {
                    CaptureStep::Failed
                }
            },
            None => {
                if !due {
                    CaptureStep::Release
                } else if self.has_pending {
                    CaptureStep::Read { texture: 1 - self.staging_idx }
                } else {
                    let texture: usize = self.staging_idx;
                    self.has_pending = true;
                    self.staging_idx = 1 - texture;
                    CaptureStep::Prime { texture }
                }
            },
        }
    }

    /// The texture to be read is still being written: the new frame goes into the texture
    /// that the first part of the result names, and the frame sent last, if any, is sent again.
    /// The next attempt is made on the same texture.
    pub fn on_still_drawing(&mut self, interval: u64) -> (r: (usize, Option<Frame>))
        requires
            old(self).wf(),
            old(self).last_frame is Some ==> old(self).last_send.nanos + interval <= u64::MAX,
        ensures
            final(self).wf(),
            final(self).staging_idx == old(self).staging_idx,
            final(self).has_pending == old(self).has_pending,
            final(self).last_frame == old(self).last_frame,
            *final(self) == old(self).stalled(interval as nat),
            r.0 == old(self).written_to(),
            r.0 == old(self).staging_idx,
            match old(self).last_frame {
                Some(data) => {
                    &&& r.1 == Some(Frame { data })
                    &&& final(self).last_send.nanos == old(self).last_send.nanos + interval
                },
                None => r.1 is None && final(self).last_send == old(self).last_send,
            },
    {
        let texture: usize = self.staging_idx;
        match &self.last_frame {
            Some(data) => {
                let frame = Frame { data: data.clone() };
                self.last_send = Instant { nanos: self.last_send.nanos + interval };
                (texture, Some(frame))
            },
            None => (texture, None),
        }
    }

    /// The pixels of the earlier frame were read: they are sent, the new frame goes into the
    /// texture that the first part of the result names, and the textures change places.
    pub fn on_pixels(&mut self, data: Vec<u8>, interval: u64) -> (r: (usize, Frame))
        requires
            old(self).wf(),
            old(self).last_send.nanos + interval <= u64::MAX,
        ensures
            final(self).wf(),
            *final(self) == old(self).sent(r.1.data, interval as nat),
            r.0 == old(self).written_to(),
            r.0 == old(self).staging_idx,
            r.1.data@ == data@,
            final(self).last_frame == Some(r.1.data),
            final(self).last_send.nanos == old(self).last_send.nanos + interval,
            final(self).has_pending,
            final(self).staging_idx == old(self).other_texture(),
    {
        let texture: usize = self.staging_idx;
        let shared = Arc::new(data);
        self.last_frame = Some(shared.clone());
        self.last_send = Instant { nanos: self.last_send.nanos + interval };
        self.has_pending = true;
        self.staging_idx = 1 - texture;
        (texture, Frame { data: shared })
    }
}

/// The texture that is read is never the one that is written next, and once the textures have
/// changed places the one written last is the one that is read.
pub proof fn law_textures_take_turns(before: CaptureState, after: CaptureState)
    requires
        before.wf(),
        after.wf(),
        after.staging_idx == before.other_texture(),
    ensures
        before.other_texture() != before.staging_idx,
        after.other_texture() == before.staging_idx,
{
}

/// When the frames of a capture are due that starts at `start`: each one an interval after the
/// one before it, whenever that was sent.
pub open spec fn due_before(start: Instant, interval: nat, frames: nat) -> int {
    start.nanos + frames * interval
}

/// Whether each of these frames was due when it was sent.
pub open spec fn sent_when_due(start: Instant, interval: nat, times: Seq<Instant>) -> bool {
    forall|i: int|
        0 <= i < times.len() ==> (#[trigger] times[i]).nanos >= due_before(
            start,
            interval,
            (i + 1) as nat,
        )
}

/// A frame that is sent when it is due moves the time of the last one by one interval, so that
/// the next one is due an interval later: a delay is made up for, and adds no frame.
pub proof fn law_late_frames_catch_up(
    before: CaptureState,
    after: CaptureState,
    now: Instant,
    interval: nat,
    start: Instant,
    frames: nat,
)
    requires
        before.last_send.nanos == due_before(start, interval, frames),
        before.last_send.nanos <= now.nanos,
        before.is_due(now, interval),
        after.last_send.nanos == before.last_send.nanos + interval,
    ensures
        after.last_send.nanos == due_before(start, interval, frames + 1),
        after.last_send.nanos <= now.nanos,
        now.since(after.last_send) == now.since(before.last_send) - interval,
{
    assert((frames + 1) * interval == frames * interval + interval) by (nonlinear_arith);
}

/// The frame rate is never exceeded: where frames are sent only when they are due, no more of
/// them have been sent than intervals have passed since the start.
pub proof fn law_frame_rate_is_kept(start: Instant, interval: nat, times: Seq<Instant>)
    requires
        times.len() > 0,
        sent_when_due(start, interval, times),
    ensures
        times.len() * interval <= times.last().nanos - start.nanos,
{
    assert(times[times.len() - 1] == times.last());
}

/// Each pixel keeps its place: the bytes of a row follow one another, and so do the rows.
pub proof fn law_pixels_keep_their_place(
    src: Seq<u8>,
    width: nat,
    height: nat,
    pitch: nat,
    row: int,
    col: int,
)
    requires
        0 <= row < height,
        0 <= col < width * 4,
    ensures
        row * (width * 4) + col < packed_rows(src, width, height, pitch).len(),
        packed_rows(src, width, height, pitch)[row * (width * 4) + col] == src[row * pitch + col],
{
    let w = width as int * 4;
    let i = row * w + col;
    assert(i / w == row && i % w == col) by (nonlinear_arith)
        requires
            i == row * w + col,
            0 <= col < w,
    ;
    assert(0 <= i < width * height * 4) by (nonlinear_arith)
        requires
            i == row * w + col,
            0 <= col < w,
            w == width * 4,
            0 <= row < height,
    ;
}

/// The interval between frames is what the rate makes it, to half a nanosecond: a second at one
/// frame in a second, as which a rate of zero counts. The wait is as many whole milliseconds as it
/// has.
pub proof fn law_interval_follows_the_rate(fps: u32)
    ensures
        fps == 0 ==> interval_of(fps) == 1_000_000_000,
        fps > 0 ==> {
            &&& 2 * (interval_of(fps) * fps) <= 2_000_000_000 + fps
            &&& 2_000_000_000 <= 2 * (interval_of(fps) * fps) + fps
        },
        timeout_of(fps) * 1_000_000 <= interval_of(fps) < (timeout_of(fps) + 1) * 1_000_000,
{
    if fps > 0 {
        law_ticks_are_nearest(1, fps as nat);
    } else {
        law_whole_ticks_are_exact(1, 1, 1_000_000_000);
    }
}

/// Before an interval has passed since the last frame was due, a frame that comes is let go and
/// nothing is sent again; nothing changes.
pub proof fn law_early_frames_are_let_go(s: CaptureState, now: Instant, interval: nat)
    requires
        s.last_send.nanos <= now.nanos < s.last_send.nanos + interval || now.nanos
            < s.last_send.nanos && interval > 0,
    ensures
        s.acquired(None, now, interval) == (s, CaptureStep::Release),
        s.acquired(Some((0x887A_0027 - 0x1_0000_0000) as i32), now, interval) == (s, CaptureStep::Wait),
{
}

/// Where no frame comes in time, the one sent last is sent again, and the next one is due an
/// interval later; where none has been sent there is nothing to send.
pub proof fn law_still_picture_is_sent_again(s: CaptureState, now: Instant, interval: nat)
    requires
        s.last_send.nanos + interval <= now.nanos,
    ensures
        s.last_frame matches Some(data) ==> {
            let r = s.acquired(Some((0x887A_0027 - 0x1_0000_0000) as i32), now, interval);
            &&& r.1 == CaptureStep::Repeat(Frame { data })
            &&& r.0.last_send.nanos == s.last_send.nanos + interval
            &&& r.0 == (CaptureState { last_send: r.0.last_send, ..s })
        },
        s.last_frame is None ==> s.acquired(Some((0x887A_0027 - 0x1_0000_0000) as i32), now, interval) == (
            s,
            CaptureStep::Wait,
        ),
{
}

/// The other errors end the capture and change nothing: one says that the desktop is lost, and all
/// others that the request failed.
pub proof fn law_errors_end_the_capture(
    s: CaptureState,
    code: i32,
    now: Instant,
    interval: nat,
)
    ensures
        s.acquired(Some((0x887A_0026 - 0x1_0000_0000) as i32), now, interval) == (s, CaptureStep::AccessLost),
        code != 0x887A_0027 - 0x1_0000_0000 && code != 0x887A_0026 - 0x1_0000_0000 ==> s.acquired(Some(code), now, interval) == (
            s,
            CaptureStep::Failed,
        ),
{
}

/// A frame is read from the texture that it was copied into. The first one is only copied; when
/// the next one is due, that one's copy is read, and the next one goes into the other texture, to
/// be read in its turn.
pub proof fn law_frames_are_read_where_they_were_copied(
    s: CaptureState,
    now: Instant,
    then: Instant,
    data: Arc<Vec<u8>>,
    interval: nat,
)
    requires
        s.wf(),
        s.last_send.nanos + interval <= now.nanos,
        s.last_send.nanos + 2 * interval <= then.nanos,
    ensures
        ({
            let primed = s.acquired(None, now, interval);
            !s.has_pending ==> {
                &&& primed.1 == (CaptureStep::Prime { texture: s.staging_idx })
                &&& primed.0.acquired(None, then, interval).1 == (CaptureStep::Read {
                    texture: s.staging_idx,
                })
                &&& primed.0.last_send == s.last_send
                &&& primed.0.last_frame == s.last_frame
            }
        }),
        ({
            let reading = s.acquired(None, now, interval);
            s.has_pending ==> {
                &&& reading.0 == s
                &&& reading.1 == (CaptureStep::Read { texture: (1 - s.staging_idx) as usize })
                &&& s.written_to() == s.staging_idx
                &&& s.sent(data, interval).acquired(None, then, interval).1 == (CaptureStep::Read {
                    texture: s.written_to(),
                })
                &&& s.stalled(interval).acquired(None, then, interval).1 == reading.1
            }
        }),
{
}

/// What is read is sent: it is then the frame sent last, and the next one is due an interval
/// later.
pub proof fn law_frames_read_are_sent(s: CaptureState, data: Arc<Vec<u8>>, interval: nat)
    requires
        s.last_send.nanos + interval <= u64::MAX,
    ensures
        s.sent(data, interval).last_frame == Some(data),
        s.sent(data, interval).last_send.nanos == s.last_send.nanos + interval,
        s.sent(data, interval).has_pending,
        s.stalled(interval).last_frame == s.last_frame,
        s.last_frame is Some ==> s.stalled(interval).last_send.nanos == s.last_send.nanos
            + interval,
        s.last_frame is None ==> s.stalled(interval) == s,
{
}

/// A texture can be read where no error came back; one error says that it is not written yet.
pub proof fn law_textures_tell_when_they_are_ready(code: i32)
    ensures
        outcome_of(None) == MapOutcome::Ready,
        outcome_of(Some(code)) == if code == 0x887A_000A - 0x1_0000_0000 {
            MapOutcome::StillDrawing
        } else {
            MapOutcome::Failed
        },
{
}

/// A frame has four bytes for each pixel, however far apart the rows of the texture are.
pub proof fn law_frames_have_four_bytes_a_pixel(
    src: Seq<u8>,
    width: nat,
    height: nat,
    pitch: nat,
)
    ensures
        packed_rows(src, width, height, pitch).len() == 4 * (width * height),
{
}

} // verus!
