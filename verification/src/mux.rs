//! Saving a clip: the stretch of sound that belongs to its video, and the arguments with which
//! ffmpeg puts the two together.

use crate::audio::{sample_format, AudioFormat};
use crate::audio_ring::{
    all_pushed, kept_after, law_ring_misses_nothing, law_whole_seconds, AudioRing, Push, Window,
    SPARE_SECS,
};
use crate::clock::{
    law_ticks_are_nearest, law_whole_ticks_are_exact, ticks, ticks_nanos, Instant, NANOS_PER_SEC,
};
use crate::encode::{gives, push_arg};
use crate::text::{
    chars_of, decimal, decimal_string, digits_value, lemma_decimal, push_number, texts, zero_padded,
};
use vstd::prelude::*;

verus! {

/// Nanoseconds before now at which the sound ends where the video does not tell.
pub const GUESSED_AGE: u64 = 3_000_000_000;

/// What clips are made of, and how.
pub struct SaveConfig {
    pub clips_dir: String,
    pub ffmpeg_path: String,
    pub clip_secs: u32,
    pub fps: u32,
    pub audio_fmt: Option<AudioFormat>,
    pub mic_fmt: Option<AudioFormat>,
}

/// A point in local time.
#[derive(Clone, Copy, PartialEq, Eq, Structural, Debug)]
pub struct LocalTime {
    pub year: u16,
    pub month: u16,
    pub day: u16,
    pub hour: u16,
    pub minute: u16,
    pub second: u16,
}

/// Why a clip cannot be saved.
#[derive(Clone, Copy, PartialEq, Eq, Structural, Debug)]
pub enum SaveError {
    /// No video has been buffered yet.
    NoSegments,
}

impl SaveError {
    /// The error in words.
    pub open spec fn words(self) -> Seq<char> {
        match self {
            SaveError::NoSegments =>
                "no video segments buffered \u{2014} wait a moment and try again"@,
        }
    }

    /// The error in words.
    pub fn message(self) -> (m: &'static str)
        ensures
            m@ == self.words(),
    {
        match self {
            SaveError::NoSegments =>
                "no video segments buffered \u{2014} wait a moment and try again",
        }
    }
}

/// The parts of a clip, ready for ffmpeg.
pub struct ClipPlan {
    /// The list of the video's segments.
    pub concat_list: String,
    /// The desktop's sound, where there is any.
    pub desktop: Option<Vec<u8>>,
    /// The microphone's sound, where there is any.
    pub mic: Option<Vec<u8>>,
}

/// Nanoseconds from the capture of a segment's last frame until the segment is written: two
/// frames.
pub open spec fn pipeline_delay(fps: u32) -> nat {
    ticks(
        2,
        if fps == 0 {
            1
        } else {
            fps as nat
        },
    )
}

/// When the newest segment was written, on the monotonic clock: `newest` and `wall` are the
/// file's time and the present one on the wall clock, and `now` is the present on the
/// monotonic one. Where that is not known, a guess.
pub open spec fn written_at(newest: Option<i64>, wall: i64, now: Instant) -> int {
    match newest {
        Some(t) => if t <= wall && wall - t <= now.nanos {
            now.nanos - (wall - t)
        } else {
            now.nanos - GUESSED_AGE
        },
        None => now.nanos - GUESSED_AGE,
    }
}

/// When the clip's sound ends: with the last frame of its video.
pub open spec fn sound_end(newest: Option<i64>, wall: i64, now: Instant, fps: u32) -> int {
    if pipeline_delay(fps) <= written_at(newest, wall, now) {
        written_at(newest, wall, now) - pipeline_delay(fps)
    } else {
        now.nanos - GUESSED_AGE
    }
}

/// When the clip's sound starts: one second before its end for each segment. Where that would
/// be before the clock's origin there is no sound at all.
pub open spec fn sound_start(end: int, segments: nat) -> int {
    if segments * NANOS_PER_SEC <= end {
        end - segments * NANOS_PER_SEC
    } else {
        end
    }
}

/// The stretch of sound that belongs to a clip of `segments` segments.
pub open spec fn sound_window(
    newest: Option<i64>,
    wall: i64,
    now: Instant,
    fps: u32,
    segments: nat,
    format: AudioFormat,
) -> Window {
    let end = sound_end(newest, wall, now, fps);
    Window {
        start: Instant { nanos: sound_start(end, segments) as u64 },
        end: Instant { nanos: end as u64 },
        sample_rate: format.sample_rate,
        block_align: format.block_align,
    }
}

/// The most bytes of sound that a clip of `segments` segments has.
pub open spec fn sound_limit(segments: nat, format: AudioFormat) -> nat {
    segments * format.sample_rate as nat * format.block_align as nat
}

/// The sound that is kept of what was captured: none where there is none, and no more than the
/// video lasts.
pub open spec fn kept_sound(sound: Seq<u8>, limit: nat) -> Option<Seq<u8>> {
    if sound.len() == 0 {
        None
    } else if sound.len() <= limit {
        Some(sound)
    } else {
        Some(sound.take(limit as int))
    }
}

/// The bytes of a track that may not be there.
pub open spec fn track_bytes(t: Option<Vec<u8>>) -> Option<Seq<u8>> {
    match t {
        Some(v) => Some(v@),
        None => None,
    }
}

/// A path as the list of segments has it, with slashes between its parts.
pub open spec fn with_slashes(path: Seq<char>) -> Seq<char> {
    path.map_values(
        |c: char|
            if c == '\\' {
                '/'
            } else {
                c
            },
    )
}

/// The lines that name the segments.
pub open spec fn segment_lines(segments: Seq<Seq<char>>) -> Seq<char>
    decreases segments.len(),
{
    if segments.len() == 0 {
        Seq::empty()
    } else {
        segment_lines(segments.drop_last()) + "file '"@ + with_slashes(segments.last()) + "'\n"@
    }
}

/// The list of segments, as ffmpeg reads it.
pub open spec fn concat_text(segments: Seq<Seq<char>>) -> Seq<char> {
    "ffconcat version 1.0\n"@ + segment_lines(segments)
}

/// The arguments that bring in a track of sound.
pub open spec fn track_args(format: Option<AudioFormat>, path: Seq<char>) -> Seq<Seq<char>> {
    match format {
        Some(f) => seq![
            "-f"@,
            sample_format(f.is_float, f.bits_per_sample),
            "-ar"@,
            decimal(f.sample_rate as nat),
            "-ac"@,
            decimal(f.channels as nat),
            "-i"@,
            path,
        ],
        None => Seq::empty(),
    }
}

/// The arguments that encode the video.
pub open spec fn video_args() -> Seq<Seq<char>> {
    seq!["-c:v"@, "libx264"@, "-preset"@, "ultrafast"@, "-crf"@, "18"@]
}

/// The arguments that encode the sound.
pub open spec fn sound_args() -> Seq<Seq<char>> {
    seq!["-c:a"@, "aac"@, "-b:a"@, "192k"@]
}

/// The filter that sets the video's times to begin with zero, as the sound's do.
pub open spec fn retime_args() -> Seq<Seq<char>> {
    seq!["-vf"@, "setpts=PTS-STARTPTS"@]
}

/// The filter that does the same, and mixes the two tracks of sound into one.
pub open spec fn mix_args() -> Seq<Seq<char>> {
    seq![
        "-filter_complex"@,
        "[0:v]setpts=PTS-STARTPTS[v];[1:a][2:a]amix=inputs=2:duration=first:dropout_transition=3:normalize=0[aout]"@,
        "-map"@,
        "[v]"@,
        "-map"@,
        "[aout]"@,
    ]
}

/// The arguments that put video and sound together, by whether there is sound of the desktop
/// and of the microphone.
pub open spec fn merge_args(desktop: bool, mic: bool) -> Seq<Seq<char>> {
    if desktop && mic {
        mix_args() + video_args() + sound_args()
    } else if desktop || mic {
        retime_args() + video_args() + sound_args()
    } else {
        retime_args() + video_args()
    }
}

/// The arguments with which ffmpeg writes the clip.
pub open spec fn mux_args(
    concat_path: Seq<char>,
    desktop: Option<AudioFormat>,
    audio_path: Seq<char>,
    mic: Option<AudioFormat>,
    mic_path: Seq<char>,
    output_path: Seq<char>,
) -> Seq<Seq<char>> {
    seq!["-y"@, "-f"@, "concat"@, "-safe"@, "0"@, "-i"@, concat_path] + track_args(
        desktop,
        audio_path,
    ) + track_args(mic, mic_path) + merge_args(desktop is Some, mic is Some) + seq![
        "-movflags"@,
        "+faststart"@,
        output_path,
    ]
}

/// The arguments with which ffmpeg writes the clip of a plan: a track counts where the plan has
/// its bytes and its format is known.
pub open spec fn clip_args(
    plan: ClipPlan,
    config: SaveConfig,
    concat_path: Seq<char>,
    audio_path: Seq<char>,
    mic_path: Seq<char>,
    output_path: Seq<char>,
) -> Seq<Seq<char>> {
    mux_args(
        concat_path,
        format_of(track_bytes(plan.desktop), config.audio_fmt),
        audio_path,
        format_of(track_bytes(plan.mic), config.mic_fmt),
        mic_path,
        output_path,
    )
}

/// `n` in decimal, with zeros in front of it up to `width` digits.
pub open spec fn padded(n: u16, width: nat) -> Seq<char> {
    zero_padded(decimal(n as nat), width)
}

/// A date and a time of day.
pub open spec fn stamp(t: LocalTime, between: char, time_mark: char) -> Seq<char> {
    (padded(t.year, 4).push('-') + padded(t.month, 2).push('-') + padded(t.day, 2)).push(between)
        + padded(t.hour, 2).push(time_mark) + padded(t.minute, 2).push(time_mark) + padded(
        t.second,
        2,
    )
}

/// The name of a clip saved at `t`.
pub open spec fn clip_name(t: LocalTime) -> Seq<char> {
    "clip_"@ + stamp(t, '_', '-') + ".mp4"@
}

/// Appends a date and a time of day.
pub fn push_stamp(out: &mut String, t: &LocalTime, between: char, time_mark: char)
    ensures
        final(out)@ == old(out)@ + stamp(*t, between, time_mark),
{
    let ghost before = out@;
    push_number(out, t.year as u64, 10, 4);
    out.push('-');
    push_number(out, t.month as u64, 10, 2);
    out.push('-');
    push_number(out, t.day as u64, 10, 2);
    out.push(between);
    push_number(out, t.hour as u64, 10, 2);
    out.push(time_mark);
    push_number(out, t.minute as u64, 10, 2);
    out.push(time_mark);
    push_number(out, t.second as u64, 10, 2);
    assert(out@ =~= before + stamp(*t, between, time_mark));
}

/// The name of a clip saved at `t`, such as `clip_2024-05-01_09-30-00.mp4`.
pub fn clip_filename(t: &LocalTime) -> (s: String)
    ensures
        s@ == clip_name(*t),
{
    let mut s = String::new();
    s.push_str("clip_");
    push_stamp(&mut s, t, '_', '-');
    s.push_str(".mp4");
    assert(s@ =~= clip_name(*t));
    s
}

/// When the clip's sound starts and ends. `newest` is when the newest segment was written and
/// `wall` the present on the wall clock; `now` is the present on the monotonic clock.
pub fn audio_window(
    newest: Option<i64>,
    wall: i64,
    now: Instant,
    fps: u32,
    segments: usize,
) -> (r: (Instant, Instant))
    requires
        now.nanos >= GUESSED_AGE,
    ensures
        r.1.nanos == sound_end(newest, wall, now, fps),
        r.0.nanos == sound_start(r.1.nanos as int, segments as nat),
{
    let rate: u32 = if fps == 0 {
        1
    } else {
        fps
    };
    let delay: u64 = ticks_nanos(2, rate);
    let guess: Instant = Instant { nanos: now.nanos - GUESSED_AGE };
    let written: Instant = match newest {
        Some(t) => if t <= wall {
            let age: i128 = wall as i128 - t as i128;
            match now.checked_sub(age as u64) {
                Some(i) => i,
                None => guess,
            }
        } else {
            guess
        },
        None => guess,
    };
    let end: Instant = match written.checked_sub(delay) {
        Some(i) => i,
        None => guess,
    };
    let length: u128 = segments as u128 * 1_000_000_000u128;
    let start: Instant = if length <= end.nanos as u128 {
        Instant { nanos: end.nanos - length as u64 }
    } else {
        end
    };
    (start, end)
}

/// The sound of one ring that goes into a clip: none where nothing is captured.
pub fn clip_track(
    ring: &AudioRing,
    format: Option<AudioFormat>,
    start: Instant,
    end: Instant,
    segments: usize,
) -> (r: Option<Vec<u8>>)
    requires
        format matches Some(f) ==> start.nanos < end.nanos ==> {
            &&& f.block_align > 0
            &&& ring@.len() > 0 ==> f.sample_rate > 0
            &&& (Window {
                start,
                end,
                sample_rate: f.sample_rate,
                block_align: f.block_align,
            }).total_bytes() <= isize::MAX
            &&& sound_limit(segments as nat, f) <= usize::MAX
        },
    ensures
        track_bytes(r) == match format {
            Some(f) => kept_sound(
                (Window {
                    start,
                    end,
                    sample_rate: f.sample_rate,
                    block_align: f.block_align,
                }).sound(ring@),
                sound_limit(segments as nat, f),
            ),
            None => None,
        },
{
    match format {
        Some(f) => {
            let mut data = ring.get_clip_data_for_range(start, end, f.sample_rate, f.block_align);
            if data.len() == 0 {
                return None;
            }
            proof {
                assert(f.sample_rate * f.block_align <= 0xFFFF_FFFF * 0xFFFF) by (nonlinear_arith)
                    requires
                        0 <= f.sample_rate <= 0xFFFF_FFFF,
                        0 <= f.block_align <= 0xFFFF,
                ;
            }
            let per_sec: u64 = f.sample_rate as u64 * f.block_align as u64;
            proof {
                assert(segments * per_sec <= 0xFFFF_FFFF_FFFF_FFFF * 0xFFFF_FFFF_FFFF)
                    by (nonlinear_arith)
                    requires
                        0 <= segments <= 0xFFFF_FFFF_FFFF_FFFF,
                        0 <= per_sec <= 0xFFFF_FFFF_FFFF,
                ;
                assert(sound_limit(segments as nat, f) == segments * per_sec) by (nonlinear_arith)
                    requires
                        per_sec == f.sample_rate * f.block_align,
                        sound_limit(segments as nat, f) == segments * f.sample_rate
                            * f.block_align,
                ;
            }
            let limit: u128 = segments as u128 * per_sec as u128;
            data.truncate(limit as usize);
            Some(data)
        },
        None => None,
    }
}

/// The list of segments, as ffmpeg reads it.
pub fn concat_list(segments: &Vec<String>) -> (s: String)
    ensures
        s@ == concat_text(texts(segments@)),
{
    let mut s = String::new();
    s.push_str("ffconcat version 1.0\n");
    let mut i: usize = 0;
    assert(texts(segments@).take(0) =~= Seq::<Seq<char>>::empty());
    assert(s@ =~= "ffconcat version 1.0\n"@ + segment_lines(texts(segments@).take(0)));
    while i < segments.len()
        invariant
            i <= segments@.len(),
            s@ == "ffconcat version 1.0\n"@ + segment_lines(texts(segments@).take(i as int)),
        decreases segments@.len() - i,
    {
        let ghost before = s@;
        s.push_str("file '");
        let chars = chars_of(segments[i].as_str());
        let ghost head = s@;
        let mut j: usize = 0;
        while j < chars.len()
            invariant
                j <= chars@.len(),
                s@ =~= head + with_slashes(chars@.take(j as int)),
            decreases chars@.len() - j,
        {
            let c = chars[j];
            s.push(
                if c == '\\' {
                    '/'
                } else {
                    c
                },
            );
            assert(with_slashes(chars@.take(j + 1)) =~= with_slashes(chars@.take(j as int)).push(
                if c == '\\' {
                    '/'
                } else {
                    c
                },
            ));
            j = j + 1;
        }
        assert(chars@.take(j as int) =~= chars@);
        s.push_str("'\n");
        proof {
            let upto = texts(segments@).take(i + 1);
            assert(upto.drop_last() =~= texts(segments@).take(i as int));
            assert(upto.last() == chars@);
            assert(s@ =~= "ffconcat version 1.0\n"@ + segment_lines(upto));
        }
        i = i + 1;
    }
    assert(texts(segments@).take(i as int) =~= texts(segments@));
    s
}

/// The format of a track that is there.
pub open spec fn format_of(t: Option<Seq<u8>>, format: Option<AudioFormat>) -> Option<AudioFormat> {
    if t is Some {
        format
    } else {
        None
    }
}

/// The sound that a clip of these segments takes out of a ring.
pub open spec fn clip_sound(
    ring: AudioRing,
    format: Option<AudioFormat>,
    newest: Option<i64>,
    wall: i64,
    now: Instant,
    fps: u32,
    segments: nat,
) -> Option<Seq<u8>> {
    match format {
        Some(f) => kept_sound(
            sound_window(newest, wall, now, fps, segments, f).sound(ring@),
            sound_limit(segments, f),
        ),
        None => None,
    }
}

/// Whether the sound of a clip can be laid out: its format is one of sound, and the bytes can be
/// counted.
pub open spec fn can_lay_out(
    ring: AudioRing,
    format: Option<AudioFormat>,
    newest: Option<i64>,
    wall: i64,
    now: Instant,
    fps: u32,
    segments: nat,
) -> bool {
    format matches Some(f) ==> {
        let w = sound_window(newest, wall, now, fps, segments, f);
        w.start.nanos < w.end.nanos ==> {
            &&& f.block_align > 0
            &&& ring@.len() > 0 ==> f.sample_rate > 0
            &&& w.total_bytes() <= isize::MAX
        }
    }
}

/// Where a clip has sound, it is as long as its video.
proof fn lemma_limit_is_met(
    newest: Option<i64>,
    wall: i64,
    now: Instant,
    fps: u32,
    segments: nat,
    format: AudioFormat,
)
    requires
        now.nanos >= GUESSED_AGE,
        segments > 0,
    ensures
        ({
            let w = sound_window(newest, wall, now, fps, segments, format);
            w.start.nanos < w.end.nanos ==> w.total_bytes() == sound_limit(segments, format)
        }),
{
    let w = sound_window(newest, wall, now, fps, segments, format);
    if w.start.nanos < w.end.nanos {
        law_sound_matches_video(newest, wall, now, fps, segments);
        law_whole_seconds(w, Seq::empty(), segments);
    }
}

/// The sound of a clip of so many segments: that of the desktop and that of the microphone.
pub open spec fn planned_tracks(
    config: SaveConfig,
    newest: Option<i64>,
    wall: i64,
    now: Instant,
    segments: nat,
    audio_ring: AudioRing,
    mic_ring: AudioRing,
) -> (Option<Seq<u8>>, Option<Seq<u8>>) {
    (
        clip_sound(audio_ring, config.audio_fmt, newest, wall, now, config.fps, segments),
        clip_sound(mic_ring, config.mic_fmt, newest, wall, now, config.fps, segments),
    )
}

/// The parts of a clip of these segments. `newest` is when the last of them was written, where
/// that could be read.
pub fn plan_clip(
    config: &SaveConfig,
    segments: &Vec<String>,
    newest: Option<i64>,
    wall: i64,
    now: Instant,
    audio_ring: &AudioRing,
    mic_ring: &AudioRing,
) -> (r: Result<ClipPlan, SaveError>)
    requires
        now.nanos >= GUESSED_AGE,
        can_lay_out(
            *audio_ring,
            config.audio_fmt,
            newest,
            wall,
            now,
            config.fps,
            segments@.len(),
        ),
        can_lay_out(*mic_ring, config.mic_fmt, newest, wall, now, config.fps, segments@.len()),
    ensures
        r is Err <==> segments@.len() == 0,
        r matches Err(e) ==> e == SaveError::NoSegments,
        r matches Ok(plan) ==> {
            &&& plan.concat_list@ == concat_text(texts(segments@))
            &&& track_bytes(plan.desktop) == clip_sound(
                *audio_ring,
                config.audio_fmt,
                newest,
                wall,
                now,
                config.fps,
                segments@.len(),
            )
            &&& track_bytes(plan.mic) == clip_sound(
                *mic_ring,
                config.mic_fmt,
                newest,
                wall,
                now,
                config.fps,
                segments@.len(),
            )
            &&& (track_bytes(plan.desktop), track_bytes(plan.mic)) == planned_tracks(
                *config,
                newest,
                wall,
                now,
                segments@.len(),
                *audio_ring,
                *mic_ring,
            )
        },
{
    if segments.len() == 0 {
        return Err(SaveError::NoSegments);
    }
    let (start, end) = audio_window(newest, wall, now, config.fps, segments.len());
    proof {
        let n = segments@.len();
        if let Some(f) = config.audio_fmt {
            lemma_limit_is_met(newest, wall, now, config.fps, n, f);
        }
        if let Some(f) = config.mic_fmt {
            lemma_limit_is_met(newest, wall, now, config.fps, n, f);
        }
    }
    let desktop = clip_track(audio_ring, config.audio_fmt, start, end, segments.len());
    let mic = clip_track(mic_ring, config.mic_fmt, start, end, segments.len());
    Ok(ClipPlan { concat_list: concat_list(segments), desktop, mic })
}

fn push_track_args(args: &mut Vec<String>, format: Option<AudioFormat>, path: &str)
    ensures
        texts(final(args)@) == texts(old(args)@) + track_args(format, path@),
{
    let ghost before = texts(args@);
    if let Some(f) = format {
        push_arg(args, "-f");
        push_arg(args, f.ffmpeg_format());
        push_arg(args, "-ar");
        push_arg(args, decimal_string(f.sample_rate as u64).as_str());
        push_arg(args, "-ac");
        push_arg(args, decimal_string(f.channels as u64).as_str());
        push_arg(args, "-i");
        push_arg(args, path);
    }
    assert(texts(args@) =~= before + track_args(format, path@));
}

fn push_merge_args(args: &mut Vec<String>, desktop: bool, mic: bool)
    ensures
        texts(final(args)@) == texts(old(args)@) + merge_args(desktop, mic),
{
    let ghost before = texts(args@);
    if desktop && mic {
        push_arg(args, "-filter_complex");
        push_arg(
            args,
            "[0:v]setpts=PTS-STARTPTS[v];[1:a][2:a]amix=inputs=2:duration=first:dropout_transition=3:normalize=0[aout]",
        );
        push_arg(args, "-map");
        push_arg(args, "[v]");
        push_arg(args, "-map");
        push_arg(args, "[aout]");
        assert(texts(args@) =~= before + mix_args());
    } else {
        push_arg(args, "-vf");
        push_arg(args, "setpts=PTS-STARTPTS");
        assert(texts(args@) =~= before + retime_args());
    }
    let ghost middle = texts(args@);
    push_arg(args, "-c:v");
    push_arg(args, "libx264");
    push_arg(args, "-preset");
    push_arg(args, "ultrafast");
    push_arg(args, "-crf");
    push_arg(args, "18");
    assert(texts(args@) =~= middle + video_args());
    let ghost late = texts(args@);
    if desktop || mic {
        push_arg(args, "-c:a");
        push_arg(args, "aac");
        push_arg(args, "-b:a");
        push_arg(args, "192k");
        assert(texts(args@) =~= late + sound_args());
    }
    assert(texts(args@) =~= before + merge_args(desktop, mic));
}

impl ClipPlan {
    /// The arguments with which ffmpeg writes the clip.
    pub fn ffmpeg_args(
        &self,
        config: &SaveConfig,
        concat_path: &str,
        audio_path: &str,
        mic_path: &str,
        output_path: &str,
    ) -> (args: Vec<String>)
        ensures
            texts(args@) == mux_args(
                concat_path@,
                format_of(track_bytes(self.desktop), config.audio_fmt),
                audio_path@,
                format_of(track_bytes(self.mic), config.mic_fmt),
                mic_path@,
                output_path@,
            ),
            texts(args@) == clip_args(
                *self,
                *config,
                concat_path@,
                audio_path@,
                mic_path@,
                output_path@,
            ),
    {
        let desktop: Option<AudioFormat> = if self.desktop.is_some() {
            config.audio_fmt
        } else {
            None
        };
        let mic: Option<AudioFormat> = if self.mic.is_some() {
            config.mic_fmt
        } else {
            None
        };
        let mut args: Vec<String> = Vec::new();
        assert(texts(args@) =~= Seq::<Seq<char>>::empty());
        push_arg(&mut args, "-y");
        push_arg(&mut args, "-f");
        push_arg(&mut args, "concat");
        push_arg(&mut args, "-safe");
        push_arg(&mut args, "0");
        push_arg(&mut args, "-i");
        push_arg(&mut args, concat_path);
        assert(texts(args@) =~= seq![
            "-y"@,
            "-f"@,
            "concat"@,
            "-safe"@,
            "0"@,
            "-i"@,
            concat_path@,
        ]);
        push_track_args(&mut args, desktop, audio_path);
        push_track_args(&mut args, mic, mic_path);
        push_merge_args(&mut args, desktop.is_some(), mic.is_some());
        let ghost before = texts(args@);
        push_arg(&mut args, "-movflags");
        push_arg(&mut args, "+faststart");
        push_arg(&mut args, output_path);
        assert(texts(args@) =~= before + seq!["-movflags"@, "+faststart"@, output_path@]);
        args
    }
}

/// The sound of a clip ends no later than now, and lasts as long as its video or not at all.
pub proof fn law_sound_matches_video(
    newest: Option<i64>,
    wall: i64,
    now: Instant,
    fps: u32,
    segments: nat,
)
    requires
        now.nanos >= GUESSED_AGE,
    ensures
        ({
            let end = sound_end(newest, wall, now, fps);
            let start = sound_start(end, segments);
            &&& 0 <= start <= end <= now.nanos
            &&& end - start == segments * NANOS_PER_SEC || end == start
        }),
{
}

/// Where the newest segment's time is known and not before the clock's origin, the sound ends
/// when the last frame of that segment was captured: as long ago as the segment was written,
/// and two frames more.
pub proof fn law_sound_is_in_sync(newest: i64, wall: i64, now: Instant, fps: u32)
    requires
        newest <= wall,
        wall - newest + pipeline_delay(fps) <= now.nanos,
    ensures
        now.nanos - sound_end(Some(newest), wall, now, fps) == wall - newest + pipeline_delay(fps),
{
}

/// A clip misses none of the sound that was captured: where it has no more segments than
/// seconds, and its sound ends within the spare seconds of the ring, the ring gives it what one
/// that never lets a chunk go would give.
pub proof fn law_clip_misses_no_sound(
    pushes: Seq<Push>,
    secs: u32,
    newest: Option<i64>,
    wall: i64,
    now: Instant,
    fps: u32,
    segments: nat,
    format: AudioFormat,
)
    requires
        now.nanos >= GUESSED_AGE,
        forall|i: int|
            #![trigger pushes[i]]
            0 <= i < pushes.len() ==> pushes[i].now.nanos <= now.nanos && pushes[i].clip_secs
                >= secs,
        segments <= secs,
        sound_end(newest, wall, now, fps) >= now.nanos - SPARE_SECS * NANOS_PER_SEC,
    ensures
        ({
            let w = sound_window(newest, wall, now, fps, segments, format);
            w.sound(kept_after(pushes)) == w.sound(all_pushed(pushes))
        }),
{
    law_ring_misses_nothing(
        sound_window(newest, wall, now, fps, segments, format),
        pushes,
        secs,
        now,
    );
}

/// A track of a clip lasts exactly one second for each of its segments: nothing is cut off
/// what the ring gives.
pub proof fn law_track_lasts_as_long_as_video(w: Window, ring: AudioRing, format: AudioFormat, segments: nat)
    requires
        segments > 0,
        w.end.nanos - w.start.nanos == segments * NANOS_PER_SEC,
        w.sample_rate == format.sample_rate,
        w.block_align == format.block_align,
        format.sample_rate > 0,
        format.block_align > 0,
    ensures
        kept_sound(w.sound(ring@), sound_limit(segments, format)) == Some(w.sound(ring@)),
        w.sound(ring@).len() == sound_limit(segments, format),
{
    law_whole_seconds(w, ring@, segments);
    assert(segments * format.sample_rate * format.block_align > 0) by (nonlinear_arith)
        requires
            segments > 0,
            format.sample_rate > 0,
            format.block_align > 0,
    ;
}

/// Whether a time is one that a clock shows.
pub open spec fn is_clock_time(t: LocalTime) -> bool {
    &&& t.year <= 9999
    &&& t.month <= 12
    &&& t.day <= 31
    &&& t.hour <= 23
    &&& t.minute <= 59
    &&& t.second <= 60
}

proof fn lemma_decimal_len(n: nat)
    ensures
        n < 10 ==> decimal(n).len() == 1,
        n < 100 ==> decimal(n).len() <= 2,
        n < 1000 ==> decimal(n).len() <= 3,
        n < 10000 ==> decimal(n).len() <= 4,
    decreases n,
{
    if n >= 10 {
        lemma_decimal_len(n / 10);
    }
}

proof fn lemma_zeros_add_nothing(s: Seq<char>, zeros: nat)
    ensures
        digits_value(Seq::new(zeros, |i: int| '0') + s) == digits_value(s),
    decreases s.len(), zeros,
{
    let z = Seq::new(zeros, |i: int| '0');
    if s.len() > 0 {
        lemma_zeros_add_nothing(s.drop_last(), zeros);
        assert((z + s).drop_last() =~= z + s.drop_last());
    } else if zeros > 0 {
        let fewer = Seq::new((zeros - 1) as nat, |i: int| '0');
        lemma_zeros_add_nothing(s, (zeros - 1) as nat);
        assert((z + s).drop_last() =~= fewer + s);
    } else {
        assert(z + s =~= s);
    }
}

proof fn lemma_padded(n: u16, width: nat)
    requires
        width == 2 && n < 100 || width == 4 && n < 10000,
    ensures
        padded(n, width).len() == width,
        digits_value(padded(n, width)) == n,
{
    lemma_decimal_len(n as nat);
    lemma_decimal(n as nat);
    let d = decimal(n as nat);
    if d.len() < width {
        lemma_zeros_add_nothing(d, (width - d.len()) as nat);
    }
}

/// Clips saved at different seconds have different names.
pub proof fn law_clip_names_differ(a: LocalTime, b: LocalTime)
    requires
        is_clock_time(a),
        is_clock_time(b),
        clip_name(a) == clip_name(b),
    ensures
        a == b,
{
    lemma_clip_name_parts(a);
    lemma_clip_name_parts(b);
}

proof fn lemma_clip_name_parts(t: LocalTime)
    requires
        is_clock_time(t),
    ensures
        ({
            let at = "clip_"@.len() as int;
            let s = clip_name(t);
            &&& digits_value(s.subrange(at, at + 4)) == t.year
            &&& digits_value(s.subrange(at + 5, at + 7)) == t.month
            &&& digits_value(s.subrange(at + 8, at + 10)) == t.day
            &&& digits_value(s.subrange(at + 11, at + 13)) == t.hour
            &&& digits_value(s.subrange(at + 14, at + 16)) == t.minute
            &&& digits_value(s.subrange(at + 17, at + 19)) == t.second
        }),
{
    lemma_padded(t.year, 4);
    lemma_padded(t.month, 2);
    lemma_padded(t.day, 2);
    lemma_padded(t.hour, 2);
    lemma_padded(t.minute, 2);
    lemma_padded(t.second, 2);
    let at = "clip_"@.len() as int;
    let s = clip_name(t);
    assert(s.subrange(at, at + 4) =~= padded(t.year, 4));
    assert(s.subrange(at + 5, at + 7) =~= padded(t.month, 2));
    assert(s.subrange(at + 8, at + 10) =~= padded(t.day, 2));
    assert(s.subrange(at + 11, at + 13) =~= padded(t.hour, 2));
    assert(s.subrange(at + 14, at + 16) =~= padded(t.minute, 2));
    assert(s.subrange(at + 17, at + 19) =~= padded(t.second, 2));
}

/// Every track of sound that a plan has goes into the clip, whether there is another one or not:
/// it is read from its own file, in its own format, and encoded. The desktop's comes first.
pub proof fn law_each_track_goes_into_the_clip(
    plan: ClipPlan,
    config: SaveConfig,
    concat_path: Seq<char>,
    audio_path: Seq<char>,
    mic_path: Seq<char>,
    output_path: Seq<char>,
)
    ensures
        ({
            let args = clip_args(plan, config, concat_path, audio_path, mic_path, output_path);
            let behind: int = if plan.desktop is Some && config.audio_fmt is Some {
                15
            } else {
                7
            };
            &&& args[0] == "-y"@
            &&& args.subrange(1, 7) == seq!["-f"@, "concat"@, "-safe"@, "0"@, "-i"@, concat_path]
            &&& plan.desktop is Some ==> (config.audio_fmt matches Some(f) ==> {
                &&& args.subrange(7, 13) == seq![
                    "-f"@,
                    sample_format(f.is_float, f.bits_per_sample),
                    "-ar"@,
                    decimal(f.sample_rate as nat),
                    "-ac"@,
                    decimal(f.channels as nat),
                ]
                &&& args[13] == "-i"@
                &&& args[14] == audio_path
                &&& gives(args, "-c:a"@, "aac"@)
                &&& gives(args, "-b:a"@, "192k"@)
            })
            &&& plan.mic is Some ==> (config.mic_fmt matches Some(f) ==> {
                &&& args.subrange(behind, behind + 6) == seq![
                    "-f"@,
                    sample_format(f.is_float, f.bits_per_sample),
                    "-ar"@,
                    decimal(f.sample_rate as nat),
                    "-ac"@,
                    decimal(f.channels as nat),
                ]
                &&& args[behind + 6] == "-i"@
                &&& args[behind + 7] == mic_path
                &&& gives(args, "-c:a"@, "aac"@)
                &&& gives(args, "-b:a"@, "192k"@)
            })
        }),
{
    let args = clip_args(plan, config, concat_path, audio_path, mic_path, output_path);
    let n = args.len() as int;
    assert(args.subrange(1, 7) =~= seq!["-f"@, "concat"@, "-safe"@, "0"@, "-i"@, concat_path]);
    let desktop = plan.desktop is Some && config.audio_fmt is Some;
    let mic = plan.mic is Some && config.mic_fmt is Some;
    if desktop || mic {
        assert(args[n - 7] == "-c:a"@ && args[n - 6] == "aac"@);
        assert(args[n - 5] == "-b:a"@ && args[n - 4] == "192k"@);
    }
    if desktop {
        let f = config.audio_fmt->0;
        assert(args.subrange(7, 13) =~= seq![
            "-f"@,
            sample_format(f.is_float, f.bits_per_sample),
            "-ar"@,
            decimal(f.sample_rate as nat),
            "-ac"@,
            decimal(f.channels as nat),
        ]);
    }
    if mic {
        let f = config.mic_fmt->0;
        let behind: int = if desktop {
            15
        } else {
            7
        };
        assert(args.subrange(behind, behind + 6) =~= seq![
            "-f"@,
            sample_format(f.is_float, f.bits_per_sample),
            "-ar"@,
            decimal(f.sample_rate as nat),
            "-ac"@,
            decimal(f.channels as nat),
        ]);
    }
}

/// The video goes into the clip whatever sound there is: it is encoded, with its times set to
/// begin with zero, and the clip's path stands last. Two tracks of sound are mixed into one; a
/// track that the plan does not have leaves no argument.
pub proof fn law_video_goes_into_the_clip(
    plan: ClipPlan,
    config: SaveConfig,
    concat_path: Seq<char>,
    audio_path: Seq<char>,
    mic_path: Seq<char>,
    output_path: Seq<char>,
)
    ensures
        ({
            let args = clip_args(plan, config, concat_path, audio_path, mic_path, output_path);
            let desktop = plan.desktop is Some && config.audio_fmt is Some;
            let mic = plan.mic is Some && config.mic_fmt is Some;
            &&& gives(args, "-c:v"@, "libx264"@)
            &&& gives(args, "-preset"@, "ultrafast"@)
            &&& gives(args, "-crf"@, "18"@)
            &&& gives(args, "-movflags"@, "+faststart"@)
            &&& args.last() == output_path
            &&& !(desktop && mic) ==> gives(args, "-vf"@, "setpts=PTS-STARTPTS"@)
            &&& desktop && mic ==> {
                &&& gives(
                    args,
                    "-filter_complex"@,
                    "[0:v]setpts=PTS-STARTPTS[v];[1:a][2:a]amix=inputs=2:duration=first:dropout_transition=3:normalize=0[aout]"@,
                )
                &&& gives(args, "-map"@, "[v]"@)
                &&& gives(args, "-map"@, "[aout]"@)
            }
            &&& args.len() == if desktop && mic {
                42int
            } else if desktop || mic {
                30
            } else {
                18
            }
        }),
{
    let args = clip_args(plan, config, concat_path, audio_path, mic_path, output_path);
    let n = args.len() as int;
    let desktop = plan.desktop is Some && config.audio_fmt is Some;
    let mic = plan.mic is Some && config.mic_fmt is Some;
    assert(args[n - 3] == "-movflags"@ && args[n - 2] == "+faststart"@);
    let at: int = if desktop || mic {
        n - 13
    } else {
        n - 9
    };
    assert(args[at] == "-c:v"@ && args[at + 1] == "libx264"@);
    assert(args[at + 2] == "-preset"@ && args[at + 3] == "ultrafast"@);
    assert(args[at + 4] == "-crf"@ && args[at + 5] == "18"@);
    if desktop && mic {
        assert(args[23] == "-filter_complex"@);
        assert(args[24]
            == "[0:v]setpts=PTS-STARTPTS[v];[1:a][2:a]amix=inputs=2:duration=first:dropout_transition=3:normalize=0[aout]"@);
        assert(args[25] == "-map"@ && args[26] == "[v]"@);
        assert(args[27] == "-map"@ && args[28] == "[aout]"@);
    } else {
        assert(args[at - 2] == "-vf"@ && args[at - 1] == "setpts=PTS-STARTPTS"@);
    }
}

/// The delay of the pipeline is two frames long, to half a nanosecond: two seconds at one frame
/// in a second, as which a rate of zero counts.
pub proof fn law_delay_is_two_frames(fps: u32)
    ensures
        fps == 0 ==> pipeline_delay(fps) == 2_000_000_000,
        fps > 0 ==> {
            &&& 2 * (pipeline_delay(fps) * fps) <= 4_000_000_000 + fps
            &&& 4_000_000_000 <= 2 * (pipeline_delay(fps) * fps) + fps
        },
{
    if fps > 0 {
        law_ticks_are_nearest(2, fps as nat);
    } else {
        law_whole_ticks_are_exact(2, 1, 2_000_000_000);
    }
}

/// Where the newest segment's time is not known, lies ahead of the clock or before its origin,
/// the segment is taken to be three seconds old.
pub proof fn law_unknown_segment_is_three_seconds_old(
    newest: i64,
    wall: i64,
    now: Instant,
    fps: u32,
)
    requires
        newest > wall || wall - newest > now.nanos,
    ensures
        sound_end(Some(newest), wall, now, fps) == sound_end(None, wall, now, fps),
        pipeline_delay(fps) + 3_000_000_000 <= now.nanos ==> sound_end(None, wall, now, fps)
            == now.nanos - 3_000_000_000 - pipeline_delay(fps),
        pipeline_delay(fps) + 3_000_000_000 > now.nanos ==> sound_end(None, wall, now, fps)
            == now.nanos - 3_000_000_000,
{
}

/// A clip's sound is what its ring has of the seconds of its video: as many as there are
/// segments, up to the moment when the newest one's last frame was captured.
pub proof fn law_clip_has_the_sound_of_its_seconds(
    ring: AudioRing,
    format: AudioFormat,
    newest: i64,
    wall: i64,
    now: Instant,
    fps: u32,
    segments: nat,
    w: Window,
)
    requires
        newest <= wall,
        segments > 0,
        format.sample_rate > 0,
        format.block_align > 0,
        w.sample_rate == format.sample_rate,
        w.block_align == format.block_align,
        w.end.nanos == now.nanos - (wall - newest) - pipeline_delay(fps),
        w.start.nanos == w.end.nanos - segments * 1_000_000_000,
    ensures
        clip_sound(ring, Some(format), Some(newest), wall, now, fps, segments) == Some(
            w.sound(ring@),
        ),
        w.sound(ring@).len() == segments * format.sample_rate * format.block_align,
        clip_sound(ring, None, Some(newest), wall, now, fps, segments) is None,
{
    assert(sound_window(Some(newest), wall, now, fps, segments, format) == w);
    law_track_lasts_as_long_as_video(w, ring, format, segments);
}

/// What is kept of the sound begins as it does and is cut at the limit; there is none only where
/// nothing was captured.
pub proof fn law_kept_sound_is_the_beginning(sound: Seq<u8>, limit: nat, i: int)
    ensures
        kept_sound(sound, limit) is None <==> sound.len() == 0,
        kept_sound(sound, limit) matches Some(kept) ==> {
            &&& kept.len() == if sound.len() < limit {
                sound.len()
            } else {
                limit
            }
            &&& 0 <= i < kept.len() ==> kept[i] == sound[i]
        },
{
}

/// A segment more is one line more at the end of the list, with its path between quotes, in
/// which each backslash has become a slash and nothing else has changed.
pub proof fn law_each_segment_has_its_line(segments: Seq<Seq<char>>, path: Seq<char>) -> (q: Seq<
    char,
>)
    ensures
        concat_text(Seq::empty()) == "ffconcat version 1.0\n"@,
        concat_text(segments.push(path)) == concat_text(segments) + "file '"@ + q + "'\n"@,
        q.len() == path.len(),
        forall|i: int|
            0 <= i < path.len() ==> #[trigger] q[i] == if path[i] == '\\' {
                '/'
            } else {
                path[i]
            },
{
    let q = with_slashes(path);
    let all = segments.push(path);
    assert(all.drop_last() =~= segments);
    assert(concat_text(all) =~= concat_text(segments) + "file '"@ + q + "'\n"@);
    assert(concat_text(Seq::empty()) =~= "ffconcat version 1.0\n"@);
    q
}

/// A date and a time can be read from their stamp: the year in four digits, the others in two,
/// with the marks between them.
pub proof fn law_stamp_reads_back(t: LocalTime, between: char, time_mark: char)
    requires
        is_clock_time(t),
    ensures
        ({
            let s = stamp(t, between, time_mark);
            &&& s.len() == 19
            &&& digits_value(s.subrange(0, 4)) == t.year
            &&& s[4] == '-'
            &&& digits_value(s.subrange(5, 7)) == t.month
            &&& s[7] == '-'
            &&& digits_value(s.subrange(8, 10)) == t.day
            &&& s[10] == between
            &&& digits_value(s.subrange(11, 13)) == t.hour
            &&& s[13] == time_mark
            &&& digits_value(s.subrange(14, 16)) == t.minute
            &&& s[16] == time_mark
            &&& digits_value(s.subrange(17, 19)) == t.second
        }),
{
    lemma_padded(t.year, 4);
    lemma_padded(t.month, 2);
    lemma_padded(t.day, 2);
    lemma_padded(t.hour, 2);
    lemma_padded(t.minute, 2);
    lemma_padded(t.second, 2);
    let s = stamp(t, between, time_mark);
    assert(s.subrange(0, 4) =~= padded(t.year, 4));
    assert(s.subrange(5, 7) =~= padded(t.month, 2));
    assert(s.subrange(8, 10) =~= padded(t.day, 2));
    assert(s.subrange(11, 13) =~= padded(t.hour, 2));
    assert(s.subrange(14, 16) =~= padded(t.minute, 2));
    assert(s.subrange(17, 19) =~= padded(t.second, 2));
}

/// A clip's name says when it was saved: `clip_`, the stamp with an underscore between date and
/// time and hyphens in the time, and `.mp4`.
pub proof fn law_clip_name_is_dated(t: LocalTime)
    requires
        is_clock_time(t),
    ensures
        clip_name(t).len() == 28,
        clip_name(t).take(5) == seq!['c', 'l', 'i', 'p', '_'],
        clip_name(t).subrange(5, 24) == stamp(t, '_', '-'),
        clip_name(t).skip(24) == seq!['.', 'm', 'p', '4'],
{
    law_stamp_reads_back(t, '_', '-');
    reveal_strlit("clip_");
    reveal_strlit(".mp4");
    assert(clip_name(t).take(5) =~= seq!['c', 'l', 'i', 'p', '_']);
    assert(clip_name(t).subrange(5, 24) =~= stamp(t, '_', '-'));
    assert(clip_name(t).skip(24) =~= seq!['.', 'm', 'p', '4']);
}

/// Each track of a clip is taken from its own ring and in its own format, whatever the other ring
/// and the other format are: the sound of the clip's seconds, or none where nothing is captured.
pub proof fn law_tracks_come_from_their_own_rings(
    config: SaveConfig,
    newest: i64,
    wall: i64,
    now: Instant,
    segments: nat,
    audio_ring: AudioRing,
    mic_ring: AudioRing,
    start: Instant,
    end: Instant,
)
    requires
        newest <= wall,
        segments > 0,
        end.nanos == now.nanos - (wall - newest) - pipeline_delay(config.fps),
        start.nanos == end.nanos - segments * 1_000_000_000,
        config.audio_fmt matches Some(f) ==> f.sample_rate > 0 && f.block_align > 0,
        config.mic_fmt matches Some(f) ==> f.sample_rate > 0 && f.block_align > 0,
    ensures
        ({
            let tracks = planned_tracks(
                config,
                Some(newest),
                wall,
                now,
                segments,
                audio_ring,
                mic_ring,
            );
            &&& tracks.0 is Some <==> config.audio_fmt is Some
            &&& tracks.1 is Some <==> config.mic_fmt is Some
            &&& config.audio_fmt matches Some(f) ==> tracks.0 == Some(
                (Window {
                    start,
                    end,
                    sample_rate: f.sample_rate,
                    block_align: f.block_align,
                }).sound(audio_ring@),
            )
            &&& config.mic_fmt matches Some(f) ==> tracks.1 == Some(
                (Window {
                    start,
                    end,
                    sample_rate: f.sample_rate,
                    block_align: f.block_align,
                }).sound(mic_ring@),
            )
        }),
{
    if let Some(f) = config.audio_fmt {
        let w = Window { start, end, sample_rate: f.sample_rate, block_align: f.block_align };
        law_clip_has_the_sound_of_its_seconds(
            audio_ring,
            f,
            newest,
            wall,
            now,
            config.fps,
            segments,
            w,
        );
    }
    if let Some(f) = config.mic_fmt {
        let w = Window { start, end, sample_rate: f.sample_rate, block_align: f.block_align };
        law_clip_has_the_sound_of_its_seconds(
            mic_ring,
            f,
            newest,
            wall,
            now,
            config.fps,
            segments,
            w,
        );
    }
}

} // verus!
