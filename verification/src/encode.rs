//! The video encoder: the arguments that ffmpeg is run with, and when it is run anew.

use crate::text::{
    chars_of, decimal, decimal_string, is_digit, lemma_decimal, push_decimal, text_is, texts,
};
use vstd::prelude::*;

verus! {

/// Frames that the hardware encoder looks ahead.
pub const LOOKAHEAD: u32 = 4;

/// What the encoder is run for.
pub struct EncodeConfig {
    pub width: u32,
    pub height: u32,
    pub fps: u32,
    pub bitrate_mbps: u32,
    /// The path of the segment files, with a placeholder for their number.
    pub segment_pattern: String,
}

/// The encoders, in the order in which they are tried.
#[derive(Clone, Copy, PartialEq, Eq, Structural, Debug)]
pub enum Encoder {
    Nvenc,
    Software,
}

/// How the handing of a frame to the writer went.
#[derive(Clone, Copy, PartialEq, Eq, Structural, Debug)]
pub enum WriteOutcome {
    Sent,
    /// The writer is behind: the frame is dropped.
    Full,
    /// The writer is gone.
    Closed,
}

/// What the encoder's loop waits for.
#[derive(Clone, Copy, PartialEq, Eq, Structural, Debug)]
pub enum EncodeEvent {
    /// A frame came, and was handed to the writer.
    Frame(WriteOutcome),
    /// No frame will come any more.
    FramesEnded,
    /// The settings or the monitor changed.
    RestartAsked,
}

/// What the encoder's loop does next.
#[derive(Clone, Copy, PartialEq, Eq, Structural, Debug)]
pub enum EncodeStep {
    GoOn,
    /// Run this encoder in place of the one that is running, with no segment kept.
    Restart(Encoder),
    Stop,
}

/// `{width}x{height}`.
pub open spec fn size_text(width: u32, height: u32) -> Seq<char> {
    decimal(width as nat).push('x') + decimal(height as nat)
}

/// Surfaces of the hardware encoder: more of them at high frame rates.
pub open spec fn surfaces(fps: u32) -> nat {
    if fps > 60 {
        16
    } else {
        12
    }
}

/// The arguments that describe the frames going in.
pub open spec fn input_args(c: EncodeConfig) -> Seq<Seq<char>> {
    seq![
        "-f"@,
        "rawvideo"@,
        "-pixel_format"@,
        "bgra"@,
        "-video_size"@,
        size_text(c.width, c.height),
        "-framerate"@,
        decimal(c.fps as nat),
        "-i"@,
        "pipe:0"@,
    ]
}

/// The arguments that choose the encoder.
pub open spec fn codec_args(encoder: Encoder, c: EncodeConfig) -> Seq<Seq<char>> {
    match encoder {
        Encoder::Nvenc => seq![
            "-c:v"@,
            "h264_nvenc"@,
            "-preset"@,
            "p4"@,
            "-surfaces"@,
            decimal(surfaces(c.fps)),
            "-rc-lookahead"@,
            decimal(LOOKAHEAD as nat),
            "-bf"@,
            "0"@,
        ],
        Encoder::Software => seq!["-c:v"@, "libx264"@, "-preset"@, "ultrafast"@],
    }
}

/// The arguments that describe the segments coming out: one for each second, each of them
/// begun with a frame that needs no other.
pub open spec fn segment_args(c: EncodeConfig) -> Seq<Seq<char>> {
    seq![
        "-b:v"@,
        decimal(c.bitrate_mbps as nat).push('M'),
        "-g"@,
        decimal(c.fps as nat),
        "-f"@,
        "segment"@,
        "-segment_time"@,
        "1"@,
        "-segment_format"@,
        "mpegts"@,
        c.segment_pattern@,
    ]
}

/// The arguments that ffmpeg is run with.
pub open spec fn encode_args(encoder: Encoder, c: EncodeConfig) -> Seq<Seq<char>> {
    input_args(c) + codec_args(encoder, c) + segment_args(c)
}

/// The encoder to try when this one cannot be run: the hardware encoder falls back to the
/// software one, and that one to none.
pub open spec fn fallback_of(encoder: Encoder) -> Option<Encoder> {
    match encoder {
        Encoder::Nvenc => Some(Encoder::Software),
        Encoder::Software => None,
    }
}

/// What follows on an event while an encoder is running. When its writer is gone, it has exited:
/// the one that it falls back to is run, and where there is none it starts over with the hardware
/// encoder. So it does when a restart is asked for. When the frames end, that is all.
pub open spec fn step_after(running: Encoder, event: EncodeEvent) -> EncodeStep {
    match event {
        EncodeEvent::Frame(WriteOutcome::Sent) => EncodeStep::GoOn,
        EncodeEvent::Frame(WriteOutcome::Full) => EncodeStep::GoOn,
        EncodeEvent::Frame(WriteOutcome::Closed) => EncodeStep::Restart(
            match fallback_of(running) {
                Some(next) => next,
                None => Encoder::Nvenc,
            },
        ),
        EncodeEvent::FramesEnded => EncodeStep::Stop,
        EncodeEvent::RestartAsked => EncodeStep::Restart(Encoder::Nvenc),
    }
}

/// Whether a line of ffmpeg's only tells how far it has come.
pub open spec fn is_progress(line: Seq<char>) -> bool {
    line.len() >= 6 && line.take(6) == "frame="@
}

/// Appends an argument.
pub fn push_arg(args: &mut Vec<String>, arg: &str)
    ensures
        texts(final(args)@) == texts(old(args)@).push(arg@),
{
    let ghost before = args@;
    args.push(arg.to_owned());
    assert(texts(args@) =~= texts(before).push(arg@));
}

fn push_input_args(args: &mut Vec<String>, c: &EncodeConfig)
    ensures
        texts(final(args)@) == texts(old(args)@) + input_args(*c),
{
    let ghost before = texts(args@);
    let mut size = decimal_string(c.width as u64);
    size.push('x');
    push_decimal(&mut size, c.height as u64);
    push_arg(args, "-f");
    push_arg(args, "rawvideo");
    push_arg(args, "-pixel_format");
    push_arg(args, "bgra");
    push_arg(args, "-video_size");
    push_arg(args, size.as_str());
    push_arg(args, "-framerate");
    push_arg(args, decimal_string(c.fps as u64).as_str());
    push_arg(args, "-i");
    push_arg(args, "pipe:0");
    assert(texts(args@) =~= before + input_args(*c));
}

fn push_codec_args(args: &mut Vec<String>, encoder: Encoder, c: &EncodeConfig)
    ensures
        texts(final(args)@) == texts(old(args)@) + codec_args(encoder, *c),
{
    let ghost before = texts(args@);
    match encoder {
        Encoder::Nvenc => {
            let n: u64 = if c.fps > 60 {
                16
            } else {
                12
            };
            push_arg(args, "-c:v");
            push_arg(args, "h264_nvenc");
            push_arg(args, "-preset");
            push_arg(args, "p4");
            push_arg(args, "-surfaces");
            push_arg(args, decimal_string(n).as_str());
            push_arg(args, "-rc-lookahead");
            push_arg(args, decimal_string(LOOKAHEAD as u64).as_str());
            push_arg(args, "-bf");
            push_arg(args, "0");
        },
        Encoder::Software => {
            push_arg(args, "-c:v");
            push_arg(args, "libx264");
            push_arg(args, "-preset");
            push_arg(args, "ultrafast");
        },
    }
    assert(texts(args@) =~= before + codec_args(encoder, *c));
}

fn push_segment_args(args: &mut Vec<String>, c: &EncodeConfig)
    ensures
        texts(final(args)@) == texts(old(args)@) + segment_args(*c),
{
    let ghost before = texts(args@);
    let mut bitrate = decimal_string(c.bitrate_mbps as u64);
    bitrate.push('M');
    push_arg(args, "-b:v");
    push_arg(args, bitrate.as_str());
    push_arg(args, "-g");
    push_arg(args, decimal_string(c.fps as u64).as_str());
    push_arg(args, "-f");
    push_arg(args, "segment");
    push_arg(args, "-segment_time");
    push_arg(args, "1");
    push_arg(args, "-segment_format");
    push_arg(args, "mpegts");
    push_arg(args, c.segment_pattern.as_str());
    assert(texts(args@) =~= before + segment_args(*c));
}

/// The arguments that ffmpeg is run with to encode.
pub fn ffmpeg_args(encoder: Encoder, c: &EncodeConfig) -> (args: Vec<String>)
    ensures
        texts(args@) == encode_args(encoder, *c),
{
    let mut args: Vec<String> = Vec::new();
    assert(texts(args@) =~= Seq::<Seq<char>>::empty());
    push_input_args(&mut args, c);
    assert(texts(args@) =~= input_args(*c));
    push_codec_args(&mut args, encoder, c);
    push_segment_args(&mut args, c);
    args
}

/// The encoder that is tried first: the hardware one.
pub fn first_encoder() -> (r: Encoder)
    ensures
        r == Encoder::Nvenc,
{
    Encoder::Nvenc
}

/// The encoder to try when this one cannot be run.
pub fn fallback(encoder: Encoder) -> (r: Option<Encoder>)
    ensures
        r == fallback_of(encoder),
{
    match encoder {
        Encoder::Nvenc => Some(Encoder::Software),
        Encoder::Software => None,
    }
}

/// What the encoder's loop does next, while `running` is the encoder that was started.
pub fn encode_step(running: Encoder, event: EncodeEvent) -> (s: EncodeStep)
    ensures
        s == step_after(running, event),
{
    match event {
        EncodeEvent::Frame(o) => match o {
            WriteOutcome::Sent => EncodeStep::GoOn,
            WriteOutcome::Full => EncodeStep::GoOn,
            WriteOutcome::Closed => EncodeStep::Restart(
                match fallback(running) {
                    Some(next) => next,
                    None => first_encoder(),
                },
            ),
        },
        EncodeEvent::FramesEnded => EncodeStep::Stop,
        EncodeEvent::RestartAsked => EncodeStep::Restart(first_encoder()),
    }
}

/// Whether a line of ffmpeg's is worth the log: it does more than tell how far it has come.
pub fn is_worth_logging(line: &str) -> (r: bool)
    ensures
        r == !is_progress(line@),
{
    let chars = chars_of(line);
    if chars.len() < 6 {
        return true;
    }
    assert(chars@.subrange(0, 6) =~= line@.take(6));
    !text_is(&chars, 0, 6, "frame=")
}

/// The hardware encoder falls back to libx264 by itself, whether it cannot be started or exits
/// once it was.
pub proof fn law_hardware_falls_back_to_libx264(c: EncodeConfig)
    ensures
        fallback_of(Encoder::Nvenc) == Some(Encoder::Software),
        step_after(Encoder::Nvenc, EncodeEvent::Frame(WriteOutcome::Closed))
            == EncodeStep::Restart(Encoder::Software),
        encode_args(Encoder::Software, c).contains("libx264"@),
{
    assert(encode_args(Encoder::Software, c)[11] == "libx264"@);
}

/// An encoder that exits is never run again at once: the other one has its turn.
pub proof fn law_exited_encoder_gives_way(running: Encoder)
    ensures
        step_after(running, EncodeEvent::Frame(WriteOutcome::Closed)) != EncodeStep::Restart(
            running,
        ),
        step_after(running, EncodeEvent::Frame(WriteOutcome::Closed)) is Restart,
{
}

/// Whether `value` stands right behind `flag` in a row of arguments.
pub open spec fn gives(args: Seq<Seq<char>>, flag: Seq<char>, value: Seq<char>) -> bool {
    exists|i: int|
        0 <= i < args.len() - 1 && #[trigger] args[i] == flag && args[i + 1] == value
}

/// What ffmpeg is told of the frames, whatever the encoder: raw pixels in the order of the
/// screen, of the configured size and at the configured rate, through the pipe. Of the segments:
/// the configured bitrate, one whole frame and one file for each second, under the configured
/// name, which stands last.
pub proof fn law_settings_reach_the_encoder(encoder: Encoder, c: EncodeConfig)
    ensures
        ({
            let args = encode_args(encoder, c);
            &&& gives(args, "-f"@, "rawvideo"@)
            &&& gives(args, "-pixel_format"@, "bgra"@)
            &&& gives(
                args,
                "-video_size"@,
                decimal(c.width as nat) + seq!['x'] + decimal(c.height as nat),
            )
            &&& gives(args, "-framerate"@, decimal(c.fps as nat))
            &&& gives(args, "-i"@, "pipe:0"@)
            &&& gives(args, "-b:v"@, decimal(c.bitrate_mbps as nat) + seq!['M'])
            &&& gives(args, "-g"@, decimal(c.fps as nat))
            &&& gives(args, "-f"@, "segment"@)
            &&& gives(args, "-segment_time"@, "1"@)
            &&& gives(args, "-segment_format"@, "mpegts"@)
            &&& args.last() == c.segment_pattern@
        }),
{
    let args = encode_args(encoder, c);
    let n = args.len() as int;
    assert(args[0] == "-f"@ && args[1] == "rawvideo"@);
    assert(args[2] == "-pixel_format"@ && args[3] == "bgra"@);
    assert(args[5] =~= decimal(c.width as nat) + seq!['x'] + decimal(c.height as nat));
    assert(args[4] == "-video_size"@);
    assert(args[6] == "-framerate"@ && args[7] == decimal(c.fps as nat));
    assert(args[8] == "-i"@ && args[9] == "pipe:0"@);
    assert(args[n - 10] =~= decimal(c.bitrate_mbps as nat) + seq!['M']);
    assert(args[n - 11] == "-b:v"@);
    assert(args[n - 9] == "-g"@ && args[n - 8] == decimal(c.fps as nat));
    assert(args[n - 7] == "-f"@ && args[n - 6] == "segment"@);
    assert(args[n - 5] == "-segment_time"@ && args[n - 4] == "1"@);
    assert(args[n - 3] == "-segment_format"@ && args[n - 2] == "mpegts"@);
}

/// The hardware encoder is told its preset, more surfaces above sixty frames in a second than up
/// to there, four frames to look ahead and no frames between; the software encoder its preset
/// only. Nothing else is told to either.
pub proof fn law_encoders_are_told_their_own(c: EncodeConfig)
    ensures
        ({
            let args = encode_args(Encoder::Nvenc, c);
            &&& args.len() == 31
            &&& gives(args, "-c:v"@, "h264_nvenc"@)
            &&& gives(args, "-preset"@, "p4"@)
            &&& gives(
                args,
                "-surfaces"@,
                if c.fps <= 60 {
                    seq!['1', '2']
                } else {
                    seq!['1', '6']
                },
            )
            &&& gives(args, "-rc-lookahead"@, seq!['4'])
            &&& gives(args, "-bf"@, "0"@)
        }),
        ({
            let args = encode_args(Encoder::Software, c);
            &&& args.len() == 25
            &&& gives(args, "-c:v"@, "libx264"@)
            &&& gives(args, "-preset"@, "ultrafast"@)
        }),
{
    let args = encode_args(Encoder::Nvenc, c);
    reveal_with_fuel(crate::text::digits, 3);
    assert(args[10] == "-c:v"@ && args[11] == "h264_nvenc"@);
    assert(args[12] == "-preset"@ && args[13] == "p4"@);
    assert(args[14] == "-surfaces"@);
    assert(args[15] =~= if c.fps <= 60 {
        seq!['1', '2']
    } else {
        seq!['1', '6']
    });
    assert(args[16] == "-rc-lookahead"@);
    assert(args[17] =~= seq!['4']);
    assert(args[18] == "-bf"@ && args[19] == "0"@);
    let soft = encode_args(Encoder::Software, c);
    assert(soft[10] == "-c:v"@ && soft[11] == "libx264"@);
    assert(soft[12] == "-preset"@ && soft[13] == "ultrafast"@);
}

/// Two sizes that are written alike are the same size.
proof fn lemma_sizes_differ(w1: u32, h1: u32, w2: u32, h2: u32)
    requires
        size_text(w1, h1) == size_text(w2, h2),
    ensures
        w1 == w2,
        h1 == h2,
{
    let (a1, b1) = (decimal(w1 as nat), decimal(h1 as nat));
    let (a2, b2) = (decimal(w2 as nat), decimal(h2 as nat));
    lemma_decimal(w1 as nat);
    lemma_decimal(h1 as nat);
    lemma_decimal(w2 as nat);
    lemma_decimal(h2 as nat);
    let s = size_text(w1, h1);
    assert(s[a1.len() as int] == 'x');
    assert(s[a2.len() as int] == 'x');
    if a1.len() < a2.len() {
        assert(is_digit(a2[a1.len() as int]));
        assert(s[a1.len() as int] == a2[a1.len() as int]);
    }
    if a2.len() < a1.len() {
        assert(is_digit(a1[a2.len() as int]));
        assert(s[a2.len() as int] == a1[a2.len() as int]);
    }
    assert(s.take(a1.len() as int) =~= a1);
    assert(s.take(a2.len() as int) =~= a2);
    assert(s.skip(a1.len() as int + 1) =~= b1);
    assert(s.skip(a2.len() as int + 1) =~= b2);
}

/// All settings can be read back from the arguments: no two configurations that differ in one
/// are encoded alike.
pub proof fn law_each_setting_counts(encoder: Encoder, a: EncodeConfig, b: EncodeConfig)
    requires
        encode_args(encoder, a) == encode_args(encoder, b),
    ensures
        a.width == b.width,
        a.height == b.height,
        a.fps == b.fps,
        a.bitrate_mbps == b.bitrate_mbps,
        a.segment_pattern@ == b.segment_pattern@,
{
    let (x, y) = (encode_args(encoder, a), encode_args(encoder, b));
    let n = x.len() as int;
    assert(x[5] == size_text(a.width, a.height));
    assert(y[5] == size_text(b.width, b.height));
    lemma_sizes_differ(a.width, a.height, b.width, b.height);
    assert(x[7] == decimal(a.fps as nat) && y[7] == decimal(b.fps as nat));
    lemma_decimal(a.fps as nat);
    lemma_decimal(b.fps as nat);
    let (r, q) = (decimal(a.bitrate_mbps as nat), decimal(b.bitrate_mbps as nat));
    assert(x[n - 10] == r.push('M') && y[n - 10] == q.push('M'));
    assert(r.push('M').drop_last() =~= r);
    assert(q.push('M').drop_last() =~= q);
    lemma_decimal(a.bitrate_mbps as nat);
    lemma_decimal(b.bitrate_mbps as nat);
    assert(x[n - 1] == a.segment_pattern@ && y[n - 1] == b.segment_pattern@);
}

/// While frames come and are taken or dropped, the encoder goes on; when they end, it stops; and
/// whatever was running, the hardware encoder is tried when a restart is asked for.
pub proof fn law_encoder_goes_on_while_frames_come(running: Encoder, outcome: WriteOutcome)
    ensures
        outcome != WriteOutcome::Closed ==> step_after(running, EncodeEvent::Frame(outcome))
            == EncodeStep::GoOn,
        step_after(running, EncodeEvent::FramesEnded) == EncodeStep::Stop,
        step_after(running, EncodeEvent::RestartAsked) == EncodeStep::Restart(Encoder::Nvenc),
        fallback_of(Encoder::Software) is None,
{
}

/// A line is only about progress where it begins with the word for it, whatever follows.
pub proof fn law_progress_begins_with_its_word(line: Seq<char>, rest: Seq<char>)
    ensures
        is_progress(seq!['f', 'r', 'a', 'm', 'e', '='] + rest),
        is_progress(line) ==> line.len() >= 6 && line[0] == 'f' && line[1] == 'r' && line[2] == 'a'
            && line[3] == 'm' && line[4] == 'e' && line[5] == '=',
{
    reveal_strlit("frame=");
    let word = seq!['f', 'r', 'a', 'm', 'e', '='];
    assert("frame="@ =~= word);
    assert((word + rest).take(6) =~= word);
    if is_progress(line) {
        let t = line.take(6);
        assert(t[0] == line[0] && t[1] == line[1] && t[2] == line[2] && t[3] == line[3] && t[4]
            == line[4] && t[5] == line[5]);
    }
}

} // verus!
