use glimpse::audio::AudioFormat;
use glimpse::audio_ring::{AudioChunk, AudioRing};
use glimpse::clock::Instant;
use glimpse::mux::{
    audio_window, clip_filename, clip_track, concat_list, plan_clip, LocalTime, SaveConfig,
    SaveError,
};

const S: u64 = 1_000_000_000;

fn at(nanos: u64) -> Instant {
    Instant { nanos }
}

fn format() -> AudioFormat {
    AudioFormat {
        sample_rate: 1000,
        channels: 2,
        bits_per_sample: 16,
        block_align: 4,
        is_float: false,
    }
}

fn config(audio_fmt: Option<AudioFormat>, mic_fmt: Option<AudioFormat>) -> SaveConfig {
    SaveConfig {
        clips_dir: "C:\\clips".to_string(),
        ffmpeg_path: "ffmpeg.exe".to_string(),
        clip_secs: 30,
        fps: 50,
        audio_fmt,
        mic_fmt,
    }
}

fn segments() -> Vec<String> {
    vec!["C:\\seg\\a.ts".to_string(), "C:\\seg\\b.ts".to_string()]
}

fn time() -> LocalTime {
    LocalTime { year: 2024, month: 5, day: 1, hour: 9, minute: 30, second: 7 }
}

#[test]
fn clips_are_named_after_their_time() {
    assert_eq!(clip_filename(&time()), "clip_2024-05-01_09-30-07.mp4");
    let late = LocalTime { year: 33, month: 12, day: 31, hour: 23, minute: 59, second: 60 };
    assert_eq!(clip_filename(&late), "clip_0033-12-31_23-59-60.mp4");
}

#[test]
fn clips_of_different_seconds_have_different_names() {
    let mut t = time();
    t.second = 8;
    assert_ne!(clip_filename(&t), clip_filename(&time()));
}

#[test]
fn the_sound_ends_two_frames_before_the_newest_segment_was_written() {
    // The segment was written four seconds ago.
    let (start, end) = audio_window(Some(96), 4_000_000_096, at(100 * S), 50, 30);
    assert_eq!(end, at(96 * S - 40_000_000));
    assert_eq!(start, at(66 * S - 40_000_000));
}

#[test]
fn the_sound_lasts_as_long_as_the_video_and_ends_in_the_past() {
    for n in [0usize, 1, 30, 120] {
        let (start, end) = audio_window(Some(0), 2_500_000_000, at(500 * S), 60, n);
        assert_eq!(end.nanos - start.nanos, n as u64 * S);
        assert!(end.nanos <= 500 * S);
    }
}

#[test]
fn where_the_segment_does_not_tell_the_end_is_guessed() {
    for newest in [None, Some(11), Some(i64::MIN)] {
        let (start, end) = audio_window(newest, 10, at(100 * S), 1, 2);
        assert_eq!(end, at(95 * S));
        assert_eq!(start, at(93 * S));
    }
    // The delay of two frames goes back beyond the clock's origin.
    let (start, end) = audio_window(Some(0), 3_000_000_000, at(4 * S), 1, 1);
    assert_eq!(end, at(S));
    assert_eq!(start, at(0));
}

#[test]
fn sound_that_would_begin_before_the_clock_is_left_out() {
    let (start, end) = audio_window(None, 0, at(10 * S), 50, 8);
    assert_eq!(end, at(6_960_000_000));
    assert_eq!(start, end);
}

#[test]
fn a_frame_rate_of_nought_counts_as_one() {
    assert_eq!(
        audio_window(None, 0, at(100 * S), 0, 1),
        audio_window(None, 0, at(100 * S), 1, 1)
    );
}

#[test]
fn a_track_lasts_as_long_as_the_video() {
    let mut ring = AudioRing::new();
    ring.push(
        AudioChunk { data: vec![7; 8000], num_frames: 2000, captured_at: at(52 * S) },
        30,
        at(60 * S),
    );
    let t = clip_track(&ring, Some(format()), at(51 * S), at(53 * S), 2).unwrap();
    assert_eq!(t.len(), 8000);
    assert_eq!(t[..4000], vec![7; 4000]);
    assert_eq!(t[4000..], vec![0; 4000]);
    // No more than the video lasts.
    let t = clip_track(&ring, Some(format()), at(51 * S), at(53 * S), 1).unwrap();
    assert_eq!(t, vec![7; 4000]);
    assert!(clip_track(&ring, Some(format()), at(51 * S), at(51 * S), 1).is_none());
    // Where the window is empty, no format is too large.
    let large = AudioFormat { sample_rate: u32::MAX, block_align: u16::MAX, ..format() };
    assert!(clip_track(&ring, Some(large), at(S), at(S), usize::MAX).is_none());
    assert!(clip_track(&ring, None, at(51 * S), at(53 * S), 2).is_none());
}

#[test]
fn a_clip_misses_no_sound_within_the_spare_seconds() {
    let mut ring = AudioRing::new();
    let mut all = AudioRing::new();
    for s in 20..=80u64 {
        let chunk = || AudioChunk { data: vec![s as u8; 4000], num_frames: 1000, captured_at: at(s * S) };
        ring.push(chunk(), 10, at(s * S));
        all.push(chunk(), 1000, at(1008 * S));
    }
    // Written seven seconds ago, and two frames more at fifty a second.
    let (start, end) = audio_window(Some(0), 7_000_000_000, at(80 * S), 50, 10);
    assert!(end.nanos >= 72 * S);
    assert_eq!(
        clip_track(&ring, Some(format()), start, end, 10),
        clip_track(&all, Some(format()), start, end, 10)
    );
}

#[test]
fn segments_are_listed_with_slashes() {
    assert_eq!(
        concat_list(&segments()),
        "ffconcat version 1.0\nfile 'C:/seg/a.ts'\nfile 'C:/seg/b.ts'\n"
    );
    assert_eq!(concat_list(&vec![]), "ffconcat version 1.0\n");
}

#[test]
fn there_is_no_clip_without_segments() {
    let ring = AudioRing::new();
    let c = config(Some(format()), None);
    match plan_clip(&c, &vec![], None, 0, at(100 * S), &ring, &ring) {
        Err(e) => {
            assert_eq!(e, SaveError::NoSegments);
            assert_eq!(
                e.message(),
                "no video segments buffered — wait a moment and try again"
            );
        }
        Ok(_) => panic!("a clip of nothing"),
    }
}

#[test]
fn a_clip_of_video_alone_has_its_arguments() {
    let ring = AudioRing::new();
    let c = config(None, None);
    let plan = plan_clip(&c, &segments(), None, 0, at(100 * S), &ring, &ring).ok().unwrap();
    assert!(plan.desktop.is_none() && plan.mic.is_none());
    assert_eq!(
        plan.ffmpeg_args(&c, "list.txt", "a.raw", "m.raw", "out.mp4").join(" "),
        "-y -f concat -safe 0 -i list.txt -vf setpts=PTS-STARTPTS -c:v libx264 \
         -preset ultrafast -crf 18 -movflags +faststart out.mp4"
    );
}

#[test]
fn a_clip_with_one_track_has_its_arguments() {
    let ring = AudioRing::new();
    let c = config(None, Some(format()));
    let plan = plan_clip(&c, &segments(), None, 0, at(100 * S), &ring, &ring).ok().unwrap();
    assert!(plan.desktop.is_none());
    assert_eq!(plan.mic, Some(vec![0; 8000]));
    assert_eq!(
        plan.ffmpeg_args(&c, "list.txt", "a.raw", "m.raw", "out.mp4").join(" "),
        "-y -f concat -safe 0 -i list.txt -f s16le -ar 1000 -ac 2 -i m.raw \
         -vf setpts=PTS-STARTPTS -c:v libx264 -preset ultrafast -crf 18 -c:a aac -b:a 192k \
         -movflags +faststart out.mp4"
    );
}

#[test]
fn a_clip_with_two_tracks_mixes_them() {
    let ring = AudioRing::new();
    let c = config(Some(format()), Some(format()));
    let plan = plan_clip(&c, &segments(), None, 0, at(100 * S), &ring, &ring).ok().unwrap();
    assert_eq!(plan.concat_list, concat_list(&segments()));
    assert_eq!(
        plan.ffmpeg_args(&c, "list.txt", "a.raw", "m.raw", "out.mp4").join(" "),
        "-y -f concat -safe 0 -i list.txt -f s16le -ar 1000 -ac 2 -i a.raw \
         -f s16le -ar 1000 -ac 2 -i m.raw -filter_complex \
         [0:v]setpts=PTS-STARTPTS[v];[1:a][2:a]amix=inputs=2:duration=first:dropout_transition=3:normalize=0[aout] \
         -map [v] -map [aout] -c:v libx264 -preset ultrafast -crf 18 -c:a aac -b:a 192k \
         -movflags +faststart out.mp4"
    );
}
