use glimpse::audio::{
    is_float_format, is_silent, AudioFormat, PacketClock, WAVE_FORMAT_EXTENSIBLE,
    WAVE_FORMAT_IEEE_FLOAT, WAVE_FORMAT_PCM,
};
use glimpse::clock::Instant;

fn format(is_float: bool, bits_per_sample: u16) -> AudioFormat {
    AudioFormat { sample_rate: 48_000, channels: 2, bits_per_sample, block_align: 8, is_float }
}

fn at(nanos: u64) -> Instant {
    Instant { nanos }
}

#[test]
fn sample_formats_have_names() {
    assert_eq!(format(true, 32).ffmpeg_format(), "f32le");
    assert_eq!(format(false, 16).ffmpeg_format(), "s16le");
    assert_eq!(format(false, 32).ffmpeg_format(), "s32le");
    assert_eq!(format(true, 16).ffmpeg_format(), "f32le");
    assert_eq!(format(false, 24).ffmpeg_format(), "f32le");
}

#[test]
fn headers_tell_the_sample_format() {
    assert!(is_float_format(WAVE_FORMAT_IEEE_FLOAT, &vec![]));
    assert!(!is_float_format(WAVE_FORMAT_PCM, &vec![]));
    assert!(is_float_format(0x55, &vec![]));
    let mut header = vec![0u8; 40];
    header[24] = 3;
    assert!(is_float_format(WAVE_FORMAT_EXTENSIBLE, &header));
    header[24] = 1;
    assert!(!is_float_format(WAVE_FORMAT_EXTENSIBLE, &header));
    header[24] = 3;
    header[25] = 1;
    assert!(!is_float_format(WAVE_FORMAT_EXTENSIBLE, &header));
}

#[test]
fn silent_packets_are_flagged() {
    assert!(is_silent(2));
    assert!(is_silent(7));
    assert!(!is_silent(5));
}

#[test]
fn packets_follow_one_another() {
    let f = format(true, 32);
    let mut clock = PacketClock::new(at(1_000_000_000));
    let c = clock.on_packet(&f, 480, 0, vec![1; 480 * 8], at(1_012_000_000));
    assert_eq!(c.captured_at, at(1_010_000_000));
    assert_eq!(c.num_frames, 480);
    assert_eq!(c.data, vec![1; 480 * 8]);
    let c = clock.on_packet(&f, 960, 0, vec![2; 960 * 8], at(1_060_000_000));
    assert_eq!(c.captured_at, at(1_030_000_000));
}

#[test]
fn packets_that_lag_are_set_to_the_clock() {
    let f = format(true, 32);
    let mut clock = PacketClock::new(at(1_000_000_000));
    let c = clock.on_packet(&f, 480, 0, vec![], at(1_050_000_001));
    assert_eq!(c.captured_at, at(1_050_000_001));
    assert_eq!(clock.next_chunk_end, at(1_050_000_001));
}

#[test]
fn a_silent_packet_is_filled_with_zeros() {
    let f = format(true, 32);
    let mut clock = PacketClock::new(at(1_000_000_000));
    let c = clock.on_packet(&f, 3, 2, vec![9; 24], at(1_000_000_000));
    assert_eq!(c.data, vec![0; 24]);
}
