use glimpse::audio_ring::{AudioChunk, AudioRing};
use glimpse::clock::Instant;

const MS: u64 = 1_000_000;
const S: u64 = 1_000_000_000;

fn at(nanos: u64) -> Instant {
    Instant { nanos }
}

/// A chunk of one-millisecond frames of two bytes each that ends at `end` milliseconds.
fn chunk(first: u8, frames: u32, end: u64) -> AudioChunk {
    let data = (0..frames * 2).map(|i| first + i as u8).collect();
    AudioChunk { data, num_frames: frames, captured_at: at(end * MS) }
}

fn ring(chunks: Vec<AudioChunk>) -> AudioRing {
    let mut r = AudioRing::new();
    for c in chunks {
        r.push(c, 30, at(60 * S));
    }
    r
}

fn clip(r: &AudioRing, start: u64, end: u64) -> Vec<u8> {
    r.get_clip_data_for_range(at(start * MS), at(end * MS), 1000, 2)
}

#[test]
fn gaps_are_silent() {
    let r = ring(vec![chunk(1, 4, 50_006)]);
    assert_eq!(
        clip(&r, 50_000, 50_010),
        vec![0, 0, 0, 0, 1, 2, 3, 4, 5, 6, 7, 8, 0, 0, 0, 0, 0, 0, 0, 0]
    );
    assert_eq!(clip(&ring(vec![]), 50_000, 50_003), vec![0; 6]);
}

#[test]
fn a_chunk_is_cut_at_the_start() {
    let r = ring(vec![chunk(1, 4, 50_002)]);
    assert_eq!(clip(&r, 50_000, 50_004), vec![5, 6, 7, 8, 0, 0, 0, 0]);
}

#[test]
fn a_chunk_is_cut_at_the_end() {
    let r = ring(vec![chunk(1, 4, 50_006)]);
    assert_eq!(clip(&r, 50_000, 50_004), vec![0, 0, 0, 0, 1, 2, 3, 4]);
}

#[test]
fn chunks_outside_leave_no_trace() {
    let r = ring(vec![chunk(1, 4, 50_000), chunk(1, 4, 50_008)]);
    assert_eq!(clip(&r, 50_000, 50_004), vec![0; 8]);
}

#[test]
fn the_latest_chunk_is_heard() {
    let r = ring(vec![chunk(1, 4, 50_004), chunk(101, 2, 50_003)]);
    assert_eq!(clip(&r, 50_000, 50_004), vec![1, 2, 101, 102, 103, 104, 7, 8]);
}

#[test]
fn an_empty_stretch_has_no_sound() {
    let r = ring(vec![chunk(1, 4, 50_004)]);
    assert!(clip(&r, 50_004, 50_004).is_empty());
    assert!(clip(&r, 50_004, 50_000).is_empty());
}

#[test]
fn sound_is_made_of_whole_frames() {
    let r = ring(vec![]);
    let sound = r.get_clip_data_for_range(at(0), at(1_999_999), 1000, 4);
    assert_eq!(sound.len(), 4);
    let sound = r.get_clip_data_for_range(at(0), at(S / 3), 44_100, 6);
    assert_eq!(sound.len(), 14_699 * 6);
}

#[test]
fn whole_seconds_have_all_their_frames() {
    let r = ring(vec![]);
    let sound = r.get_clip_data_for_range(at(7), at(3 * S + 7), 44_100, 8);
    assert_eq!(sound.len(), 3 * 44_100 * 8);
}

#[test]
fn a_chunk_from_before_the_clock_is_left_out() {
    let mut r = AudioRing::new();
    r.push(AudioChunk { data: vec![1; 8], num_frames: 4, captured_at: at(3 * MS) }, 0, at(8 * S));
    assert_eq!(clip(&r, 0, 4), vec![0; 8]);
    r.push(AudioChunk { data: vec![2; 8], num_frames: 4, captured_at: at(4 * MS) }, 0, at(8 * S));
    assert_eq!(clip(&r, 0, 4), vec![2; 8]);
}

#[test]
fn aged_chunks_go_and_recent_ones_stay() {
    let mut r = AudioRing::new();
    // A clip of ten seconds, and eight to spare.
    r.push(chunk(1, 2, 50_000), 10, at(50 * S));
    r.push(chunk(11, 2, 50_010), 10, at(68 * S));
    assert_eq!(clip(&r, 49_998, 50_000), vec![1, 2, 3, 4]);
    r.push(chunk(21, 2, 50_020), 10, at(68 * S + 1));
    assert_eq!(clip(&r, 49_998, 50_000), vec![0; 4]);
    assert_eq!(clip(&r, 50_008, 50_010), vec![11, 12, 13, 14]);
    assert_eq!(clip(&r, 50_018, 50_020), vec![21, 22, 23, 24]);
}

#[test]
fn the_ring_misses_nothing_that_a_clip_needs() {
    let (mut r, mut all) = (AudioRing::new(), AudioRing::new());
    for i in 0..400u64 {
        let end = 30_000 + i * 100;
        r.push(chunk(i as u8 % 100, 50, end), 10, at(end * MS));
        all.push(chunk(i as u8 % 100, 50, end), 1000, at(1008 * S));
    }
    // The last push was at 69.9 s, so that the ring reaches back to 51.9 s.
    assert_eq!(clip(&r, 51_900, 70_000), clip(&all, 51_900, 70_000));
    assert_ne!(clip(&r, 51_000, 70_000), clip(&all, 51_000, 70_000));
}

#[test]
fn an_aged_chunk_behind_a_recent_one_stays() {
    let mut r = AudioRing::new();
    r.push(chunk(1, 2, 60_000), 10, at(60 * S));
    r.push(chunk(11, 2, 30_000), 10, at(60 * S));
    assert_eq!(clip(&r, 29_998, 30_000), vec![11, 12, 13, 14]);
}
