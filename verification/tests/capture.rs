use glimpse::capture::{
    copy_rows, map_outcome, restart_delay_secs, CaptureConfig, CaptureState, CaptureStep,
    MapOutcome, DXGI_ERROR_WAS_STILL_DRAWING, E_ACCESS_LOST, E_WAIT_TIMEOUT,
};
use glimpse::clock::Instant;

fn at(nanos: u64) -> Instant {
    Instant { nanos }
}

fn config(fps: u32) -> CaptureConfig {
    CaptureConfig { monitor_index: 1, fps }
}

#[test]
fn error_codes_are_those_of_dxgi() {
    assert_eq!(E_WAIT_TIMEOUT, 0x887A0027u32 as i32);
    assert_eq!(E_ACCESS_LOST, 0x887A0026u32 as i32);
    assert_eq!(DXGI_ERROR_WAS_STILL_DRAWING, 0x887A000Au32 as i32);
}

#[test]
fn the_frame_interval_follows_the_frame_rate() {
    assert_eq!(config(60).frame_interval(), 16_666_667);
    assert_eq!(config(60).timeout_ms(), 16);
    assert_eq!(config(30).frame_interval(), 33_333_333);
    assert_eq!(config(30).timeout_ms(), 33);
    assert_eq!(config(1).timeout_ms(), 1000);
    assert_eq!(config(0).frame_interval(), 1_000_000_000);
}

#[test]
fn another_monitor_starts_the_capture_anew_at_once() {
    assert!(!config(30).monitor_changed(1));
    assert!(config(30).monitor_changed(0));
    assert_eq!(restart_delay_secs(true), 0);
    assert_eq!(restart_delay_secs(false), 2);
}

#[test]
fn a_texture_can_be_ready_or_not() {
    assert_eq!(map_outcome(None), MapOutcome::Ready);
    assert_eq!(map_outcome(Some(DXGI_ERROR_WAS_STILL_DRAWING)), MapOutcome::StillDrawing);
    assert_eq!(map_outcome(Some(E_ACCESS_LOST)), MapOutcome::Failed);
}

#[test]
fn rows_are_packed() {
    let src: Vec<u8> = (0..24).collect();
    assert_eq!(
        copy_rows(&src, 2, 2, 12),
        vec![0, 1, 2, 3, 4, 5, 6, 7, 12, 13, 14, 15, 16, 17, 18, 19]
    );
    assert_eq!(copy_rows(&src, 3, 2, 12), src);
    assert!(copy_rows(&src, 0, 2, 0).is_empty());
    assert!(copy_rows(&src, 2, 0, 0).is_empty());
}

#[test]
fn a_frame_that_comes_too_early_is_released() {
    let mut s = CaptureState::new(at(1000));
    assert!(matches!(s.on_acquire(None, at(1009), 10), CaptureStep::Release));
    assert!(!s.has_pending);
    assert_eq!(s.last_send, at(1000));
}

#[test]
fn frames_go_through_two_textures_in_turn() {
    let mut s = CaptureState::new(at(1000));
    assert!(matches!(s.on_acquire(None, at(1010), 10), CaptureStep::Prime { texture: 0 }));
    assert_eq!(s.staging_idx, 1);
    assert_eq!(s.last_send, at(1000));
    assert!(matches!(s.on_acquire(None, at(1011), 10), CaptureStep::Read { texture: 0 }));
    let (texture, frame) = s.on_pixels(vec![1, 2, 3, 4], 10);
    assert_eq!(texture, 1);
    assert_eq!(*frame.data, vec![1, 2, 3, 4]);
    assert_eq!(s.last_send, at(1010));
    assert!(matches!(s.on_acquire(None, at(1020), 10), CaptureStep::Read { texture: 1 }));
    let (texture, frame) = s.on_pixels(vec![5], 10);
    assert_eq!(texture, 0);
    assert_eq!(*frame.data, vec![5]);
    assert_eq!(s.last_send, at(1020));
}

#[test]
fn a_texture_that_is_not_ready_is_tried_again() {
    let mut s = CaptureState::new(at(0));
    s.on_acquire(None, at(10), 10);
    assert!(matches!(s.on_acquire(None, at(10), 10), CaptureStep::Read { texture: 0 }));
    let (texture, frame) = s.on_still_drawing(10);
    assert_eq!(texture, 1);
    assert!(frame.is_none());
    assert_eq!(s.last_send, at(0));
    assert!(matches!(s.on_acquire(None, at(11), 10), CaptureStep::Read { texture: 0 }));
    s.on_pixels(vec![7], 10);
    assert!(matches!(s.on_acquire(None, at(20), 10), CaptureStep::Read { texture: 1 }));
    let (texture, frame) = s.on_still_drawing(10);
    assert_eq!(texture, 0);
    assert_eq!(*frame.unwrap().data, vec![7]);
    assert_eq!(s.last_send, at(20));
}

#[test]
fn the_last_frame_is_repeated_when_none_comes() {
    let mut s = CaptureState::new(at(0));
    assert!(matches!(s.on_acquire(Some(E_WAIT_TIMEOUT), at(50), 10), CaptureStep::Wait));
    assert_eq!(s.last_send, at(0));
    s.on_acquire(None, at(50), 10);
    s.on_acquire(None, at(50), 10);
    s.on_pixels(vec![9], 10);
    match s.on_acquire(Some(E_WAIT_TIMEOUT), at(50), 10) {
        CaptureStep::Repeat(f) => assert_eq!(*f.data, vec![9]),
        _ => panic!("no frame"),
    }
    assert_eq!(s.last_send, at(20));
    assert!(matches!(s.on_acquire(Some(E_WAIT_TIMEOUT), at(29), 10), CaptureStep::Wait));
}

#[test]
fn failures_start_the_capture_over() {
    let mut s = CaptureState::new(at(0));
    assert!(matches!(s.on_acquire(Some(E_ACCESS_LOST), at(50), 10), CaptureStep::AccessLost));
    assert!(matches!(s.on_acquire(Some(-1), at(50), 10), CaptureStep::Failed));
}

#[test]
fn no_more_frames_are_sent_than_the_frame_rate_allows() {
    let interval = config(60).frame_interval();
    let mut s = CaptureState::new(at(0));
    s.on_acquire(None, at(interval), interval);
    let mut sent = 0u64;
    for ms in 17..=3000u64 {
        let now = ms * 1_000_000;
        if matches!(s.on_acquire(None, at(now), interval), CaptureStep::Read { .. }) {
            s.on_pixels(vec![], interval);
            sent += 1;
        }
        assert!(sent * interval <= now);
    }
    assert_eq!(sent, 179);
}
