use glimpse::clock::{ticks_nanos, Instant};
use std::time::Duration;

#[test]
fn ticks_are_rounded_to_the_nearest_nanosecond() {
    assert_eq!(ticks_nanos(1, 1), 1_000_000_000);
    assert_eq!(ticks_nanos(1, 3), 333_333_333);
    assert_eq!(ticks_nanos(2, 3), 666_666_667);
    assert_eq!(ticks_nanos(480, 48_000), 10_000_000);
    assert_eq!(ticks_nanos(0, 7), 0);
    assert_eq!(ticks_nanos(1, 2_000_000_000), 0);
    assert_eq!(ticks_nanos(3, 2_000_000_000), 2);
}

#[test]
fn ticks_are_as_long_as_the_standard_library_has_them() {
    for rate in 1..=240u32 {
        for count in [1u32, 2] {
            let d = Duration::from_secs_f64(count as f64 / rate as f64);
            assert_eq!(ticks_nanos(count, rate) as u128, d.as_nanos());
        }
    }
    for rate in [8_000u32, 11_025, 16_000, 22_050, 44_100, 48_000, 88_200, 96_000, 192_000] {
        for count in 0..5_000u32 {
            let d = Duration::from_secs_f64(count as f64 / rate as f64);
            assert_eq!(ticks_nanos(count, rate) as u128, d.as_nanos(), "{count}/{rate}");
        }
    }
}

#[test]
fn time_does_not_run_backwards() {
    let a = Instant { nanos: 5 };
    let b = Instant { nanos: 8 };
    assert_eq!(b.duration_since(a), 3);
    assert_eq!(a.duration_since(b), 0);
    assert_eq!(b.checked_sub(8), Some(Instant { nanos: 0 }));
    assert_eq!(b.checked_sub(9), None);
}
