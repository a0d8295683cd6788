use wormhole::tunes::PlaybackTiming;

#[test]
fn test_playback_timing_elapsed() {
    let timing = PlaybackTiming::new(Some(120_000), 1_000);
    // just created: almost nothing has elapsed
    assert!(timing.elapsed(1_005) < 100);
}

#[test]
fn test_playback_timing_remaining() {
    let timing = PlaybackTiming::new(Some(120_000), 1_000);
    let remaining = timing.remaining(1_005).unwrap();
    // remaining stays close to the full two minutes
    assert!(remaining > 119_000);
    assert!(remaining <= 120_000);
}

#[test]
fn test_playback_timing_pause_resume() {
    let mut timing = PlaybackTiming::new(Some(120_000), 1_000);

    timing.pause(2_000);
    assert!(timing.pause_start.is_some());

    timing.resume(2_020);
    assert!(timing.pause_start.is_none());
    assert!(timing.paused_ms < 100);
}

#[test]
fn paused_time_does_not_count_as_elapsed() {
    let mut timing = PlaybackTiming::new(Some(10_000), 0);
    timing.pause(1_000);
    // while paused, elapsed stays at the pause point
    assert_eq!(timing.elapsed(5_000), 1_000);
    timing.resume(5_000);
    // after resuming, only the played time counts
    assert_eq!(timing.elapsed(6_000), 2_000);
    assert_eq!(timing.remaining(6_000), Some(8_000));
}

#[test]
fn remaining_is_none_without_a_duration() {
    let timing = PlaybackTiming::new(None, 0);
    assert_eq!(timing.remaining(50), None);
}

#[test]
fn remaining_saturates_at_zero() {
    let timing = PlaybackTiming::new(Some(100), 0);
    assert_eq!(timing.remaining(5_000), Some(0));
}
