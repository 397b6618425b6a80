use axis_transpose::error::PipelineError;
use axis_transpose::rational::Rational;
use axis_transpose::timestamp::{pts_increment, Timestamp, TimestampSequence};

#[test]
fn rational_keeps_the_pair() {
    let r = Rational::new(30000, 1001);
    assert_eq!(r.numerator(), 30000);
    assert_eq!(r.denominator(), 1001);
    assert_eq!(r, Rational { num: 30000, den: 1001 });
}

#[test]
fn rational_inverse_swaps_the_pair() {
    assert_eq!(Rational::new(30000, 1001).inverse(), Rational::new(1001, 30000));
    assert_eq!(Rational::new(0, 1).inverse(), Rational::new(1, 0));
}

#[test]
fn increment_for_ntsc_rate_in_its_own_ticks() {
    let fps = Rational::new(30000, 1001);
    let time_base = Rational::new(1, 30000);
    assert_eq!(pts_increment(fps, time_base), Ok(1001));
}

#[test]
fn first_three_packets_at_ntsc_rate() {
    let increment = pts_increment(Rational::new(30000, 1001), Rational::new(1, 30000)).unwrap();
    let mut clock = TimestampSequence::new(increment);
    assert_eq!(clock.stamp(), Timestamp { pts: 0, dts: 0 });
    assert_eq!(clock.stamp(), Timestamp { pts: 1001, dts: 1001 });
    assert_eq!(clock.stamp(), Timestamp { pts: 2002, dts: 2002 });
}

#[test]
fn increment_uses_the_negotiated_time_base() {
    // 25 frames per second in the 1/12800 time base that a muxer may settle on.
    assert_eq!(pts_increment(Rational::new(25, 1), Rational::new(1, 12800)), Ok(512));
    // The same rate in a 1/90000 time base.
    assert_eq!(pts_increment(Rational::new(25, 1), Rational::new(1, 90000)), Ok(3600));
}

#[test]
fn increment_ignores_the_numerator_of_the_time_base() {
    assert_eq!(pts_increment(Rational::new(25, 1), Rational::new(7, 12800)), Ok(512));
}

#[test]
fn increment_rounds_toward_zero() {
    assert_eq!(pts_increment(Rational::new(30, 1), Rational::new(1, 1000)), Ok(33));
    assert_eq!(pts_increment(Rational::new(-30, 1), Rational::new(1, 1000)), Ok(-33));
    assert_eq!(pts_increment(Rational::new(30, -1), Rational::new(1, 1000)), Ok(-33));
    assert_eq!(pts_increment(Rational::new(-30, -1), Rational::new(1, 1000)), Ok(33));
    assert_eq!(pts_increment(Rational::new(30, 1), Rational::new(1, -1000)), Ok(-33));
}

#[test]
fn increment_is_zero_when_a_frame_is_shorter_than_a_tick() {
    assert_eq!(pts_increment(Rational::new(60, 1), Rational::new(1, 30)), Ok(0));
}

#[test]
fn increment_at_the_limits_of_the_inputs() {
    assert_eq!(
        pts_increment(Rational::new(1, i32::MIN), Rational::new(1, i32::MIN)),
        Ok(1i64 << 62)
    );
    assert_eq!(
        pts_increment(Rational::new(-1, i32::MIN), Rational::new(1, i32::MIN)),
        Ok(-(1i64 << 62))
    );
    assert_eq!(
        pts_increment(Rational::new(i32::MAX, i32::MAX), Rational::new(1, i32::MAX)),
        Ok(i32::MAX as i64)
    );
}

#[test]
fn zero_frame_rate_is_an_error() {
    assert_eq!(
        pts_increment(Rational::new(0, 1), Rational::new(1, 30000)),
        Err(PipelineError::ZeroFrameRate)
    );
    assert_eq!(
        pts_increment(Rational::new(0, 0), Rational::new(0, 0)),
        Err(PipelineError::ZeroFrameRate)
    );
}

#[test]
fn fresh_sequence_starts_at_zero() {
    let clock = TimestampSequence::new(512);
    assert_eq!(clock.current_pts(), 0);
    assert_eq!(clock.increment(), 512);
    assert!(clock.can_advance());
}

#[test]
fn timestamps_rise_by_exactly_one_increment() {
    let mut clock = TimestampSequence::new(3600);
    let mut previous = clock.stamp();
    assert_eq!(previous.pts, 0);
    for n in 1..50i64 {
        let stamp = clock.stamp();
        assert_eq!(stamp.pts, n * 3600);
        assert_eq!(stamp.dts, stamp.pts);
        assert_eq!(stamp.pts - previous.pts, 3600);
        assert!(stamp.pts > previous.pts);
        previous = stamp;
    }
    assert_eq!(clock.current_pts(), 50 * 3600);
}

#[test]
fn zero_increment_repeats_the_timestamp() {
    let mut clock = TimestampSequence::new(0);
    assert_eq!(clock.stamp(), Timestamp { pts: 0, dts: 0 });
    assert_eq!(clock.stamp(), Timestamp { pts: 0, dts: 0 });
}

#[test]
fn negative_increment_counts_down() {
    let mut clock = TimestampSequence::new(-7);
    assert_eq!(clock.stamp(), Timestamp { pts: 0, dts: 0 });
    assert_eq!(clock.stamp(), Timestamp { pts: -7, dts: -7 });
    assert_eq!(clock.current_pts(), -14);
}

#[test]
fn sequence_stops_before_leaving_64_bits() {
    let mut clock = TimestampSequence::new(i64::MAX);
    assert!(clock.can_advance());
    assert_eq!(clock.stamp(), Timestamp { pts: 0, dts: 0 });
    assert_eq!(clock.current_pts(), i64::MAX);
    assert!(!clock.can_advance());
}
