use alumet::config::{duration_from_parts, parse_duration, DurationError};
use alumet::time::Duration;

#[test]
fn durations_are_read_in_the_notation_of_spans_with_units() {
    assert_eq!(parse_duration("1s"), Ok(Duration::from_secs(1)));
    assert_eq!(parse_duration("500ms"), Ok(Duration::from_nanos(500_000_000)));
    assert_eq!(parse_duration("2h 37min"), Ok(Duration::from_secs(9420)));
    assert_eq!(parse_duration("4.2s"), Ok(Duration::from_nanos(4_200_000_000)));
    assert_eq!(parse_duration("0"), Ok(Duration::zero()));
    assert_eq!(parse_duration("2h 37min 10s"), Ok(Duration::from_secs(9430)));
    assert_eq!(parse_duration("15µs"), Ok(Duration::from_nanos(15_000)));
}

#[test]
fn what_is_not_a_duration_is_refused() {
    assert_eq!(parse_duration(""), Err(DurationError::Invalid));
    assert_eq!(parse_duration("1"), Err(DurationError::Invalid));
    assert_eq!(parse_duration("s"), Err(DurationError::Invalid));
    assert_eq!(parse_duration("1 parsec"), Err(DurationError::Invalid));
    assert_eq!(parse_duration("-1s"), Err(DurationError::Invalid));
    assert_eq!(parse_duration("99999999999y"), Err(DurationError::DurationTooLong));
    assert_eq!(parse_duration("1 h 30 min 5 s"), Err(DurationError::TextTooLong));
    assert_eq!(parse_duration("1000000000000s"), Err(DurationError::TextTooLong));
}

#[test]
fn the_parts_of_a_duration_are_put_together() {
    assert_eq!(duration_from_parts(None), Err(DurationError::Invalid));
    assert_eq!(duration_from_parts(Some((0, 0))), Ok(Duration::zero()));
    assert_eq!(duration_from_parts(Some((2, 5))), Ok(Duration::from_nanos(2_000_000_005)));
    assert_eq!(
        duration_from_parts(Some((18_446_744_073, 709_551_615))),
        Ok(Duration::from_nanos(u64::MAX))
    );
    assert_eq!(duration_from_parts(Some((18_446_744_073, 709_551_616))), Err(DurationError::DurationTooLong));
    assert_eq!(duration_from_parts(Some((u64::MAX, 0))), Err(DurationError::DurationTooLong));
}
