use flux::store::{instant_param, stored_instant, window_params, Instant, ViolationRecord};

const MAY_15_2015: Instant = Instant { secs: 1431648000, nanos: 0 };

#[test]
fn stored_text_reads_as_its_instant() {
    let now = Instant { secs: 7, nanos: 8 };
    assert_eq!(stored_instant("2015-05-15T00:00:00Z", now), MAY_15_2015);
    assert_eq!(stored_instant("2015-05-15T02:00:00.25+02:00", now), Instant { secs: 1431648000, nanos: 250_000_000 });
}

#[test]
fn unreadable_text_reads_as_now() {
    let now = Instant { secs: 7, nanos: 8 };
    assert_eq!(stored_instant("yesterday", now), now);
    assert_eq!(stored_instant("", now), now);
}

#[test]
fn instants_are_written_in_rfc3339() {
    assert_eq!(instant_param(MAY_15_2015).unwrap(), "2015-05-15T00:00:00+00:00");
    assert_eq!(instant_param(Instant { secs: i64::MAX, nanos: 0 }), None);
}

#[test]
fn violation_rows_round_trip_through_the_columns() {
    let rec = ViolationRecord {
        id: None,
        agent_id: "a1".to_string(),
        constraint_name: "temp".to_string(),
        severity: "critical".to_string(),
        observed_json: r#"{"t":150}"#.to_string(),
        threshold_json: r#"{"max":120}"#.to_string(),
        message: "Overheat".to_string(),
        timestamp: Instant { secs: 1431648000, nanos: 5000 },
    };
    let cols = rec.insert_params().unwrap();
    assert_eq!(cols.len(), 7);
    assert_eq!(cols[1], "temp");
    assert_eq!(cols[6], "2015-05-15T00:00:00.000005+00:00");
    let back = ViolationRecord::from_row(
        Some(3),
        cols[0].clone(),
        cols[1].clone(),
        cols[2].clone(),
        cols[3].clone(),
        cols[4].clone(),
        cols[5].clone(),
        &cols[6],
        Instant { secs: 0, nanos: 0 },
    );
    assert_eq!(back.id, Some(3));
    assert_eq!(back.constraint_name, "temp");
    assert_eq!(back.message, "Overheat");
    assert_eq!(back.timestamp, rec.timestamp);
}

#[test]
fn window_params_wrap_an_oversized_limit() {
    let (a, b, n) = window_params(MAY_15_2015, MAY_15_2015, 10).unwrap();
    assert_eq!(a, "2015-05-15T00:00:00+00:00");
    assert_eq!(a, b);
    assert_eq!(n, 10);
    let (_, _, n) = window_params(MAY_15_2015, MAY_15_2015, usize::MAX).unwrap();
    assert_eq!(n, -1);
    assert!(window_params(Instant { secs: i64::MIN, nanos: 0 }, MAY_15_2015, 1).is_none());
}

#[test]
fn timestamps_in_four_digit_years_read_back() {
    let now = Instant { secs: 0, nanos: 0 };
    for t in [
        Instant { secs: -62167219200, nanos: 0 },
        Instant { secs: 253402300799, nanos: 999_999_999 },
        Instant { secs: 1431648000, nanos: 123_456_789 },
        Instant { secs: 1483228799, nanos: 1_500_000_000 },
    ] {
        let text = instant_param(t).unwrap();
        assert_eq!(stored_instant(&text, now), t);
    }
    // a five-digit year is written with a sign, which the reader refuses
    let far = Instant { secs: 253402300800, nanos: 0 };
    let text = instant_param(far).unwrap();
    assert_eq!(stored_instant(&text, now), now);
}
