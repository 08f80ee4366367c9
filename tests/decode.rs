use babystats::quantity::parse_decimal;
use babystats::row::{measurement_from_capture, volume_from_capture};
use babystats::text::{chars_of, contains, ends_with, same_text};
use babystats::{
    decode_duration, decode_item, decode_rows, decode_timestamp, DecodeError, Decimal, Duration,
    Event, FeedingEvent, Milk, RawRow,
};

fn row(typ: &str, start: &str, end: &str, duration: &str, extra: &str, extra2: &str, note: &str) -> RawRow {
    RawRow {
        typ: typ.to_string(),
        start: start.to_string(),
        end: end.to_string(),
        duration: duration.to_string(),
        extra: extra.to_string(),
        extra2: extra2.to_string(),
        note: note.to_string(),
    }
}

fn chars(s: &str) -> Vec<char> {
    s.chars().collect()
}

#[test]
fn timestamp_reads_day_month_year_as_utc() {
    let t = decode_timestamp("01/02/2018 03:04").unwrap();
    assert_eq!(t.utc_secs, 1517454240);
    assert!(t.offset_secs > -86400 && t.offset_secs < 86400);
}

#[test]
fn timestamp_rejects_other_shapes() {
    assert_eq!(decode_timestamp("2018-02-01 03:04"), Err(DecodeError::MalformedTimestamp));
    assert_eq!(decode_timestamp(""), Err(DecodeError::MalformedTimestamp));
    assert_eq!(decode_timestamp("31/02/2018 03:04"), Err(DecodeError::MalformedTimestamp));
}

#[test]
fn duration_reads_hours_and_minutes() {
    assert_eq!(decode_duration(&chars("1:30")), Ok(Duration { millis: 90 * 60000 }));
    assert_eq!(decode_duration(&chars("0:00")), Ok(Duration { millis: 0 }));
    assert_eq!(decode_duration(&chars("125:07")), Ok(Duration { millis: (125 * 60 + 7) * 60000 }));
    assert_eq!(decode_duration(&chars("+1:30")), Ok(Duration { millis: 90 * 60000 }));
    assert_eq!(decode_duration(&chars("1:+30")), Ok(Duration { millis: 90 * 60000 }));
}

#[test]
fn duration_rejects_bad_shapes() {
    for bad in ["", "130", "1:2:3", ":30", "1:", "a:30", "1:-5", "-1:30", " 1:30", "+:30", "++1:30", "1:+"] {
        assert_eq!(decode_duration(&chars(bad)), Err(DecodeError::MalformedDuration), "{}", bad);
    }
    assert_eq!(decode_duration(&chars("99999999999999999999:00")), Err(DecodeError::MalformedDuration));
}

#[test]
fn duration_renders_zero_padded() {
    assert_eq!(Duration { millis: 90 * 60000 }.to_hhmm(), "01:30");
    assert_eq!(Duration { millis: 125 * 3600000 + 7 * 60000 }.to_hhmm(), "125:07");
    assert_eq!(Duration { millis: 3600000 + 2 * 60000 + 3 * 1000 + 999 }.to_hhmmss(), "01:02:03");
    assert_eq!(Duration { millis: 0 }.to_hhmmss(), "00:00:00");
}

#[test]
fn duration_round_trips_through_hhmm() {
    for text in ["1:30", "0:05", "007:59", "48:120", "0:0"] {
        let d = decode_duration(&chars(text)).unwrap();
        let again = decode_duration(&chars(&d.to_hhmm())).unwrap();
        assert_eq!(again.num_minutes(), d.num_minutes(), "{}", text);
    }
}

#[test]
fn decimals_parse_exactly() {
    assert_eq!(parse_decimal(&chars("4")), Some(Decimal { negative: false, digits: 4, scale: 0 }));
    assert_eq!(parse_decimal(&chars("2.50")), Some(Decimal { negative: false, digits: 250, scale: 2 }));
    assert_eq!(parse_decimal(&chars(".5")), Some(Decimal { negative: false, digits: 5, scale: 1 }));
    assert_eq!(parse_decimal(&chars("3.")), Some(Decimal { negative: false, digits: 3, scale: 0 }));
    assert_eq!(parse_decimal(&chars("+2.5")), Some(Decimal { negative: false, digits: 25, scale: 1 }));
    assert_eq!(parse_decimal(&chars("+")), None);
    assert_eq!(parse_decimal(&chars("-2.5")), Some(Decimal { negative: true, digits: 25, scale: 1 }));
    assert_eq!(parse_decimal(&chars("-0")), Some(Decimal { negative: false, digits: 0, scale: 0 }));
    assert_eq!(parse_decimal(&chars("1e1")), Some(Decimal { negative: false, digits: 10, scale: 0 }));
    assert_eq!(parse_decimal(&chars("1.5E2")), Some(Decimal { negative: false, digits: 150, scale: 0 }));
    assert_eq!(parse_decimal(&chars("2.5e+1")), Some(Decimal { negative: false, digits: 25, scale: 0 }));
    assert_eq!(parse_decimal(&chars("15e-3")), Some(Decimal { negative: false, digits: 15, scale: 3 }));
    assert_eq!(parse_decimal(&chars("-.5e1")), Some(Decimal { negative: true, digits: 5, scale: 0 }));
    assert_eq!(parse_decimal(&chars("1e")), None);
    assert_eq!(parse_decimal(&chars("e5")), None);
    assert_eq!(parse_decimal(&chars("1e2e3")), None);
    assert_eq!(parse_decimal(&chars("1e40")), None);
    assert_eq!(parse_decimal(&chars("--1")), None);
    assert_eq!(parse_decimal(&chars("")), None);
    assert_eq!(parse_decimal(&chars(".")), None);
    assert_eq!(parse_decimal(&chars("1.2.3")), None);
    assert_eq!(parse_decimal(&chars("four")), None);
}

#[test]
fn text_helpers_match_std() {
    let h = chars("Urine and Feces");
    assert!(contains(&h, "Feces"));
    assert!(contains(&h, ""));
    assert!(!contains(&h, "Blood"));
    assert!(ends_with(&chars("4 oz"), " oz"));
    assert!(!ends_with(&chars("oz"), " oz"));
    assert!(same_text(&chars("Sleep"), "Sleep"));
    assert!(!same_text(&chars("Sleep "), "Sleep"));
    assert_eq!(chars_of("héllo"), vec!['h', 'é', 'l', 'l', 'o']);
}

#[test]
fn sleep_row_decodes() {
    let e = row("Sleep", "01/02/2018 03:04", "01/02/2018 04:34", "1:30", "", "", "nap").into_event().unwrap();
    match e {
        Event::Sleep(s) => {
            assert_eq!(s.start.utc_secs, 1517454240);
            assert_eq!(s.end.unwrap().utc_secs, 1517454240 + 5400);
            assert_eq!(s.duration, Duration { millis: 5400000 });
            assert_eq!(s.note, "nap");
        },
        other => panic!("{:?}", other),
    }
}

#[test]
fn open_sleep_has_no_end() {
    let e = row("Sleep", "01/02/2018 03:04", "", "0:10", "", "", "").into_event().unwrap();
    match e {
        Event::Sleep(s) => assert!(s.end.is_none()),
        other => panic!("{:?}", other),
    }
}

#[test]
fn first_failure_wins() {
    let bad_start = row("Sleep", "nope", "nope", "x", "", "", "");
    assert_eq!(bad_start.into_event(), Err(DecodeError::MalformedTimestamp));
    let bad_end = row("Sleep", "01/02/2018 03:04", "nope", "x", "", "", "");
    assert_eq!(bad_end.into_event(), Err(DecodeError::MalformedTimestamp));
    let bad_duration = row("Left breast", "01/02/2018 03:04", "", "x", "", "", "");
    assert_eq!(bad_duration.into_event(), Err(DecodeError::MalformedDuration));
    let bad_start_bottle = row("Bottle feeding", "nope", "", "", "lots oz", "", "");
    assert_eq!(bad_start_bottle.into_event(), Err(DecodeError::MalformedTimestamp));
}

#[test]
fn unreadable_quantity_reads_as_zero() {
    let b = row("Bottle feeding", "01/02/2018 03:04", "", "", "lots oz", "", "").into_event().unwrap();
    match b {
        Event::Feeding(FeedingEvent::Bottle(b)) => assert_eq!(b.ounces, Decimal { negative: false, digits: 0, scale: 0 }),
        other => panic!("{:?}", other),
    }
    let p = row("Pumping", "01/02/2018 10:00", "", "", "abc oz", "", "").into_event().unwrap();
    match p {
        Event::Pumping(p) => assert_eq!(p.volume_ml, 0),
        other => panic!("{:?}", other),
    }
    let q = row("Pumping", "01/02/2018 10:00", "", "", "4oz", "", "").into_event().unwrap();
    match q {
        Event::Pumping(p) => assert_eq!(p.volume_ml, 0),
        other => panic!("{:?}", other),
    }
}

#[test]
fn quantity_may_carry_a_sign_or_an_exponent() {
    let volume = |extra: &str| match row("Pumping", "01/02/2018 10:00", "", "", extra, "", "").into_event().unwrap() {
        Event::Pumping(p) => p.volume_ml,
        other => panic!("{:?}", other),
    };
    assert_eq!(volume("1e1 oz"), 295);
    assert_eq!(volume("-1 oz"), -29);
    assert_eq!(volume("0.5 oz"), 14);
    assert_eq!(volume("1e17 oz"), i32::MAX);
    assert_eq!(volume("-1e17 oz"), i32::MIN);
    let b = row("Bottle feeding", "01/02/2018 03:04", "", "", "-2.5 oz", "", "").into_event().unwrap();
    match b {
        Event::Feeding(FeedingEvent::Bottle(b)) => assert_eq!(b.ounces, Decimal { negative: true, digits: 25, scale: 1 }),
        other => panic!("{:?}", other),
    }
}

#[test]
fn negative_volume_in_ounces() {
    let p = babystats::PumpingEvent {
        start: decode_timestamp("01/02/2018 03:04").unwrap(),
        volume_ml: -118,
        left_ml: None,
        right_ml: None,
        note: String::new(),
    };
    assert_eq!(p.oz(), Decimal { negative: true, digits: 3989, scale: 3 });
}

#[test]
fn captured_tokens_decode() {
    assert_eq!(volume_from_capture("120"), Some(120));
    assert_eq!(volume_from_capture("99999999999"), None);
    assert_eq!(volume_from_capture(""), None);
    assert_eq!(measurement_from_capture("12.25"), Some(Decimal { negative: false, digits: 1225, scale: 2 }));
    assert_eq!(measurement_from_capture("tall"), None);
}

#[test]
fn quantity_may_carry_a_plus_sign() {
    let p = row("Pumping", "01/02/2018 10:00", "", "", "+4 oz", "", "").into_event().unwrap();
    match p {
        Event::Pumping(p) => assert_eq!(p.volume_ml, 118),
        other => panic!("{:?}", other),
    }
}

#[test]
fn unknown_type_is_named() {
    let e = row("Bath", "01/02/2018 03:04", "", "", "", "", "").into_event();
    assert_eq!(e, Err(DecodeError::UnknownEventType("Bath".to_string())));
}

#[test]
fn row_source_failure_passes_through() {
    let e = decode_item(Err("missing header".to_string()));
    assert_eq!(e, Err(DecodeError::RowSource("missing header".to_string())));
}

#[test]
fn diaper_flags_come_from_extra() {
    let both = row("Diaper", "01/02/2018 03:04", "", "", "Urine, Feces", "", "").into_event().unwrap();
    let none = row("Diaper", "01/02/2018 03:04", "", "", "Dry", "", "").into_event().unwrap();
    match (both, none) {
        (Event::Diaper(a), Event::Diaper(b)) => {
            assert!(a.pee && a.poo);
            assert!(!b.pee && !b.poo);
        },
        other => panic!("{:?}", other),
    }
}

#[test]
fn bottle_reads_milk_and_ounces() {
    let e = row("Bottle feeding", "01/02/2018 03:04", "", "", "3.5 oz", "Mom's milk", "").into_event().unwrap();
    match e {
        Event::Feeding(FeedingEvent::Bottle(b)) => {
            assert_eq!(b.milk, Milk::BreastMilk);
            assert_eq!(b.ounces, Decimal { negative: false, digits: 35, scale: 1 });
        },
        other => panic!("{:?}", other),
    }
    let f = row("Bottle feeding", "01/02/2018 03:04", "", "", "", "Formula", "").into_event().unwrap();
    match f {
        Event::Feeding(FeedingEvent::Bottle(b)) => {
            assert_eq!(b.milk, Milk::Formula);
            assert_eq!(b.ounces, Decimal { negative: false, digits: 0, scale: 0 });
        },
        other => panic!("{:?}", other),
    }
    let u = row("Bottle feeding", "01/02/2018 03:04", "", "", "", "Juice", "").into_event().unwrap();
    match u {
        Event::Feeding(FeedingEvent::Bottle(b)) => assert_eq!(b.milk, Milk::Unknown),
        other => panic!("{:?}", other),
    }
}

#[test]
fn breast_sides_and_vaccination() {
    let l = row("Left breast", "01/02/2018 03:04", "", "0:15", "", "", "").into_event().unwrap();
    let r = row("Right breast", "01/02/2018 03:04", "", "0:15", "", "", "").into_event().unwrap();
    let v = row("Vaccination", "01/02/2018 03:04", "", "0:15", "", "", "").into_event().unwrap();
    assert!(matches!(l, Event::Feeding(FeedingEvent::LeftBreast(_))));
    assert!(matches!(r, Event::Feeding(FeedingEvent::RightBreast(_))));
    assert!(matches!(v, Event::TummyTime(_)));
}

#[test]
fn pumping_row_reads_volumes() {
    let e = row("Pumping", "01/02/2018 03:04", "", "", "4 oz", "", "2L 2R").into_event().unwrap();
    match e {
        Event::Pumping(p) => {
            assert_eq!(p.volume_ml, 118);
            assert_eq!(p.left_ml, Some(2));
            assert_eq!(p.right_ml, Some(2));
            assert_eq!(p.oz(), Decimal { negative: false, digits: 3989, scale: 3 });
        },
        other => panic!("{:?}", other),
    }
}

#[test]
fn pumping_without_sides_or_unit() {
    let e = row("Pumping", "01/02/2018 03:04", "", "", "", "", "3 L only").into_event().unwrap();
    match e {
        Event::Pumping(p) => {
            assert_eq!(p.volume_ml, 0);
            assert_eq!(p.left_ml, Some(3));
            assert_eq!(p.right_ml, None);
        },
        other => panic!("{:?}", other),
    }
}

#[test]
fn measure_reads_embedded_values() {
    let note = "Weight: 12.5 lb Height: 24 in Head circumference: 16.25 in";
    let e = row("Measure", "01/02/2018 03:04", "", "", "", "", note).into_event().unwrap();
    match e {
        Event::Measure(m) => {
            assert_eq!(m.weight, Some(Decimal { negative: false, digits: 125, scale: 1 }));
            assert_eq!(m.height, Some(Decimal { negative: false, digits: 24, scale: 0 }));
            assert_eq!(m.head_circ, Some(Decimal { negative: false, digits: 1625, scale: 2 }));
        },
        other => panic!("{:?}", other),
    }
    let none = row("Measure", "01/02/2018 03:04", "", "", "", "", "Height: tall").into_event().unwrap();
    match none {
        Event::Measure(m) => {
            assert_eq!(m.weight, None);
            assert_eq!(m.height, None);
            assert_eq!(m.head_circ, None);
        },
        other => panic!("{:?}", other),
    }
}

#[test]
fn event_time_is_decoded_start() {
    let rows = vec![
        row("Sleep", "01/02/2018 03:04", "01/02/2018 04:00", "0:56", "", "", ""),
        row("Diaper", "01/02/2018 03:04", "", "", "Urine", "", ""),
        row("Bottle feeding", "01/02/2018 03:04", "", "", "2 oz", "Formula", ""),
        row("Left breast", "01/02/2018 03:04", "", "0:10", "", "", ""),
        row("Pumping", "01/02/2018 03:04", "", "", "1 oz", "", ""),
        row("Vaccination", "01/02/2018 03:04", "", "0:01", "", "", ""),
        row("Measure", "01/02/2018 03:04", "", "", "", "", ""),
        row("Note", "01/02/2018 03:04", "", "", "", "", "hello"),
    ];
    for r in rows {
        let start = decode_timestamp(&r.start).unwrap();
        let e = r.into_event().unwrap();
        assert_eq!(e.time().utc_secs, start.utc_secs);
    }
}

#[test]
fn unknown_row_does_not_stop_the_stream() {
    let rows = vec![
        row("Note", "01/02/2018 03:04", "", "", "", "", "a"),
        row("Bath", "01/02/2018 03:05", "", "", "", "", ""),
        row("Note", "01/02/2018 03:06", "", "", "", "", "b"),
    ];
    let out = decode_rows(&rows);
    assert_eq!(out.len(), 3);
    assert!(matches!(out[0], Ok(Event::Note(_))));
    assert_eq!(out[1], Err(DecodeError::UnknownEventType("Bath".to_string())));
    assert!(matches!(out[2], Ok(Event::Note(_))));
    let unknown = out.iter().filter(|r| matches!(r, Err(DecodeError::UnknownEventType(_)))).count();
    assert_eq!(unknown, 1);
}
