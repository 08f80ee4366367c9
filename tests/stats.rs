use babystats::chart::Grid;
use babystats::stats::WINDOW_DAYS;
use babystats::wakeups::{WAKEUP_CUTOFF_HOUR, WAKEUP_MAX_GAP_MINUTES};
use babystats::{
    count_wakeups, events_by_day, group_by_day, max_duration_per_day, sleep_events,
    sleeps_by_end_day, sleeps_per_day, sort_by_start, wakeups_by_day, windowed_mean, Duration, Event, NoteEvent,
    SleepEvent, Timestamp,
};

const DAY: i64 = 86400;
const BASE: i64 = 17600 * DAY;

fn at(day: i64, hour: i64, minute: i64) -> Timestamp {
    Timestamp { utc_secs: BASE + day * DAY + hour * 3600 + minute * 60, offset_secs: 0 }
}

fn minutes(m: u64) -> Duration {
    Duration { millis: m * 60000 }
}

fn sleep(start: Timestamp, end: Option<Timestamp>, m: u64, note: &str) -> SleepEvent {
    SleepEvent { start, end, duration: minutes(m), note: note.to_string() }
}

#[test]
fn local_day_and_hour_follow_the_offset() {
    let t = Timestamp { utc_secs: BASE + 23 * 3600, offset_secs: 2 * 3600 };
    assert_eq!(t.local_day(), 17601);
    assert_eq!(t.local_hour(), 1);
    let u = Timestamp { utc_secs: BASE + 1800, offset_secs: -3600 };
    assert_eq!(u.local_day(), 17599);
    assert_eq!(u.local_hour(), 23);
    let before_epoch = Timestamp { utc_secs: -1, offset_secs: 0 };
    assert_eq!(before_epoch.local_day(), -1);
    assert_eq!(before_epoch.local_hour(), 23);
}

#[test]
fn grouping_sorts_days_and_keeps_order_within() {
    let g = group_by_day(vec![(5i64, 'a'), (3, 'b'), (5, 'c'), (4, 'd'), (3, 'e')]);
    let days: Vec<i64> = g.iter().map(|b| b.day).collect();
    assert_eq!(days, vec![3, 4, 5]);
    assert_eq!(g[0].items, vec!['b', 'e']);
    assert_eq!(g[1].items, vec!['d']);
    assert_eq!(g[2].items, vec!['a', 'c']);
    assert!(group_by_day::<char>(vec![]).is_empty());
}

#[test]
fn sleeps_bucket_by_end_day_and_skip_open_ones() {
    let sleeps = vec![
        sleep(at(0, 23, 0), Some(at(1, 1, 0)), 120, "crosses midnight"),
        sleep(at(0, 13, 0), Some(at(0, 14, 0)), 60, "nap"),
        sleep(at(1, 20, 0), None, 30, "still asleep"),
    ];
    let b = sleeps_by_end_day(sleeps);
    assert_eq!(b.len(), 2);
    assert_eq!(b[0].day, 17600);
    assert_eq!(b[0].items[0].note, "nap");
    assert_eq!(b[1].day, 17601);
    assert_eq!(b[1].items[0].note, "crosses midnight");
}

#[test]
fn events_bucket_by_their_own_time() {
    let events = vec![
        Event::Note(NoteEvent { time: at(2, 8, 0), note: "later".to_string() }),
        Event::Sleep(sleep(at(0, 23, 0), Some(at(1, 1, 0)), 120, "night")),
        Event::Note(NoteEvent { time: at(0, 9, 0), note: "earlier".to_string() }),
    ];
    let b = events_by_day(events);
    let days: Vec<i64> = b.iter().map(|x| x.day).collect();
    assert_eq!(days, vec![17600, 17602]);
    assert_eq!(b[0].items.len(), 2);
}

#[test]
fn sleep_events_are_taken_in_order() {
    let events = vec![
        Event::Note(NoteEvent { time: at(0, 8, 0), note: String::new() }),
        Event::Sleep(sleep(at(0, 9, 0), None, 10, "first")),
        Event::Sleep(sleep(at(0, 10, 0), None, 10, "second")),
    ];
    let s = sleep_events(events);
    assert_eq!(s.len(), 2);
    assert_eq!(s[0].note, "first");
    assert_eq!(s[1].note, "second");
}

#[test]
fn longest_session_first_wins_on_ties() {
    let day = vec![
        sleep(at(0, 1, 0), Some(at(0, 2, 30)), 90, "d1"),
        sleep(at(0, 3, 0), Some(at(0, 3, 45)), 45, "d2"),
        sleep(at(0, 5, 0), Some(at(0, 6, 30)), 90, "d3"),
    ];
    let out = max_duration_per_day(sleeps_by_end_day(day));
    assert_eq!(out.len(), 1);
    assert_eq!(out[0].0, 17600);
    assert_eq!(out[0].1.note, "d1");
}

#[test]
fn longest_session_per_day_skips_empty_days() {
    let buckets = vec![
        babystats::DayBucket { day: 1, items: vec![] },
        babystats::DayBucket { day: 2, items: vec![sleep(at(0, 1, 0), Some(at(0, 2, 0)), 60, "a"), sleep(at(0, 3, 0), Some(at(0, 5, 0)), 120, "b")] },
    ];
    let out = max_duration_per_day(buckets);
    assert_eq!(out.len(), 1);
    assert_eq!(out[0].0, 2);
    assert_eq!(out[0].1.note, "b");
    assert!(max_duration_per_day(vec![]).is_empty());
}

#[test]
fn windowed_mean_of_five_days() {
    let days: Vec<(i64, Duration)> = [60u64, 90, 120, 90, 60].iter().enumerate().map(|(i, m)| (i as i64, minutes(*m))).collect();
    let out = windowed_mean(&days, WINDOW_DAYS);
    assert_eq!(out, vec![(4, minutes(84))]);
    assert_eq!(out[0].1.num_minutes(), 84);
}

#[test]
fn windowed_mean_needs_a_full_window() {
    let days: Vec<(i64, Duration)> = (0..4).map(|i| (i as i64, minutes(60))).collect();
    assert!(windowed_mean(&days, 5).is_empty());
    assert!(windowed_mean(&vec![], 5).is_empty());
}

#[test]
fn windowed_mean_slides_and_truncates() {
    let days = vec![(10i64, Duration { millis: 1 }), (12, Duration { millis: 2 }), (15, Duration { millis: 2 })];
    let out = windowed_mean(&days, 2);
    assert_eq!(out, vec![(12, Duration { millis: 1 }), (15, Duration { millis: 2 })]);
    let big = vec![(1i64, Duration { millis: u64::MAX }), (2, Duration { millis: u64::MAX })];
    assert_eq!(windowed_mean(&big, 2), vec![(2, Duration { millis: u64::MAX })]);
}

#[test]
fn wakeups_stop_at_the_late_morning_session() {
    let night = vec![
        sleep(at(0, 23, 0), Some(at(0, 23, 30)), 30, ""),
        sleep(at(1, 0, 0), Some(at(1, 1, 0)), 60, ""),
        sleep(at(1, 1, 30), Some(at(1, 2, 0)), 30, ""),
        sleep(at(1, 9, 0), Some(at(1, 11, 0)), 120, ""),
    ];
    // The night ends on day 17601: the session ending 23:30 the evening before
    // counts, and the one ending at 11:00 stops the walk.
    let n = count_wakeups(&night, 17601, WAKEUP_CUTOFF_HOUR, minutes(WAKEUP_MAX_GAP_MINUTES));
    assert_eq!(n, 3);
    // On day 17600 itself, 23:30 is past the cutoff hour.
    let n = count_wakeups(&night, 17600, WAKEUP_CUTOFF_HOUR, minutes(WAKEUP_MAX_GAP_MINUTES));
    assert_eq!(n, 0);
    let n = count_wakeups(&night[1..].to_vec(), 17601, WAKEUP_CUTOFF_HOUR, minutes(WAKEUP_MAX_GAP_MINUTES));
    assert_eq!(n, 2);
    let early = vec![
        sleep(at(1, 0, 0), Some(at(1, 1, 0)), 60, ""),
        sleep(at(1, 1, 30), Some(at(1, 2, 0)), 30, ""),
        sleep(at(1, 3, 0), Some(at(1, 3, 30)), 30, ""),
        sleep(at(1, 4, 0), Some(at(1, 11, 0)), 420, ""),
    ];
    assert_eq!(count_wakeups(&early, 17601, WAKEUP_CUTOFF_HOUR, minutes(WAKEUP_MAX_GAP_MINUTES)), 3);
}

#[test]
fn wakeups_stop_at_a_long_gap() {
    let night = vec![
        sleep(at(1, 0, 0), Some(at(1, 1, 0)), 60, ""),
        sleep(at(1, 2, 30), Some(at(1, 3, 0)), 30, ""),
        sleep(at(1, 4, 31), Some(at(1, 5, 0)), 29, ""),
    ];
    assert_eq!(count_wakeups(&night, 17601, 10, minutes(90)), 2);
    assert_eq!(count_wakeups(&night, 17601, 10, minutes(91)), 3);
    assert_eq!(count_wakeups(&vec![], 17601, 10, minutes(90)), 0);
}

#[test]
fn wakeups_count_an_end_within_the_cutoff_hour() {
    let late = vec![sleep(at(1, 9, 0), Some(at(1, 10, 59)), 119, "")];
    assert_eq!(count_wakeups(&late, 17601, 10, minutes(90)), 1);
    let later = vec![sleep(at(1, 9, 0), Some(at(1, 11, 0)), 120, "")];
    assert_eq!(count_wakeups(&later, 17601, 10, minutes(90)), 0);
    let next_day = vec![sleep(at(1, 9, 0), Some(at(2, 1, 0)), 960, "")];
    assert_eq!(count_wakeups(&next_day, 17601, 10, minutes(90)), 0);
}

#[test]
fn sorting_by_start_is_stable() {
    let s = sort_by_start(vec![
        sleep(at(0, 5, 0), None, 1, "c"),
        sleep(at(0, 1, 0), None, 1, "a"),
        sleep(at(0, 5, 0), None, 1, "d"),
        sleep(at(0, 3, 0), None, 1, "b"),
    ]);
    let notes: Vec<&str> = s.iter().map(|e| e.note.as_str()).collect();
    assert_eq!(notes, vec!["a", "b", "c", "d"]);
}

#[test]
fn wakeups_by_day_sorts_each_day_first() {
    let sleeps = vec![
        sleep(at(1, 1, 30), Some(at(1, 2, 0)), 30, ""),
        sleep(at(1, 0, 0), Some(at(1, 1, 0)), 60, ""),
        sleep(at(1, 12, 0), Some(at(1, 13, 0)), 60, ""),
        sleep(at(2, 11, 0), Some(at(2, 12, 0)), 60, ""),
    ];
    let out = wakeups_by_day(sleeps_by_end_day(sleeps), WAKEUP_CUTOFF_HOUR, minutes(WAKEUP_MAX_GAP_MINUTES));
    assert_eq!(out, vec![(17601, 2), (17602, 0)]);
}

#[test]
fn grid_needs_columns_of_equal_length() {
    let x = [1i64, 2, 3];
    let y = [4u64, 5, 6];
    let g = Grid::new(&x[..], &y[..]).unwrap();
    assert_eq!(g.x, &x[..]);
    assert!(Grid::new(&x[..], &y[..2]).is_none());
}

#[test]
fn sleeps_per_day_keeps_every_day() {
    let events = vec![
        Event::Note(NoteEvent { time: at(0, 8, 0), note: String::new() }),
        Event::Sleep(sleep(at(1, 9, 0), None, 10, "nap")),
        Event::Note(NoteEvent { time: at(1, 10, 0), note: String::new() }),
    ];
    let out = sleeps_per_day(events_by_day(events));
    assert_eq!(out.len(), 2);
    assert_eq!(out[0].day, 17600);
    assert!(out[0].items.is_empty());
    assert_eq!(out[1].day, 17601);
    assert_eq!(out[1].items.len(), 1);
    assert_eq!(out[1].items[0].note, "nap");
}
