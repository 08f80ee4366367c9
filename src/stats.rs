//! Per-day statistics over sleep sessions: the longest session of each day, and
//! a trailing mean over a fixed number of days.

use vstd::prelude::*;
use crate::event::{Event, SleepEvent, event_time};
use crate::group::{DayBucket, group_by_day, groups};
use crate::time::{Duration, local_day_of};

verus! {

/// Days in a window of the trailing mean.
pub const WINDOW_DAYS: usize = 5;

/// The sleep sessions among `events`, in order.
pub open spec fn sleeps_of(events: Seq<Event>) -> Seq<SleepEvent>
    decreases events.len(),
{
    if events.len() == 0 {
        Seq::empty()
    } else {
        let rest = sleeps_of(events.drop_last());
        match events.last() {
            Event::Sleep(s) => rest.push(s),
            _ => rest,
        }
    }
}

/// The closed sessions, each keyed by the local day on which it ended.
pub open spec fn keyed_by_end_day(sleeps: Seq<SleepEvent>) -> Seq<(i64, SleepEvent)>
    decreases sleeps.len(),
{
    if sleeps.len() == 0 {
        Seq::empty()
    } else {
        let rest = keyed_by_end_day(sleeps.drop_last());
        match sleeps.last().end {
            Some(t) => rest.push((local_day_of(t) as i64, sleeps.last())),
            None => rest,
        }
    }
}

/// Every event keyed by the local day of its own time.
pub open spec fn keyed_by_day(events: Seq<Event>) -> Seq<(i64, Event)>
    decreases events.len(),
{
    if events.len() == 0 {
        Seq::empty()
    } else {
        keyed_by_day(events.drop_last()).push((local_day_of(event_time(events.last())) as i64, events.last()))
    }
}

/// Takes the sleep sessions out of a sequence of events, in order.
pub fn sleep_events(events: Vec<Event>) -> (r: Vec<SleepEvent>)
    ensures
        r@ == sleeps_of(events@),
{
    let ghost all = events@;
    let mut rest = events;
    let ghost mut done: Seq<Event> = Seq::empty();
    let mut r: Vec<SleepEvent> = Vec::new();
    while rest.len() > 0
        invariant
            all == done + rest@,
            r@ == sleeps_of(done),
        decreases rest@.len(),
    {
        let e = rest.remove(0);
        proof {
            let prev = done;
            done = done.push(e);
            assert(all =~= done + rest@);
            assert(done.drop_last() =~= prev);
        }
        match e {
            Event::Sleep(s) => r.push(s),
            _ => {},
        }
    }
    assert(done =~= all);
    r
}

/// Keeps, for each day, only its sleep sessions, in order; every day stays,
/// whether or not it has one.
pub fn sleeps_per_day(buckets: Vec<DayBucket<Event>>) -> (r: Vec<DayBucket<SleepEvent>>)
    ensures
        r@.len() == buckets@.len(),
        forall|i: int| 0 <= i < buckets@.len() ==> (#[trigger] r@[i]).day == buckets@[i].day
            && r@[i].items@ == sleeps_of(buckets@[i].items@),
{
    let ghost all = buckets@;
    let mut rest = buckets;
    let mut r: Vec<DayBucket<SleepEvent>> = Vec::new();
    while rest.len() > 0
        invariant
            r@.len() + rest@.len() == all.len(),
            rest@ == all.subrange(r@.len() as int, all.len() as int),
            forall|i: int| 0 <= i < r@.len() ==> (#[trigger] r@[i]).day == all[i].day
                && r@[i].items@ == sleeps_of(all[i].items@),
        decreases rest@.len(),
    {
        let ghost k = r@.len() as int;
        let b = rest.remove(0);
        assert(b == all[k]);
        let day = b.day;
        let items = sleep_events(b.items);
        r.push(DayBucket { day, items });
        assert(rest@ =~= all.subrange(r@.len() as int, all.len() as int));
    }
    r
}

/// Groups closed sleep sessions by the local day on which they end; sessions
/// still open are left out.
pub fn sleeps_by_end_day(sleeps: Vec<SleepEvent>) -> (r: Vec<DayBucket<SleepEvent>>)
    ensures
        groups(keyed_by_end_day(sleeps@), r@),
{
    let ghost all = sleeps@;
    let mut rest = sleeps;
    let ghost mut done: Seq<SleepEvent> = Seq::empty();
    let mut keyed: Vec<(i64, SleepEvent)> = Vec::new();
    while rest.len() > 0
        invariant
            all == done + rest@,
            keyed@ == keyed_by_end_day(done),
        decreases rest@.len(),
    {
        let e = rest.remove(0);
        proof {
            let prev = done;
            done = done.push(e);
            assert(all =~= done + rest@);
            assert(done.drop_last() =~= prev);
        }
        match e.end {
            Some(t) => {
                let day = t.local_day();
                keyed.push((day, e));
            },
            None => {},
        }
    }
    assert(done =~= all);
    group_by_day(keyed)
}

/// Groups events by the local day of their own time.
pub fn events_by_day(events: Vec<Event>) -> (r: Vec<DayBucket<Event>>)
    ensures
        groups(keyed_by_day(events@), r@),
{
    let ghost all = events@;
    let mut rest = events;
    let ghost mut done: Seq<Event> = Seq::empty();
    let mut keyed: Vec<(i64, Event)> = Vec::new();
    while rest.len() > 0
        invariant
            all == done + rest@,
            keyed@ == keyed_by_day(done),
        decreases rest@.len(),
    {
        let e = rest.remove(0);
        proof {
            let prev = done;
            done = done.push(e);
            assert(all =~= done + rest@);
            assert(done.drop_last() =~= prev);
        }
        let day = e.time().local_day();
        keyed.push((day, e));
    }
    assert(done =~= all);
    group_by_day(keyed)
}

/// The index of the longest session: a left fold that moves to a later session
/// only when it is strictly longer, so the first of equal maxima is kept.
pub open spec fn first_max_index(s: Seq<SleepEvent>) -> int
    decreases s.len(),
{
    if s.len() <= 1 {
        0
    } else {
        let i = first_max_index(s.drop_last());
        if s.last().duration.millis > s[i].duration.millis {
            s.len() - 1
        } else {
            i
        }
    }
}

/// The longest session of each day that has one, with its day.
pub open spec fn daily_maxima(buckets: Seq<DayBucket<SleepEvent>>) -> Seq<(i64, SleepEvent)>
    decreases buckets.len(),
{
    if buckets.len() == 0 {
        Seq::empty()
    } else {
        let rest = daily_maxima(buckets.drop_last());
        let items = buckets.last().items@;
        if items.len() > 0 {
            rest.push((buckets.last().day, items[first_max_index(items)]))
        } else {
            rest
        }
    }
}

/// The session picked from a non-empty day is at least as long as every other
/// session of that day, and strictly longer than every session before it: of
/// equal maxima the first wins.
pub proof fn lemma_first_max_index(s: Seq<SleepEvent>)
    requires
        s.len() > 0,
    ensures
        0 <= first_max_index(s) < s.len(),
        forall|j: int| 0 <= j < s.len() ==> (#[trigger] s[j]).duration.millis <= s[first_max_index(s)].duration.millis,
        forall|j: int| 0 <= j < first_max_index(s) ==> (#[trigger] s[j]).duration.millis < s[first_max_index(s)].duration.millis,
    decreases s.len(),
{
    if s.len() > 1 {
        let p = s.drop_last();
        lemma_first_max_index(p);
        assert forall|j: int| 0 <= j < s.len() - 1 implies s[j] == p[j] by {}
    }
}

/// Max-duration-per-day emits no day without a session: each pair it emits is
/// the day of a bucket that holds sessions, with that bucket's first longest one.
pub proof fn lemma_maxima_have_sessions(buckets: Seq<DayBucket<SleepEvent>>)
    ensures
        forall|k: int| 0 <= k < daily_maxima(buckets).len() ==> exists|i: int| 0 <= i < buckets.len()
            && (#[trigger] buckets[i]).items@.len() > 0
            && #[trigger] daily_maxima(buckets)[k] == (buckets[i].day, buckets[i].items@[first_max_index(buckets[i].items@)]),
    decreases buckets.len(),
{
    if buckets.len() > 0 {
        let p = buckets.drop_last();
        lemma_maxima_have_sessions(p);
        let m = daily_maxima(buckets);
        let mp = daily_maxima(p);
        assert forall|k: int| 0 <= k < m.len() implies exists|i: int| 0 <= i < buckets.len()
            && (#[trigger] buckets[i]).items@.len() > 0
            && #[trigger] m[k] == (buckets[i].day, buckets[i].items@[first_max_index(buckets[i].items@)]) by {
            if k < mp.len() {
                let i = choose|i: int| 0 <= i < p.len() && (#[trigger] p[i]).items@.len() > 0
                    && mp[k] == (p[i].day, p[i].items@[first_max_index(p[i].items@)]);
                assert(buckets[i] == p[i]);
                assert(m[k] == mp[k]);
            } else {
                assert(buckets[buckets.len() - 1] == buckets.last());
            }
        }
    }
}

/// The index of the longest of `items`, the first of equal maxima.
fn longest(items: &Vec<SleepEvent>) -> (r: usize)
    requires
        items@.len() > 0,
    ensures
        r == first_max_index(items@),
        r < items@.len(),
{
    let mut best: usize = 0;
    let mut j: usize = 1;
    proof {
        assert(items@.subrange(0, 1).len() == 1);
    }
    while j < items.len()
        invariant
            1 <= j <= items@.len(),
            best < j,
            best == first_max_index(items@.subrange(0, j as int)),
        decreases items.len() - j,
    {
        proof {
            let p = items@.subrange(0, j + 1);
            assert(p.drop_last() =~= items@.subrange(0, j as int));
            assert(p[best as int] == items@[best as int]);
        }
        if items[j].duration.millis > items[best].duration.millis {
            best = j;
        }
        j += 1;
    }
    assert(items@.subrange(0, items@.len() as int) =~= items@);
    best
}

/// For each day with at least one session, the longest session; of sessions of
/// equal length the first is kept. Days without a session are left out.
pub fn max_duration_per_day(buckets: Vec<DayBucket<SleepEvent>>) -> (r: Vec<(i64, SleepEvent)>)
    ensures
        r@ == daily_maxima(buckets@),
{
    let ghost all = buckets@;
    let mut rest = buckets;
    let ghost mut done: Seq<DayBucket<SleepEvent>> = Seq::empty();
    let mut r: Vec<(i64, SleepEvent)> = Vec::new();
    while rest.len() > 0
        invariant
            all == done + rest@,
            r@ == daily_maxima(done),
        decreases rest@.len(),
    {
        let b = rest.remove(0);
        proof {
            let prev = done;
            done = done.push(b);
            assert(all =~= done + rest@);
            assert(done.drop_last() =~= prev);
        }
        let day = b.day;
        let mut items = b.items;
        if items.len() > 0 {
            let i = longest(&items);
            let e = items.remove(i);
            r.push((day, e));
        }
    }
    assert(done =~= all);
    r
}

/// The sum of the durations, in milliseconds.
pub open spec fn sum_millis(s: Seq<(i64, Duration)>) -> nat
    decreases s.len(),
{
    if s.len() == 0 {
        0
    } else {
        sum_millis(s.drop_last()) + s.last().1.millis as nat
    }
}

/// One entry for each run of `size` consecutive entries of `days`: the day of the
/// run's last entry, and the mean of its durations in milliseconds, rounded down.
pub open spec fn window_means(days: Seq<(i64, Duration)>, size: nat) -> Seq<(i64, Duration)> {
    let n = if days.len() >= size { days.len() - size + 1 } else { 0 };
    Seq::new(
        n as nat,
        |i: int| (days[i + size - 1].0, Duration { millis: (sum_millis(days.subrange(i, i + size)) / size) as u64 }),
    )
}

proof fn lemma_sum_bound(s: Seq<(i64, Duration)>)
    ensures
        sum_millis(s) <= s.len() * 0xffff_ffff_ffff_ffff,
    decreases s.len(),
{
    if s.len() > 0 {
        lemma_sum_bound(s.drop_last());
    }
}

/// The trailing mean of the durations over every run of `size` consecutive days,
/// labelled with the run's last day. A tail shorter than `size` gives nothing.
pub fn windowed_mean(days: &Vec<(i64, Duration)>, size: usize) -> (r: Vec<(i64, Duration)>)
    requires
        size > 0,
    ensures
        r@ == window_means(days@, size as nat),
        days@.len() < size ==> r@.len() == 0,
{
    let mut r: Vec<(i64, Duration)> = Vec::new();
    if days.len() < size {
        assert(r@ =~= window_means(days@, size as nat));
        return r;
    }
    let n = days.len();
    let count = n - size + 1;
    let mut i: usize = 0;
    while i < count
        invariant
            size > 0,
            n == days@.len(),
            count == days@.len() - size + 1,
            i <= count,
            r@ =~= window_means(days@, size as nat).subrange(0, i as int),
        decreases count - i,
    {
        let ghost w = days@.subrange(i as int, i + size);
        let mut sum: u128 = 0;
        let mut k: usize = 0;
        while k < size
            invariant
                n == days@.len(),
                i < count,
                count == days@.len() - size + 1,
                w == days@.subrange(i as int, i + size),
                k <= size,
                sum == sum_millis(w.subrange(0, k as int)),
                sum <= k * 0xffff_ffff_ffff_ffff,
            decreases size - k,
        {
            proof {
                assert(w.subrange(0, k + 1).drop_last() =~= w.subrange(0, k as int));
                assert((k + 1) * 0xffff_ffff_ffff_ffff == k * 0xffff_ffff_ffff_ffff + 0xffff_ffff_ffff_ffff) by (nonlinear_arith);
                assert(k * 0xffff_ffff_ffff_ffff <= 0xffff_ffff_ffff_ffff * 0xffff_ffff_ffff_ffff) by (nonlinear_arith)
                    requires
                        k <= 0xffff_ffff_ffff_ffff,
                ;
            }
            sum = sum + days[i + k].1.millis as u128;
            k += 1;
        }
        proof {
            assert(w.subrange(0, size as int) =~= w);
            assert(sum / (size as u128) <= 0xffff_ffff_ffff_ffff) by (nonlinear_arith)
                requires
                    sum <= size * 0xffff_ffff_ffff_ffff,
                    size > 0,
            ;
        }
        let mean = (sum / size as u128) as u64;
        r.push((days[i + size - 1].0, Duration { millis: mean }));
        i += 1;
    }
    r
}

} // verus!
