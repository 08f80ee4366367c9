//! Counting the night's wakeups: the run of sessions, in order of start, that end
//! before a late-morning cutoff and follow each other after short gaps.

use vstd::prelude::*;
use crate::event::SleepEvent;
use crate::time::Timestamp;
use crate::group::DayBucket;
use crate::time::{Duration, local_day_of, local_hour_of};

verus! {

/// The latest local hour at which a counted session may end.
pub const WAKEUP_CUTOFF_HOUR: u32 = 10;

/// The longest gap, in minutes, between one counted session's end and the next one's start.
pub const WAKEUP_MAX_GAP_MINUTES: u64 = 90;

/// `x` put after the last session of `s`, counted from the end, that starts no
/// later than it: one step of a stable insertion sort.
pub open spec fn insert_by_start(s: Seq<SleepEvent>, x: SleepEvent) -> Seq<SleepEvent>
    decreases s.len(),
{
    if s.len() == 0 {
        seq![x]
    } else if s.last().start.utc_secs <= x.start.utc_secs {
        s.push(x)
    } else {
        insert_by_start(s.drop_last(), x).push(s.last())
    }
}

/// `s` in order of start, sessions that start together kept in their order.
pub open spec fn sorted_by_start(s: Seq<SleepEvent>) -> Seq<SleepEvent>
    decreases s.len(),
{
    if s.len() == 0 {
        Seq::empty()
    } else {
        insert_by_start(sorted_by_start(s.drop_last()), s.last())
    }
}

proof fn lemma_insert_at(s: Seq<SleepEvent>, x: SleepEvent, p: int)
    requires
        0 <= p <= s.len(),
        forall|j: int| p <= j < s.len() ==> (#[trigger] s[j]).start.utc_secs > x.start.utc_secs,
        p > 0 ==> s[p - 1].start.utc_secs <= x.start.utc_secs,
    ensures
        insert_by_start(s, x) == s.insert(p, x),
    decreases s.len(),
{
    if s.len() == 0 {
        assert(s.insert(p, x) =~= seq![x]);
    } else if p == s.len() {
        assert(s.insert(p, x) =~= s.push(x));
    } else {
        let q = s.drop_last();
        assert forall|j: int| p <= j < q.len() implies (#[trigger] q[j]).start.utc_secs > x.start.utc_secs by {
            assert(q[j] == s[j]);
        }
        lemma_insert_at(q, x, p);
        assert(s.insert(p, x) =~= q.insert(p, x).push(s.last()));
    }
}

/// Whether the sessions are in order of start.
pub open spec fn in_start_order(s: Seq<SleepEvent>) -> bool {
    forall|i: int, j: int| 0 <= i < j < s.len() ==> s[i].start.utc_secs <= s[j].start.utc_secs
}

proof fn lemma_insert_by_start(s: Seq<SleepEvent>, x: SleepEvent)
    requires
        in_start_order(s),
    ensures
        in_start_order(insert_by_start(s, x)),
        insert_by_start(s, x).to_multiset() == s.to_multiset().insert(x),
        insert_by_start(s, x).len() == s.len() + 1,
        forall|i: int| 0 <= i < insert_by_start(s, x).len() ==> s.contains(#[trigger] insert_by_start(s, x)[i]) || insert_by_start(s, x)[i] == x,
    decreases s.len(),
{
    broadcast use vstd::seq_lib::to_multiset_build;
    let r = insert_by_start(s, x);
    if s.len() == 0 {
        assert(r =~= s.push(x));
    } else if s.last().start.utc_secs <= x.start.utc_secs {
        assert forall|i: int| 0 <= i < r.len() implies s.contains(#[trigger] r[i]) || r[i] == x by {
            if i < s.len() {
                assert(r[i] == s[i]);
            }
        }
    } else {
        let q = s.drop_last();
        let l = s.last();
        assert(in_start_order(q));
        lemma_insert_by_start(q, x);
        let t = insert_by_start(q, x);
        assert(r == t.push(l));
        assert(s =~= q.push(l));
        assert forall|i: int| 0 <= i < t.len() implies (#[trigger] t[i]).start.utc_secs <= l.start.utc_secs by {
            if t[i] != x {
                assert(q.contains(t[i]));
                let k = choose|k: int| 0 <= k < q.len() && q[k] == t[i];
                assert(q[k] == s[k]);
            }
        }
        assert forall|i: int| 0 <= i < r.len() implies s.contains(#[trigger] r[i]) || r[i] == x by {
            if i < t.len() {
                assert(r[i] == t[i]);
                if t[i] != x {
                    let k = choose|k: int| 0 <= k < q.len() && q[k] == t[i];
                    assert(s[k] == q[k]);
                }
            } else {
                assert(r[i] == s[s.len() - 1]);
            }
        }
        assert(r.to_multiset() =~= s.to_multiset().insert(x));
    }
}

/// The sort puts sessions in order of start and keeps every one of them.
pub proof fn lemma_sorted_by_start(s: Seq<SleepEvent>)
    ensures
        in_start_order(sorted_by_start(s)),
        sorted_by_start(s).to_multiset() == s.to_multiset(),
    decreases s.len(),
{
    broadcast use vstd::seq_lib::to_multiset_build;
    if s.len() == 0 {
        assert(sorted_by_start(s) =~= s);
    } else {
        let q = s.drop_last();
        lemma_sorted_by_start(q);
        lemma_insert_by_start(sorted_by_start(q), s.last());
        assert(s =~= q.push(s.last()));
    }
}

/// Sorts sessions by start, keeping sessions that start together in their order.
pub fn sort_by_start(sessions: Vec<SleepEvent>) -> (r: Vec<SleepEvent>)
    ensures
        r@ == sorted_by_start(sessions@),
        in_start_order(r@),
        r@.to_multiset() == sessions@.to_multiset(),
{
    proof {
        lemma_sorted_by_start(sessions@);
    }
    let ghost all = sessions@;
    let mut rest = sessions;
    let ghost mut done: Seq<SleepEvent> = Seq::empty();
    let mut r: Vec<SleepEvent> = Vec::new();
    while rest.len() > 0
        invariant
            all == done + rest@,
            r@ == sorted_by_start(done),
        decreases rest@.len(),
    {
        let x = rest.remove(0);
        proof {
            let prev = done;
            done = done.push(x);
            assert(all =~= done + rest@);
            assert(done.drop_last() =~= prev);
        }
        let mut p: usize = r.len();
        while p > 0 && r[p - 1].start.utc_secs > x.start.utc_secs
            invariant
                p <= r@.len(),
                forall|j: int| p <= j < r@.len() ==> (#[trigger] r@[j]).start.utc_secs > x.start.utc_secs,
            decreases p,
        {
            p -= 1;
        }
        proof {
            lemma_insert_at(r@, x, p as int);
        }
        r.insert(p, x);
    }
    assert(done =~= all);
    r
}

/// Whether `end` comes no later than the cutoff hour of local day `day`: on an
/// earlier day (the evening before), or on that day within the cutoff hour.
pub open spec fn ends_by_cutoff(end: Timestamp, day: int, cutoff_hour: int) -> bool {
    local_day_of(end) < day || (local_day_of(end) == day && local_hour_of(end) <= cutoff_hour)
}

/// Whether the walk, for the night that ends on local day `day`, takes in the
/// session at `i`: it has ended, no later than the cutoff hour of that day, and it starts no more than the longest gap after the one before
/// it ends.
pub open spec fn absorbs(s: Seq<SleepEvent>, i: int, day: int, cutoff_hour: int, max_gap_millis: int) -> bool {
    &&& s[i].end matches Some(end) && ends_by_cutoff(end, day, cutoff_hour)
    &&& (i == 0 || (s[i - 1].end matches Some(prev_end)
        && (s[i].start.utc_secs - prev_end.utc_secs) * 1000 <= max_gap_millis))
}

/// The number of sessions from `i` on that the walk takes in before it stops.
pub open spec fn run_from(s: Seq<SleepEvent>, i: int, day: int, cutoff_hour: int, max_gap_millis: int) -> nat
    decreases s.len() - i,
{
    if i < 0 || i >= s.len() || !absorbs(s, i, day, cutoff_hour, max_gap_millis) {
        0
    } else {
        1 + run_from(s, i + 1, day, cutoff_hour, max_gap_millis)
    }
}

/// The wakeups of one night: sessions, in the given order, that the walk takes in.
pub open spec fn wakeup_count(s: Seq<SleepEvent>, day: int, cutoff_hour: int, max_gap_millis: int) -> nat {
    run_from(s, 0, day, cutoff_hour, max_gap_millis)
}

proof fn lemma_run_length(s: Seq<SleepEvent>, k: int, n: int, day: int, cutoff_hour: int, max_gap_millis: int)
    requires
        0 <= k <= n <= s.len(),
        forall|j: int| 0 <= j < n ==> absorbs(s, j, day, cutoff_hour, max_gap_millis),
        n == s.len() || !absorbs(s, n, day, cutoff_hour, max_gap_millis),
    ensures
        run_from(s, k, day, cutoff_hour, max_gap_millis) == n - k,
    decreases n - k,
{
    if k < n {
        lemma_run_length(s, k + 1, n, day, cutoff_hour, max_gap_millis);
    }
}

/// Walks the sessions of the night that ends on local day `day`, already in
/// order of start, and counts those taken in before the first one that ends after
/// `cutoff_hour` of that day or starts more than `max_gap` after the previous one
/// ended. The session that stops the walk is not counted.
pub fn count_wakeups(sessions: &Vec<SleepEvent>, day: i64, cutoff_hour: u32, max_gap: Duration) -> (r: u64)
    ensures
        r == wakeup_count(sessions@, day as int, cutoff_hour as int, max_gap.millis as int),
{
    let n = sessions.len();
    let mut i: usize = 0;
    while i < n
        invariant
            n == sessions@.len(),
            i <= n,
            forall|j: int| 0 <= j < i ==> absorbs(sessions@, j, day as int, cutoff_hour as int, max_gap.millis as int),
        decreases n - i,
    {
        let e = &sessions[i];
        let stops = match e.end {
            Some(end) => {
                let end_day = end.local_day();
                if end_day > day || (end_day == day && end.local_hour() > cutoff_hour) {
                    true
                } else if i > 0 {
                    match sessions[i - 1].end {
                        Some(prev_end) => prev_end.seconds_until(&e.start) * 1000 > max_gap.millis as i128,
                        None => true,
                    }
                } else {
                    false
                }
            },
            None => true,
        };
        if stops {
            proof {
                lemma_run_length(sessions@, 0, i as int, day as int, cutoff_hour as int, max_gap.millis as int);
            }
            return i as u64;
        }
        i += 1;
    }
    proof {
        lemma_run_length(sessions@, 0, i as int, day as int, cutoff_hour as int, max_gap.millis as int);
    }
    i as u64
}

/// The wakeups of each day: its sessions sorted by start, then walked as
/// `count_wakeups` does. Every day gets a count, zero included.
pub fn wakeups_by_day(buckets: Vec<DayBucket<SleepEvent>>, cutoff_hour: u32, max_gap: Duration) -> (r: Vec<(i64, u64)>)
    ensures
        r@.len() == buckets@.len(),
        forall|i: int| 0 <= i < buckets@.len() ==> (#[trigger] r@[i]).0 == buckets@[i].day
            && r@[i].1 == wakeup_count(sorted_by_start(buckets@[i].items@), buckets@[i].day as int, cutoff_hour as int, max_gap.millis as int),
{
    let ghost all = buckets@;
    let mut rest = buckets;
    let mut r: Vec<(i64, u64)> = Vec::new();
    while rest.len() > 0
        invariant
            r@.len() + rest@.len() == all.len(),
            rest@ == all.subrange(r@.len() as int, all.len() as int),
            forall|i: int| 0 <= i < r@.len() ==> (#[trigger] r@[i]).0 == all[i].day
                && r@[i].1 == wakeup_count(sorted_by_start(all[i].items@), all[i].day as int, cutoff_hour as int, max_gap.millis as int),
        decreases rest@.len(),
    {
        let ghost k = r@.len() as int;
        let b = rest.remove(0);
        assert(b == all[k]);
        let day = b.day;
        let sorted = sort_by_start(b.items);
        let count = count_wakeups(&sorted, day, cutoff_hour, max_gap);
        r.push((day, count));
        assert(rest@ =~= all.subrange(r@.len() as int, all.len() as int));
    }
    r
}

} // verus!
