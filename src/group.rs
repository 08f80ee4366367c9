//! Grouping by local calendar day.

use vstd::prelude::*;

verus! {

/// The items of one local calendar day, in the order they came.
#[derive(Debug, Clone, PartialEq, Eq)]
pub struct DayBucket<T> {
    /// Days since 1970-01-01 on the local calendar.
    pub day: i64,
    pub items: Vec<T>,
}

/// The items keyed with `day`, in the order they came.
pub open spec fn items_on<T>(keyed: Seq<(i64, T)>, day: i64) -> Seq<T>
    decreases keyed.len(),
{
    if keyed.len() == 0 {
        Seq::empty()
    } else {
        let rest = items_on(keyed.drop_last(), day);
        if keyed.last().0 == day {
            rest.push(keyed.last().1)
        } else {
            rest
        }
    }
}

/// Whether `buckets` groups `keyed` by day: one bucket for each day that some item
/// has, in ascending order of day, each holding that day's items in order.
pub open spec fn groups<T>(keyed: Seq<(i64, T)>, buckets: Seq<DayBucket<T>>) -> bool {
    &&& forall|i: int, j: int| 0 <= i < j < buckets.len() ==> buckets[i].day < buckets[j].day
    &&& forall|i: int| 0 <= i < buckets.len() ==> (#[trigger] buckets[i]).items@ == items_on(keyed, buckets[i].day)
    &&& forall|i: int| 0 <= i < buckets.len() ==> (#[trigger] buckets[i]).items@.len() > 0
    &&& forall|d: i64| #[trigger] items_on(keyed, d).len() > 0 ==> exists|i: int| 0 <= i < buckets.len() && (#[trigger] buckets[i]).day == d
}

/// Partitions keyed items into buckets by day, ascending by day, keeping the
/// order of the items within each day.
pub fn group_by_day<T>(keyed: Vec<(i64, T)>) -> (r: Vec<DayBucket<T>>)
    ensures
        groups(keyed@, r@),
{
    let ghost all = keyed@;
    let mut rest = keyed;
    let mut buckets: Vec<DayBucket<T>> = Vec::new();
    let ghost mut done: Seq<(i64, T)> = Seq::empty();
    while rest.len() > 0
        invariant
            all == done + rest@,
            groups(done, buckets@),
        decreases rest@.len(),
    {
        let ghost old_buckets = buckets@;
        let ghost old_done = done;
        let item = rest.remove(0);
        let day = item.0;
        proof {
            done = done.push(item);
            assert(all =~= done + rest@);
            assert forall|d: i64| items_on(done, d) == (if d == day { items_on(old_done, d).push(item.1) } else { items_on(old_done, d) }) by {
                assert(done.drop_last() =~= old_done);
            }
        }
        let mut idx: usize = 0;
        while idx < buckets.len() && buckets[idx].day < day
            invariant
                idx <= buckets@.len(),
                buckets@ == old_buckets,
                forall|j: int| 0 <= j < idx ==> buckets@[j].day < day,
            decreases buckets@.len() - idx,
        {
            idx += 1;
        }
        if idx < buckets.len() && buckets[idx].day == day {
            let mut b = buckets.remove(idx);
            b.items.push(item.1);
            buckets.insert(idx, b);
            proof {
                assert(buckets@ =~= old_buckets.update(idx as int, b));
                assert forall|d: i64| #[trigger] items_on(done, d).len() > 0 implies exists|i: int| 0 <= i < buckets@.len() && (#[trigger] buckets@[i]).day == d by {
                    if d == day {
                        assert(buckets@[idx as int].day == d);
                    } else {
                        assert(items_on(old_done, d).len() > 0);
                        let i = choose|i: int| 0 <= i < old_buckets.len() && (#[trigger] old_buckets[i]).day == d;
                        assert(buckets@[i].day == d);
                    }
                }
            }
        } else {
            proof {
                assert forall|j: int| 0 <= j < old_buckets.len() implies (#[trigger] old_buckets[j]).day != day by {
                    if j >= idx {
                        assert(old_buckets[idx as int].day > day);
                        if j > idx {
                            assert(old_buckets[idx as int].day < old_buckets[j].day);
                        }
                    }
                }
                if items_on(old_done, day).len() > 0 {
                    let i = choose|i: int| 0 <= i < old_buckets.len() && (#[trigger] old_buckets[i]).day == day;
                    assert(old_buckets[i].day != day);
                }
                assert(items_on(old_done, day) =~= Seq::<T>::empty());
            }
            let mut items: Vec<T> = Vec::new();
            items.push(item.1);
            let b = DayBucket { day, items };
            buckets.insert(idx, b);
            proof {
                assert(buckets@ =~= old_buckets.insert(idx as int, b));
                assert(b.items@ =~= items_on(done, day));
                assert forall|i: int, j: int| 0 <= i < j < buckets@.len() implies buckets@[i].day < buckets@[j].day by {
                    if j < idx {
                    } else if j == idx {
                    } else if i < idx {
                        assert(buckets@[j] == old_buckets[j - 1]);
                        if j - 1 > idx {
                            assert(old_buckets[idx as int].day < old_buckets[j - 1].day);
                        }
                    } else if i == idx {
                        assert(buckets@[j] == old_buckets[j - 1]);
                        if j - 1 > idx {
                            assert(old_buckets[idx as int].day < old_buckets[j - 1].day);
                        }
                    } else {
                        assert(buckets@[j] == old_buckets[j - 1]);
                        assert(buckets@[i] == old_buckets[i - 1]);
                    }
                }
                assert forall|i: int| 0 <= i < buckets@.len() implies (#[trigger] buckets@[i]).items@ == items_on(done, buckets@[i].day) by {
                    if i < idx {
                        assert(buckets@[i] == old_buckets[i]);
                    } else if i > idx {
                        assert(buckets@[i] == old_buckets[i - 1]);
                    }
                }
                assert forall|i: int| 0 <= i < buckets@.len() implies (#[trigger] buckets@[i]).items@.len() > 0 by {
                    if i < idx {
                        assert(buckets@[i] == old_buckets[i]);
                    } else if i > idx {
                        assert(buckets@[i] == old_buckets[i - 1]);
                    }
                }
                assert forall|d: i64| #[trigger] items_on(done, d).len() > 0 implies exists|i: int| 0 <= i < buckets@.len() && (#[trigger] buckets@[i]).day == d by {
                    if d == day {
                        assert(buckets@[idx as int].day == d);
                    } else {
                        assert(items_on(old_done, d).len() > 0);
                        let i = choose|i: int| 0 <= i < old_buckets.len() && (#[trigger] old_buckets[i]).day == d;
                        if i < idx {
                            assert(buckets@[i].day == d);
                        } else {
                            assert(buckets@[i + 1].day == d);
                        }
                    }
                }
            }
        }
    }
    assert(done =~= all);
    buckets
}

} // verus!
