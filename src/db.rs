use crate::item::{checked_time, TODOItem, TodoError};
use crate::stamp::{after_point, local_midnight_today, now_stamp, Stamp};
use vstd::prelude::*;

verus! {

/// Seconds in a day.
pub const DAY_SECS: i64 = 86_400;

/// The first second of the window of the last `n` days, the current day
/// counted as the first: `n - 1` days before `midnight`.
pub open spec fn window_start(midnight: Stamp, n: int) -> int {
    midnight.secs - (n - 1) * DAY_SECS
}

/// Positions, in order, of the records created strictly after the instant
/// `secs` seconds and `nanos` nanoseconds past the epoch.
pub open spec fn window(items: Seq<TODOItem>, secs: int, nanos: int) -> Seq<usize>
    decreases items.len(),
{
    if items.len() == 0 {
        seq![]
    } else {
        let w = window(items.drop_last(), secs, nanos);
        if after_point(items.last().create_time, secs, nanos) {
            w.push((items.len() - 1) as usize)
        } else {
            w
        }
    }
}

/// The view of the last `n` days, given today's local midnight.
pub open spec fn days_view(items: Seq<TODOItem>, n: int, midnight: Stamp) -> Seq<usize> {
    window(items, window_start(midnight, n), midnight.nanos as int)
}

/// Today's view, given today's local midnight.
pub open spec fn today_view(items: Seq<TODOItem>, midnight: Stamp) -> Seq<usize> {
    days_view(items, 1, midnight)
}

/// A record once checked at `now`.
pub open spec fn checked_item(item: TODOItem, now: Stamp) -> TODOItem {
    TODOItem {
        create_time: item.create_time,
        check_time: checked_time(item.check_time, item.create_time, now),
        content: item.content,
    }
}

/// What checking position `index` of today's view answers.
pub open spec fn check_outcome(items: Seq<TODOItem>, index: int, midnight: Stamp) -> Result<
    (),
    TodoError,
> {
    if 0 <= index < today_view(items, midnight).len() {
        Ok(())
    } else {
        Err(TodoError::InvalidIndex)
    }
}

/// The records after checking position `index` of today's view at `now`.
pub open spec fn after_check(items: Seq<TODOItem>, index: int, midnight: Stamp, now: Stamp) -> Seq<
    TODOItem,
> {
    let w = today_view(items, midnight);
    if 0 <= index < w.len() {
        items.update(w[index] as int, checked_item(items[w[index] as int], now))
    } else {
        items
    }
}

/// Every position in the window holds a record, positions rise strictly, and
/// a position is in the window exactly when its record was created after the
/// start.
pub proof fn lemma_window_exact(items: Seq<TODOItem>, secs: int, nanos: int)
    requires
        items.len() <= usize::MAX,
    ensures
        forall|j: int|
            0 <= j < window(items, secs, nanos).len() ==> {
                &&& window(items, secs, nanos)[j] < items.len()
                &&& after_point(items[window(items, secs, nanos)[j] as int].create_time, secs, nanos)
            },
        forall|j: int, l: int|
            0 <= j < l < window(items, secs, nanos).len() ==> window(items, secs, nanos)[j]
                < window(items, secs, nanos)[l],
        forall|k: int|
            0 <= k < items.len() && after_point(items[k].create_time, secs, nanos) ==> exists|
                j: int,
            |
                0 <= j < window(items, secs, nanos).len() && window(items, secs, nanos)[j] == k,
    decreases items.len(),
{
    if items.len() > 0 {
        let prev = items.drop_last();
        lemma_window_exact(prev, secs, nanos);
        let w = window(prev, secs, nanos);
        assert forall|k: int|
            0 <= k < items.len() && after_point(items[k].create_time, secs, nanos) implies exists|
                j: int,
            |
                0 <= j < window(items, secs, nanos).len() && window(items, secs, nanos)[j] == k by {
            if k < items.len() - 1 {
                assert(prev[k] == items[k]);
                let j = choose|j: int| 0 <= j < w.len() && w[j] == k;
                assert(window(items, secs, nanos)[j] == k);
            } else {
                assert(items.last() == items[k]);
                let ww = window(items, secs, nanos);
                assert(ww[ww.len() - 1] == k);
            }
        }
    }
}

/// The windowed view of the last `n` days holds exactly the records created
/// strictly after `n - 1` days before today's local midnight, in the order of
/// the collection.
pub proof fn lemma_days_view_exact(items: Seq<TODOItem>, n: int, midnight: Stamp)
    requires
        n >= 1,
        items.len() <= usize::MAX,
    ensures
        forall|j: int|
            0 <= j < days_view(items, n, midnight).len() ==> {
                &&& days_view(items, n, midnight)[j] < items.len()
                &&& after_point(
                    items[days_view(items, n, midnight)[j] as int].create_time,
                    window_start(midnight, n),
                    midnight.nanos as int,
                )
            },
        forall|j: int, l: int|
            0 <= j < l < days_view(items, n, midnight).len() ==> days_view(items, n, midnight)[j]
                < days_view(items, n, midnight)[l],
        forall|k: int|
            0 <= k < items.len() && after_point(
                items[k].create_time,
                window_start(midnight, n),
                midnight.nanos as int,
            ) ==> exists|j: int|
                0 <= j < days_view(items, n, midnight).len() && days_view(items, n, midnight)[j]
                    == k,
{
    lemma_window_exact(items, window_start(midnight, n), midnight.nanos as int);
}

/// A completion time, once set, is kept by every later check: checking any
/// position of today's view at any time leaves each completed record's
/// completion time as it was.
pub proof fn lemma_completion_kept(
    items: Seq<TODOItem>,
    index: int,
    midnight: Stamp,
    now: Stamp,
)
    requires
        items.len() <= usize::MAX,
    ensures
        after_check(items, index, midnight, now).len() == items.len(),
        forall|k: int|
            0 <= k < items.len() && items[k].check_time is Some ==> after_check(
                items,
                index,
                midnight,
                now,
            )[k].check_time == items[k].check_time,
{
    lemma_window_exact(items, window_start(midnight, 1), midnight.nanos as int);
}

/// Checking position `index` of today's view acts on the record that the
/// view holds at that position, not on the record at `index` of the
/// collection: an open record there becomes completed at `now` (at its
/// creation, where `now` comes earlier), and every other record is left as it
/// was.
pub proof fn lemma_check_targets_view(
    items: Seq<TODOItem>,
    index: int,
    midnight: Stamp,
    now: Stamp,
)
    requires
        items.len() <= usize::MAX,
        0 <= index < today_view(items, midnight).len(),
    ensures
        ({
            let k = today_view(items, midnight)[index] as int;
            let r = after_check(items, index, midnight, now);
            &&& 0 <= k < items.len()
            &&& r.len() == items.len()
            &&& r[k].create_time == items[k].create_time
            &&& r[k].content == items[k].content
            &&& items[k].check_time is None && !now.before(items[k].create_time) ==> r[k].check_time
                == Some(now)
            &&& items[k].check_time is None && now.before(items[k].create_time) ==> r[k].check_time
                == Some(items[k].create_time)
            &&& forall|l: int| 0 <= l < items.len() && l != k ==> r[l] == items[l]
        }),
{
    lemma_window_exact(items, window_start(midnight, 1), midnight.nanos as int);
}

/// A collection of records bound to the path of the file that holds them.
pub struct DB {
    pub path: String,
    pub items: Vec<TODOItem>,
}

impl DB {
    pub open spec fn wf(&self) -> bool {
        forall|k: int| 0 <= k < self.items@.len() ==> (#[trigger] self.items@[k]).wf()
    }

    /// An empty collection bound to `path`; nothing is read.
    pub fn new(path: String) -> (r: DB)
        ensures
            r.path == path,
            r.items@.len() == 0,
            r.wf(),
    {
        DB { path, items: Vec::new() }
    }

    /// Appends `item` at the end of the collection.
    pub fn insert(&mut self, item: TODOItem)
        ensures
            final(self).path == old(self).path,
            final(self).items@ == old(self).items@.push(item),
            old(self).wf() && item.wf() ==> final(self).wf(),
    {
        self.items.push(item);
    }

    /// Appends `records`, in their order, at the end of the collection.
    pub fn load(&mut self, records: Vec<TODOItem>)
        ensures
            final(self).path == old(self).path,
            final(self).items@ == old(self).items@ + records@,
            old(self).wf() && (forall|k: int| 0 <= k < records@.len() ==> (#[trigger] records@[k]).wf())
                ==> final(self).wf(),
    {
        let mut records = records;
        self.items.append(&mut records);
    }

    /// Positions, in order, of the records created strictly after `n - 1`
    /// days before `midnight`.
    pub fn windowed(&self, n: u64, midnight: Stamp) -> (r: Vec<usize>)
        requires
            n >= 1,
        ensures
            r@ == days_view(self.items@, n as int, midnight),
            forall|j: int| 0 <= j < r@.len() ==> r@[j] < self.items@.len(),
    {
        let start: i128 = midnight.secs as i128 - (n as i128 - 1) * (DAY_SECS as i128);
        let mut r: Vec<usize> = Vec::new();
        let mut i: usize = 0;
        while i < self.items.len()
            invariant
                i <= self.items@.len(),
                start == window_start(midnight, n as int),
                r@ == window(self.items@.take(i as int), start as int, midnight.nanos as int),
            decreases self.items@.len() - i,
        {
            let t = self.items[i].create_time;
            proof {
                let s = self.items@.take(i as int + 1);
                assert(s.drop_last() =~= self.items@.take(i as int));
            }
            if (t.secs as i128) > start || ((t.secs as i128) == start && t.nanos > midnight.nanos) {
                r.push(i);
            }
            i = i + 1;
        }
        assert(self.items@.take(self.items@.len() as int) =~= self.items@);
        proof {
            lemma_days_view_exact(self.items@, n as int, midnight);
        }
        r
    }

    /// Positions, in order, of the records created since `midnight`.
    pub fn today_at(&self, midnight: Stamp) -> (r: Vec<usize>)
        ensures
            r@ == today_view(self.items@, midnight),
            forall|j: int| 0 <= j < r@.len() ==> r@[j] < self.items@.len(),
    {
        self.windowed(1, midnight)
    }

    /// Positions, in order, of the records created in the last `n` local
    /// days, today counted as the first.
    pub fn get_todos_in_last_n_days(&self, n: u64) -> (r: Result<Vec<usize>, TodoError>)
        requires
            n >= 1,
        ensures
            r matches Ok(v) ==> exists|m: Stamp|
                m.wf() && m.is_local_midnight() && v@ == days_view(self.items@, n as int, m),
            r matches Err(e) ==> e == TodoError::ClockError,
    {
        match local_midnight_today() {
            Some(m) => Ok(self.windowed(n, m)),
            None => Err(TodoError::ClockError),
        }
    }

    /// Positions, in order, of the records created since local midnight.
    pub fn get_todays_todo(&self) -> (r: Result<Vec<usize>, TodoError>)
        ensures
            r matches Ok(v) ==> exists|m: Stamp|
                m.wf() && m.is_local_midnight() && v@ == today_view(self.items@, m),
            r matches Err(e) ==> e == TodoError::ClockError,
    {
        self.get_todos_in_last_n_days(1)
    }

    /// Checks, at `now`, the record at position `index` of the view of the
    /// records created since `midnight`; a position outside that view is
    /// refused and nothing changes.
    pub fn check_todo_at(&mut self, index: usize, midnight: Stamp, now: Stamp) -> (r: Result<
        (),
        TodoError,
    >)
        ensures
            final(self).path == old(self).path,
            r == check_outcome(old(self).items@, index as int, midnight),
            final(self).items@ == after_check(old(self).items@, index as int, midnight, now),
            old(self).wf() && now.wf() ==> final(self).wf(),
    {
        let w = self.today_at(midnight);
        if index < w.len() {
            let k = w[index];
            let ghost before = self.items@;
            let mut item = self.items.remove(k);
            item.check_at(now);
            self.items.insert(k, item);
            assert(self.items@ =~= after_check(before, index as int, midnight, now));
            Ok(())
        } else {
            Err(TodoError::InvalidIndex)
        }
    }

    /// Checks, now, the record at position `index` of today's view.
    pub fn check_todo(&mut self, index: usize) -> (r: Result<(), TodoError>)
        ensures
            final(self).path == old(self).path,
            r == Err::<(), TodoError>(TodoError::ClockError) ==> final(self).items@ == old(self).items@,
            r != Err::<(), TodoError>(TodoError::ClockError) ==> exists|m: Stamp, now: Stamp|
                {
                    &&& m.wf()
                    &&& m.is_local_midnight()
                    &&& now.wf()
                    &&& r == check_outcome(old(self).items@, index as int, m)
                    &&& final(self).items@ == after_check(old(self).items@, index as int, m, now)
                },
            old(self).wf() ==> final(self).wf(),
    {
        match local_midnight_today() {
            Some(m) => {
                let now = now_stamp();
                self.check_todo_at(index, m, now)
            },
            None => Err(TodoError::ClockError),
        }
    }
}

} // verus!
