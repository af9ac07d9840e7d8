use vstd::prelude::*;
use crate::clock::{millis_sum, wrap_add};

verus! {

/// Number of entries in the timer table.
pub const TIMER_SLOTS: usize = 8;

/// A periodic software timer: the callback to run, named by an id that the
/// caller resolves, its period, and when it fires next (0: disabled).
#[derive(PartialEq, Eq, Structural, Debug, Clone, Copy)]
pub struct TimerEntry {
    pub callback: usize,
    pub interval_ms: u32,
    pub next_fire_ms: u32,
}

/// Whether `e` fires at time `now`.
pub open spec fn is_due(e: TimerEntry, now: u32) -> bool {
    e.next_fire_ms != 0 && now >= e.next_fire_ms
}

/// The slot after a poll at `now`: a due entry is set to fire one period
/// after `now`; anything else is unchanged.
pub open spec fn after_poll(o: Option<TimerEntry>, now: u32) -> Option<TimerEntry> {
    match o {
        Some(e) => if is_due(e, now) {
            Some(TimerEntry { next_fire_ms: wrap_add(now, e.interval_ms), ..e })
        } else {
            o
        },
        None => o,
    }
}

/// The callbacks of the due entries of `s`, in table order.
pub open spec fn due_callbacks(s: Seq<Option<TimerEntry>>, now: u32) -> Seq<usize>
    decreases s.len(),
{
    if s.len() == 0 {
        Seq::empty()
    } else {
        let rest = due_callbacks(s.drop_last(), now);
        match s.last() {
            Some(e) => if is_due(e, now) { rest.push(e.callback) } else { rest },
            None => rest,
        }
    }
}

/// A fixed table of periodic timers, scanned by a worker.
pub struct TimerTable {
    entries: Vec<Option<TimerEntry>>,
}

impl TimerTable {
    pub closed spec fn view(&self) -> Seq<Option<TimerEntry>> {
        self.entries@
    }

    pub open spec fn wf(&self) -> bool {
        self@.len() == TIMER_SLOTS
    }

    /// A table with every slot empty.
    pub fn new() -> (t: TimerTable)
        ensures
            t.wf(),
            forall|j: int| 0 <= j < t@.len() ==> t@[j] is None,
    {
        let mut entries: Vec<Option<TimerEntry>> = Vec::new();
        let mut i: usize = 0;
        while i < TIMER_SLOTS
            invariant
                i <= TIMER_SLOTS,
                entries@.len() == i,
                forall|j: int| 0 <= j < i ==> entries@[j] is None,
            decreases TIMER_SLOTS - i,
        {
            entries.push(None);
            i = i + 1;
        }
        TimerTable { entries }
    }

    /// Puts a timer into the first empty slot and returns its index; `None`
    /// with the table full, which is then unchanged.
    pub fn register(&mut self, callback: usize, interval_ms: u32, first_fire_ms: u32) -> (r: Option<usize>)
        requires
            old(self).wf(),
        ensures
            final(self).wf(),
            r is Some <==> exists|j: int| 0 <= j < old(self)@.len() && old(self)@[j] is None,
            match r {
                Some(i) => i < TIMER_SLOTS
                    && old(self)@[i as int] is None
                    && (forall|j: int| 0 <= j < i ==> old(self)@[j] is Some)
                    && final(self)@ == old(self)@.update(i as int, Some(TimerEntry {
                        callback, interval_ms, next_fire_ms: first_fire_ms })),
                None => final(self)@ == old(self)@,
            },
    {
        let mut i: usize = 0;
        while i < self.entries.len()
            invariant
                i <= self@.len(),
                self@ == old(self)@,
                self.wf(),
                forall|j: int| 0 <= j < i ==> self@[j] is Some,
            decreases self@.len() - i,
        {
            if self.entries[i].is_none() {
                self.entries.set(i, Some(TimerEntry { callback, interval_ms, next_fire_ms: first_fire_ms }));
                return Some(i);
            }
            i = i + 1;
        }
        None
    }

    /// One scan of the table at time `now`: every due entry fires once and
    /// is set to fire again one period after `now`. Returns the callbacks
    /// of the entries that fired, in table order.
    pub fn poll_once(&mut self, now: u32) -> (fired: Vec<usize>)
        requires
            old(self).wf(),
        ensures
            final(self).wf(),
            final(self)@ == Seq::new(old(self)@.len(), |j: int| after_poll(old(self)@[j], now)),
            fired@ == due_callbacks(old(self)@, now),
    {
        let ghost start = self@;
        let mut fired: Vec<usize> = Vec::new();
        let mut i: usize = 0;
        while i < self.entries.len()
            invariant
                i <= self@.len(),
                self.wf(),
                start.len() == TIMER_SLOTS,
                forall|j: int| 0 <= j < i ==> self@[j] == after_poll(start[j], now),
                forall|j: int| i <= j < TIMER_SLOTS ==> self@[j] == start[j],
                fired@ == due_callbacks(start.subrange(0, i as int), now),
            decreases self@.len() - i,
        {
            assert(start.subrange(0, i + 1).drop_last() =~= start.subrange(0, i as int));
            match self.entries[i] {
                Some(e) => {
                    if e.next_fire_ms != 0 && now >= e.next_fire_ms {
                        fired.push(e.callback);
                        let next = millis_sum(now, e.interval_ms);
                        self.entries.set(i, Some(TimerEntry { next_fire_ms: next, ..e }));
                    }
                },
                None => {},
            }
            i = i + 1;
        }
        assert(start.subrange(0, TIMER_SLOTS as int) =~= start);
        assert(self@ =~= Seq::new(start.len(), |j: int| after_poll(start[j], now)));
        fired
    }
}

/// An entry that fires at `now` is set to fire one full period later, so
/// a poll before that, at any `later` from `now` on, does not fire it again:
/// one fire per poll and no burst of catch-up fires.
pub proof fn lemma_fires_once_per_period(e: TimerEntry, now: u32, later: u32)
    requires
        is_due(e, now),
        now as int + e.interval_ms as int <= u32::MAX as int,
        now <= later,
        (later as int) < now as int + e.interval_ms as int,
    ensures
        after_poll(Some(e), now) == Some(TimerEntry { next_fire_ms: (now + e.interval_ms) as u32, ..e }),
        !is_due(after_poll(Some(e), now)->Some_0, later),
{
}

} // verus!
