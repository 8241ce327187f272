//! A document's task bookkeeping: host timers and their page-script slots,
//! the bounded event log, the `fetch` admission cap, and when the renderer
//! loop wakes next.
//!
//! Time is a count of milliseconds on the renderer's monotonic clock; the
//! caller reads the clock and hands the value in.

use vstd::prelude::*;
use std::collections::HashMap;
use crate::frames::{dialable_scheme, resolve_dial_url, resolve_spec, scheme_of};

verus! {

broadcast use vstd::std_specs::hash::group_hash_axioms;

/// Concurrent `fetch` jobs one document may keep in flight.
pub const MAX_PENDING_JS_FETCHES: usize = 256;

/// Retained events before a document reports overflow.
pub const MAX_PENDING_EVENTS: usize = 2048;

/// One host timer.
#[derive(Clone, Copy, Debug, PartialEq, Eq, Structural)]
pub struct Timer {
    /// The page-visible timer id.
    pub id: u32,
    /// When the timer is due.
    pub when: u64,
    /// Whether the timer has been handed out as due.
    pub fired: bool,
}

/// The earliest `when` among the timers that have not fired.
pub open spec fn earliest_unfired(timers: Seq<Timer>) -> Option<u64>
    decreases timers.len(),
{
    if timers.len() == 0 {
        None
    } else {
        let rest = earliest_unfired(timers.drop_last());
        let t = timers.last();
        if t.fired {
            rest
        } else {
            match rest {
                None => Some(t.when),
                Some(w) => Some(if t.when < w { t.when } else { w }),
            }
        }
    }
}

/// The position of the first unfired timer due at `now` with the earliest
/// `when`: the timer `due` hands out.
pub open spec fn first_due(timers: Seq<Timer>, now: u64) -> Option<int>
    decreases timers.len(),
{
    if timers.len() == 0 {
        None
    } else {
        let rest = first_due(timers.drop_last(), now);
        let t = timers.last();
        let i = timers.len() - 1;
        if t.fired || t.when > now {
            rest
        } else {
            match rest {
                None => Some(i),
                Some(j) => if t.when < timers[j].when {
                    Some(i)
                } else {
                    Some(j)
                },
            }
        }
    }
}

/// The timers without any whose id is `id`.
pub open spec fn without_id(timers: Seq<Timer>, id: u32) -> Seq<Timer> {
    timers.filter(|t: Timer| t.id != id)
}

/// A document's host timers, the next id to hand out, and which timers
/// belong to page-script timeouts.
pub struct TimerQueue {
    timers: Vec<Timer>,
    next_timer_id: u32,
    js_timer_slots: HashMap<u32, i32>,
}

impl TimerQueue {
    /// The timers, in scheduling order.
    pub closed spec fn timers(&self) -> Seq<Timer> {
        self.timers@
    }

    /// The id the next scheduled timer gets.
    pub closed spec fn next_id(&self) -> u32 {
        self.next_timer_id
    }

    /// Which page-script timeout each page timer id belongs to.
    pub closed spec fn slots(&self) -> Map<u32, i32> {
        self.js_timer_slots@
    }

    /// No timers; ids start at 1.
    pub fn new() -> (queue: Self)
        ensures
            queue.timers() == Seq::<Timer>::empty(),
            queue.next_id() == 1,
            queue.slots() == Map::<u32, i32>::empty(),
    {
        TimerQueue { timers: Vec::new(), next_timer_id: 1, js_timer_slots: HashMap::new() }
    }

    /// HTML host timer: due `delay` after `now`. Returns its id; ids count up
    /// and stop at `u32::MAX`.
    pub fn schedule_timer(&mut self, now: u64, delay: u64) -> (id: u32)
        requires
            now + delay <= u64::MAX,
        ensures
            id == old(self).next_id(),
            final(self).next_id() == (if old(self).next_id() == u32::MAX {
                u32::MAX
            } else {
                (old(self).next_id() + 1) as u32
            }),
            final(self).timers() == old(self).timers().push(
                Timer { id, when: (now + delay) as u64, fired: false },
            ),
            final(self).slots() == old(self).slots(),
    {
        let id = self.next_timer_id;
        self.next_timer_id = self.next_timer_id.saturating_add(1);
        self.timers.push(Timer { id, when: now + delay, fired: false });
        id
    }

    /// Earliest timer deadline this document waits for.
    pub fn next_timer_deadline(&self) -> (deadline: Option<u64>)
        ensures
            deadline == earliest_unfired(self.timers()),
    {
        let mut best: Option<u64> = None;
        let mut i: usize = 0;
        while i < self.timers.len()
            invariant
                i <= self.timers@.len(),
                best == earliest_unfired(self.timers@.take(i as int)),
            decreases self.timers@.len() - i,
        {
            assert(self.timers@.take(i + 1).drop_last() =~= self.timers@.take(i as int));
            let t = self.timers[i];
            if !t.fired {
                best = match best {
                    None => Some(t.when),
                    Some(w) => Some(if t.when < w { t.when } else { w }),
                };
            }
            i = i + 1;
        }
        assert(self.timers@.take(self.timers@.len() as int) =~= self.timers@);
        best
    }

    /// The id of the earliest unfired timer due at `now`, the first of equals
    /// in scheduling order, marking it fired.
    pub fn due_timer(&mut self, now: u64) -> (id: Option<u32>)
        ensures
            match first_due(old(self).timers(), now) {
                None => id is None && final(self).timers() == old(self).timers(),
                Some(k) => id == Some(old(self).timers()[k].id) && final(self).timers() == old(self).timers().update(k, Timer { fired: true, ..old(self).timers()[k] }),
            },
            final(self).next_id() == old(self).next_id(),
            final(self).slots() == old(self).slots(),
    {
        let mut best: Option<usize> = None;
        let mut i: usize = 0;
        while i < self.timers.len()
            invariant
                i <= self.timers@.len(),
                (match best {
                    Some(b) => Some(b as int),
                    None => None::<int>,
                }) == first_due(self.timers@.take(i as int), now),
                best matches Some(b) ==> b < i,
            decreases self.timers@.len() - i,
        {
            let ghost prefix = self.timers@.take(i + 1);
            assert(prefix.drop_last() =~= self.timers@.take(i as int));
            let t = self.timers[i];
            if !t.fired && t.when <= now {
                match best {
                    None => {
                        best = Some(i);
                    },
                    Some(b) => {
                        assert(prefix[b as int] == self.timers@[b as int]);
                        if t.when < self.timers[b].when {
                            best = Some(i);
                        }
                    },
                }
            }
            i = i + 1;
        }
        assert(self.timers@.take(self.timers@.len() as int) =~= self.timers@);
        match best {
            None => None,
            Some(b) => {
                proof {
                    lemma_first_due_in_range(self.timers@, now);
                }
                let t = self.timers[b];
                self.timers.set(b, Timer { id: t.id, when: t.when, fired: true });
                Some(t.id)
            },
        }
    }

    /// Drops every timer with this id.
    pub fn remove_timer(&mut self, id: u32)
        ensures
            final(self).timers() == without_id(old(self).timers(), id),
            final(self).next_id() == old(self).next_id(),
            final(self).slots() == old(self).slots(),
    {
        let mut kept: Vec<Timer> = Vec::new();
        let mut i: usize = 0;
        while i < self.timers.len()
            invariant
                i <= self.timers@.len(),
                kept@ == without_id(self.timers@.take(i as int), id),
            decreases self.timers@.len() - i,
        {
            proof {
                reveal_with_fuel(Seq::filter, 1);
            }
            assert(self.timers@.take(i + 1).drop_last() =~= self.timers@.take(i as int));
            let t = self.timers[i];
            if t.id != id {
                kept.push(t);
            }
            i = i + 1;
        }
        assert(self.timers@.take(self.timers@.len() as int) =~= self.timers@);
        self.timers = kept;
    }

    /// Schedules the host timer for a page-script timeout and records which
    /// timeout it belongs to.
    pub fn schedule_js_timeout(&mut self, now: u64, delay: u64, js_id: i32) -> (id: u32)
        requires
            now + delay <= u64::MAX,
        ensures
            id == old(self).next_id(),
            final(self).timers() == old(self).timers().push(
                Timer { id, when: (now + delay) as u64, fired: false },
            ),
            final(self).slots() == old(self).slots().insert(id, js_id),
            final(self).next_id() == next_timer_id(old(self).next_id()),
    {
        let id = self.schedule_timer(now, delay);
        self.js_timer_slots.insert(id, js_id);
        id
    }

    /// The page-script timeout a fired host timer belongs to, forgetting the
    /// link.
    pub fn take_slot(&mut self, id: u32) -> (js_id: Option<i32>)
        ensures
            match js_id {
                Some(j) => old(self).slots().contains_key(id) && old(self).slots()[id] == j,
                None => !old(self).slots().contains_key(id),
            },
            final(self).slots() == old(self).slots().remove(id),
            final(self).timers() == old(self).timers(),
            final(self).next_id() == old(self).next_id(),
    {
        self.js_timer_slots.remove(&id)
    }

    /// Cancels a page-script timeout: when some host timer belongs to it, that
    /// link and that timer's entries go. Returns the host timer id it
    /// dropped.
    pub fn cancel_js_timeout(&mut self, js_id: i32) -> (dropped: Option<u32>)
        ensures
            match dropped {
                Some(page) => old(self).slots().contains_key(page) && old(self).slots()[page]
                    == js_id && final(self).slots() == old(self).slots().remove(page) && final(self).timers() == without_id(old(self).timers(), page),
                None => (forall|page: u32|
                    old(self).slots().contains_key(page) ==> old(self).slots()[page] != js_id)
                    && final(self).slots() == old(self).slots() && final(self).timers() == old(self).timers(),
            },
            final(self).next_id() == old(self).next_id(),
    {
        let mut found: Option<u32> = None;
        for entry in it: self.js_timer_slots.iter()
            invariant
                found matches Some(p) ==> self.js_timer_slots@.contains_key(p)
                    && self.js_timer_slots@[p] == js_id,
                found is None ==> forall|j: int| 0 <= j < it.index() ==> *it.seq()[j].1 != js_id,
        {
            let (page, slot) = entry;
            if found.is_none() && *slot == js_id {
                found = Some(*page);
            }
        }
        match found {
            Some(page) => {
                self.js_timer_slots.remove(&page);
                self.remove_timer(page);
                Some(page)
            },
            None => None,
        }
    }
}

/// A page-script timeout waiting for its host timer: the script's timeout
/// id and the delay it asked for.
#[derive(Clone, Copy, Debug, PartialEq, Eq, Structural)]
pub struct PendingTimeout {
    pub js_id: i32,
    pub delay: u64,
}

/// The timer queue as values: timers, next id, and script slots.
pub struct QueueState {
    pub timers: Seq<Timer>,
    pub next: u32,
    pub slots: Map<u32, i32>,
}

/// The next id after `id`; ids stop at `u32::MAX`.
pub open spec fn next_timer_id(id: u32) -> u32 {
    if id == u32::MAX {
        u32::MAX
    } else {
        (id + 1) as u32
    }
}

/// The queue after each timeout not in `cancels` got its host timer, in
/// order.
pub open spec fn schedule_all(q: QueueState, now: u64, timeouts: Seq<PendingTimeout>, cancels: Seq<i32>) -> QueueState
    decreases timeouts.len(),
{
    if timeouts.len() == 0 {
        q
    } else {
        let rest = schedule_all(q, now, timeouts.drop_last(), cancels);
        let t = timeouts.last();
        if cancels.contains(t.js_id) {
            rest
        } else {
            QueueState {
                timers: rest.timers.push(Timer { id: rest.next, when: (now + t.delay) as u64, fired: false }),
                next: next_timer_id(rest.next),
                slots: rest.slots.insert(rest.next, t.js_id),
            }
        }
    }
}

/// The timers without those whose id is in `dropped`.
pub open spec fn without_ids(timers: Seq<Timer>, dropped: Seq<u32>) -> Seq<Timer> {
    timers.filter(|t: Timer| !dropped.contains(t.id))
}

/// The slots without the host timer ids in `dropped`.
pub open spec fn without_keys(slots: Map<u32, i32>, dropped: Seq<u32>) -> Map<u32, i32> {
    Map::new(|k: u32| slots.contains_key(k) && !dropped.contains(k), |k: u32| slots[k])
}

/// What pushing adds to a sequence's members.
proof fn lemma_push_contains(s: Seq<u32>, x: u32, y: u32)
    ensures
        s.push(x).contains(y) == (s.contains(y) || y == x),
{
    if y == x {
        assert(s.push(x)[s.len() as int] == x);
    }
    if s.push(x).contains(y) && y != x {
        let k = choose|k: int| 0 <= k < s.push(x).len() && s.push(x)[k] == y;
        assert(s[k] == y);
    }
    if s.contains(y) {
        let k = choose|k: int| 0 <= k < s.len() && s[k] == y;
        assert(s.push(x)[k] == y);
    }
}

/// Dropping the timers of no id keeps them all.
proof fn lemma_without_no_ids(timers: Seq<Timer>)
    ensures
        without_ids(timers, Seq::empty()) == timers,
    decreases timers.len(),
{
    reveal_with_fuel(Seq::filter, 1);
    if timers.len() > 0 {
        lemma_without_no_ids(timers.drop_last());
        assert(timers.drop_last().push(timers.last()) =~= timers);
    } else {
        assert(without_ids(timers, Seq::empty()) =~= timers);
    }
}

/// Dropping the timers of one more id is filtering that id out too.
proof fn lemma_without_ids_push(timers: Seq<Timer>, dropped: Seq<u32>, id: u32)
    ensures
        without_id(without_ids(timers, dropped), id) == without_ids(timers, dropped.push(id)),
    decreases timers.len(),
{
    reveal_with_fuel(Seq::filter, 1);
    if timers.len() > 0 {
        let rest = timers.drop_last();
        let t = timers.last();
        lemma_without_ids_push(rest, dropped, id);
        lemma_push_contains(dropped, id, t.id);
        let w = without_ids(timers, dropped);
        let wr = without_ids(rest, dropped);
        if dropped.contains(t.id) {
            assert(w == wr);
            assert(without_ids(timers, dropped.push(id)) == without_ids(rest, dropped.push(id)));
        } else {
            assert(w == wr.push(t));
            assert(w.drop_last() =~= wr);
            assert(w.last() == t);
            if t.id == id {
                assert(without_id(w, id) == without_id(wr, id));
                assert(without_ids(timers, dropped.push(id)) == without_ids(rest, dropped.push(id)));
            } else {
                assert(without_id(w, id) == without_id(wr, id).push(t));
                assert(without_ids(timers, dropped.push(id)) == without_ids(rest, dropped.push(id)).push(t));
            }
        }
    } else {
        assert(without_ids(timers, dropped.push(id)) =~= Seq::<Timer>::empty());
        assert(without_ids(timers, dropped) =~= Seq::<Timer>::empty());
        assert(without_id(without_ids(timers, dropped), id) =~= Seq::<Timer>::empty());
    }
}

impl TimerQueue {
    /// The queue as values.
    pub closed spec fn state(&self) -> QueueState {
        QueueState { timers: self.timers@, next: self.next_timer_id, slots: self.js_timer_slots@ }
    }

    /// Cancels page-script timeouts: for each id, the host timer that
    /// belongs to it (when one does) loses its link and its timer entries.
    /// Returns the host timer ids dropped.
    pub fn cancel_js_timeouts(&mut self, cancels: &Vec<i32>) -> (dropped: Vec<u32>)
        ensures
            final(self).next_id() == old(self).next_id(),
            final(self).slots() == without_keys(old(self).slots(), dropped@),
            final(self).timers() == without_ids(old(self).timers(), dropped@),
            forall|k: int| 0 <= k < dropped@.len() ==> old(self).slots().contains_key(#[trigger] dropped@[k])
                && cancels@.contains(old(self).slots()[dropped@[k]]),
            forall|c: int, page: u32| 0 <= c < cancels@.len() && old(self).slots().contains_key(page)
                && old(self).slots()[page] == cancels@[c] ==> exists|k: int| 0 <= k < dropped@.len()
                && #[trigger] dropped@[k] == dropped@[k] && old(self).slots().contains_key(dropped@[k])
                && old(self).slots()[dropped@[k]] == cancels@[c],
    {
        let ghost start = self.slots();
        let ghost start_timers = self.timers();
        let mut dropped: Vec<u32> = Vec::new();
        let mut i: usize = 0;
        assert(without_keys(start, dropped@) =~= start);
        proof {
            lemma_without_no_ids(start_timers);
        }
        while i < cancels.len()
            invariant
                i <= cancels@.len(),
                self.next_id() == old(self).next_id(),
                start == old(self).slots(),
                start_timers == old(self).timers(),
                self.slots() == without_keys(start, dropped@),
                self.timers() == without_ids(start_timers, dropped@),
                forall|k: int| 0 <= k < dropped@.len() ==> start.contains_key(#[trigger] dropped@[k])
                    && cancels@.contains(start[dropped@[k]]),
                forall|c: int, page: u32| 0 <= c < i && start.contains_key(page)
                    && start[page] == cancels@[c] ==> exists|k: int| 0 <= k < dropped@.len()
                    && #[trigger] dropped@[k] == dropped@[k] && start.contains_key(dropped@[k])
                    && start[dropped@[k]] == cancels@[c],
            decreases cancels@.len() - i,
        {
            let c = cancels[i];
            let ghost before_dropped = dropped@;
            let ghost before_slots = self.slots();
            match self.cancel_js_timeout(c) {
                Some(page) => {
                    dropped.push(page);
                    proof {
                        lemma_without_ids_push(start_timers, before_dropped, page);
                        assert forall|x: u32| #[trigger] dropped@.contains(x) == (before_dropped.contains(x) || x == page) by {
                            lemma_push_contains(before_dropped, page, x);
                        }
                        assert(self.slots() =~= without_keys(start, dropped@));
                        assert(start.contains_key(page) && start[page] == c) by {
                            assert(before_slots.contains_key(page));
                        }
                        assert(dropped@[before_dropped.len() as int] == page);
                        assert(cancels@[i as int] == c);
                        assert(cancels@.contains(c));
                        assert forall|k: int| 0 <= k < dropped@.len() implies start.contains_key(#[trigger] dropped@[k])
                            && cancels@.contains(start[dropped@[k]]) by {
                            if k < before_dropped.len() {
                                assert(dropped@[k] == before_dropped[k]);
                                assert(cancels@.contains(start[before_dropped[k]]));
                            } else {
                                assert(dropped@[k] == page);
                            }
                        }
                        assert forall|cc: int, pg: u32| 0 <= cc < i + 1 && start.contains_key(pg)
                            && start[pg] == cancels@[cc] implies exists|k: int| 0 <= k < dropped@.len()
                            && #[trigger] dropped@[k] == dropped@[k] && start.contains_key(dropped@[k])
                            && start[dropped@[k]] == cancels@[cc] by {
                            if cc < i {
                                let k = choose|k: int| 0 <= k < before_dropped.len()
                                    && #[trigger] before_dropped[k] == before_dropped[k] && start.contains_key(before_dropped[k])
                                    && start[before_dropped[k]] == cancels@[cc];
                                assert(dropped@[k] == before_dropped[k]);
                            } else {
                                let k = before_dropped.len() as int;
                                assert(dropped@[k] == page);
                            }
                        }
                    }
                },
                None => {
                    proof {
                        assert forall|cc: int, pg: u32| 0 <= cc < i + 1 && start.contains_key(pg)
                            && start[pg] == cancels@[cc] implies exists|k: int| 0 <= k < dropped@.len()
                            && #[trigger] dropped@[k] == dropped@[k] && start.contains_key(dropped@[k])
                            && start[dropped@[k]] == cancels@[cc] by {
                            if cc == i {
                                if dropped@.contains(pg) {
                                    let k = choose|k: int| 0 <= k < dropped@.len() && dropped@[k] == pg;
                                    assert(dropped@[k] == pg);
                                } else {
                                    assert(before_slots.contains_key(pg));
                                    assert(before_slots[pg] == c);
                                }
                            }
                        }
                    }
                },
            }
            i = i + 1;
        }
        dropped
    }

    /// Gives each page-script timeout not in `cancels` its host timer, due
    /// `delay` after `now`, in order.
    pub fn schedule_js_timeouts(&mut self, now: u64, timeouts: &Vec<PendingTimeout>, cancels: &Vec<i32>)
        requires
            forall|k: int| 0 <= k < timeouts@.len() ==> now + (#[trigger] timeouts@[k]).delay <= u64::MAX,
        ensures
            final(self).state() == schedule_all(old(self).state(), now, timeouts@, cancels@),
    {
        let mut i: usize = 0;
        assert(timeouts@.take(0) =~= Seq::<PendingTimeout>::empty());
        while i < timeouts.len()
            invariant
                i <= timeouts@.len(),
                forall|k: int| 0 <= k < timeouts@.len() ==> now + (#[trigger] timeouts@[k]).delay <= u64::MAX,
                self.state() == schedule_all(old(self).state(), now, timeouts@.take(i as int), cancels@),
            decreases timeouts@.len() - i,
        {
            let t = timeouts[i];
            assert(timeouts@.take(i + 1).drop_last() =~= timeouts@.take(i as int));
            assert(timeouts@.take(i + 1).last() == t);
            let mut cancelled = false;
            let mut j: usize = 0;
            while j < cancels.len()
                invariant
                    j <= cancels@.len(),
                    cancelled == exists|k: int| 0 <= k < j && cancels@[k] == t.js_id,
                decreases cancels@.len() - j,
            {
                if cancels[j] == t.js_id {
                    cancelled = true;
                }
                j = j + 1;
            }
            if !cancelled {
                self.schedule_js_timeout(now, t.delay, t.js_id);
            }
            proof {
                assert(cancelled == cancels@.contains(t.js_id));
            }
            i = i + 1;
        }
        assert(timeouts@.take(timeouts@.len() as int) =~= timeouts@);
    }

    /// A turn's page-script timer work: the cancellations first, then a
    /// host timer for each new timeout that was not cancelled in the same
    /// turn. Returns the host timer ids the cancellations dropped.
    pub fn adopt_timeouts(&mut self, now: u64, timeouts: &Vec<PendingTimeout>, cancels: &Vec<i32>) -> (dropped: Vec<u32>)
        requires
            forall|k: int| 0 <= k < timeouts@.len() ==> now + (#[trigger] timeouts@[k]).delay <= u64::MAX,
        ensures
            final(self).state() == schedule_all(
                QueueState {
                    timers: without_ids(old(self).timers(), dropped@),
                    next: old(self).next_id(),
                    slots: without_keys(old(self).slots(), dropped@),
                },
                now,
                timeouts@,
                cancels@,
            ),
            forall|k: int| 0 <= k < dropped@.len() ==> old(self).slots().contains_key(#[trigger] dropped@[k])
                && cancels@.contains(old(self).slots()[dropped@[k]]),
            forall|c: int, page: u32| 0 <= c < cancels@.len() && old(self).slots().contains_key(page)
                && old(self).slots()[page] == cancels@[c] ==> exists|k: int| 0 <= k < dropped@.len()
                && #[trigger] dropped@[k] == dropped@[k] && old(self).slots().contains_key(dropped@[k])
                && old(self).slots()[dropped@[k]] == cancels@[c],
    {
        let dropped = self.cancel_js_timeouts(cancels);
        self.schedule_js_timeouts(now, timeouts, cancels);
        dropped
    }
}

/// The log `(events, overflowed)` after recording `event`: retained while
/// there is room, else the overflow is noted.
pub open spec fn log_step<E>(events: Seq<E>, overflowed: bool, event: E) -> (Seq<E>, bool) {
    if events.len() >= MAX_PENDING_EVENTS {
        (events, true)
    } else {
        (events.push(event), overflowed)
    }
}

/// The log after recording each of `run` in order.
pub open spec fn log_after<E>(events: Seq<E>, overflowed: bool, run: Seq<E>) -> (Seq<E>, bool)
    decreases run.len(),
{
    if run.len() == 0 {
        (events, overflowed)
    } else {
        let (ev, ov) = log_after(events, overflowed, run.drop_last());
        log_step(ev, ov, run.last())
    }
}

/// Records from an empty log, as after creation or a take: a run of at most
/// [`MAX_PENDING_EVENTS`] events is retained whole and in order, so the
/// next take returns it; a longer run keeps the first ones and notes the
/// overflow, so the next take fails. Either way that take empties the log
/// and clears the overflow.
pub proof fn lemma_record_run<E>(run: Seq<E>)
    ensures
        log_after(Seq::<E>::empty(), false, run) == (if run.len() <= MAX_PENDING_EVENTS {
            (run, false)
        } else {
            (run.take(MAX_PENDING_EVENTS as int), true)
        }),
    decreases run.len(),
{
    if run.len() > 0 {
        lemma_record_run(run.drop_last());
        if run.len() <= MAX_PENDING_EVENTS {
            assert(run.drop_last().push(run.last()) =~= run);
        } else if run.len() == MAX_PENDING_EVENTS + 1 {
            assert(run.drop_last() =~= run.take(MAX_PENDING_EVENTS as int));
        } else {
            assert(run.drop_last().take(MAX_PENDING_EVENTS as int) =~= run.take(
                MAX_PENDING_EVENTS as int,
            ));
        }
    }
}

/// A document's retained events: at most [`MAX_PENDING_EVENTS`] of them,
/// and whether one was lost to the cap since the last take.
pub struct EventLog<E> {
    events: Vec<E>,
    overflowed: bool,
}

impl<E> EventLog<E> {
    #[verifier::type_invariant]
    spec fn inv(&self) -> bool {
        self.events@.len() <= MAX_PENDING_EVENTS
    }

    /// The retained events, oldest first.
    pub closed spec fn events(&self) -> Seq<E> {
        self.events@
    }

    /// Whether an event was dropped since the last take.
    pub closed spec fn overflowed(&self) -> bool {
        self.overflowed
    }

    /// An empty log.
    pub fn new() -> (log: Self)
        ensures
            log.events() == Seq::<E>::empty(),
            !log.overflowed(),
    {
        EventLog { events: Vec::new(), overflowed: false }
    }

    /// Retains `event`, or notes the overflow when the log is full.
    pub fn record_event(&mut self, event: E)
        ensures
            (final(self).events(), final(self).overflowed()) == log_step(
                old(self).events(),
                old(self).overflowed(),
                event,
            ),
            old(self).events().len() == MAX_PENDING_EVENTS ==> final(self).events() == old(
                self,
            ).events() && final(self).overflowed(),
            old(self).events().len() < MAX_PENDING_EVENTS ==> final(self).events() == old(
                self,
            ).events().push(event) && final(self).overflowed() == old(self).overflowed(),
            final(self).events().len() <= MAX_PENDING_EVENTS,
    {
        proof {
            use_type_invariant(&*self);
        }
        if self.events.len() == MAX_PENDING_EVENTS {
            self.overflowed = true;
            return;
        }
        let mut events: Vec<E> = Vec::new();
        std::mem::swap(&mut events, &mut self.events);
        events.push(event);
        self.events = events;
    }

    /// Removes and returns every retained event, or `Err(())` when the cap
    /// was hit since the last take: then the log empties and the excess is
    /// lost.
    pub fn take_events(&mut self) -> (taken: Result<Vec<E>, ()>)
        ensures
            old(self).overflowed() ==> taken is Err,
            !old(self).overflowed() ==> (taken matches Ok(v) && v@ == old(self).events()),
            final(self).events() == Seq::<E>::empty(),
            !final(self).overflowed(),
    {
        proof {
            use_type_invariant(&*self);
        }
        if self.overflowed {
            self.overflowed = false;
            let mut dropped: Vec<E> = Vec::new();
            std::mem::swap(&mut dropped, &mut self.events);
            return Err(());
        }
        let mut taken: Vec<E> = Vec::new();
        std::mem::swap(&mut taken, &mut self.events);
        Ok(taken)
    }
}

/// Whether one more page `fetch` may be queued: the dials in flight and the
/// queued page fetches together stay under [`MAX_PENDING_JS_FETCHES`];
/// otherwise the fetch fails at once.
pub fn accept_js_fetch(in_flight: usize, queued_js_fetches: usize) -> (accepted: bool)
    ensures
        accepted == (in_flight + queued_js_fetches < MAX_PENDING_JS_FETCHES),
{
    in_flight.saturating_add(queued_js_fetches) < MAX_PENDING_JS_FETCHES
}

/// A page `fetch` the realm handed over: its id and the URL it asked for.
pub struct PendingFetch {
    pub js_id: i32,
    pub url: String,
}

/// What becomes of one page `fetch`.
#[derive(Debug, PartialEq, Eq)]
pub enum FetchAction {
    /// Queue a dial of the resolved URL for it.
    Queue { js_id: i32, url: String },
    /// Fail it at once: the caller records a `FetchFailed` event and settles
    /// the fetch with `ok` false, status 0 and an empty body.
    Fail { js_id: i32 },
}

/// A fetch as `(id, url)`.
pub open spec fn fetches_view(fetches: Seq<PendingFetch>) -> Seq<(i32, Seq<char>)> {
    fetches.map_values(|f: PendingFetch| (f.js_id, f.url@))
}

/// An action as `(id, the URL queued, or None for a failure)`.
pub open spec fn action_view(a: FetchAction) -> (i32, Option<Seq<char>>) {
    match a {
        FetchAction::Queue { js_id, url } => (js_id, Some(url@)),
        FetchAction::Fail { js_id } => (js_id, None),
    }
}

/// The actions as values.
pub open spec fn actions_view(actions: Seq<FetchAction>) -> Seq<(i32, Option<Seq<char>>)> {
    actions.map_values(|a: FetchAction| action_view(a))
}

/// The URL a fetch dials: its URL resolved against the document's base, when
/// that gives an `http` or `https` URL.
pub open spec fn fetch_target(url: Seq<char>, base: Seq<char>) -> Option<Seq<char>> {
    match resolve_spec(url, base) {
        Some(u) => if dialable_scheme(scheme_of(u)) {
            Some(u)
        } else {
            None
        },
        None => None,
    }
}

/// The actions for `fetches`, taken in order, with `pending` fetches already
/// in flight or queued, and the pending count after them: a fetch is queued
/// when fewer than [`MAX_PENDING_JS_FETCHES`] are pending and its URL
/// resolves to one that may be dialed; otherwise it fails.
pub open spec fn adopt_plan(pending: int, base: Seq<char>, fetches: Seq<(i32, Seq<char>)>) -> (
    Seq<(i32, Option<Seq<char>>)>,
    int,
)
    decreases fetches.len(),
{
    if fetches.len() == 0 {
        (Seq::empty(), pending)
    } else {
        let (actions, p) = adopt_plan(pending, base, fetches.drop_last());
        let (id, url) = fetches.last();
        if p < MAX_PENDING_JS_FETCHES {
            match fetch_target(url, base) {
                Some(u) => (actions.push((id, Some(u))), p + 1),
                None => (actions.push((id, None)), p),
            }
        } else {
            (actions.push((id, None)), p)
        }
    }
}

/// Takes the page fetches a realm handed over in one turn, with `in_flight`
/// dials running and `queued` page fetches queued: each is either queued as
/// a dial or failed, in order.
pub fn adopt_fetches(in_flight: usize, queued: usize, base: &str, fetches: &Vec<PendingFetch>) -> (plan:
    Vec<FetchAction>)
    ensures
        actions_view(plan@) == adopt_plan(in_flight + queued, base@, fetches_view(fetches@)).0,
{
    let mut plan: Vec<FetchAction> = Vec::new();
    let mut queued_now: usize = queued;
    let mut i: usize = 0;
    let ghost fv = fetches_view(fetches@);
    while i < fetches.len()
        invariant
            i <= fetches@.len(),
            fv == fetches_view(fetches@),
            actions_view(plan@) == adopt_plan(in_flight + queued, base@, fv.take(i as int)).0,
            adopt_plan(in_flight + queued, base@, fv.take(i as int)).1 == in_flight + queued_now,
        decreases fetches@.len() - i,
    {
        let fetch = &fetches[i];
        let ghost prefix = fv.take(i as int);
        assert(fv.take(i + 1).drop_last() =~= prefix);
        assert(fv.take(i + 1).last() == (fetch.js_id, fetch.url@));
        let action = if accept_js_fetch(in_flight, queued_now) {
            match resolve_dial_url(fetch.url.as_str(), base) {
                Ok(url) => {
                    queued_now = queued_now + 1;
                    FetchAction::Queue { js_id: fetch.js_id, url }
                },
                Err(_) => FetchAction::Fail { js_id: fetch.js_id },
            }
        } else {
            FetchAction::Fail { js_id: fetch.js_id }
        };
        plan.push(action);
        assert(actions_view(plan@) =~= adopt_plan(in_flight + queued, base@, fv.take(i + 1)).0);
        i = i + 1;
    }
    assert(fv.take(fetches@.len() as int) =~= fv);
    plan
}

/// A turn's fetches each get exactly one action with their id, in order,
/// and the pending count never exceeds the larger of the count it started
/// from and [`MAX_PENDING_JS_FETCHES`].
pub proof fn lemma_adopt_plan_bounds(pending: int, base: Seq<char>, fetches: Seq<(i32, Seq<char>)>)
    ensures
        adopt_plan(pending, base, fetches).0.len() == fetches.len(),
        forall|k: int|
            0 <= k < fetches.len() ==> (#[trigger] adopt_plan(pending, base, fetches).0[k]).0
                == fetches[k].0,
        pending <= adopt_plan(pending, base, fetches).1,
        adopt_plan(pending, base, fetches).1 <= if pending > MAX_PENDING_JS_FETCHES {
            pending
        } else {
            MAX_PENDING_JS_FETCHES as int
        },
    decreases fetches.len(),
{
    if fetches.len() > 0 {
        lemma_adopt_plan_bounds(pending, base, fetches.drop_last());
        let prev = adopt_plan(pending, base, fetches.drop_last()).0;
        assert forall|k: int| 0 <= k < fetches.len() implies (#[trigger] adopt_plan(
            pending,
            base,
            fetches,
        ).0[k]).0 == fetches[k].0 by {
            if k < fetches.len() - 1 {
                assert(prev[k].0 == fetches.drop_last()[k].0);
            }
        }
    }
}

/// What the renderer loop does once no task is ready.
#[derive(Clone, Copy, Debug, PartialEq, Eq, Structural)]
pub enum WakePlan {
    /// Nothing is pending: stop waiting.
    Done,
    /// Dials are queued but none in flight: yield for a millisecond and look
    /// again.
    Yield,
    /// Sleep until the given time, or until woken when `None`.
    Sleep(Option<u64>),
}

/// The earlier of two optional times.
pub open spec fn earlier(a: Option<u64>, b: Option<u64>) -> Option<u64> {
    match (a, b) {
        (Some(x), Some(y)) => Some(if x < y { x } else { y }),
        (Some(x), None) => Some(x),
        (None, y) => y,
    }
}

/// The wait the renderer loop takes after its ready tasks ran: the earliest
/// timer deadline capped by the caller's deadline, a one-millisecond network
/// poll while fetches are in flight.
pub open spec fn wake_plan_spec(
    fetches_pending: bool,
    queued: bool,
    timer: Option<u64>,
    cap: Option<u64>,
    now: u64,
) -> WakePlan {
    let next_deadline = earlier(timer, cap);
    if !fetches_pending && !queued && next_deadline is None {
        WakePlan::Done
    } else if queued && !fetches_pending {
        WakePlan::Yield
    } else {
        let network_poll = if fetches_pending {
            Some((now + 1) as u64)
        } else {
            None
        };
        WakePlan::Sleep(earlier(next_deadline, network_poll))
    }
}

/// The earlier of two optional times.
fn earlier_of(a: Option<u64>, b: Option<u64>) -> (r: Option<u64>)
    ensures
        r == earlier(a, b),
{
    match (a, b) {
        (Some(x), Some(y)) => Some(if x < y { x } else { y }),
        (Some(x), None) => Some(x),
        (None, y) => y,
    }
}

/// Decides how the renderer loop waits when no task is ready.
pub fn wake_plan(
    fetches_pending: bool,
    queued: bool,
    timer: Option<u64>,
    cap: Option<u64>,
    now: u64,
) -> (plan: WakePlan)
    requires
        now < u64::MAX,
    ensures
        plan == wake_plan_spec(fetches_pending, queued, timer, cap, now),
{
    let next_deadline = earlier_of(timer, cap);
    if !fetches_pending && !queued && next_deadline.is_none() {
        return WakePlan::Done;
    }
    if queued && !fetches_pending {
        return WakePlan::Yield;
    }
    let network_poll = if fetches_pending {
        Some(now + 1)
    } else {
        None
    };
    WakePlan::Sleep(earlier_of(next_deadline, network_poll))
}

/// The next deadline is the `when` of some unfired timer, and no unfired
/// timer is due earlier; with no unfired timer there is none.
pub proof fn lemma_earliest_is_min(timers: Seq<Timer>)
    ensures
        match earliest_unfired(timers) {
            Some(w) => (exists|k: int| 0 <= k < timers.len() && !timers[k].fired && timers[k].when == w)
                && forall|k: int| 0 <= k < timers.len() && !timers[k].fired ==> w <= timers[k].when,
            None => forall|k: int| 0 <= k < timers.len() ==> timers[k].fired,
        },
    decreases timers.len(),
{
    if timers.len() > 0 {
        let rest = timers.drop_last();
        lemma_earliest_is_min(rest);
        let t = timers.last();
        assert forall|k: int| 0 <= k < rest.len() implies rest[k] == timers[k] by {}
        match earliest_unfired(rest) {
            Some(w) => {
                let k = choose|k: int| 0 <= k < rest.len() && !rest[k].fired && rest[k].when == w;
                assert(timers[k] == rest[k]);
            },
            None => {},
        }
        assert(timers[timers.len() - 1] == t);
    }
}

/// The timer `due_timer` hands out is unfired, due at `now`, and no unfired
/// due timer has an earlier `when`; none is handed out only when no unfired
/// timer is due.
pub proof fn lemma_due_is_earliest(timers: Seq<Timer>, now: u64)
    ensures
        match first_due(timers, now) {
            Some(k) => 0 <= k < timers.len() && !timers[k].fired && timers[k].when <= now && forall|
                j: int,
            |
                0 <= j < timers.len() && !timers[j].fired && timers[j].when <= now ==> timers[k].when
                    <= timers[j].when,
            None => forall|j: int|
                0 <= j < timers.len() ==> timers[j].fired || timers[j].when > now,
        },
    decreases timers.len(),
{
    if timers.len() > 0 {
        let rest = timers.drop_last();
        lemma_due_is_earliest(rest, now);
        assert forall|k: int| 0 <= k < rest.len() implies rest[k] == timers[k] by {}
        assert(timers[timers.len() - 1] == timers.last());
    }
}

proof fn lemma_first_due_in_range(timers: Seq<Timer>, now: u64)
    ensures
        first_due(timers, now) matches Some(k) ==> 0 <= k < timers.len() && !timers[k].fired
            && timers[k].when <= now,
    decreases timers.len(),
{
    if timers.len() > 0 {
        lemma_first_due_in_range(timers.drop_last(), now);
    }
}

} // verus!
