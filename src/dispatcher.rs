use vstd::prelude::*;

use crate::blocks::BlockHandlers;
use crate::scheduler::{
    has_task, is_due, lemma_filter_all, lemma_filter_from, next_wake, not_for, pending_at, Task, UpdateScheduler,
};
use crate::signals::Signal;

verus! {

/// Who holds a block's instance.
///
/// `Owned` keeps the instance in the slot; while an operation runs the
/// operation holds it and the slot is `InFlight`.
pub enum Ownership<B> {
    Constructing,
    Owned(B),
    InFlight,
    Failed,
    Disabled,
}

/// The state of a slot, without the instance.
#[derive(Clone, Copy, Debug, PartialEq, Eq, Structural)]
pub enum SlotState {
    Constructing,
    Owned,
    InFlight,
    Failed,
    Disabled,
}

/// The state of a slot that `o` describes.
pub open spec fn state_of<B>(o: Ownership<B>) -> SlotState {
    match o {
        Ownership::Constructing => SlotState::Constructing,
        Ownership::Owned(_) => SlotState::Owned,
        Ownership::InFlight => SlotState::InFlight,
        Ownership::Failed => SlotState::Failed,
        Ownership::Disabled => SlotState::Disabled,
    }
}

/// A mouse button of a click event.
#[derive(Clone, Copy, Debug, PartialEq, Eq, Structural)]
pub enum MouseButton {
    Left,
    Middle,
    Right,
    WheelUp,
    WheelDown,
    Forward,
    Back,
    Unknown,
}

/// How the construction of a block ended.
pub enum Construction<B> {
    /// The block, its handlers and its first rendered fragments.
    Built(B, BlockHandlers, Vec<String>),
    /// The block is disabled by its configuration.
    Skipped,
    /// The block could not be built; the fragments show the error.
    Failed(Vec<String>),
}

/// What the caller does for a click event.
pub enum ClickAction<B> {
    /// Nothing.
    Ignore,
    /// Run this command through the shell.
    Spawn(String),
    /// Run the block's click handler, then hand the block back.
    Click(B),
}

/// What the caller does for a signal.
pub enum SignalAction<B> {
    /// Start an update of each of these blocks.
    Update(Vec<(usize, B)>),
    /// Re-execute the program without protocol initialisation.
    Restart,
}

/// The dispatcher's state: one slot per configured block, the rendered
/// fragments of each, and the refresh schedule.
pub struct Dispatcher<B> {
    owners: Vec<Ownership<B>>,
    handlers: Vec<BlockHandlers>,
    rendered: Vec<Vec<String>>,
    scheduler: UpdateScheduler,
}

/// The signal filter selects slot `i`: it is `Owned`, and either there is no
/// filter or its registered signal is the filter.
pub open spec fn selected<B>(d: Dispatcher<B>, i: int, filter: Option<i32>) -> bool {
    &&& d.owner(i) is Owned
    &&& (filter is None || d.handler(i).signal == filter)
}

/// `after` is `before` with exactly the blocks that `filter` selects taken
/// out: those are `InFlight`, and `started` holds each of them with its
/// instance, once, in slot order. Nothing else changed.
pub open spec fn dispatched<B>(
    before: Dispatcher<B>,
    after: Dispatcher<B>,
    started: Seq<(usize, B)>,
    filter: Option<i32>,
) -> bool {
    &&& after.len() == before.len()
    &&& after.schedule() == before.schedule()
    &&& after.fragments() == before.fragments()
    &&& forall|i: int| 0 <= i < before.len() ==> #[trigger] after.handler(i) == before.handler(i)
    &&& forall|i: int| 0 <= i < before.len() ==> #[trigger] after.owner(i) == if selected(before, i, filter) {
        Ownership::InFlight
    } else {
        before.owner(i)
    }
    &&& forall|k: int| 0 <= k < started.len() ==> {
        let (id, b) = #[trigger] started[k];
        &&& id < before.len()
        &&& selected(before, id as int, filter)
        &&& before.owner(id as int) == Ownership::Owned(b)
    }
    &&& forall|i: int| 0 <= i < before.len() && selected(before, i, filter) ==> exists|k: int|
        0 <= k < started.len() && (#[trigger] started[k]).0 == i
    &&& forall|a: int, b: int| 0 <= a < b < started.len() ==> started[a].0 < started[b].0
}

impl<B> Dispatcher<B> {
    /// The number of slots.
    pub closed spec fn len(&self) -> nat {
        self.owners@.len()
    }

    /// Who holds the instance of block `i`.
    pub closed spec fn owner(&self, i: int) -> Ownership<B> {
        self.owners@[i]
    }

    /// The handlers of block `i`; none until it is built.
    pub closed spec fn handler(&self, i: int) -> BlockHandlers {
        self.handlers@[i]
    }

    /// The last rendered fragments of each block, in configuration order.
    pub closed spec fn fragments(&self) -> Seq<Vec<String>> {
        self.rendered@
    }

    /// The pending refreshes.
    pub closed spec fn schedule(&self) -> Seq<Task> {
        self.scheduler@
    }

    /// One handler and one fragment list per slot, at most one task per
    /// block, and tasks only for blocks that are `Owned` or `InFlight`.
    pub closed spec fn wf(&self) -> bool {
        &&& self.handlers@.len() == self.owners@.len()
        &&& self.rendered@.len() == self.owners@.len()
        &&& self.scheduler.wf()
        &&& forall|j: int|
            0 <= j < self.scheduler@.len() ==> {
                let id = (#[trigger] self.scheduler@[j]).id;
                &&& id < self.owners@.len()
                &&& (self.owners@[id as int] is Owned || self.owners@[id as int] is InFlight)
            }
    }

    /// Slots other than `id` are as in `other`; the schedule is too.
    pub open spec fn same_but(&self, other: &Self, id: int) -> bool {
        &&& self.schedule() == other.schedule()
        &&& self.slots_same_but(other, id)
    }

    /// Nothing differs from `other`.
    pub open spec fn same_as(&self, other: &Self) -> bool {
        &&& self.same_but(other, -1)
    }

    /// Slots other than `id` are as in `other`.
    pub open spec fn slots_same_but(&self, other: &Self, id: int) -> bool {
        &&& self.len() == other.len()
        &&& forall|i: int| 0 <= i < self.len() && i != id ==> #[trigger] self.owner(i) == other.owner(i)
        &&& forall|i: int| 0 <= i < self.len() && i != id ==> #[trigger] self.handler(i) == other.handler(i)
        &&& forall|i: int| 0 <= i < self.len() && i != id ==> #[trigger] self.fragments()[i] == other.fragments()[i]
    }

    /// A dispatcher for `blocks_cnt` blocks, all of them still being built.
    pub fn new(blocks_cnt: usize) -> (r: Dispatcher<B>)
        ensures
            r.wf(),
            r.len() == blocks_cnt,
            r.schedule().len() == 0,
            forall|i: int| 0 <= i < blocks_cnt ==> #[trigger] r.owner(i) is Constructing,
            forall|i: int| 0 <= i < blocks_cnt ==> (#[trigger] r.fragments()[i])@.len() == 0,
            forall|i: int| 0 <= i < blocks_cnt ==> (#[trigger] r.handler(i)).signal is None && r.handler(i).on_click is None,
    {
        let mut owners: Vec<Ownership<B>> = Vec::new();
        let mut handlers: Vec<BlockHandlers> = Vec::new();
        let mut rendered: Vec<Vec<String>> = Vec::new();
        let mut i: usize = 0;
        while i < blocks_cnt
            invariant
                i <= blocks_cnt,
                owners@.len() == i,
                handlers@.len() == i,
                rendered@.len() == i,
                forall|k: int| 0 <= k < i ==> #[trigger] owners@[k] is Constructing,
                forall|k: int| 0 <= k < i ==> (#[trigger] rendered@[k])@.len() == 0,
                forall|k: int| 0 <= k < i ==> (#[trigger] handlers@[k]).signal is None && handlers@[k].on_click is None,
            decreases blocks_cnt - i,
        {
            owners.push(Ownership::Constructing);
            handlers.push(BlockHandlers::none());
            rendered.push(Vec::new());
            i += 1;
        }
        let scheduler = UpdateScheduler::new(0, 0);
        Dispatcher { owners, handlers, rendered, scheduler }
    }

    /// The number of block slots.
    pub fn block_count(&self) -> (r: usize)
        ensures
            r == self.len(),
    {
        self.owners.len()
    }

    /// The state of slot `id`.
    pub fn state(&self, id: usize) -> (r: SlotState)
        requires
            id < self.len(),
        ensures
            r == state_of(self.owner(id as int)),
    {
        match &self.owners[id] {
            Ownership::Constructing => SlotState::Constructing,
            Ownership::Owned(_) => SlotState::Owned,
            Ownership::InFlight => SlotState::InFlight,
            Ownership::Failed => SlotState::Failed,
            Ownership::Disabled => SlotState::Disabled,
        }
    }

    /// The fragments of every block, in configuration order: the snapshot to
    /// publish.
    pub fn rendered(&self) -> (r: &Vec<Vec<String>>)
        ensures
            r@ == self.fragments(),
    {
        &self.rendered
    }

    /// The wait before the next scheduled refresh, as the scheduler computes it.
    pub fn time_to_next_wake(&self, now: u64) -> (r: Option<u64>)
        ensures
            r == next_wake(self.schedule(), now),
    {
        self.scheduler.time_to_next_update(now)
    }

    /// Records how the construction of block `id` ended. A built block goes
    /// `InFlight` at once and is returned, for its first update.
    pub fn on_constructed(&mut self, id: usize, outcome: Construction<B>) -> (r: Option<B>)
        requires
            old(self).wf(),
            id < old(self).len(),
        ensures
            final(self).wf(),
            final(self).same_but(old(self), id as int),
            !(old(self).owner(id as int) is Constructing) ==> r is None && final(self).same_as(old(self)),
            old(self).owner(id as int) is Constructing ==> match outcome {
                Construction::Built(b, h, v) => {
                    &&& r == Some(b)
                    &&& final(self).owner(id as int) is InFlight
                    &&& final(self).handler(id as int) == h
                    &&& final(self).fragments()[id as int] == v
                },
                Construction::Skipped => {
                    &&& r is None
                    &&& final(self).owner(id as int) is Disabled
                    &&& final(self).handler(id as int) == old(self).handler(id as int)
                    &&& final(self).fragments()[id as int] == old(self).fragments()[id as int]
                },
                Construction::Failed(v) => {
                    &&& r is None
                    &&& final(self).owner(id as int) is Failed
                    &&& final(self).handler(id as int) == old(self).handler(id as int)
                    &&& final(self).fragments()[id as int] == v
                },
            },
    {
        if !matches!(self.owners[id], Ownership::Constructing) {
            return None;
        }
        match outcome {
            Construction::Built(b, h, v) => {
                self.swap_owner(id, Ownership::InFlight);
                let mut h = h;
                std::mem::swap(&mut self.handlers[id], &mut h);
                let mut v = v;
                std::mem::swap(&mut self.rendered[id], &mut v);
                Some(b)
            },
            Construction::Skipped => {
                self.swap_owner(id, Ownership::Disabled);
                None
            },
            Construction::Failed(v) => {
                self.swap_owner(id, Ownership::Failed);
                let mut v = v;
                std::mem::swap(&mut self.rendered[id], &mut v);
                None
            },
        }
    }

    /// Takes back block `id` after an update: the slot is `Owned` again, its
    /// fragments are `view`, and its next refresh is due `interval` after
    /// `now`, or never when the block has no interval.
    pub fn on_update_done(&mut self, id: usize, block: B, interval: Option<u64>, view: Vec<String>, now: u64)
        requires
            old(self).wf(),
            id < old(self).len(),
            interval is Some ==> now + interval.unwrap() <= u64::MAX,
        ensures
            final(self).wf(),
            final(self).slots_same_but(old(self), id as int),
            final(self).handler(id as int) == old(self).handler(id as int),
            !(old(self).owner(id as int) is InFlight) ==> final(self).same_as(old(self)),
            old(self).owner(id as int) is InFlight ==> {
                &&& final(self).owner(id as int) == Ownership::Owned(block)
                &&& final(self).fragments()[id as int] == view
                &&& final(self).schedule() == match interval {
                    Some(d) => old(self).schedule().filter(not_for(id)).push(
                        Task { id, update_time: (now + d) as u64 },
                    ),
                    None => old(self).schedule().filter(not_for(id)),
                }
            },
    {
        if !matches!(self.owners[id], Ownership::InFlight) {
            return;
        }
        let ghost s = self.scheduler@;
        self.swap_owner(id, Ownership::Owned(block));
        let mut v = view;
        std::mem::swap(&mut self.rendered[id], &mut v);
        self.scheduler.pop(id);
        match interval {
            Some(d) => self.scheduler.push(id, now + d),
            None => {},
        }
        proof {
            lemma_filter_from(s, not_for(id));
            let f = s.filter(not_for(id));
            lemma_filter_from(f, not_for(id));
            assert(f.filter(not_for(id)) =~= f) by {
                assert forall|k: int| 0 <= k < f.len() implies (not_for(id))(#[trigger] f[k]) by {
                    s.lemma_filter_pred(not_for(id), k);
                }
                lemma_filter_all(f, not_for(id));
            }
            assert forall|j: int| 0 <= j < self.scheduler@.len() implies {
                let t = (#[trigger] self.scheduler@[j]).id;
                &&& t < self.owners@.len()
                &&& (self.owners@[t as int] is Owned || self.owners@[t as int] is InFlight)
            } by {
                let t = self.scheduler@[j];
                if t.id != id {
                    assert(f.contains(t));
                    assert(s.contains(t));
                }
            }
        }
    }

    /// An update request for block `id`: an `Owned` block goes `InFlight`
    /// and is returned, for an update; any other request is dropped.
    pub fn on_request(&mut self, id: usize) -> (r: Option<B>)
        requires
            old(self).wf(),
        ensures
            final(self).wf(),
            id >= old(self).len() ==> r is None && final(self).same_as(old(self)),
            id < old(self).len() ==> {
                &&& final(self).same_but(old(self), id as int)
                &&& final(self).handler(id as int) == old(self).handler(id as int)
                &&& final(self).fragments() == old(self).fragments()
                &&& match old(self).owner(id as int) {
                    Ownership::Owned(b) => r == Some(b) && final(self).owner(id as int) is InFlight,
                    _ => r is None && final(self).owner(id as int) == old(self).owner(id as int),
                }
            },
    {
        if id >= self.owners.len() {
            return None;
        }
        self.take_owned(id)
    }

    /// A click on block `id`. A left click on a block with a click command
    /// runs that command and leaves the slot as it is; otherwise an `Owned`
    /// block goes `InFlight` and is returned, for its click handler.
    pub fn on_click(&mut self, id: usize, button: MouseButton) -> (r: ClickAction<B>)
        requires
            old(self).wf(),
        ensures
            final(self).wf(),
            id >= old(self).len() ==> r is Ignore && final(self).same_as(old(self)),
            id < old(self).len() && button == MouseButton::Left && old(self).handler(id as int).on_click is Some
                ==> r == ClickAction::<B>::Spawn(old(self).handler(id as int).on_click.unwrap())
                && final(self).same_as(old(self)),
            id < old(self).len() && !(button == MouseButton::Left && old(self).handler(id as int).on_click is Some)
                ==> {
                &&& final(self).same_but(old(self), id as int)
                &&& final(self).handler(id as int) == old(self).handler(id as int)
                &&& final(self).fragments() == old(self).fragments()
                &&& match old(self).owner(id as int) {
                    Ownership::Owned(b) => r == ClickAction::Click(b) && final(self).owner(id as int) is InFlight,
                    _ => r is Ignore && final(self).owner(id as int) == old(self).owner(id as int),
                }
            },
    {
        if id >= self.owners.len() {
            return ClickAction::Ignore;
        }
        if button == MouseButton::Left {
            match &self.handlers[id].on_click {
                Some(cmd) => {
                    return ClickAction::Spawn(cmd.clone());
                },
                None => {},
            }
        }
        match self.take_owned(id) {
            Some(b) => ClickAction::Click(b),
            None => ClickAction::Ignore,
        }
    }

    /// Takes back block `id` after its click handler ran. When the handler
    /// asks for an update, the block stays `InFlight` and is returned for
    /// it; otherwise the slot is `Owned` again.
    pub fn on_click_done(&mut self, id: usize, block: B, update: bool) -> (r: Option<B>)
        requires
            old(self).wf(),
            id < old(self).len(),
        ensures
            final(self).wf(),
            final(self).same_but(old(self), id as int),
            final(self).handler(id as int) == old(self).handler(id as int),
            final(self).fragments() == old(self).fragments(),
            !(old(self).owner(id as int) is InFlight) ==> r is None && final(self).owner(id as int) == old(self).owner(id as int),
            old(self).owner(id as int) is InFlight && update ==> r == Some(block) && final(self).owner(id as int) is InFlight,
            old(self).owner(id as int) is InFlight && !update ==> r is None && final(self).owner(id as int) == Ownership::Owned(block),
    {
        if !matches!(self.owners[id], Ownership::InFlight) {
            return None;
        }
        if update {
            Some(block)
        } else {
            self.swap_owner(id, Ownership::Owned(block));
            None
        }
    }

    /// The timer fired at `now`: every task due at `now` leaves the schedule,
    /// and each of those blocks that is `Owned` goes `InFlight` and is
    /// returned, for an update.
    pub fn on_timer(&mut self, now: u64) -> (r: Vec<(usize, B)>)
        requires
            old(self).wf(),
        ensures
            final(self).wf(),
            final(self).len() == old(self).len(),
            final(self).schedule() == old(self).schedule().filter(pending_at(now)),
            forall|i: int| 0 <= i < old(self).len() ==> #[trigger] final(self).handler(i) == old(self).handler(i),
            final(self).fragments() == old(self).fragments(),
            forall|i: usize| i < old(self).len() ==> #[trigger] final(self).owner(i as int) == if is_due(
                old(self).schedule(),
                i,
                now,
            ) && old(self).owner(i as int) is Owned {
                Ownership::InFlight
            } else {
                old(self).owner(i as int)
            },
            forall|k: int| 0 <= k < r@.len() ==> {
                let (id, b) = #[trigger] r@[k];
                &&& id < old(self).len()
                &&& is_due(old(self).schedule(), id, now)
                &&& old(self).owner(id as int) == Ownership::Owned(b)
            },
            forall|i: usize| i < old(self).len() && #[trigger] is_due(old(self).schedule(), i, now)
                && old(self).owner(i as int) is Owned ==> exists|k: int| 0 <= k < r@.len() && (#[trigger] r@[k]).0 == i,
            forall|a: int, b: int| 0 <= a < b < r@.len() ==> r@[a].0 != r@[b].0,
    {
        let ghost o = *self;
        let due = self.scheduler.take_due(now);
        proof {
            lemma_filter_from(o.scheduler@, pending_at(now));
            assert forall|j: int| 0 <= j < self.scheduler@.len() implies {
                let t = (#[trigger] self.scheduler@[j]).id;
                &&& t < self.owners@.len()
                &&& (self.owners@[t as int] is Owned || self.owners@[t as int] is InFlight)
            } by {
                assert(o.scheduler@.contains(self.scheduler@[j]));
            }
            assert forall|k: int| 0 <= k < due@.len() implies #[trigger] due@[k] < o.len() by {
                assert(is_due(o.scheduler@, due@[k], now));
                let j = choose|j: int| 0 <= j < o.scheduler@.len() && o.scheduler@[j].id == due@[k] && o.scheduler@[j].update_time <= now;
                assert(o.scheduler@[j].id < o.owners@.len());
            }
        }
        let ghost mid = *self;
        let mut started: Vec<(usize, B)> = Vec::new();
        let mut k: usize = 0;
        while k < due.len()
            invariant
                self.wf(),
                k <= due@.len(),
                self.len() == o.len(),
                self.schedule() == mid.schedule(),
                mid.schedule() == o.schedule().filter(pending_at(now)),
                mid.owners == o.owners,
                self.handlers == o.handlers,
                self.rendered == o.rendered,
                forall|m: int| 0 <= m < due@.len() ==> is_due(o.schedule(), #[trigger] due@[m], now),
                forall|m: int| 0 <= m < due@.len() ==> #[trigger] due@[m] < o.len(),
                forall|a: int, b: int| 0 <= a < b < due@.len() ==> due@[a] != due@[b],
                forall|id: usize| is_due(o.schedule(), id, now) ==> due@.contains(id),
                forall|i: usize| i < o.len() ==> #[trigger] self.owner(i as int) == if due@.take(k as int).contains(i)
                    && o.owner(i as int) is Owned {
                    Ownership::InFlight
                } else {
                    o.owner(i as int)
                },
                forall|m: int| 0 <= m < started@.len() ==> {
                    let (id, b) = #[trigger] started@[m];
                    &&& due@.take(k as int).contains(id)
                    &&& o.owner(id as int) == Ownership::Owned(b)
                },
                forall|m: int| 0 <= m < k && o.owner(due@[m] as int) is Owned ==> exists|n: int|
                    0 <= n < started@.len() && (#[trigger] started@[n]).0 == due@[m],
                forall|a: int, b: int| 0 <= a < b < started@.len() ==> started@[a].0 != started@[b].0,
            decreases due@.len() - k,
        {
            let id = due[k];
            proof {
                assert(!due@.take(k as int).contains(id)) by {
                    if due@.take(k as int).contains(id) {
                        let m = choose|m: int| 0 <= m < k && due@.take(k as int)[m] == id;
                        assert(due@[m] == due@[k as int]);
                    }
                }
                assert(self.owner(id as int) == o.owner(id as int));
                assert(due@.take(k + 1) =~= due@.take(k as int).push(id));
            }
            let ghost before = started@;
            match self.take_owned(id) {
                Some(b) => {
                    started.push((id, b));
                    proof {
                        assert forall|a: int, c: int| 0 <= a < c < started@.len() implies started@[a].0 != started@[c].0 by {
                            if c == started@.len() - 1 {
                                assert(due@.take(k as int).contains(before[a].0));
                            }
                        }
                    }
                },
                None => {},
            }
            proof {
                assert forall|m: int| 0 <= m < started@.len() implies due@.take(k + 1).contains((#[trigger] started@[m]).0) by {
                    if m < before.len() {
                        let q = choose|q: int| 0 <= q < k && due@.take(k as int)[q] == before[m].0;
                        assert(due@.take(k + 1)[q] == before[m].0);
                    } else {
                        assert(due@.take(k + 1)[k as int] == id);
                    }
                }
                assert forall|m: int| 0 <= m < k + 1 && o.owner(due@[m] as int) is Owned implies exists|n: int|
                    0 <= n < started@.len() && (#[trigger] started@[n]).0 == due@[m] by {
                    if m == k {
                        assert(started@[started@.len() - 1].0 == due@[m]);
                    } else {
                        let n = choose|n: int| 0 <= n < before.len() && (#[trigger] before[n]).0 == due@[m];
                        assert(started@[n] == before[n]);
                    }
                }
            }
            k += 1;
        }
        proof {
            assert(due@.take(due@.len() as int) =~= due@);
            assert forall|i: usize| i < o.len() && #[trigger] is_due(o.schedule(), i, now)
                && o.owner(i as int) is Owned implies exists|n: int| 0 <= n < started@.len() && (#[trigger] started@[n]).0 == i by {
                assert(due@.contains(i));
                let m = choose|m: int| 0 <= m < due@.len() && due@[m] == i;
                assert(o.owner(due@[m] as int) is Owned);
            }
            assert forall|i: usize| i < o.len() implies #[trigger] self.owner(i as int) == if is_due(
                o.schedule(),
                i,
                now,
            ) && o.owner(i as int) is Owned {
                Ownership::InFlight
            } else {
                o.owner(i as int)
            } by {
                if due@.contains(i) {
                    let m = choose|m: int| 0 <= m < due@.len() && due@[m] == i;
                    assert(is_due(o.schedule(), due@[m], now));
                }
            }
        }
        started
    }

    /// A signal: a refresh of every `Owned` block, a refresh of the `Owned`
    /// blocks whose registered signal is the numbered one, or a restart.
    pub fn on_signal(&mut self, sig: Signal) -> (r: SignalAction<B>)
        requires
            old(self).wf(),
        ensures
            final(self).wf(),
            sig == Signal::Usr2 ==> r is Restart && final(self).same_as(old(self)),
            sig != Signal::Usr2 ==> {
                let filter = match sig {
                    Signal::Other(n) => Some(n),
                    _ => None,
                };
                &&& r is Update
                &&& dispatched(*old(self), *final(self), r->Update_0@, filter)
            },
    {
        match sig {
            Signal::Usr1 => SignalAction::Update(self.dispatch_selected(None)),
            Signal::Usr2 => SignalAction::Restart,
            Signal::Other(n) => SignalAction::Update(self.dispatch_selected(Some(n))),
        }
    }

    /// Takes every `Owned` block that `filter` selects, in slot order,
    /// leaving each `InFlight`.
    fn dispatch_selected(&mut self, filter: Option<i32>) -> (r: Vec<(usize, B)>)
        requires
            old(self).wf(),
        ensures
            final(self).wf(),
            dispatched(*old(self), *final(self), r@, filter),
    {
        let ghost o = *self;
        let mut started: Vec<(usize, B)> = Vec::new();
        let mut i: usize = 0;
        while i < self.owners.len()
            invariant
                self.wf(),
                i <= self.len(),
                self.len() == o.len(),
                self.schedule() == o.schedule(),
                self.handlers == o.handlers,
                self.rendered == o.rendered,
                forall|j: int| 0 <= j < o.len() ==> #[trigger] self.owner(j) == if j < i && selected(o, j, filter) {
                    Ownership::InFlight
                } else {
                    o.owner(j)
                },
                forall|m: int| 0 <= m < started@.len() ==> {
                    let (id, b) = #[trigger] started@[m];
                    &&& id < i
                    &&& selected(o, id as int, filter)
                    &&& o.owner(id as int) == Ownership::Owned(b)
                },
                forall|j: int| 0 <= j < i && selected(o, j, filter) ==> exists|n: int|
                    0 <= n < started@.len() && (#[trigger] started@[n]).0 == j,
                forall|a: int, b: int| 0 <= a < b < started@.len() ==> started@[a].0 < started@[b].0,
            decreases o.len() - i,
        {
            let wanted = match filter {
                None => true,
                Some(n) => match self.handlers[i].signal {
                    Some(m) => m == n,
                    None => false,
                },
            };
            let ghost before = started@;
            if wanted {
                match self.take_owned(i) {
                    Some(b) => {
                        started.push((i, b));
                    },
                    None => {},
                }
            }
            proof {
                assert forall|j: int| 0 <= j < i + 1 && selected(o, j, filter) implies exists|n: int|
                    0 <= n < started@.len() && (#[trigger] started@[n]).0 == j by {
                    if j == i {
                        assert(started@[started@.len() - 1].0 == j);
                    } else {
                        let n = choose|n: int| 0 <= n < before.len() && (#[trigger] before[n]).0 == j;
                        assert(started@[n] == before[n]);
                    }
                }
            }
            i += 1;
        }
        started
    }

    /// Puts `o` in slot `id`; returns what was there.
    fn swap_owner(&mut self, id: usize, o: Ownership<B>) -> (r: Ownership<B>)
        requires
            id < old(self).len(),
        ensures
            r == old(self).owner(id as int),
            final(self).owners@ == old(self).owners@.update(id as int, o),
            final(self).handlers == old(self).handlers,
            final(self).rendered == old(self).rendered,
            final(self).scheduler == old(self).scheduler,
    {
        let mut cur = o;
        std::mem::swap(&mut self.owners[id], &mut cur);
        cur
    }

    /// Takes the instance out of slot `id` if it is `Owned`, leaving the slot
    /// `InFlight`.
    fn take_owned(&mut self, id: usize) -> (r: Option<B>)
        requires
            old(self).wf(),
            id < old(self).len(),
        ensures
            final(self).wf(),
            final(self).same_but(old(self), id as int),
            final(self).handler(id as int) == old(self).handler(id as int),
            final(self).fragments() == old(self).fragments(),
            final(self).handlers == old(self).handlers,
            final(self).rendered == old(self).rendered,
            match old(self).owner(id as int) {
                Ownership::Owned(b) => r == Some(b) && final(self).owner(id as int) is InFlight,
                _ => r is None && final(self).owner(id as int) == old(self).owner(id as int),
            },
    {
        if matches!(self.owners[id], Ownership::Owned(_)) {
            let cur = self.swap_owner(id, Ownership::InFlight);
            match cur {
                Ownership::Owned(b) => Some(b),
                _ => None,
            }
        } else {
            None
        }
    }
}

/// Each slot is in exactly one state at a time, and a block that has a
/// scheduled refresh is `Owned` or `InFlight`.
pub proof fn lemma_one_state<B>(d: Dispatcher<B>, id: usize)
    requires
        d.wf(),
        id < d.len(),
    ensures
        (d.owner(id as int) is Owned) as int + (d.owner(id as int) is InFlight) as int + (d.owner(id as int) is Failed) as int
            + (d.owner(id as int) is Constructing) as int + (d.owner(id as int) is Disabled) as int == 1,
        has_task(d.schedule(), id) ==> (d.owner(id as int) is Owned || d.owner(id as int) is InFlight),
{
    if has_task(d.schedule(), id) {
        let j = choose|j: int| 0 <= j < d.schedule().len() && d.schedule()[j].id == id;
        assert(d.scheduler@[j].id == id);
    }
}

/// A block whose construction failed has no scheduled refresh, and no
/// signal selects it.
pub proof fn lemma_failed_never_dispatched<B>(d: Dispatcher<B>, id: usize, filter: Option<i32>)
    requires
        d.wf(),
        id < d.len(),
        d.owner(id as int) is Failed,
    ensures
        !has_task(d.schedule(), id),
        !selected(d, id as int, filter),
{
    lemma_one_state(d, id);
}

} // verus!
