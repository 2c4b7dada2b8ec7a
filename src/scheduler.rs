use vstd::prelude::*;

verus! {

/// A pending refresh: block `id` is due at `update_time`.
///
/// Times are milliseconds on a monotonic clock chosen by the caller.
#[derive(Clone, Copy, Debug)]
pub struct Task {
    pub id: usize,
    pub update_time: u64,
}

/// How long after `now` the task `t` is due; zero once it is due.
pub open spec fn gap(t: Task, now: u64) -> u64 {
    if t.update_time <= now {
        0
    } else {
        (t.update_time - now) as u64
    }
}

/// The smallest `gap` over the tasks of `s`, or `None` when `s` is empty.
pub open spec fn next_wake(s: Seq<Task>, now: u64) -> Option<u64>
    decreases s.len(),
{
    if s.len() == 0 {
        None
    } else {
        let g = gap(s.last(), now);
        match next_wake(s.drop_last(), now) {
            None => Some(g),
            Some(d) => Some(if d <= g { d } else { g }),
        }
    }
}

/// Keeps the tasks that do not belong to block `id`.
pub open spec fn not_for(id: usize) -> spec_fn(Task) -> bool {
    |t: Task| t.id != id
}

/// Keeps the tasks that are not yet due at `now`.
pub open spec fn pending_at(now: u64) -> spec_fn(Task) -> bool {
    |t: Task| t.update_time > now
}

/// No two tasks belong to the same block.
pub open spec fn ids_unique(s: Seq<Task>) -> bool {
    forall|i: int, j: int| 0 <= i < j < s.len() ==> s[i].id != s[j].id
}

/// Block `id` has a task in `s` that is due at `now`.
pub open spec fn is_due(s: Seq<Task>, id: usize, now: u64) -> bool {
    exists|j: int| 0 <= j < s.len() && s[j].id == id && s[j].update_time <= now
}

/// Block `id` has a task in `s`.
pub open spec fn has_task(s: Seq<Task>, id: usize) -> bool {
    exists|j: int| 0 <= j < s.len() && s[j].id == id
}

spec fn occurs_before(s: Seq<Task>, i: int, t: Task) -> bool {
    exists|j: int| 0 <= j < i && s[j] == t
}

spec fn due_before(s: Seq<Task>, i: int, id: usize, now: u64) -> bool {
    exists|j: int| 0 <= j < i && s[j].id == id && s[j].update_time <= now
}

/// Filtering keeps only tasks that were there.
pub proof fn lemma_filter_from(s: Seq<Task>, p: spec_fn(Task) -> bool)
    ensures
        forall|k: int| 0 <= k < s.filter(p).len() ==> s.contains(#[trigger] s.filter(p)[k]),
    decreases s.len(),
{
    reveal(Seq::filter);
    if s.len() > 0 {
        let d = s.drop_last();
        lemma_filter_from(d, p);
        assert forall|k: int| 0 <= k < s.filter(p).len() implies s.contains(#[trigger] s.filter(p)[k]) by {
            if k < d.filter(p).len() {
                let x = d.filter(p)[k];
                let j = choose|j: int| 0 <= j < d.len() && d[j] == x;
                assert(s[j] == x);
            } else {
                assert(s[s.len() - 1] == s.filter(p)[k]);
            }
        }
    }
}

/// Filtering keeps every task when each one passes.
pub proof fn lemma_filter_all(s: Seq<Task>, p: spec_fn(Task) -> bool)
    requires
        forall|k: int| 0 <= k < s.len() ==> p(#[trigger] s[k]),
    ensures
        s.filter(p) == s,
    decreases s.len(),
{
    reveal(Seq::filter);
    if s.len() > 0 {
        lemma_filter_all(s.drop_last(), p);
        assert(s.drop_last().push(s.last()) =~= s);
    }
}

/// The wait until the next wake-up is the least time left over the pending
/// tasks: `None` exactly when no task is pending, and zero exactly when some
/// task's due time is not in the future.
pub proof fn lemma_next_wake_is_least_gap(s: Seq<Task>, now: u64)
    ensures
        next_wake(s, now).is_none() <==> s.len() == 0,
        next_wake(s, now) == Some(0u64) <==> exists|i: int| 0 <= i < s.len() && s[i].update_time <= now,
        next_wake(s, now).is_some() ==> (forall|i: int| 0 <= i < s.len() ==> next_wake(s, now).unwrap() <= gap(#[trigger] s[i], now)),
        next_wake(s, now).is_some() ==> (exists|i: int| 0 <= i < s.len() && gap(#[trigger] s[i], now) == next_wake(s, now).unwrap()),
    decreases s.len(),
{
    if s.len() > 0 {
        let d = s.drop_last();
        lemma_next_wake_is_least_gap(d, now);
        let last = s.len() - 1;
        assert forall|i: int| 0 <= i < d.len() implies d[i] == s[i] by {}
        if next_wake(s, now) == Some(0u64) {
            if gap(s[last], now) != 0 {
                let i = choose|i: int| 0 <= i < d.len() && gap(#[trigger] d[i], now) == 0u64;
                assert(s[i].update_time <= now);
            }
        }
        if exists|i: int| 0 <= i < s.len() && s[i].update_time <= now {
            let i = choose|i: int| 0 <= i < s.len() && s[i].update_time <= now;
            if i < last {
                assert(d[i].update_time <= now);
            }
        }
        if next_wake(d, now).is_some() && next_wake(d, now).unwrap() <= gap(s[last], now) {
            let i = choose|i: int| 0 <= i < d.len() && gap(#[trigger] d[i], now) == next_wake(d, now).unwrap();
            assert(gap(s[i], now) == next_wake(s, now).unwrap());
        } else {
            assert(gap(s[last], now) == next_wake(s, now).unwrap());
        }
    }
}

/// Once an update that completes at `t0` gives block `id` the interval `d`,
/// the block is due exactly from `t0 + d` on; until then the wait reported
/// never runs past that instant.
pub proof fn lemma_interval_from_completion(s: Seq<Task>, id: usize, t0: u64, d: u64, now: u64)
    requires
        t0 + d <= u64::MAX,
    ensures
        is_due(s.filter(not_for(id)).push(Task { id, update_time: (t0 + d) as u64 }), id, now) <==> t0 + d <= now,
        next_wake(s.filter(not_for(id)).push(Task { id, update_time: (t0 + d) as u64 }), now).is_some(),
        now < t0 + d ==> next_wake(s.filter(not_for(id)).push(Task { id, update_time: (t0 + d) as u64 }), now).unwrap()
            <= t0 + d - now,
{
    let f = s.filter(not_for(id));
    let task = Task { id, update_time: (t0 + d) as u64 };
    let p = f.push(task);
    lemma_next_wake_is_least_gap(p, now);
    assert(p[f.len() as int] == task);
    if is_due(p, id, now) {
        let j = choose|j: int| 0 <= j < p.len() && p[j].id == id && p[j].update_time <= now;
        if j < f.len() {
            s.lemma_filter_pred(not_for(id), j);
            assert(p[j] == f[j]);
        }
    }
}

/// What a scheduler reports after any sequence of `push` and `pop` calls is
/// a wait (unsigned, so never negative) that is zero exactly when some task
/// is already due.
pub proof fn lemma_wake_zero_iff_due(sched: &UpdateScheduler, now: u64)
    ensures
        next_wake(sched@, now) == Some(0u64) <==> exists|i: int|
            0 <= i < sched@.len() && sched@[i].update_time <= now,
{
    lemma_next_wake_is_least_gap(sched@, now);
}

/// After `pop(id)` the next wake-up is computed from the other blocks' tasks
/// alone: it is the least time left over the tasks of blocks other than `id`,
/// and `None` when `id` was the only block with a task.
pub proof fn lemma_pop_excludes_block(s: Seq<Task>, id: usize, now: u64)
    ensures
        next_wake(s.filter(not_for(id)), now).is_none() <==> (forall|i: int|
            0 <= i < s.len() ==> (#[trigger] s[i]).id == id),
        next_wake(s.filter(not_for(id)), now).is_some() ==> (forall|i: int|
            0 <= i < s.len() && (#[trigger] s[i]).id != id ==> next_wake(s.filter(not_for(id)), now).unwrap() <= gap(s[i], now)),
        next_wake(s.filter(not_for(id)), now).is_some() ==> (exists|i: int|
            0 <= i < s.len() && (#[trigger] s[i]).id != id && gap(s[i], now) == next_wake(s.filter(not_for(id)), now).unwrap()),
{
    let t = s.filter(not_for(id));
    lemma_next_wake_is_least_gap(t, now);
    lemma_filter_from(s, not_for(id));
    assert forall|i: int| 0 <= i < s.len() && (#[trigger] s[i]).id != id implies t.contains(s[i]) by {
        s.lemma_filter_contains(not_for(id), i);
    }
    if t.len() > 0 {
        let k = choose|k: int| 0 <= k < t.len() && gap(#[trigger] t[k], now) == next_wake(t, now).unwrap();
        assert(s.contains(t[k]));
        s.lemma_filter_pred(not_for(id), k);
        let i = choose|i: int| 0 <= i < s.len() && s[i] == t[k];
        assert(s[i].id != id);
        assert forall|i: int| 0 <= i < s.len() && (#[trigger] s[i]).id != id implies next_wake(t, now).unwrap() <= gap(s[i], now) by {
            let j = choose|j: int| 0 <= j < t.len() && t[j] == s[i];
            assert(next_wake(t, now).unwrap() <= gap(t[j], now));
        }
    } else {
        assert forall|i: int| 0 <= i < s.len() implies (#[trigger] s[i]).id == id by {
            if s[i].id != id {
                assert(t.contains(s[i]));
            }
        }
    }
}

/// The due time of each block: one task per block at most.
pub struct UpdateScheduler {
    schedule: Vec<Task>,
}

impl View for UpdateScheduler {
    type V = Seq<Task>;

    closed spec fn view(&self) -> Seq<Task> {
        self.schedule@
    }
}

proof fn lemma_due_gives_zero(s: Seq<Task>, i: int, now: u64)
    requires
        0 <= i < s.len(),
        s[i].update_time <= now,
    ensures
        next_wake(s, now) == Some(0u64),
    decreases s.len(),
{
    if i < s.len() - 1 {
        lemma_due_gives_zero(s.drop_last(), i, now);
    }
}

impl UpdateScheduler {
    /// At most one task per block.
    pub closed spec fn wf(&self) -> bool {
        ids_unique(self@)
    }

    /// A scheduler with one task per block `0..blocks_cnt`, all due at `now`.
    pub fn new(blocks_cnt: usize, now: u64) -> (r: UpdateScheduler)
        ensures
            r.wf(),
            r@.len() == blocks_cnt,
            forall|i: int| 0 <= i < blocks_cnt ==> r@[i] == (Task { id: i as usize, update_time: now }),
    {
        let mut schedule: Vec<Task> = Vec::with_capacity(blocks_cnt);
        let mut id: usize = 0;
        while id < blocks_cnt
            invariant
                id <= blocks_cnt,
                schedule@.len() == id,
                forall|i: int| 0 <= i < id ==> schedule@[i] == (Task { id: i as usize, update_time: now }),
            decreases blocks_cnt - id,
        {
            schedule.push(Task { id, update_time: now });
            id += 1;
        }
        UpdateScheduler { schedule }
    }

    /// The wait until the earliest task is due: zero if one is due already,
    /// `None` if no task is pending.
    pub fn time_to_next_update(&self, now: u64) -> (r: Option<u64>)
        ensures
            r == next_wake(self@, now),
    {
        let ghost s = self@;
        let mut dur: Option<u64> = None;
        let mut i: usize = 0;
        while i < self.schedule.len()
            invariant
                s == self@,
                i <= s.len(),
                dur == next_wake(s.take(i as int), now),
            decreases s.len() - i,
        {
            let task = self.schedule[i];
            if task.update_time <= now {
                proof {
                    lemma_due_gives_zero(s, i as int, now);
                }
                return Some(0);
            }
            let g = task.update_time - now;
            dur = match dur {
                None => Some(g),
                Some(d) => Some(if d <= g { d } else { g }),
            };
            proof {
                assert(s.take(i + 1).drop_last() =~= s.take(i as int));
            }
            i += 1;
        }
        proof {
            assert(s.take(s.len() as int) =~= s);
        }
        dur
    }

    /// Makes `when` the one due time of block `id`, replacing any earlier one.
    pub fn push(&mut self, id: usize, when: u64)
        requires
            old(self).wf(),
        ensures
            final(self).wf(),
            final(self)@ == old(self)@.filter(not_for(id)).push(Task { id, update_time: when }),
    {
        let ghost s = self@;
        self.pop(id);
        let ghost before = self@;
        self.schedule.push(Task { id, update_time: when });
        proof {
            assert forall|i: int| 0 <= i < before.len() implies before[i].id != id by {
                s.lemma_filter_pred(not_for(id), i);
            }
        }
    }

    /// Removes every task of block `id`.
    pub fn pop(&mut self, id: usize)
        requires
            old(self).wf(),
        ensures
            final(self).wf(),
            final(self)@ == old(self)@.filter(not_for(id)),
    {
        let ghost s = self@;
        let mut kept: Vec<Task> = Vec::new();
        let mut i: usize = 0;
        while i < self.schedule.len()
            invariant
                s == self@,
                ids_unique(s),
                i <= s.len(),
                kept@ == s.take(i as int).filter(not_for(id)),
                ids_unique(kept@),
                forall|k: int| 0 <= k < kept@.len() ==> occurs_before(s, i as int, #[trigger] kept@[k]),
            decreases s.len() - i,
        {
            let task = self.schedule[i];
            proof {
                reveal(Seq::filter);
                assert(s.take(i + 1).drop_last() =~= s.take(i as int));
                assert(s.take(i + 1).last() == task);
            }
            if task.id != id {
                kept.push(task);
                proof {
                    assert forall|k: int| 0 <= k < kept@.len() implies occurs_before(s, i + 1, #[trigger] kept@[k]) by {
                        if k == kept@.len() - 1 {
                            assert(kept@[k] == s[i as int]);
                        }
                    }
                }
            }
            i += 1;
        }
        proof {
            assert(s.take(s.len() as int) =~= s);
        }
        self.schedule = kept;
    }

    /// Removes the tasks due at `now` and returns their blocks, in schedule order.
    pub fn take_due(&mut self, now: u64) -> (r: Vec<usize>)
        requires
            old(self).wf(),
        ensures
            final(self).wf(),
            final(self)@ == old(self)@.filter(pending_at(now)),
            forall|k: int| 0 <= k < r@.len() ==> is_due(old(self)@, r@[k], now),
            forall|id: usize| is_due(old(self)@, id, now) ==> r@.contains(id),
            forall|a: int, b: int| 0 <= a < b < r@.len() ==> r@[a] != r@[b],
    {
        let ghost s = self@;
        let mut kept: Vec<Task> = Vec::new();
        let mut due: Vec<usize> = Vec::new();
        let mut i: usize = 0;
        while i < self.schedule.len()
            invariant
                s == self@,
                ids_unique(s),
                i <= s.len(),
                kept@ == s.take(i as int).filter(pending_at(now)),
                ids_unique(kept@),
                forall|k: int| 0 <= k < kept@.len() ==> occurs_before(s, i as int, #[trigger] kept@[k]),
                forall|k: int| 0 <= k < due@.len() ==> due_before(s, i as int, #[trigger] due@[k], now),
                forall|j: int| 0 <= j < i && s[j].update_time <= now ==> due@.contains(s[j].id),
                forall|a: int, b: int| 0 <= a < b < due@.len() ==> due@[a] != due@[b],
            decreases s.len() - i,
        {
            let task = self.schedule[i];
            proof {
                reveal(Seq::filter);
                assert(s.take(i + 1).drop_last() =~= s.take(i as int));
                assert(s.take(i + 1).last() == task);
            }
            if task.update_time > now {
                kept.push(task);
                proof {
                    assert forall|k: int| 0 <= k < kept@.len() implies occurs_before(s, i + 1, #[trigger] kept@[k]) by {
                        if k == kept@.len() - 1 {
                            assert(kept@[k] == s[i as int]);
                        }
                    }
                }
            } else {
                let ghost old_due = due@;
                due.push(task.id);
                proof {
                    assert forall|k: int| 0 <= k < due@.len() implies due_before(s, i + 1, #[trigger] due@[k], now) by {
                        if k == due@.len() - 1 {
                            assert(s[i as int].id == due@[k]);
                        } else {
                            assert(due@[k] == old_due[k]);
                        }
                    }
                    assert forall|j: int| 0 <= j < i + 1 && s[j].update_time <= now implies due@.contains(
                        s[j].id,
                    ) by {
                        if j == i {
                            assert(due@[due@.len() - 1] == s[j].id);
                        } else {
                            let k = choose|k: int| 0 <= k < old_due.len() && old_due[k] == s[j].id;
                            assert(due@[k] == s[j].id);
                        }
                    }
                    assert forall|a: int, b: int| 0 <= a < b < due@.len() implies due@[a] != due@[b] by {
                        if b == due@.len() - 1 {
                            let j = choose|j: int|
                                0 <= j < i && s[j].id == due@[a] && s[j].update_time <= now;
                            assert(s[j].id != s[i as int].id);
                        }
                    }
                }
            }
            i += 1;
        }
        proof {
            assert(s.take(s.len() as int) =~= s);
            assert forall|id: usize| is_due(s, id, now) implies due@.contains(id) by {
                let j = choose|j: int| 0 <= j < s.len() && s[j].id == id && s[j].update_time <= now;
                assert(due@.contains(s[j].id));
            }
        }
        self.schedule = kept;
        due
    }
}

} // verus!
