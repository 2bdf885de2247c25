//! The cooperative layer: an executor that one kernel thread runs, and the
//! tasks that it multiplexes.
//!
//! A task is any value `T` that the caller can poll; the executor owns the
//! tasks, gives each a fresh id, and decides which is polled next. Polling
//! itself is the caller's part: it takes the next ready task out, polls it,
//! and hands it back if it is not finished. A task that is handed back is
//! not polled again until a wake puts its id into the ready queue.

use vstd::prelude::*;
use std::collections::{BTreeMap, VecDeque};
use crate::error::KernelError;

verus! {

broadcast use {vstd::std_specs::btree::group_btree_axioms, vstd::laws_cmp::group_laws_cmp};

/// What an executor holds, as plain values.
pub struct ExecutorView<T> {
    /// The tasks that the executor holds, by id.
    pub tasks: Map<u64, T>,
    /// The ids that wait to be polled, in the order of their turn.
    pub ready: Seq<u64>,
    /// The id that the next spawned task gets.
    pub next_id: u64,
}

/// What holds of a new executor and is kept by every operation that is
/// given ids of spawned tasks only: every id it holds has been handed out,
/// so the next id is fresh.
pub open spec fn executor_wf<T>(executor: ExecutorView<T>) -> bool {
    &&& forall|id: u64| executor.tasks.dom().contains(id) ==> id < executor.next_id
    &&& forall|i: int| 0 <= i < executor.ready.len() ==> executor.ready[i] < executor.next_id
}

/// The id after `id`.
pub open spec fn add_one(id: u64) -> u64
    recommends
        id < u64::MAX,
{
    (id + 1) as u64
}

/// The place in `ready` of the first id, from place `from` on, that has a
/// task in `tasks`; the length of `ready` if there is none.
pub open spec fn first_live<T>(ready: Seq<u64>, tasks: Map<u64, T>, from: int) -> int
    decreases ready.len() - from,
{
    if from < 0 || from >= ready.len() {
        ready.len() as int
    } else if tasks.dom().contains(ready[from]) {
        from
    } else {
        first_live(ready, tasks, from + 1)
    }
}

/// A cooperative executor over tasks of type `T`.
pub struct Executor<T> {
    tasks: BTreeMap<u64, T>,
    ready: VecDeque<u64>,
    next_id: u64,
}

impl<T> Executor<T> {
    /// What the executor holds.
    pub closed spec fn view(&self) -> ExecutorView<T> {
        ExecutorView { tasks: self.tasks@, ready: self.ready@, next_id: self.next_id }
    }

    /// An executor without tasks.
    pub fn new() -> (executor: Self)
        ensures
            executor@.tasks == Map::<u64, T>::empty(),
            executor@.ready == Seq::<u64>::empty(),
            executor@.next_id == 0,
            executor_wf(executor@),
    {
        Executor { tasks: BTreeMap::new(), ready: VecDeque::new(), next_id: 0 }
    }

    /// Takes `task` in: it gets the next id, which no task had before, and
    /// is ready at once. Fails with `ResourceExhaustion`, changing nothing
    /// and dropping the task, exactly when all ids are used up.
    pub fn spawn(&mut self, task: T) -> (r: Result<u64, KernelError>)
        ensures
            match r {
                Ok(id) => {
                    &&& id == old(self)@.next_id
                    &&& id < u64::MAX
                    &&& final(self)@ == (ExecutorView {
                        tasks: old(self)@.tasks.insert(id, task),
                        ready: old(self)@.ready.push(id),
                        next_id: add_one(id),
                    })
                    &&& executor_wf(old(self)@) ==> !old(self)@.tasks.dom().contains(id)
                        && !old(self)@.ready.contains(id)
                },
                Err(e) => {
                    &&& e == KernelError::ResourceExhaustion
                    &&& old(self)@.next_id == u64::MAX
                    &&& final(self)@ == old(self)@
                },
            },
            executor_wf(old(self)@) ==> executor_wf(final(self)@),
    {
        if self.next_id == u64::MAX {
            return Err(KernelError::ResourceExhaustion);
        }
        let id = self.next_id;
        self.tasks.insert(id, task);
        self.ready.push_back(id);
        self.next_id = id + 1;
        Ok(id)
    }

    /// One step of the run loop: takes the next ready task out of the
    /// executor, to be polled. Ready ids whose task is gone, because it
    /// finished after it was woken, are passed over. Returns `None` when no
    /// ready id with a task is left; the ready queue is empty then.
    pub fn run(&mut self) -> (r: Option<(u64, T)>)
        ensures
            final(self)@.next_id == old(self)@.next_id,
            match r {
                Some((id, task)) => {
                    let place = first_live(old(self)@.ready, old(self)@.tasks, 0);
                    &&& 0 <= place < old(self)@.ready.len()
                    &&& id == old(self)@.ready[place]
                    &&& old(self)@.tasks.dom().contains(id)
                    &&& task == old(self)@.tasks[id]
                    &&& final(self)@.tasks == old(self)@.tasks.remove(id)
                    &&& final(self)@.ready == old(self)@.ready.skip(place + 1)
                },
                None => {
                    &&& first_live(old(self)@.ready, old(self)@.tasks, 0) == old(self)@.ready.len()
                    &&& final(self)@.tasks == old(self)@.tasks
                    &&& final(self)@.ready == Seq::<u64>::empty()
                },
            },
            executor_wf(old(self)@) ==> executor_wf(final(self)@),
    {
        let ghost ready = self.ready@;
        let ghost tasks = self.tasks@;
        let ghost mut passed: int = 0;
        loop
            invariant
                ready == old(self)@.ready,
                tasks == old(self)@.tasks,
                0 <= passed <= ready.len(),
                self.ready@ == ready.skip(passed),
                self.tasks@ == tasks,
                self.next_id == old(self).next_id,
                first_live(ready, tasks, 0) == first_live(ready, tasks, passed),
            decreases ready.len() - passed,
        {
            let id = match self.ready.pop_front() {
                Some(id) => id,
                None => {
                    return None;
                },
            };
            assert(id == ready[passed]);
            assert(self.ready@ == ready.skip(passed + 1));
            match self.tasks.remove(&id) {
                Some(task) => {
                    return Some((id, task));
                },
                None => {
                    proof {
                        passed = passed + 1;
                    }
                },
            }
        }
    }

    /// Hands back a task that was polled and is not finished. It keeps its
    /// id and is polled again after the next wake of that id.
    pub fn suspend(&mut self, id: u64, task: T)
        ensures
            final(self)@ == (ExecutorView {
                tasks: old(self)@.tasks.insert(id, task),
                ..old(self)@
            }),
            executor_wf(old(self)@) && id < old(self)@.next_id ==> executor_wf(final(self)@),
    {
        self.tasks.insert(id, task);
    }

    /// What a task's waker does: puts the id at the end of the ready queue.
    pub fn wake(&mut self, id: u64)
        ensures
            final(self)@ == (ExecutorView { ready: old(self)@.ready.push(id), ..old(self)@ }),
            executor_wf(old(self)@) && id < old(self)@.next_id ==> executor_wf(final(self)@),
    {
        self.ready.push_back(id);
    }

    /// Whether nothing is ready, so that the thread may halt until the next
    /// interrupt.
    pub fn is_idle(&self) -> (idle: bool)
        ensures
            idle == (self@.ready.len() == 0),
    {
        self.ready.len() == 0
    }
}

/// What `first_live` finds: the place of an id that has a task, with only
/// ids without a task before it; or the end of the queue.
pub proof fn lemma_first_live<T>(ready: Seq<u64>, tasks: Map<u64, T>, from: int)
    requires
        0 <= from <= ready.len(),
    ensures
        from <= first_live(ready, tasks, from) <= ready.len(),
        first_live(ready, tasks, from) < ready.len() ==> tasks.dom().contains(
            ready[first_live(ready, tasks, from)],
        ),
        forall|k: int|
            from <= k < first_live(ready, tasks, from) ==> !tasks.dom().contains(
                #[trigger] ready[k],
            ),
    decreases ready.len() - from,
{
    if from < ready.len() && !tasks.dom().contains(ready[from]) {
        lemma_first_live(ready, tasks, from + 1);
    }
}

/// A suspended task waits for its wake: a task whose id is not in the
/// ready queue is not the one that `run` takes out to be polled.
pub proof fn lemma_not_ready_is_not_run<T>(executor: ExecutorView<T>, id: u64)
    requires
        !executor.ready.contains(id),
    ensures
        first_live(executor.ready, executor.tasks, 0) < executor.ready.len()
            ==> executor.ready[first_live(executor.ready, executor.tasks, 0)] != id,
{
    lemma_first_live(executor.ready, executor.tasks, 0);
}

} // verus!
