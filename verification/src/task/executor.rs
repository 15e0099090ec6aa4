//! The cooperative executor's bookkeeping: which tasks are alive, which are waiting to be
//! polled and in what order, and what to do when nothing is ready.
use vstd::prelude::*;
use crossbeam_queue::SegQueue;
use std::collections::BTreeSet;

verus! {

broadcast use vstd::std_specs::btree::group_btree_axioms;

/// Task IDs (`u64`) are totally ordered, so the sets of them behave as sets.
proof fn lemma_task_ids_ordered()
    ensures
        vstd::laws_cmp::obeys_cmp::<u64>(),
{
    broadcast use vstd::laws_cmp::group_laws_cmp;
}

#[verifier::external_type_specification]
#[verifier::external_body]
#[verifier::reject_recursive_types(T)]
pub struct ExSegQueue<T>(SegQueue<T>);

/// The task IDs in a queue, front first.
pub uninterp spec fn seg_queue_items(q: SegQueue<u64>) -> Seq<u64>;

/// `SegQueue::new`: an empty queue.
#[verifier::external_body]
fn seg_queue_new() -> (q: SegQueue<u64>)
    ensures
        seg_queue_items(q) == Seq::<u64>::empty(),
{
    SegQueue::new()
}

/// `SegQueue::push_mut`: appends `id` at the back.
#[verifier::external_body]
fn seg_queue_push(q: &mut SegQueue<u64>, id: u64)
    ensures
        seg_queue_items(*final(q)) == seg_queue_items(*old(q)).push(id),
{
    q.push_mut(id)
}

/// `SegQueue::pop_mut`: takes the front item off, none when the queue is empty.
#[verifier::external_body]
fn seg_queue_pop(q: &mut SegQueue<u64>) -> (r: Option<u64>)
    ensures
        seg_queue_items(*old(q)).len() == 0 ==> r is None && seg_queue_items(*final(q))
            == seg_queue_items(*old(q)),
        seg_queue_items(*old(q)).len() > 0 ==> r == Some(seg_queue_items(*old(q))[0])
            && seg_queue_items(*final(q)) == seg_queue_items(*old(q)).drop_first(),
{
    q.pop_mut()
}

/// `SegQueue::is_empty`.
#[verifier::external_body]
fn seg_queue_is_empty(q: &SegQueue<u64>) -> (r: bool)
    ensures
        r == (seg_queue_items(*q).len() == 0),
{
    q.is_empty()
}

/// Waking a task: it joins the back of the queue unless it is already waiting.
pub open spec fn enqueue_spec(items: Seq<u64>, queued: Set<u64>, id: u64) -> (Seq<u64>, Set<u64>) {
    if queued.contains(id) {
        (items, queued)
    } else {
        (items.push(id), queued.insert(id))
    }
}

/// A task is queued at most once while it waits: waking it twice is waking it once.
pub proof fn lemma_enqueue_idempotent(items: Seq<u64>, queued: Set<u64>, id: u64)
    ensures
        ({
            let once = enqueue_spec(items, queued, id);
            enqueue_spec(once.0, once.1, id) == once
        }),
{
}

/// The tasks that wait to be polled, in the order they were woken, and the set of those
/// that are waiting (each waiting task is somewhere in the queue).
pub struct ReadyQueue {
    queue: SegQueue<u64>,
    queued: BTreeSet<u64>,
}

impl ReadyQueue {
    /// The queue, front first.
    pub closed spec fn items(&self) -> Seq<u64> {
        seg_queue_items(self.queue)
    }

    /// The tasks marked as waiting.
    pub closed spec fn waiting(&self) -> Set<u64> {
        self.queued@
    }

    /// Every waiting task is in the queue.
    pub open spec fn wf(&self) -> bool {
        forall|id: u64| self.waiting().contains(id) ==> self.items().contains(id)
    }

    pub fn new() -> (r: Self)
        ensures
            r.wf(),
            r.items() == Seq::<u64>::empty(),
            r.waiting() == Set::<u64>::empty(),
    {
        ReadyQueue { queue: seg_queue_new(), queued: BTreeSet::new() }
    }

    /// Wakes task `id`: it joins the back of the queue unless it is already waiting. Returns
    /// whether it was added.
    pub fn enqueue(&mut self, id: u64) -> (added: bool)
        requires
            old(self).wf(),
        ensures
            final(self).wf(),
            added == !old(self).waiting().contains(id),
            (final(self).items(), final(self).waiting()) == enqueue_spec(
                old(self).items(),
                old(self).waiting(),
                id,
            ),
    {
        proof {
            lemma_task_ids_ordered();
        }
        let added = self.queued.insert(id);
        assert(self.waiting() == old(self).waiting().insert(id));
        assert(self.items() == old(self).items());
        if added {
            let ghost before = self.items();
            seg_queue_push(&mut self.queue, id);
            assert forall|x: u64| self.waiting().contains(x) implies self.items().contains(x) by {
                if x == id {
                    assert(self.items()[before.len() as int] == id);
                } else {
                    let k = choose|k: int| 0 <= k < before.len() && before[k] == x;
                    assert(self.items()[k] == x);
                }
            }
        }
        added
    }

    /// Takes the task at the front of the queue, which stops waiting; none when the queue
    /// is empty.
    pub fn next_task(&mut self) -> (r: Option<u64>)
        requires
            old(self).wf(),
        ensures
            final(self).wf(),
            old(self).items().len() == 0 ==> r is None && final(self).items() == old(self).items()
                && final(self).waiting() == old(self).waiting(),
            old(self).items().len() > 0 ==> r == Some(old(self).items()[0]) && final(self).items()
                == old(self).items().drop_first() && final(self).waiting() == old(
                self,
            ).waiting().remove(old(self).items()[0]),
    {
        let ghost before = self.items();
        proof {
            lemma_task_ids_ordered();
        }
        let r = seg_queue_pop(&mut self.queue);
        match r {
            Some(id) => {
                self.queued.remove(&id);
                assert(self.waiting() == old(self).waiting().remove(id));
                assert(before == old(self).items() && before[0] == id);
                assert forall|x: u64| self.waiting().contains(x) implies self.items().contains(x) by {
                    let k = choose|k: int| 0 <= k < before.len() && before[k] == x;
                    assert(k != 0);
                    assert(self.items()[k - 1] == x);
                }
            },
            None => {},
        }
        r
    }

    /// Task `id` is no longer waiting (it has finished); the queue is left as it is.
    pub fn finish(&mut self, id: u64)
        requires
            old(self).wf(),
        ensures
            final(self).wf(),
            final(self).items() == old(self).items(),
            final(self).waiting() == old(self).waiting().remove(id),
    {
        proof {
            lemma_task_ids_ordered();
        }
        self.queued.remove(&id);
        assert(self.waiting() == old(self).waiting().remove(id));
    }

    /// Whether no task waits in the queue.
    pub fn is_empty(&self) -> (r: bool)
        ensures
            r == (self.items().len() == 0),
    {
        seg_queue_is_empty(&self.queue)
    }
}

/// Where the first task of `items` from position `from` on that is still live stands; the
/// length when there is none.
pub open spec fn first_live(items: Seq<u64>, live: Set<u64>, from: int) -> int
    decreases items.len() - from,
{
    if from < 0 || from >= items.len() {
        items.len() as int
    } else if live.contains(items[from]) {
        from
    } else {
        first_live(items, live, from + 1)
    }
}

proof fn lemma_first_live(items: Seq<u64>, live: Set<u64>, from: int)
    requires
        0 <= from <= items.len(),
    ensures
        from <= first_live(items, live, from) <= items.len(),
        from < items.len() && live.contains(items[from]) ==> first_live(items, live, from) == from,
        from < items.len() && !live.contains(items[from]) ==> first_live(items, live, from)
            == first_live(items, live, from + 1),
        first_live(items, live, from) < items.len() ==> live.contains(
            items[first_live(items, live, from)],
        ),
    decreases items.len() - from,
{
    if from < items.len() && !live.contains(items[from]) {
        lemma_first_live(items, live, from + 1);
    }
}

/// Running until the queue is empty: `next_ready` returns nothing only when no task in the
/// queue is live; otherwise it returns the first live one, having skipped only finished
/// tasks, and the queue that is left is shorter. With no new wakes in between, at most as many
/// calls as there are queued IDs therefore empty the queue.
pub proof fn lemma_run_until_empty(items: Seq<u64>, live: Set<u64>)
    ensures
        ({
            let k = first_live(items, live, 0);
            &&& 0 <= k <= items.len()
            &&& k == items.len() <==> (forall|i: int| 0 <= i < items.len() ==> !live.contains(#[trigger] items[i]))
            &&& forall|i: int| 0 <= i < k ==> !live.contains(#[trigger] items[i])
            &&& k < items.len() ==> live.contains(items[k]) && items.skip(k + 1).len() < items.len()
        }),
{
    lemma_first_live_skips(items, live, 0);
}

proof fn lemma_first_live_skips(items: Seq<u64>, live: Set<u64>, from: int)
    requires
        0 <= from <= items.len(),
    ensures
        from <= first_live(items, live, from) <= items.len(),
        forall|i: int| from <= i < first_live(items, live, from) ==> !live.contains(#[trigger] items[i]),
        first_live(items, live, from) < items.len() ==> live.contains(
            items[first_live(items, live, from)],
        ),
    decreases items.len() - from,
{
    lemma_first_live(items, live, from);
    if from < items.len() && !live.contains(items[from]) {
        lemma_first_live_skips(items, live, from + 1);
    }
}

/// What the executor does when it has run every ready task.
#[derive(Clone, Copy, Debug, PartialEq, Eq, Structural)]
pub enum IdleAction {
    /// Tasks are waiting: run them.
    RunReady,
    /// Nothing is waiting and the timer interrupt is routed: halt until the next interrupt.
    HaltUntilInterrupt,
    /// Nothing is waiting and there is no timer interrupt: advance the tick by hand.
    CooperativeTick,
}

pub fn idle_action(queue_empty: bool, timer_ready: bool) -> (r: IdleAction)
    ensures
        !queue_empty ==> r == IdleAction::RunReady,
        queue_empty && timer_ready ==> r == IdleAction::HaltUntilInterrupt,
        queue_empty && !timer_ready ==> r == IdleAction::CooperativeTick,
{
    if !queue_empty {
        IdleAction::RunReady
    } else if timer_ready {
        IdleAction::HaltUntilInterrupt
    } else {
        IdleAction::CooperativeTick
    }
}

/// The executor's bookkeeping: the live tasks (by ID) and the ready queue. The tasks
/// themselves, and polling them, belong to the caller.
pub struct Executor {
    live: BTreeSet<u64>,
    ready: ReadyQueue,
}

impl Executor {
    pub closed spec fn live_tasks(&self) -> Set<u64> {
        self.live@
    }

    pub closed spec fn ready_queue(&self) -> ReadyQueue {
        self.ready
    }

    pub open spec fn wf(&self) -> bool {
        self.ready_queue().wf()
    }

    pub fn new() -> (r: Self)
        ensures
            r.wf(),
            r.live_tasks() == Set::<u64>::empty(),
            r.ready_queue().items() == Seq::<u64>::empty(),
            r.ready_queue().waiting() == Set::<u64>::empty(),
    {
        Executor { live: BTreeSet::new(), ready: ReadyQueue::new() }
    }

    /// Registers task `id` and queues it; an ID that is already live is not queued again.
    /// Returns whether the task was new.
    pub fn spawn(&mut self, id: u64) -> (new: bool)
        requires
            old(self).wf(),
        ensures
            final(self).wf(),
            new == !old(self).live_tasks().contains(id),
            final(self).live_tasks() == old(self).live_tasks().insert(id),
            new ==> (final(self).ready_queue().items(), final(self).ready_queue().waiting())
                == enqueue_spec(
                old(self).ready_queue().items(),
                old(self).ready_queue().waiting(),
                id,
            ),
            !new ==> final(self).ready_queue() == old(self).ready_queue(),
    {
        proof {
            lemma_task_ids_ordered();
        }
        let new = self.live.insert(id);
        if new {
            self.ready.enqueue(id);
        }
        new
    }

    /// Wakes task `id` (what its waker does).
    pub fn wake(&mut self, id: u64) -> (added: bool)
        requires
            old(self).wf(),
        ensures
            final(self).wf(),
            final(self).live_tasks() == old(self).live_tasks(),
            added == !old(self).ready_queue().waiting().contains(id),
            (final(self).ready_queue().items(), final(self).ready_queue().waiting())
                == enqueue_spec(
                old(self).ready_queue().items(),
                old(self).ready_queue().waiting(),
                id,
            ),
    {
        self.ready.enqueue(id)
    }

    /// The next task to poll: IDs are taken from the front of the queue, and those of tasks
    /// that have finished are skipped; every ID taken stops waiting. `None` when the queue
    /// runs empty.
    pub fn next_ready(&mut self) -> (r: Option<u64>)
        requires
            old(self).wf(),
        ensures
            final(self).wf(),
            final(self).live_tasks() == old(self).live_tasks(),
            ({
                let items = old(self).ready_queue().items();
                let k = first_live(items, old(self).live_tasks(), 0);
                &&& 0 <= k <= items.len()
                &&& k < items.len() ==> r == Some(items[k]) && final(self).ready_queue().items()
                    == items.skip(k + 1)
                &&& k == items.len() ==> r is None && final(self).ready_queue().items().len() == 0
                &&& forall|x: u64|
                    #[trigger] final(self).ready_queue().waiting().contains(x) <==> old(
                        self,
                    ).ready_queue().waiting().contains(x) && !items.take(
                        if k < items.len() {
                            k + 1
                        } else {
                            k
                        },
                    ).contains(x)
            }),
    {
        let ghost items = self.ready_queue().items();
        let ghost waiting0 = self.ready_queue().waiting();
        let ghost live = self.live_tasks();
        let ghost mut j: int = 0;
        proof {
            lemma_first_live(items, live, 0);
            assert(items.skip(0) =~= items);
            assert(items.take(0) =~= Seq::<u64>::empty());
        }
        loop
            invariant
                self.wf(),
                self.live_tasks() == live,
                live == old(self).live_tasks(),
                items == old(self).ready_queue().items(),
                waiting0 == old(self).ready_queue().waiting(),
                0 <= j <= first_live(items, live, 0),
                first_live(items, live, 0) == first_live(items, live, j),
                first_live(items, live, 0) <= items.len(),
                self.ready_queue().items() == items.skip(j),
                forall|x: u64|
                    #[trigger] self.ready_queue().waiting().contains(x) <==> waiting0.contains(x)
                        && !items.take(j).contains(x),
            decreases items.len() - j,
        {
            proof {
                lemma_task_ids_ordered();
            }
            let ghost before = self.ready_queue().waiting();
            match self.ready.next_task() {
                None => {
                    proof {
                        assert(items.skip(j).len() == 0);
                    }
                    return None;
                },
                Some(id) => {
                    proof {
                        assert(items.skip(j)[0] == items[j]);
                        assert(items.skip(j).drop_first() =~= items.skip(j + 1));
                        let t0 = items.take(j);
                        let t1 = items.take(j + 1);
                        assert(t1 =~= t0.push(items[j]));
                        assert forall|x: u64| #[trigger]
                            self.ready_queue().waiting().contains(x) <==> waiting0.contains(x)
                                && !t1.contains(x) by {
                            if t1.contains(x) && !t0.contains(x) {
                                let q = choose|q: int| 0 <= q < t1.len() && t1[q] == x;
                                if q < j {
                                    assert(t0[q] == x);
                                }
                            }
                            if t0.contains(x) {
                                let q = choose|q: int| 0 <= q < t0.len() && t0[q] == x;
                                assert(t1[q] == x);
                            }
                            if x == items[j] {
                                assert(t1[j] == x);
                            }
                        }
                    }
                    if self.live.contains(&id) {
                        proof {
                            lemma_first_live(items, live, j);
                        }
                        return Some(id);
                    }
                    proof {
                        lemma_first_live(items, live, j);
                        j = j + 1;
                    }
                },
            }
        }
    }

    /// Task `id` has completed: it is no longer live or waiting.
    pub fn complete(&mut self, id: u64)
        requires
            old(self).wf(),
        ensures
            final(self).wf(),
            final(self).live_tasks() == old(self).live_tasks().remove(id),
            final(self).ready_queue().items() == old(self).ready_queue().items(),
            final(self).ready_queue().waiting() == old(self).ready_queue().waiting().remove(id),
    {
        proof {
            lemma_task_ids_ordered();
        }
        self.live.remove(&id);
        self.ready.finish(id);
    }

    /// Whether any task waits to be polled.
    pub fn has_ready(&self) -> (r: bool)
        ensures
            r == (self.ready_queue().items().len() > 0),
    {
        !self.ready.is_empty()
    }
}

} // verus!
