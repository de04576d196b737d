//! A queue together with the operations in progress on it, stepped in any
//! order.
//!
//! Whoever decides the order decides it freely, one step at a time. What is
//! proved of one step therefore holds after every sequence of steps: no
//! interleaving loses a value, hands one out twice, or leaves the counter
//! wrong once every operation has finished.

use crate::pop_op::PopOp;
use crate::push_op::PushOp;
use crate::queue::LockFreeQueue;
use vstd::multiset::Multiset;
use vstd::prelude::*;

verus! {

/// Whose step is next: the insertion or the removal with this index.
#[derive(Clone, Copy, Debug, PartialEq, Eq, Structural)]
pub enum Turn {
    /// The insertion with this index in `pushes`.
    Push(usize),
    /// The removal with this index in `pops`.
    Pop(usize),
}

/// The value that an insertion still holds: its own until it is linked.
pub open spec fn unlinked_value<T>(op: PushOp<T>) -> Multiset<T> {
    if op.linearized() {
        Multiset::empty()
    } else {
        Multiset::singleton(op.value())
    }
}

/// The value that a removal holds: the one it took, if it took one.
pub open spec fn held_value<T>(op: PopOp<T>) -> Multiset<T> {
    match op.taken() {
        Some(value) => Multiset::singleton(value),
        None => Multiset::empty(),
    }
}

/// An insertion that is linked but has not bumped the counter yet.
pub open spec fn push_owes_count<T>(op: PushOp<T>) -> bool {
    op.phase() is Swing || op.phase() is Count
}

/// A removal that has taken its value but has not lowered the counter yet.
pub open spec fn pop_owes_count<T>(op: PopOp<T>) -> bool {
    op.phase() is Count
}

/// The values that the insertions in `pushes` have not linked yet.
pub open spec fn unlinked<T>(pushes: Seq<PushOp<T>>) -> Multiset<T>
    decreases pushes.len(),
{
    if pushes.len() == 0 {
        Multiset::empty()
    } else {
        unlinked(pushes.drop_last()).add(unlinked_value(pushes.last()))
    }
}

/// The values that the removals in `pops` have taken.
pub open spec fn held<T>(pops: Seq<PopOp<T>>) -> Multiset<T>
    decreases pops.len(),
{
    if pops.len() == 0 {
        Multiset::empty()
    } else {
        held(pops.drop_last()).add(held_value(pops.last()))
    }
}

/// How many insertions in `pushes` are linked and not yet counted.
pub open spec fn uncounted_pushes<T>(pushes: Seq<PushOp<T>>) -> int
    decreases pushes.len(),
{
    if pushes.len() == 0 {
        0
    } else {
        uncounted_pushes(pushes.drop_last()) + if push_owes_count(pushes.last()) {
            1int
        } else {
            0int
        }
    }
}

/// How many removals in `pops` have taken a value and not yet counted it.
pub open spec fn uncounted_pops<T>(pops: Seq<PopOp<T>>) -> int
    decreases pops.len(),
{
    if pops.len() == 0 {
        0
    } else {
        uncounted_pops(pops.drop_last()) + if pop_owes_count(pops.last()) {
            1int
        } else {
            0int
        }
    }
}

/// Replacing one insertion changes the unlinked values by that insertion's
/// share alone.
pub proof fn lemma_unlinked_update<T>(pushes: Seq<PushOp<T>>, i: int, op: PushOp<T>)
    requires
        0 <= i < pushes.len(),
    ensures
        unlinked(pushes.update(i, op)).add(unlinked_value(pushes[i])) =~= unlinked(pushes).add(
            unlinked_value(op),
        ),
    decreases pushes.len(),
{
    broadcast use vstd::multiset::group_multiset_axioms;

    let after = pushes.update(i, op);
    let rest = unlinked(pushes.drop_last());
    if i == pushes.len() - 1 {
        assert(after.drop_last() =~= pushes.drop_last());
        assert(rest.add(unlinked_value(op)).add(unlinked_value(pushes[i])) =~= rest.add(
            unlinked_value(pushes[i]),
        ).add(unlinked_value(op)));
    } else {
        assert(after.drop_last() =~= pushes.drop_last().update(i, op));
        lemma_unlinked_update(pushes.drop_last(), i, op);
        let rest_after = unlinked(pushes.drop_last().update(i, op));
        assert(rest_after.add(unlinked_value(pushes.last())).add(unlinked_value(pushes[i]))
            =~= rest_after.add(unlinked_value(pushes[i])).add(unlinked_value(pushes.last())));
    }
}

/// Replacing one removal changes the held values by that removal's share
/// alone.
pub proof fn lemma_held_update<T>(pops: Seq<PopOp<T>>, i: int, op: PopOp<T>)
    requires
        0 <= i < pops.len(),
    ensures
        held(pops.update(i, op)).add(held_value(pops[i])) =~= held(pops).add(held_value(op)),
    decreases pops.len(),
{
    broadcast use vstd::multiset::group_multiset_axioms;

    let after = pops.update(i, op);
    let rest = held(pops.drop_last());
    if i == pops.len() - 1 {
        assert(after.drop_last() =~= pops.drop_last());
        assert(rest.add(held_value(op)).add(held_value(pops[i])) =~= rest.add(
            held_value(pops[i]),
        ).add(held_value(op)));
    } else {
        assert(after.drop_last() =~= pops.drop_last().update(i, op));
        lemma_held_update(pops.drop_last(), i, op);
        let rest_after = held(pops.drop_last().update(i, op));
        assert(rest_after.add(held_value(pops.last())).add(held_value(pops[i]))
            =~= rest_after.add(held_value(pops[i])).add(held_value(pops.last())));
    }
}

/// Replacing one insertion changes the number of uncounted insertions by that
/// insertion's share alone.
pub proof fn lemma_uncounted_pushes_update<T>(pushes: Seq<PushOp<T>>, i: int, op: PushOp<T>)
    requires
        0 <= i < pushes.len(),
    ensures
        uncounted_pushes(pushes.update(i, op)) + (if push_owes_count(pushes[i]) {
            1int
        } else {
            0int
        }) == uncounted_pushes(pushes) + (if push_owes_count(op) {
            1int
        } else {
            0int
        }),
    decreases pushes.len(),
{
    let after = pushes.update(i, op);
    if i == pushes.len() - 1 {
        assert(after.drop_last() =~= pushes.drop_last());
    } else {
        assert(after.drop_last() =~= pushes.drop_last().update(i, op));
        lemma_uncounted_pushes_update(pushes.drop_last(), i, op);
    }
}

/// Replacing one removal changes the number of uncounted removals by that
/// removal's share alone.
pub proof fn lemma_uncounted_pops_update<T>(pops: Seq<PopOp<T>>, i: int, op: PopOp<T>)
    requires
        0 <= i < pops.len(),
    ensures
        uncounted_pops(pops.update(i, op)) + (if pop_owes_count(pops[i]) {
            1int
        } else {
            0int
        }) == uncounted_pops(pops) + (if pop_owes_count(op) {
            1int
        } else {
            0int
        }),
    decreases pops.len(),
{
    let after = pops.update(i, op);
    if i == pops.len() - 1 {
        assert(after.drop_last() =~= pops.drop_last());
    } else {
        assert(after.drop_last() =~= pops.drop_last().update(i, op));
        lemma_uncounted_pops_update(pops.drop_last(), i, op);
    }
}

/// Where every insertion has finished, none is uncounted.
pub proof fn lemma_finished_pushes_counted<T>(pushes: Seq<PushOp<T>>)
    requires
        forall|i: int| 0 <= i < pushes.len() ==> (#[trigger] pushes[i]).phase() is Done,
    ensures
        uncounted_pushes(pushes) == 0,
        unlinked(pushes) =~= Multiset::empty(),
    decreases pushes.len(),
{
    broadcast use vstd::multiset::group_multiset_axioms;

    if pushes.len() > 0 {
        lemma_finished_pushes_counted(pushes.drop_last());
    }
}

/// Where every removal has finished, none is uncounted.
pub proof fn lemma_finished_pops_counted<T>(pops: Seq<PopOp<T>>)
    requires
        forall|i: int| 0 <= i < pops.len() ==> (#[trigger] pops[i]).phase() is Done,
    ensures
        uncounted_pops(pops) == 0,
    decreases pops.len(),
{
    if pops.len() > 0 {
        lemma_finished_pops_counted(pops.drop_last());
    }
}

/// A queue and the operations in progress on it.
///
/// Operations stay in their vectors when they have finished, so that a
/// removal's value is on record until its owner takes it.
pub struct Interleaving<T> {
    /// The queue that all the operations work on.
    pub queue: LockFreeQueue<T>,
    /// The insertions, in the order in which they were started.
    pub pushes: Vec<PushOp<T>>,
    /// The removals, in the order in which they were started.
    pub pops: Vec<PopOp<T>>,
}

impl<T> Interleaving<T> {
    /// The invariant of the whole.
    ///
    /// The queue is well formed and every operation's memory is consistent
    /// with it; the values in the removals' hands are exactly those that have
    /// left the queue; and the counter is behind the pointers by exactly the
    /// operations that have had their effect and not yet counted it.
    pub open spec fn wf(&self) -> bool {
        &&& self.queue.wf()
        &&& forall|i: int|
            0 <= i < self.pushes@.len() ==> (#[trigger] self.pushes@[i]).valid_for(&self.queue)
        &&& forall|i: int|
            0 <= i < self.pops@.len() ==> (#[trigger] self.pops@[i]).valid_for(&self.queue)
        &&& held(self.pops@) == self.queue.history().take(self.queue.head_addr()).to_multiset()
        &&& self.queue.history().len() - self.queue.counted_in() == uncounted_pushes(
            self.pushes@,
        )
        &&& self.queue.head_addr() - self.queue.counted_out() == uncounted_pops(self.pops@)
    }

    /// Every value ever handed to an insertion: those linked so far, and those
    /// still with their insertions.
    pub open spec fn offered(&self) -> Multiset<T> {
        self.queue.history().to_multiset().add(unlinked(self.pushes@))
    }

    /// Every operation has finished.
    pub open spec fn quiescent(&self) -> bool {
        &&& forall|i: int|
            0 <= i < self.pushes@.len() ==> (#[trigger] self.pushes@[i]).phase() is Done
        &&& forall|i: int| 0 <= i < self.pops@.len() ==> (#[trigger] self.pops@[i]).phase() is Done
    }

    /// Whether the operation named by `turn` has a step to take: it exists, it
    /// has not finished, and if it is about to link its cell, an address is
    /// left for the cell.
    pub open spec fn can_step(&self, turn: Turn) -> bool {
        match turn {
            Turn::Push(i) => {
                &&& i < self.pushes@.len()
                &&& !(self.pushes@[i as int].phase() is Done)
                &&& self.pushes@[i as int].phase() is Link ==> self.queue.end_addr() < usize::MAX
            },
            Turn::Pop(i) => {
                &&& i < self.pops@.len()
                &&& !(self.pops@[i as int].phase() is Done)
            },
        }
    }

    /// An empty queue with no operation in progress.
    pub fn new() -> (s: Self)
        ensures
            s.wf(),
            s.queue@ == Seq::<T>::empty(),
            s.queue.history() == Seq::<T>::empty(),
            s.queue.counter() == 0,
            s.pushes@.len() == 0,
            s.pops@.len() == 0,
            s.offered() == Multiset::<T>::empty(),
    {
        let s = Interleaving { queue: LockFreeQueue::new(), pushes: Vec::new(), pops: Vec::new() };
        proof {
            broadcast use vstd::seq_lib::group_to_multiset_ensures;
            broadcast use vstd::multiset::group_multiset_axioms;

            assert(Seq::<T>::empty().to_multiset() =~= Multiset::<T>::empty());
        }
        s
    }

    /// Starts an insertion of `value` and returns its index. The queue is not
    /// touched.
    pub fn start_push(&mut self, value: T) -> (index: usize)
        requires
            old(self).wf(),
        ensures
            final(self).wf(),
            index == old(self).pushes@.len(),
            final(self).pushes@.len() == index + 1,
            final(self).pushes@.take(index as int) == old(self).pushes@,
            final(self).pushes@[index as int].value() == value,
            final(self).pushes@[index as int].phase() == crate::push_op::PushPhase::ReadTail,
            final(self).pops@ == old(self).pops@,
            final(self).queue == old(self).queue,
            final(self).offered() == old(self).offered().insert(value),
    {
        let index = self.pushes.len();
        let op = PushOp::new(value);
        self.pushes.push(op);
        proof {
            broadcast use vstd::multiset::group_multiset_axioms;

            assert(self.pushes@.take(index as int) =~= old(self).pushes@);
        }
        index
    }

    /// Starts a removal and returns its index. The queue is not touched.
    pub fn start_pop(&mut self) -> (index: usize)
        requires
            old(self).wf(),
        ensures
            final(self).wf(),
            index == old(self).pops@.len(),
            final(self).pops@.len() == index + 1,
            final(self).pops@.take(index as int) == old(self).pops@,
            final(self).pops@[index as int].phase() == crate::pop_op::PopPhase::ReadHead,
            final(self).pops@[index as int].taken().is_none(),
            final(self).pushes@ == old(self).pushes@,
            final(self).queue == old(self).queue,
            final(self).offered() == old(self).offered(),
    {
        let index = self.pops.len();
        let op = PopOp::new();
        self.pops.push(op);
        proof {
            broadcast use vstd::multiset::group_multiset_axioms;

            assert(self.pops@.take(index as int) =~= old(self).pops@);
            assert(held(self.pops@) =~= held(old(self).pops@));
        }
        index
    }

    /// Lets the operation named by `turn` take its next step, if it has one,
    /// and says whether it took it.
    pub fn step(&mut self, turn: Turn) -> (stepped: bool)
        requires
            old(self).wf(),
        ensures
            final(self).wf(),
            stepped == old(self).can_step(turn),
            final(self).offered() == old(self).offered(),
            old(self).queue.evolves_to(&final(self).queue),
            !stepped ==> {
                &&& final(self).pushes@ == old(self).pushes@
                &&& final(self).pops@ == old(self).pops@
                &&& final(self).queue.same_state(&old(self).queue)
            },
            stepped ==> match turn {
                Turn::Push(i) => {
                    &&& final(self).pops@ == old(self).pops@
                    &&& final(self).pushes@ == old(self).pushes@.update(
                        i as int,
                        final(self).pushes@[i as int],
                    )
                    &&& old(self).pushes@[i as int].steps_to(
                        &old(self).queue,
                        &final(self).pushes@[i as int],
                        &final(self).queue,
                    )
                },
                Turn::Pop(i) => {
                    &&& final(self).pushes@ == old(self).pushes@
                    &&& final(self).pops@ == old(self).pops@.update(
                        i as int,
                        final(self).pops@[i as int],
                    )
                    &&& old(self).pops@[i as int].steps_to(
                        &old(self).queue,
                        &final(self).pops@[i as int],
                        &final(self).queue,
                    )
                },
            },
    {
        match turn {
            Turn::Push(i) => {
                if i >= self.pushes.len() {
                    return false;
                }
                if self.pushes[i].is_done() {
                    return false;
                }
                if self.pushes[i].is_linking() && !self.queue.has_room() {
                    return false;
                }
                let op = &mut self.pushes[i];
                op.step(&mut self.queue);
                proof {
                    self.lemma_push_step_kept(old(self), i as int);
                }
                true
            },
            Turn::Pop(i) => {
                if i >= self.pops.len() {
                    return false;
                }
                if self.pops[i].is_done() {
                    return false;
                }
                let op = &mut self.pops[i];
                op.step(&mut self.queue);
                proof {
                    self.lemma_pop_step_kept(old(self), i as int);
                }
                true
            },
        }
    }

    /// One step of an insertion keeps the invariant of the whole and the
    /// values offered.
    pub proof fn lemma_push_step_kept(&self, before: &Self, i: int)
        requires
            before.wf(),
            0 <= i < before.pushes@.len(),
            self.pushes@.len() == before.pushes@.len(),
            self.queue.wf(),
            self.pops@ == before.pops@,
            self.pushes@ == before.pushes@.update(i, self.pushes@[i]),
            self.pushes@[i].valid_for(&self.queue),
            before.queue.evolves_to(&self.queue),
            before.pushes@[i].steps_to(&before.queue, &self.pushes@[i], &self.queue),
        ensures
            self.wf(),
            self.offered() == before.offered(),
    {
        broadcast use vstd::seq_lib::group_to_multiset_ensures;
        broadcast use vstd::multiset::group_multiset_axioms;

        let pre = before.pushes@[i];
        let post = self.pushes@[i];
        assert forall|j: int| 0 <= j < self.pushes@.len() implies (
        #[trigger] self.pushes@[j]).valid_for(&self.queue) by {
            if j != i {
                before.pushes@[j].lemma_stable(&before.queue, &self.queue);
            }
        }
        assert forall|j: int| 0 <= j < self.pops@.len() implies (#[trigger] self.pops@[j]).valid_for(
            &self.queue,
        ) by {
            before.pops@[j].lemma_stable(&before.queue, &self.queue);
        }
        assert(self.queue.history().take(self.queue.head_addr()) =~= before.queue.history().take(
            before.queue.head_addr(),
        ));
        lemma_uncounted_pushes_update(before.pushes@, i, post);
        lemma_unlinked_update(before.pushes@, i, post);
        let then = unlinked(before.pushes@).add(unlinked_value(post));
        let now = unlinked(self.pushes@).add(unlinked_value(pre));
        assert forall|v: T| #[trigger]
            self.offered().count(v) == before.offered().count(v) by {
            assert(now.count(v) == then.count(v));
        }
    }

    /// One step of a removal keeps the invariant of the whole and the values
    /// offered.
    pub proof fn lemma_pop_step_kept(&self, before: &Self, i: int)
        requires
            before.wf(),
            0 <= i < before.pops@.len(),
            self.pops@.len() == before.pops@.len(),
            self.queue.wf(),
            self.pushes@ == before.pushes@,
            self.pops@ == before.pops@.update(i, self.pops@[i]),
            self.pops@[i].valid_for(&self.queue),
            before.queue.evolves_to(&self.queue),
            before.pops@[i].steps_to(&before.queue, &self.pops@[i], &self.queue),
        ensures
            self.wf(),
            self.offered() == before.offered(),
    {
        broadcast use vstd::seq_lib::group_to_multiset_ensures;
        broadcast use vstd::multiset::group_multiset_axioms;

        let pre = before.pops@[i];
        let post = self.pops@[i];
        assert forall|j: int| 0 <= j < self.pushes@.len() implies (
        #[trigger] self.pushes@[j]).valid_for(&self.queue) by {
            before.pushes@[j].lemma_stable(&before.queue, &self.queue);
        }
        assert forall|j: int| 0 <= j < self.pops@.len() implies (#[trigger] self.pops@[j]).valid_for(
            &self.queue,
        ) by {
            if j != i {
                before.pops@[j].lemma_stable(&before.queue, &self.queue);
            }
        }
        lemma_uncounted_pops_update(before.pops@, i, post);
        lemma_held_update(before.pops@, i, post);
        let history = before.queue.history();
        let head = before.queue.head_addr();
        let then = held(before.pops@).add(held_value(post));
        let now = held(self.pops@).add(held_value(pre));
        if self.queue.head_addr() == head {
            assert forall|v: T| #[trigger]
                held(self.pops@).count(v) == held(before.pops@).count(v) by {
                assert(now.count(v) == then.count(v));
            }
            assert(held(self.pops@) =~= held(before.pops@));
        } else {
            assert(history.take(head + 1) =~= history.take(head).push(history[head]));
            assert(held(self.pops@) =~= held(before.pops@).insert(history[head]));
        }
    }

    /// The values that removals have taken are among the values linked so
    /// far, each as often as it was linked and no oftener; with the values
    /// still in the queue they are all of them.
    pub proof fn lemma_taken_from_history(&self)
        requires
            self.wf(),
        ensures
            held(self.pops@).subset_of(self.queue.history().to_multiset()),
            self.queue.history().to_multiset() == held(self.pops@).add(self.queue@.to_multiset()),
    {
        self.queue.lemma_conservation();
    }

    /// Once every operation has finished, the counter is the number of values
    /// in the queue: those linked minus those taken.
    pub proof fn lemma_quiescent_count(&self)
        requires
            self.wf(),
            self.quiescent(),
        ensures
            self.queue.settled(),
            self.queue.counter() == self.queue@.len(),
            self.queue.counter() == self.queue.history().len() - self.queue.head_addr(),
            self.offered() == self.queue.history().to_multiset(),
    {
        broadcast use vstd::multiset::group_multiset_axioms;

        lemma_finished_pushes_counted(self.pushes@);
        lemma_finished_pops_counted(self.pops@);
        self.queue.lemma_settled_counter();
    }
}

} // verus!
