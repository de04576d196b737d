//! One removal, as a sequence of indivisible steps.
//!
//! A removal reads the head pointer, the tail pointer and the sentinel's link
//! in three separate steps, with anything happening in between. It may move
//! the head pointer only because of what it has seen: the tail it read was
//! past the head it read, and the tail pointer never moves back.

use crate::backoff::{next_delay, Backoff, INITIAL_DELAY};
use crate::queue::{Link, LockFreeQueue};
use vstd::prelude::*;

verus! {

/// Where a removal stands: the access it will make next, with what it has
/// read so far.
#[derive(Clone, Copy, Debug, PartialEq, Eq, Structural)]
pub enum PopPhase {
    /// Next: read the head pointer.
    ReadHead,
    /// Next: read the tail pointer.
    ReadTail { head: usize },
    /// Next: read the link of the cell that the head pointer named.
    ReadNext { head: usize, tail: usize },
    /// Head and tail were the same cell and it had a successor, so the tail
    /// pointer lags. Next: compare-and-swap the tail pointer forward.
    Help { tail: usize, next: usize },
    /// The sentinel has a successor that holds a value. Next: compare-and-swap
    /// the head pointer onto it.
    Advance { head: usize, next: usize },
    /// The value is taken. Next: lower the counter.
    Count,
    /// An attempt has failed or helped. Next: spin, then start over.
    Pause,
    /// Finished, with the value taken or with nothing.
    Done,
}

/// A removal in progress. It holds the value from the step that took it.
pub struct PopOp<T> {
    phase: PopPhase,
    taken: Option<T>,
    backoff: Backoff,
    /// How far the queue had moved when the first attempt began.
    born: Ghost<int>,
    /// How far the queue had moved when the current attempt began.
    began: Ghost<int>,
    /// How many attempts have ended in a pause.
    lost: Ghost<int>,
    /// How many steps the removal has taken.
    steps: Ghost<int>,
}

impl<T> PopOp<T> {
    /// Where the removal stands.
    pub closed spec fn phase(&self) -> PopPhase {
        self.phase
    }

    /// The value that the removal has taken, if it has taken one.
    pub closed spec fn taken(&self) -> Option<T> {
        self.taken
    }

    /// The delay of the next pause, in spin units.
    pub closed spec fn delay(&self) -> int {
        self.backoff.current_delay()
    }

    /// How far the queue had moved when the first attempt read the head.
    pub closed spec fn born(&self) -> int {
        self.born@
    }

    /// How far the queue had moved when the current attempt read the head.
    pub closed spec fn began(&self) -> int {
        self.began@
    }

    /// How many attempts have ended in a pause, without taking a value.
    pub closed spec fn lost(&self) -> int {
        self.lost@
    }

    /// How many steps the removal has taken so far.
    pub closed spec fn steps(&self) -> int {
        self.steps@
    }

    /// How many steps an attempt has taken when it stands at `phase`. A lost
    /// attempt is five steps: three reads, a compare-and-swap and the pause.
    pub open spec fn rank(phase: PopPhase) -> int {
        match phase {
            PopPhase::ReadHead => 0,
            PopPhase::ReadTail { .. } => 1,
            PopPhase::ReadNext { .. } => 2,
            PopPhase::Help { .. } => 3,
            PopPhase::Advance { .. } => 3,
            PopPhase::Count => 4,
            PopPhase::Done => 5,
            PopPhase::Pause => -1,
        }
    }

    /// The current attempt began after all the lost ones, and the queue had
    /// not moved beyond `limit` then.
    pub open spec fn attempt_within(&self, limit: int) -> bool {
        self.born() + self.lost() <= self.began() <= limit
    }

    /// The removal has had its effect: it took a value, or found the queue
    /// empty.
    pub open spec fn linearized(&self) -> bool {
        self.phase() is Count || self.phase() is Done
    }

    /// The pacing state is in order.
    pub closed spec fn paced(&self) -> bool {
        &&& self.backoff.wf()
        &&& self.backoff.max_delay() == crate::backoff::MAX_DELAY
    }

    /// What the removal remembers is consistent with `q`: an address it read
    /// as head or tail is not ahead of that pointer, the tail it read was not
    /// behind the head it read, and a successor it saw is a cell of the chain.
    pub open spec fn valid_for(&self, q: &LockFreeQueue<T>) -> bool {
        &&& self.paced()
        &&& self.phase() is Count ==> self.taken().is_some()
        &&& !self.linearized() ==> self.taken().is_none()
        &&& 0 <= self.lost()
        &&& 0 <= self.born()
        &&& self.lost() > 0 ==> self.born() + self.lost() <= q.progress()
        &&& 0 <= self.steps() <= 5 * self.lost() + Self::rank(self.phase())
        &&& match self.phase() {
            PopPhase::ReadTail { head } => {
                &&& head <= q.head_addr()
                &&& self.attempt_within(head + q.tail_addr() + q.end_addr())
            },
            PopPhase::ReadNext { head, tail } => {
                &&& head <= q.head_addr()
                &&& head <= tail <= q.tail_addr()
                &&& self.attempt_within(head + tail + q.end_addr())
            },
            PopPhase::Help { tail, next } => {
                &&& tail <= q.tail_addr()
                &&& next == tail + 1
                &&& next < q.end_addr()
                &&& tail <= q.head_addr()
                &&& self.attempt_within(tail + tail + q.end_addr())
            },
            PopPhase::Advance { head, next } => {
                &&& next == head + 1
                &&& head < q.tail_addr()
                &&& head <= q.head_addr()
                &&& self.attempt_within(head + q.tail_addr() + q.end_addr())
            },
            _ => true,
        }
    }

    /// Steps that a removal starting over needs to finish when nobody else
    /// takes a step, given the addresses of sentinel, tail and end.
    pub open spec fn fresh_cost(head: int, tail: int, end: int) -> nat {
        if head + 1 == end {
            3
        } else if tail == head {
            10
        } else {
            5
        }
    }

    /// Steps that this removal needs to finish when nobody else takes a step.
    pub open spec fn remaining(&self, q: &LockFreeQueue<T>) -> nat {
        let fresh = Self::fresh_cost(q.head_addr(), q.tail_addr(), q.end_addr());
        match self.phase() {
            PopPhase::Done => 0,
            PopPhase::Count => 1,
            PopPhase::Advance { head, next } => if head == q.head_addr() {
                2
            } else {
                2 + fresh
            },
            PopPhase::Help { tail, next } => if tail == q.tail_addr() {
                2 + Self::fresh_cost(q.head_addr(), next as int, q.end_addr())
            } else {
                2 + fresh
            },
            PopPhase::ReadNext { head, tail } => if head != q.head_addr() {
                2 + fresh
            } else if head != tail {
                3
            } else if head + 1 == q.end_addr() {
                1
            } else if tail == q.tail_addr() {
                3 + Self::fresh_cost(q.head_addr(), tail + 1, q.end_addr())
            } else {
                3 + fresh
            },
            PopPhase::ReadTail { head } => 1 + if head != q.head_addr() {
                2 + fresh
            } else if head != q.tail_addr() {
                3
            } else if head + 1 == q.end_addr() {
                1
            } else {
                3 + Self::fresh_cost(q.head_addr(), q.tail_addr() + 1, q.end_addr())
            },
            PopPhase::ReadHead => fresh,
            PopPhase::Pause => 1 + fresh,
        }
    }

    /// The effect of one step: from this removal before `q0`, to `post` with the
    /// queue at `q1`.
    pub open spec fn steps_to(
        &self,
        q0: &LockFreeQueue<T>,
        post: &Self,
        q1: &LockFreeQueue<T>,
    ) -> bool {
        &&& post.delay() == if self.phase() is Pause {
            next_delay(self.delay(), crate::backoff::MAX_DELAY as int)
        } else {
            self.delay()
        }
        &&& !(self.phase() is Advance) ==> post.taken() == self.taken()
        &&& post.steps() == if self.phase() is Done {
            self.steps()
        } else {
            self.steps() + 1
        }
        &&& post.lost() == if post.phase() is Pause {
            self.lost() + 1
        } else {
            self.lost()
        }
        &&& post.began() == if self.phase() is ReadHead {
            q0.progress()
        } else {
            self.began()
        }
        &&& post.born() == if self.phase() is ReadHead && self.lost() == 0 {
            q0.progress()
        } else {
            self.born()
        }
        &&& match self.phase() {
            PopPhase::ReadHead => {
                &&& post.phase() == (PopPhase::ReadTail { head: q0.head_addr() as usize })
                &&& q1.same_state(q0)
            },
            PopPhase::ReadTail { head } => {
                &&& post.phase() == (PopPhase::ReadNext { head, tail: q0.tail_addr() as usize })
                &&& q1.same_state(q0)
            },
            PopPhase::ReadNext { head, tail } => {
                &&& post.phase() == if !q0.is_live(head as int) {
                    PopPhase::Pause
                } else if head != tail {
                    PopPhase::Advance { head, next: (head + 1) as usize }
                } else if head + 1 == q0.end_addr() {
                    PopPhase::Done
                } else {
                    PopPhase::Help { tail, next: (tail + 1) as usize }
                }
                &&& post.phase() is Done ==> q0@.len() == 0
                &&& q1.same_state(q0)
            },
            PopPhase::Help { tail, next } => {
                &&& post.phase() == PopPhase::Pause
                &&& q0.tail_swung(q1, tail, next)
            },
            PopPhase::Advance { head, next } => {
                &&& q1.tail_addr() == q0.tail_addr()
                &&& q1.end_addr() == q0.end_addr()
                &&& q1.history() == q0.history()
                &&& q1.counter() == q0.counter()
                &&& q1.counted_in() == q0.counted_in()
                &&& q1.counted_out() == q0.counted_out()
                &&& if head == q0.head_addr() {
                    &&& post.phase() == PopPhase::Count
                    &&& q0@.len() > 0
                    &&& post.taken() == Some(q0@[0])
                    &&& q1.head_addr() == q0.head_addr() + 1
                } else {
                    &&& post.phase() == PopPhase::Pause
                    &&& post.taken() == self.taken()
                    &&& q1.head_addr() == q0.head_addr()
                }
            },
            PopPhase::Count => {
                &&& post.phase() == PopPhase::Done
                &&& q1.counter() == LockFreeQueue::<T>::lowered(q0.counter())
                &&& q1.counted_in() == q0.counted_in()
                &&& q1.counted_out() == q0.counted_out() + 1
                &&& q1.head_addr() == q0.head_addr()
                &&& q1.tail_addr() == q0.tail_addr()
                &&& q1.end_addr() == q0.end_addr()
                &&& q1.history() == q0.history()
            },
            PopPhase::Pause => {
                &&& post.phase() == PopPhase::ReadHead
                &&& q1.same_state(q0)
            },
            PopPhase::Done => {
                &&& post.phase() == PopPhase::Done
                &&& q1.same_state(q0)
            },
        }
    }

    /// Starts a removal: resets the backoff. Nothing of the queue has been
    /// read yet.
    pub fn new() -> (op: Self)
        ensures
            op.phase() == PopPhase::ReadHead,
            op.taken().is_none(),
            op.delay() == INITIAL_DELAY,
            op.lost() == 0,
            op.steps() == 0,
            forall|q: &LockFreeQueue<T>| op.valid_for(q),
    {
        let mut backoff = Backoff::new();
        backoff.reset();
        PopOp {
            phase: PopPhase::ReadHead,
            taken: None,
            backoff,
            born: Ghost(0),
            began: Ghost(0),
            lost: Ghost(0),
            steps: Ghost(0),
        }
    }

    /// Where the removal stands.
    pub fn current_phase(&self) -> (phase: PopPhase)
        ensures
            phase == self.phase(),
    {
        self.phase
    }

    /// Whether the removal has finished.
    pub fn is_done(&self) -> (b: bool)
        ensures
            b == (self.phase() is Done),
    {
        match self.phase {
            PopPhase::Done => true,
            _ => false,
        }
    }

    /// Whether the next step is the pause, which touches nothing shared.
    pub fn is_pausing(&self) -> (b: bool)
        ensures
            b == (self.phase() is Pause),
    {
        match self.phase {
            PopPhase::Pause => true,
            _ => false,
        }
    }

    /// Ends the removal and hands out what it took: the value, or nothing if
    /// it found the queue empty.
    pub fn into_result(self) -> (value: Option<T>)
        requires
            self.phase() is Done,
        ensures
            value == self.taken(),
    {
        self.taken
    }

    /// Takes the next step of the removal: one access to the queue, or the
    /// pause.
    pub fn step(&mut self, queue: &mut LockFreeQueue<T>)
        requires
            old(queue).wf(),
            old(self).valid_for(old(queue)),
        ensures
            final(queue).wf(),
            final(self).valid_for(final(queue)),
            old(queue).evolves_to(final(queue)),
            old(self).steps_to(old(queue), final(self), final(queue)),
            !(old(self).phase() is Done) ==> final(self).remaining(final(queue)) + 1 == old(
                self,
            ).remaining(old(queue)),
            final(self).phase() is Pause ==> final(queue).progress() > old(self).began(),
    {
        proof {
            if !(self.phase is Done) {
                self.steps = Ghost(self.steps@ + 1);
            }
        }
        match self.phase {
            PopPhase::ReadHead => {
                let head = queue.load_head();
                proof {
                    if self.lost@ == 0 {
                        self.born = Ghost(queue.progress());
                    }
                    self.began = Ghost(queue.progress());
                }
                self.phase = PopPhase::ReadTail { head };
            },
            PopPhase::ReadTail { head } => {
                let tail = queue.load_tail();
                self.phase = PopPhase::ReadNext { head, tail };
            },
            PopPhase::ReadNext { head, tail } => {
                match queue.load_next(head) {
                    Link::Stale => {
                        proof {
                            self.lost = Ghost(self.lost@ + 1);
                        }
                        self.phase = PopPhase::Pause;
                    },
                    Link::Null => {
                        if head == tail {
                            self.phase = PopPhase::Done;
                        } else {
                            // The tail was past this cell when it was read, so
                            // a live cell here has a successor: not reached.
                            proof {
                                self.lost = Ghost(self.lost@ + 1);
                            }
                            self.phase = PopPhase::Pause;
                        }
                    },
                    Link::Next(next) => {
                        if head == tail {
                            self.phase = PopPhase::Help { tail, next };
                        } else {
                            self.phase = PopPhase::Advance { head, next };
                        }
                    },
                }
            },
            PopPhase::Help { tail, next } => {
                let _ = queue.cas_tail(tail, next);
                proof {
                    self.lost = Ghost(self.lost@ + 1);
                }
                self.phase = PopPhase::Pause;
            },
            PopPhase::Advance { head, next } => {
                match queue.cas_head(head, next) {
                    Some(value) => {
                        self.taken = Some(value);
                        self.phase = PopPhase::Count;
                    },
                    None => {
                        proof {
                            self.lost = Ghost(self.lost@ + 1);
                        }
                        self.phase = PopPhase::Pause;
                    },
                }
            },
            PopPhase::Count => {
                queue.count_down();
                self.phase = PopPhase::Done;
            },
            PopPhase::Pause => {
                self.backoff.spin();
                self.phase = PopPhase::ReadHead;
            },
            PopPhase::Done => {},
        }
    }

    /// Runs the removal to its end with nobody else taking a step.
    ///
    /// Whatever state other operations left the queue in, the removal
    /// finishes: it takes the oldest value, or reports that there is none.
    pub fn complete(&mut self, queue: &mut LockFreeQueue<T>)
        requires
            old(queue).wf(),
            old(self).valid_for(old(queue)),
        ensures
            final(queue).wf(),
            final(self).valid_for(final(queue)),
            final(self).phase() is Done,
            old(queue).evolves_to(final(queue)),
            final(queue).history() == old(queue).history(),
            final(queue).counted_in() == old(queue).counted_in(),
            final(queue).tail_addr() == if !old(self).linearized() && old(queue)@.len() > 0
                && old(queue).tail_addr() == old(queue).head_addr() {
                old(queue).head_addr() + 1
            } else {
                old(queue).tail_addr()
            },
            if old(self).linearized() {
                &&& final(self).taken() == old(self).taken()
                &&& final(queue).head_addr() == old(queue).head_addr()
            } else if old(queue)@.len() == 0 {
                &&& final(self).taken().is_none()
                &&& final(queue).head_addr() == old(queue).head_addr()
            } else {
                &&& final(self).taken() == Some(old(queue)@[0])
                &&& final(queue).head_addr() == old(queue).head_addr() + 1
            },
            if old(self).phase() is Done || (!old(self).linearized() && old(queue)@.len() == 0) {
                &&& final(queue).counter() == old(queue).counter()
                &&& final(queue).counted_out() == old(queue).counted_out()
            } else {
                &&& final(queue).counter() == LockFreeQueue::<T>::lowered(old(queue).counter())
                &&& final(queue).counted_out() == old(queue).counted_out() + 1
            },
    {
        while !self.is_done()
            invariant
                queue.wf(),
                self.valid_for(queue),
                old(queue).evolves_to(queue),
                queue.history() == old(queue).history(),
                queue.counted_in() == old(queue).counted_in(),
                old(self).phase() is Done ==> self.phase() is Done,
                queue.tail_addr() == old(queue).tail_addr() || (!old(self).linearized() && old(
                    queue,
                )@.len() > 0 && old(queue).tail_addr() == old(queue).head_addr()
                    && queue.tail_addr() == old(queue).head_addr() + 1),
                !old(self).linearized() && self.linearized() && old(queue)@.len() > 0 && old(
                    queue,
                ).tail_addr() == old(queue).head_addr() ==> queue.tail_addr() == old(
                    queue,
                ).head_addr() + 1,
                old(self).linearized() ==> {
                    &&& self.linearized()
                    &&& self.taken() == old(self).taken()
                    &&& queue.head_addr() == old(queue).head_addr()
                },
                !old(self).linearized() ==> if !self.linearized() {
                    queue.head_addr() == old(queue).head_addr()
                } else if old(queue)@.len() == 0 {
                    &&& self.taken().is_none()
                    &&& self.phase() is Done
                    &&& queue.head_addr() == old(queue).head_addr()
                } else {
                    &&& self.taken() == Some(old(queue)@[0])
                    &&& queue.head_addr() == old(queue).head_addr() + 1
                },
                if self.phase() is Done && !(old(self).phase() is Done) && self.taken().is_some() {
                    &&& queue.counter() == LockFreeQueue::<T>::lowered(old(queue).counter())
                    &&& queue.counted_out() == old(queue).counted_out() + 1
                } else {
                    &&& queue.counter() == old(queue).counter()
                    &&& queue.counted_out() == old(queue).counted_out()
                },
            decreases self.remaining(queue),
        {
            self.step(queue);
        }
    }

    /// Spins for the current delay and starts the next attempt. This is the
    /// step of the `Pause` phase; it touches nothing shared, so a caller may
    /// take it without access to the queue.
    pub fn pause(&mut self)
        requires
            old(self).phase() is Pause,
            old(self).paced(),
        ensures
            final(self).phase() == PopPhase::ReadHead,
            final(self).paced(),
            final(self).taken() == old(self).taken(),
            final(self).lost() == old(self).lost(),
            final(self).born() == old(self).born(),
            final(self).began() == old(self).began(),
            final(self).steps() == old(self).steps() + 1,
            final(self).delay() == next_delay(
                old(self).delay(),
                crate::backoff::MAX_DELAY as int,
            ),
    {
        self.backoff.spin();
        proof {
            self.steps = Ghost(self.steps@ + 1);
        }
        self.phase = PopPhase::ReadHead;
    }

    /// Every attempt that a removal has lost, it lost because the queue moved
    /// in the meantime: the attempts lost are no more than the places moved
    /// since the first attempt began, which are no more than three for each
    /// value linked. So a removal can go on losing only while other
    /// operations go on succeeding.
    pub proof fn lemma_losses_bounded(&self, q: &LockFreeQueue<T>)
        requires
            q.wf(),
            self.valid_for(q),
            self.lost() > 0,
        ensures
            self.born() + self.lost() <= q.progress(),
            q.progress() <= 3 * q.history().len() + 1,
    {
        q.lemma_progress_bounded();
    }

    /// However the steps of other operations fall between its own, a removal
    /// has taken no more than fifteen steps for each value linked so far, and
    /// ten more. Where only so many values are ever inserted, every removal
    /// therefore finishes, provided only that it is given its steps.
    pub proof fn lemma_steps_bounded(&self, q: &LockFreeQueue<T>)
        requires
            q.wf(),
            self.valid_for(q),
        ensures
            self.steps() <= 15 * q.history().len() + 10,
    {
        q.lemma_progress_bounded();
    }

    /// A removal that is left alone finishes within thirteen steps.
    pub proof fn lemma_remaining_bounded(&self, q: &LockFreeQueue<T>)
        ensures
            self.remaining(q) <= 13,
    {
    }

    /// What a removal remembers stays consistent with the queue whatever
    /// steps others take in between.
    pub proof fn lemma_stable(&self, q0: &LockFreeQueue<T>, q1: &LockFreeQueue<T>)
        requires
            self.valid_for(q0),
            q0.evolves_to(q1),
        ensures
            self.valid_for(q1),
    {
    }
}

} // verus!
