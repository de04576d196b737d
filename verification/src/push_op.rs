//! One insertion, as a sequence of indivisible steps.
//!
//! Between any two steps of an insertion, other operations may take any
//! number of steps of their own. What an insertion remembers of the queue is
//! therefore only ever a bound: the tail it read is not ahead of the tail now.

use crate::backoff::{next_delay, Backoff, INITIAL_DELAY};
use crate::node::Node;
use crate::queue::{Link, LockFreeQueue};
use vstd::prelude::*;

verus! {

/// Where an insertion stands: the access it will make next, with what it has
/// read so far.
#[derive(Clone, Copy, Debug, PartialEq, Eq, Structural)]
pub enum PushPhase {
    /// Next: read the tail pointer.
    ReadTail,
    /// Next: read the link of the cell that the tail pointer named.
    ReadNext { tail: usize },
    /// The link was null. Next: compare-and-swap it to the new cell.
    Link { tail: usize },
    /// The link was set, so the tail pointer lags. Next: compare-and-swap the
    /// tail pointer forward on behalf of whoever linked that cell.
    Help { tail: usize, next: usize },
    /// The new cell is linked at `cell`. Next: compare-and-swap the tail
    /// pointer onto it; a failure means that someone else already did.
    Swing { tail: usize, cell: usize },
    /// Next: bump the counter.
    Count,
    /// An attempt has failed or helped. Next: spin, then start over.
    Pause,
    /// The value is in the queue and counted.
    Done,
}

/// An insertion in progress. It owns the cell it is about to link, until the
/// step that links it.
pub struct PushOp<T> {
    phase: PushPhase,
    node: Option<Node<T>>,
    value: Ghost<T>,
    backoff: Backoff,
    /// How far the queue had moved when the first attempt began.
    born: Ghost<int>,
    /// How far the queue had moved when the current attempt began.
    began: Ghost<int>,
    /// How many attempts have ended in a pause.
    lost: Ghost<int>,
    /// How many steps the insertion has taken.
    steps: Ghost<int>,
}

impl<T> PushOp<T> {
    /// Where the insertion stands.
    pub closed spec fn phase(&self) -> PushPhase {
        self.phase
    }

    /// The value being inserted.
    pub closed spec fn value(&self) -> T {
        self.value@
    }

    /// The delay of the next pause, in spin units.
    pub closed spec fn delay(&self) -> int {
        self.backoff.current_delay()
    }

    /// How far the queue had moved when the first attempt read the tail.
    pub closed spec fn born(&self) -> int {
        self.born@
    }

    /// How far the queue had moved when the current attempt read the tail.
    pub closed spec fn began(&self) -> int {
        self.began@
    }

    /// How many attempts have ended in a pause, without linking the cell.
    pub closed spec fn lost(&self) -> int {
        self.lost@
    }

    /// How many steps the insertion has taken so far.
    pub closed spec fn steps(&self) -> int {
        self.steps@
    }

    /// How many steps an attempt has taken when it stands at `phase`. A lost
    /// attempt is four steps: two reads, a compare-and-swap and the pause.
    pub open spec fn rank(phase: PushPhase) -> int {
        match phase {
            PushPhase::ReadTail => 0,
            PushPhase::ReadNext { .. } => 1,
            PushPhase::Link { .. } => 2,
            PushPhase::Help { .. } => 2,
            PushPhase::Swing { .. } => 3,
            PushPhase::Count => 4,
            PushPhase::Done => 5,
            PushPhase::Pause => -1,
        }
    }

    /// The current attempt began after all the lost ones, and the queue had
    /// not moved beyond `limit` then.
    pub open spec fn attempt_within(&self, limit: int) -> bool {
        self.born() + self.lost() <= self.began() <= limit
    }

    /// The value has entered the queue.
    pub open spec fn linearized(&self) -> bool {
        self.phase() is Swing || self.phase() is Count || self.phase() is Done
    }

    /// The cell is still owned by the insertion exactly until it is linked.
    pub closed spec fn owns_cell(&self) -> bool {
        &&& self.backoff.wf()
        &&& self.backoff.max_delay() == crate::backoff::MAX_DELAY
        &&& if self.linearized() {
            self.node.is_none()
        } else {
            self.node == Some(Node { value: Some(self.value@), next: None })
        }
    }

    /// What the insertion remembers is consistent with `q`: an address it
    /// read as the tail is not ahead of the tail, and a successor it saw or
    /// made is a cell of the chain.
    pub open spec fn valid_for(&self, q: &LockFreeQueue<T>) -> bool {
        &&& self.owns_cell()
        &&& 0 <= self.lost()
        &&& 0 <= self.born()
        &&& self.lost() > 0 ==> self.born() + self.lost() <= q.progress()
        &&& 0 <= self.steps() <= 4 * self.lost() + Self::rank(self.phase())
        &&& match self.phase() {
            PushPhase::ReadNext { tail } => {
                &&& tail <= q.tail_addr()
                &&& self.attempt_within(q.head_addr() + tail + q.end_addr())
            },
            PushPhase::Link { tail } => {
                &&& tail <= q.tail_addr()
                &&& self.attempt_within(q.head_addr() + tail + tail + 1)
            },
            PushPhase::Help { tail, next } => {
                &&& tail <= q.tail_addr()
                &&& next == tail + 1
                &&& next < q.end_addr()
                &&& self.attempt_within(q.head_addr() + tail + q.end_addr())
            },
            PushPhase::Swing { tail, cell } => cell == tail + 1 && cell < q.end_addr(),
            _ => true,
        }
    }

    /// Steps that an insertion starting over needs to finish when nobody else
    /// takes a step, by how far the tail pointer lags.
    pub open spec fn fresh_cost(q: &LockFreeQueue<T>) -> nat {
        if q.tail_addr() + 1 == q.end_addr() {
            5
        } else {
            9
        }
    }

    /// Steps that this insertion needs to finish when nobody else takes a step.
    pub open spec fn remaining(&self, q: &LockFreeQueue<T>) -> nat {
        match self.phase() {
            PushPhase::Done => 0,
            PushPhase::Count => 1,
            PushPhase::Swing { .. } => 2,
            PushPhase::Link { tail } => if tail + 1 == q.end_addr() {
                3
            } else {
                2 + Self::fresh_cost(q)
            },
            PushPhase::Help { tail, next } => if tail == q.tail_addr() {
                7
            } else {
                2 + Self::fresh_cost(q)
            },
            PushPhase::ReadNext { tail } => if !q.is_live(tail as int) {
                2 + Self::fresh_cost(q)
            } else if tail + 1 == q.end_addr() {
                4
            } else if tail == q.tail_addr() {
                8
            } else {
                3 + Self::fresh_cost(q)
            },
            PushPhase::ReadTail => Self::fresh_cost(q),
            PushPhase::Pause => 1 + Self::fresh_cost(q),
        }
    }

    /// The effect of one step: from this insertion before `q0`, to `post` with
    /// the queue at `q1`.
    pub open spec fn steps_to(
        &self,
        q0: &LockFreeQueue<T>,
        post: &Self,
        q1: &LockFreeQueue<T>,
    ) -> bool {
        &&& post.value() == self.value()
        &&& post.steps() == if self.phase() is Done {
            self.steps()
        } else {
            self.steps() + 1
        }
        &&& post.lost() == if post.phase() is Pause {
            self.lost() + 1
        } else {
            self.lost()
        }
        &&& post.began() == if self.phase() is ReadTail {
            q0.progress()
        } else {
            self.began()
        }
        &&& post.born() == if self.phase() is ReadTail && self.lost() == 0 {
            q0.progress()
        } else {
            self.born()
        }
        &&& post.delay() == if self.phase() is Pause {
            next_delay(self.delay(), crate::backoff::MAX_DELAY as int)
        } else {
            self.delay()
        }
        &&& match self.phase() {
            PushPhase::ReadTail => {
                &&& post.phase() == (PushPhase::ReadNext { tail: q0.tail_addr() as usize })
                &&& q1.same_state(q0)
            },
            PushPhase::ReadNext { tail } => {
                &&& post.phase() == if !q0.is_live(tail as int) {
                    PushPhase::Pause
                } else if tail + 1 == q0.end_addr() {
                    PushPhase::Link { tail }
                } else {
                    PushPhase::Help { tail, next: (tail + 1) as usize }
                }
                &&& q1.same_state(q0)
            },
            PushPhase::Link { tail } => if tail + 1 == q0.end_addr() {
                &&& post.phase() == (PushPhase::Swing { tail, cell: q0.end_addr() as usize })
                &&& q1.same_words(q0)
                &&& q1.end_addr() == q0.end_addr() + 1
                &&& q1.history() == q0.history().push(self.value())
            } else {
                &&& post.phase() == PushPhase::Pause
                &&& q1.same_state(q0)
            },
            PushPhase::Help { tail, next } => {
                &&& post.phase() == PushPhase::Pause
                &&& q0.tail_swung(q1, tail, next)
            },
            PushPhase::Swing { tail, cell } => {
                &&& post.phase() == PushPhase::Count
                &&& q0.tail_swung(q1, tail, cell)
            },
            PushPhase::Count => {
                &&& post.phase() == PushPhase::Done
                &&& q1.counter() == LockFreeQueue::<T>::bumped(q0.counter())
                &&& q1.counted_in() == q0.counted_in() + 1
                &&& q1.counted_out() == q0.counted_out()
                &&& q1.head_addr() == q0.head_addr()
                &&& q1.tail_addr() == q0.tail_addr()
                &&& q1.end_addr() == q0.end_addr()
                &&& q1.history() == q0.history()
            },
            PushPhase::Pause => {
                &&& post.phase() == PushPhase::ReadTail
                &&& q1.same_state(q0)
            },
            PushPhase::Done => {
                &&& post.phase() == PushPhase::Done
                &&& q1.same_state(q0)
            },
        }
    }

    /// Starts an insertion of `value`: allocates its cell and resets the
    /// backoff. Nothing of the queue has been read yet.
    pub fn new(value: T) -> (op: Self)
        ensures
            op.phase() == PushPhase::ReadTail,
            op.value() == value,
            op.delay() == INITIAL_DELAY,
            op.lost() == 0,
            op.steps() == 0,
            forall|q: &LockFreeQueue<T>| op.valid_for(q),
    {
        let ghost v = value;
        let node = Node::new(Some(value));
        let mut backoff = Backoff::new();
        backoff.reset();
        PushOp {
            phase: PushPhase::ReadTail,
            node: Some(node),
            value: Ghost(v),
            backoff,
            born: Ghost(0),
            began: Ghost(0),
            lost: Ghost(0),
            steps: Ghost(0),
        }
    }

    /// Where the insertion stands.
    pub fn current_phase(&self) -> (phase: PushPhase)
        ensures
            phase == self.phase(),
    {
        self.phase
    }

    /// Whether the insertion has finished.
    pub fn is_done(&self) -> (b: bool)
        ensures
            b == (self.phase() is Done),
    {
        match self.phase {
            PushPhase::Done => true,
            _ => false,
        }
    }

    /// Whether the next step is the pause, which touches nothing shared.
    pub fn is_pausing(&self) -> (b: bool)
        ensures
            b == (self.phase() is Pause),
    {
        match self.phase {
            PushPhase::Pause => true,
            _ => false,
        }
    }

    /// Whether the next step is the one that links the cell, which needs a
    /// free address.
    pub fn is_linking(&self) -> (b: bool)
        ensures
            b == (self.phase() is Link),
    {
        match self.phase {
            PushPhase::Link { .. } => true,
            _ => false,
        }
    }

    /// Takes the next step of the insertion: one access to the queue, or the
    /// pause.
    pub fn step(&mut self, queue: &mut LockFreeQueue<T>)
        requires
            old(queue).wf(),
            old(self).valid_for(old(queue)),
            old(self).phase() is Link ==> old(queue).end_addr() < usize::MAX,
        ensures
            final(queue).wf(),
            final(self).valid_for(final(queue)),
            old(queue).evolves_to(final(queue)),
            old(self).steps_to(old(queue), final(self), final(queue)),
            !(old(self).phase() is Done) ==> final(self).remaining(final(queue)) + 1 == old(
                self,
            ).remaining(old(queue)),
            final(self).phase() is Pause ==> final(queue).progress() > old(self).began(),
    {
        proof {
            if !(self.phase is Done) {
                self.steps = Ghost(self.steps@ + 1);
            }
        }
        match self.phase {
            PushPhase::ReadTail => {
                let tail = queue.load_tail();
                proof {
                    if self.lost@ == 0 {
                        self.born = Ghost(queue.progress());
                    }
                    self.began = Ghost(queue.progress());
                }
                self.phase = PushPhase::ReadNext { tail };
            },
            PushPhase::ReadNext { tail } => {
                match queue.load_next(tail) {
                    Link::Stale => {
                        proof {
                            self.lost = Ghost(self.lost@ + 1);
                        }
                        self.phase = PushPhase::Pause;
                    },
                    Link::Null => {
                        self.phase = PushPhase::Link { tail };
                    },
                    Link::Next(next) => {
                        self.phase = PushPhase::Help { tail, next };
                    },
                }
            },
            PushPhase::Link { tail } => {
                let node = self.node.take().unwrap();
                match queue.cas_link(tail, node) {
                    Ok(cell) => {
                        self.phase = PushPhase::Swing { tail, cell };
                    },
                    Err(node) => {
                        self.node = Some(node);
                        proof {
                            self.lost = Ghost(self.lost@ + 1);
                        }
                        self.phase = PushPhase::Pause;
                    },
                }
            },
            PushPhase::Help { tail, next } => {
                let _ = queue.cas_tail(tail, next);
                proof {
                    self.lost = Ghost(self.lost@ + 1);
                }
                self.phase = PushPhase::Pause;
            },
            PushPhase::Swing { tail, cell } => {
                let _ = queue.cas_tail(tail, cell);
                self.phase = PushPhase::Count;
            },
            PushPhase::Count => {
                queue.count_up();
                self.phase = PushPhase::Done;
            },
            PushPhase::Pause => {
                self.backoff.spin();
                self.phase = PushPhase::ReadTail;
            },
            PushPhase::Done => {},
        }
    }

    /// Runs the insertion to its end with nobody else taking a step.
    ///
    /// Whatever state other operations left the queue in, the insertion
    /// finishes: a lagging tail pointer is helped forward once, after which
    /// the link succeeds.
    pub fn complete(&mut self, queue: &mut LockFreeQueue<T>)
        requires
            old(queue).wf(),
            old(self).valid_for(old(queue)),
            !old(self).linearized() ==> old(queue).end_addr() < usize::MAX,
        ensures
            final(queue).wf(),
            final(self).valid_for(final(queue)),
            final(self).phase() is Done,
            final(self).value() == old(self).value(),
            old(queue).evolves_to(final(queue)),
            final(queue).history() == if old(self).linearized() {
                old(queue).history()
            } else {
                old(queue).history().push(old(self).value())
            },
            final(queue).head_addr() == old(queue).head_addr(),
            final(queue).tail_addr() == match old(self).phase() {
                PushPhase::Swing { tail, cell } => if old(queue).tail_addr() == tail {
                    cell as int
                } else {
                    old(queue).tail_addr()
                },
                PushPhase::Count => old(queue).tail_addr(),
                PushPhase::Done => old(queue).tail_addr(),
                _ => final(queue).end_addr() - 1,
            },
            final(queue).counted_out() == old(queue).counted_out(),
            !(old(self).phase() is Done) ==> {
                &&& final(queue).counter() == LockFreeQueue::<T>::bumped(old(queue).counter())
                &&& final(queue).counted_in() == old(queue).counted_in() + 1
            },
            old(self).phase() is Done ==> final(queue).same_state(old(queue)),
    {
        while !self.is_done()
            invariant
                queue.wf(),
                self.valid_for(queue),
                self.value() == old(self).value(),
                old(queue).evolves_to(queue),
                !self.linearized() ==> queue.end_addr() < usize::MAX,
                !self.linearized() ==> !old(self).linearized(),
                queue.history() == if old(self).linearized() == self.linearized() {
                    old(queue).history()
                } else {
                    old(queue).history().push(old(self).value())
                },
                queue.head_addr() == old(queue).head_addr(),
                queue.counted_out() == old(queue).counted_out(),
                old(self).linearized() ==> queue.tail_addr() == if self.phase() == old(
                    self,
                ).phase() {
                    old(queue).tail_addr()
                } else {
                    match old(self).phase() {
                        PushPhase::Swing { tail, cell } => if old(queue).tail_addr() == tail {
                            cell as int
                        } else {
                            old(queue).tail_addr()
                        },
                        _ => old(queue).tail_addr(),
                    }
                },
                old(self).phase() is Count ==> self.phase() is Count || self.phase() is Done,
                old(self).linearized() && self.phase() is Swing ==> self.phase() == old(
                    self,
                ).phase(),
                !old(self).linearized() ==> match self.phase() {
                    PushPhase::Swing { tail, cell } => {
                        &&& queue.tail_addr() == tail
                        &&& cell + 1 == queue.end_addr()
                    },
                    PushPhase::Count => queue.tail_addr() + 1 == queue.end_addr(),
                    PushPhase::Done => queue.tail_addr() + 1 == queue.end_addr(),
                    _ => true,
                },
                old(self).phase() is Done ==> self.phase() is Done && queue.same_state(
                    old(queue),
                ),
                !(old(self).phase() is Done) ==> if self.phase() is Done {
                    &&& queue.counter() == LockFreeQueue::<T>::bumped(old(queue).counter())
                    &&& queue.counted_in() == old(queue).counted_in() + 1
                } else {
                    &&& queue.counter() == old(queue).counter()
                    &&& queue.counted_in() == old(queue).counted_in()
                },
            decreases self.remaining(queue),
        {
            self.step(queue);
        }
    }

    /// Spins for the current delay and starts the next attempt. This is the
    /// step of the `Pause` phase; it touches nothing shared, so a caller may
    /// take it without access to the queue.
    pub fn pause(&mut self)
        requires
            old(self).phase() is Pause,
            old(self).owns_cell(),
        ensures
            final(self).phase() == PushPhase::ReadTail,
            final(self).owns_cell(),
            final(self).value() == old(self).value(),
            final(self).lost() == old(self).lost(),
            final(self).born() == old(self).born(),
            final(self).began() == old(self).began(),
            final(self).steps() == old(self).steps() + 1,
            final(self).delay() == next_delay(
                old(self).delay(),
                crate::backoff::MAX_DELAY as int,
            ),
    {
        self.backoff.spin();
        proof {
            self.steps = Ghost(self.steps@ + 1);
        }
        self.phase = PushPhase::ReadTail;
    }

    /// Every attempt that an insertion has lost, it lost because the queue
    /// moved in the meantime: the attempts lost are no more than the places
    /// moved since the first attempt began, which are no more than three for
    /// each value linked. So an insertion can go on losing only while other
    /// operations go on succeeding.
    pub proof fn lemma_losses_bounded(&self, q: &LockFreeQueue<T>)
        requires
            q.wf(),
            self.valid_for(q),
            self.lost() > 0,
        ensures
            self.born() + self.lost() <= q.progress(),
            q.progress() <= 3 * q.history().len() + 1,
    {
        q.lemma_progress_bounded();
    }

    /// However the steps of other operations fall between its own, an
    /// insertion has taken no more than twelve steps for each value linked so
    /// far, and nine more. Where only so many values are ever inserted, every
    /// insertion therefore finishes, provided only that it is given its steps.
    pub proof fn lemma_steps_bounded(&self, q: &LockFreeQueue<T>)
        requires
            q.wf(),
            self.valid_for(q),
        ensures
            self.steps() <= 12 * q.history().len() + 9,
    {
        q.lemma_progress_bounded();
    }

    /// An insertion that is left alone finishes within twelve steps.
    pub proof fn lemma_remaining_bounded(&self, q: &LockFreeQueue<T>)
        ensures
            self.remaining(q) <= 12,
    {
    }

    /// What an insertion remembers stays consistent with the queue whatever
    /// steps others take in between.
    pub proof fn lemma_stable(&self, q0: &LockFreeQueue<T>, q1: &LockFreeQueue<T>)
        requires
            self.valid_for(q0),
            q0.evolves_to(q1),
        ensures
            self.valid_for(q1),
    {
    }
}

} // verus!
