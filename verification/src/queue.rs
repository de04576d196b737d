//! The queue's shared state and the indivisible accesses to it.
//!
//! The cells live in an arena and are named by address. Addresses are handed
//! out in the order in which cells join the chain and are never handed out
//! twice, so an address read before a cell was reclaimed can never name a
//! later cell: a stale address is recognised, not followed.

use crate::node::Node;
use crate::pop_op::PopOp;
use crate::push_op::PushOp;
use std::collections::VecDeque;
use vstd::prelude::*;

verus! {

/// What reading the link of a cell by address gives.
#[derive(Clone, Copy, Debug, PartialEq, Eq, Structural)]
pub enum Link {
    /// The cell has been reclaimed: the address is stale.
    Stale,
    /// The cell is the last of the chain.
    Null,
    /// The cell is followed by the cell at this address.
    Next(usize),
}

/// An unbounded first-in, first-out queue of linked cells.
///
/// `head`, `tail` and the counter are the only shared words; each method named
/// `load_..`, `cas_..` or `count_..` is one indivisible access to them.
pub struct LockFreeQueue<T> {
    /// The chain, from the sentinel on: the cell at index `i` has the address
    /// `head + i`.
    cells: VecDeque<Node<T>>,
    /// Address of the sentinel.
    head: usize,
    /// Address of the last cell, or of the one before it.
    tail: usize,
    /// The best-effort element count.
    count: usize,
    /// Every value that was ever linked, in the order of linking.
    pushed: Ghost<Seq<T>>,
    /// How many insertions have bumped the counter.
    counted_in: Ghost<int>,
    /// How many removals have lowered the counter.
    counted_out: Ghost<int>,
    /// How often the counter has wrapped round, upwards minus downwards.
    wraps: Ghost<int>,
}

impl<T> View for LockFreeQueue<T> {
    type V = Seq<T>;

    /// The values in the queue, oldest first: those linked and not yet removed.
    open spec fn view(&self) -> Seq<T> {
        self.history().skip(self.head_addr())
    }
}

impl<T> LockFreeQueue<T> {
    /// Address of the sentinel. It equals the number of values removed so far.
    pub closed spec fn head_addr(&self) -> int {
        self.head as int
    }

    /// The address that the tail pointer holds.
    pub closed spec fn tail_addr(&self) -> int {
        self.tail as int
    }

    /// The address that the next cell to join the chain will get.
    pub closed spec fn end_addr(&self) -> int {
        self.head + self.cells@.len()
    }

    /// Every value ever linked into the chain, in the order of linking.
    pub closed spec fn history(&self) -> Seq<T> {
        self.pushed@
    }

    /// What the element counter holds.
    pub closed spec fn counter(&self) -> int {
        self.count as int
    }

    /// How many insertions have bumped the counter.
    pub closed spec fn counted_in(&self) -> int {
        self.counted_in@
    }

    /// How many removals have lowered the counter.
    pub closed spec fn counted_out(&self) -> int {
        self.counted_out@
    }

    /// The cell at a live address.
    pub closed spec fn cell(&self, addr: int) -> Node<T> {
        self.cells@[addr - self.head]
    }

    /// The cell at `addr` is in the chain: linked and not reclaimed.
    pub open spec fn is_live(&self, addr: int) -> bool {
        self.head_addr() <= addr < self.end_addr()
    }

    /// What the cell at a live address must hold: the sentinel holds no value,
    /// the cell at address `a` behind it holds the `a`-th value ever linked, and
    /// each cell but the last is linked to the next address.
    pub open spec fn cell_model(&self, addr: int) -> Node<T> {
        Node {
            value: if addr == self.head_addr() {
                None
            } else {
                Some(self.history()[addr - 1])
            },
            next: if addr + 1 < self.end_addr() {
                Some((addr + 1) as usize)
            } else {
                None
            },
        }
    }

    /// The counter equals the bumps minus the lowerings, modulo the word size.
    pub closed spec fn counter_wf(&self) -> bool {
        self.count as int == self.counted_in@ - self.counted_out@ + self.wraps@ * (usize::MAX
            + 1)
    }

    /// The structural invariant.
    ///
    /// The chain is never empty and runs from the sentinel to a cell without a
    /// successor; the tail pointer names the last cell or the one before it and
    /// is never behind the head; every live cell holds what `cell_model` says.
    pub open spec fn wf(&self) -> bool {
        &&& 0 <= self.head_addr() <= self.tail_addr() < self.end_addr() <= usize::MAX
        &&& self.end_addr() <= self.tail_addr() + 2
        &&& self.end_addr() == self.history().len() + 1
        &&& 0 <= self.counted_in()
        &&& 0 <= self.counted_out()
        &&& self.counter_wf()
        &&& forall|addr: int|
            self.is_live(addr) ==> #[trigger] self.cell(addr) == self.cell_model(addr)
    }

    /// Every insertion that is linked has bumped the counter and every removal
    /// that has taken its value has lowered it: no operation stands between its
    /// effect and its count.
    pub open spec fn settled(&self) -> bool {
        &&& self.counted_in() == self.history().len()
        &&& self.counted_out() == self.head_addr()
    }

    /// The counter after one bump from `c`.
    pub open spec fn bumped(c: int) -> int {
        if c == usize::MAX {
            0
        } else {
            c + 1
        }
    }

    /// The counter after one lowering from `c`.
    pub open spec fn lowered(c: int) -> int {
        if c == 0 {
            usize::MAX as int
        } else {
            c - 1
        }
    }

    /// Pointers and counter agree with those of `other`.
    pub open spec fn same_words(&self, other: &Self) -> bool {
        &&& self.head_addr() == other.head_addr()
        &&& self.tail_addr() == other.tail_addr()
        &&& self.counter() == other.counter()
        &&& self.counted_in() == other.counted_in()
        &&& self.counted_out() == other.counted_out()
    }

    /// Nothing that a contract can speak of differs from `other`.
    pub open spec fn same_state(&self, other: &Self) -> bool {
        &&& self.same_words(other)
        &&& self.end_addr() == other.end_addr()
        &&& self.history() == other.history()
    }

    /// `later` is what a compare-and-swap of the tail pointer from `current`
    /// to `new` makes of this state: the pointer has moved if it held
    /// `current`, and nothing else has changed.
    pub open spec fn tail_swung(&self, later: &Self, current: usize, new: usize) -> bool {
        &&& later.tail_addr() == if self.tail_addr() == current {
            new as int
        } else {
            self.tail_addr()
        }
        &&& later.head_addr() == self.head_addr()
        &&& later.end_addr() == self.end_addr()
        &&& later.history() == self.history()
        &&& later.counter() == self.counter()
        &&& later.counted_in() == self.counted_in()
        &&& later.counted_out() == self.counted_out()
    }

    /// How far the queue has moved: the sum of the three addresses that only
    /// ever grow. Every successful compare-and-swap adds one to it.
    pub open spec fn progress(&self) -> int {
        self.head_addr() + self.tail_addr() + self.end_addr()
    }

    /// How the state may differ after any number of steps by anyone: pointers
    /// only move forward, the history only grows, the tallies only rise.
    pub open spec fn evolves_to(&self, later: &Self) -> bool {
        &&& self.head_addr() <= later.head_addr()
        &&& self.tail_addr() <= later.tail_addr()
        &&& self.end_addr() <= later.end_addr()
        &&& self.history().is_prefix_of(later.history())
        &&& self.counted_in() <= later.counted_in()
        &&& self.counted_out() <= later.counted_out()
    }

    /// An empty queue: one sentinel cell, with head and tail both on it.
    pub fn new() -> (q: Self)
        ensures
            q.wf(),
            q.settled(),
            q@ == Seq::<T>::empty(),
            q.history() == Seq::<T>::empty(),
            q.head_addr() == 0,
            q.tail_addr() == 0,
            q.end_addr() == 1,
            q.counter() == 0,
    {
        let mut cells = VecDeque::new();
        cells.push_back(Node::sentinel());
        let q = LockFreeQueue {
            cells,
            head: 0,
            tail: 0,
            count: 0,
            pushed: Ghost(Seq::empty()),
            counted_in: Ghost(0),
            counted_out: Ghost(0),
            wraps: Ghost(0),
        };
        q
    }

    /// The best-effort size: what the counter holds at the moment.
    pub fn len(&self) -> (n: usize)
        ensures
            n == self.counter(),
            self.wf() && self.settled() ==> n == self@.len(),
    {
        proof {
            if self.wf() && self.settled() {
                self.lemma_settled_counter();
            }
        }
        self.count
    }

    /// Whether the best-effort size is zero.
    pub fn is_empty(&self) -> (b: bool)
        ensures
            b == (self.counter() == 0),
            self.wf() && self.settled() ==> b == (self@.len() == 0),
    {
        self.len() == 0
    }

    /// Inserts `value` at the tail.
    ///
    /// The caller has the queue to itself for the whole call, so the insertion
    /// runs all its steps with no step of another operation in between, and it
    /// finishes in whatever state unfinished operations have left the queue.
    pub fn push(&mut self, value: T)
        requires
            old(self).wf(),
            old(self).end_addr() < usize::MAX,
        ensures
            final(self).wf(),
            final(self)@ == old(self)@.push(value),
            final(self).history() == old(self).history().push(value),
            final(self).head_addr() == old(self).head_addr(),
            final(self).end_addr() == old(self).end_addr() + 1,
            final(self).tail_addr() + 1 == final(self).end_addr(),
            final(self).counter() == Self::bumped(old(self).counter()),
            final(self).counted_in() == old(self).counted_in() + 1,
            final(self).counted_out() == old(self).counted_out(),
            old(self).settled() ==> final(self).settled(),
            old(self).evolves_to(final(self)),
    {
        let mut op = PushOp::new(value);
        op.complete(self);
    }

    /// Removes the oldest value and returns it, or returns `None` if the queue
    /// holds no value.
    ///
    /// The caller has the queue to itself for the whole call, as for `push`.
    pub fn pop(&mut self) -> (value: Option<T>)
        requires
            old(self).wf(),
        ensures
            final(self).wf(),
            final(self).history() == old(self).history(),
            final(self).end_addr() == old(self).end_addr(),
            final(self).counted_in() == old(self).counted_in(),
            if old(self)@.len() == 0 {
                &&& value.is_none()
                &&& final(self)@ == old(self)@
                &&& final(self).head_addr() == old(self).head_addr()
                &&& final(self).tail_addr() == old(self).tail_addr()
                &&& final(self).counter() == old(self).counter()
                &&& final(self).counted_out() == old(self).counted_out()
            } else {
                &&& value == Some(old(self)@[0])
                &&& final(self)@ == old(self)@.skip(1)
                &&& final(self).head_addr() == old(self).head_addr() + 1
                &&& final(self).tail_addr() == if old(self).tail_addr() == old(self).head_addr() {
                    old(self).head_addr() + 1
                } else {
                    old(self).tail_addr()
                }
                &&& final(self).counter() == Self::lowered(old(self).counter())
                &&& final(self).counted_out() == old(self).counted_out() + 1
            },
            old(self).settled() ==> final(self).settled(),
            old(self).evolves_to(final(self)),
    {
        let mut op = PopOp::new();
        op.complete(self);
        op.into_result()
    }

    /// Tears the queue down: removes every value still in it, oldest first,
    /// and hands them to the caller; the sentinel is freed with the queue.
    ///
    /// The queue is given up by value, so nobody else can be at work on it.
    pub fn teardown(self) -> (drained: Vec<T>)
        requires
            self.wf(),
        ensures
            drained@ == self@,
    {
        let mut queue = self;
        let mut drained: Vec<T> = Vec::new();
        loop
            invariant
                queue.wf(),
                drained@ + queue@ == self@,
            ensures
                drained@ == self@,
            decreases queue@.len(),
        {
            match queue.pop() {
                Some(value) => {
                    drained.push(value);
                    assert(drained@ + queue@ =~= self@);
                },
                None => {
                    assert(drained@ =~= self@);
                    break;
                },
            }
        }
        drained
    }

    /// Whether an address is left for one more cell. It is, short of as many
    /// insertions as the machine word can count.
    pub fn has_room(&self) -> (b: bool)
        requires
            self.wf(),
        ensures
            b == (self.end_addr() < usize::MAX),
    {
        self.cells.len() < usize::MAX - self.head
    }

    /// Once the queue is settled, the counter is the number of values in it.
    pub proof fn lemma_settled_counter(&self)
        requires
            self.wf(),
            self.settled(),
        ensures
            self.counter() == self@.len(),
    {
        let net = self.counted_in@ - self.counted_out@;
        let w = self.wraps@;
        let m = usize::MAX + 1;
        assert(w == 0) by (nonlinear_arith)
            requires
                0 <= net + w * m < m,
                0 <= net < m,
        ;
    }

    /// Every value ever linked has either left the queue or is still in it, and
    /// none is in both places: the history is the values that left, in the
    /// order in which they left, followed by the values in the queue.
    pub proof fn lemma_conservation(&self)
        requires
            self.wf(),
        ensures
            self.history() == self.history().take(self.head_addr()) + self@,
            self.history().to_multiset() == self.history().take(
                self.head_addr(),
            ).to_multiset().add(self@.to_multiset()),
            self.history().take(self.head_addr()).to_multiset().subset_of(
                self.history().to_multiset(),
            ),
    {
        broadcast use vstd::multiset::group_multiset_axioms;

        let left = self.history().take(self.head_addr());
        assert(self.history() =~= left + self@);
        vstd::seq_lib::lemma_multiset_commutative(left, self@);
    }

    /// The queue moves at most three places for each value linked: once when
    /// the value is linked, once when the tail pointer reaches its cell, once
    /// when the head pointer does.
    pub proof fn lemma_progress_bounded(&self)
        requires
            self.wf(),
        ensures
            0 <= self.progress() <= 3 * self.history().len() + 1,
    {
    }

    /// A cell is reclaimed once and for all: an address that has been handed
    /// out and is no longer live never becomes live again, whatever steps
    /// follow.
    pub proof fn lemma_reclaimed_for_good(&self, later: &Self, addr: int)
        requires
            self.evolves_to(later),
            0 <= addr < self.end_addr(),
            !self.is_live(addr),
        ensures
            !later.is_live(addr),
    {
    }

    /// `evolves_to` holds of a state and itself, and of the first and last of
    /// three states where it holds of each and the next.
    pub proof fn lemma_evolves_chain(&self, middle: &Self, later: &Self)
        requires
            self.evolves_to(middle),
            middle.evolves_to(later),
        ensures
            self.evolves_to(self),
            self.evolves_to(later),
    {
    }

    /// Reads the head pointer.
    pub fn load_head(&self) -> (addr: usize)
        ensures
            addr == self.head_addr(),
    {
        self.head
    }

    /// Reads the tail pointer.
    pub fn load_tail(&self) -> (addr: usize)
        ensures
            addr == self.tail_addr(),
    {
        self.tail
    }

    /// Reads the link of the cell at `at`.
    ///
    /// An address below the head names a reclaimed cell and reads as stale,
    /// as does one that was never handed out.
    pub fn load_next(&self, at: usize) -> (link: Link)
        requires
            self.wf(),
        ensures
            match link {
                Link::Stale => !self.is_live(at as int),
                Link::Null => self.is_live(at as int) && at + 1 == self.end_addr(),
                Link::Next(n) => self.is_live(at as int) && n == at + 1 && n < self.end_addr(),
            },
    {
        if at < self.head || at - self.head >= self.cells.len() {
            return Link::Stale;
        }
        assert(self.cell(at as int) == self.cell_model(at as int));
        match self.cells[at - self.head].next {
            None => Link::Null,
            Some(n) => Link::Next(n),
        }
    }

    /// Compare-and-swap on the tail pointer: moves it from `current` to `new`
    /// if it still holds `current`, and says whether it did.
    pub fn cas_tail(&mut self, current: usize, new: usize) -> (swapped: bool)
        requires
            old(self).wf(),
            new == current + 1,
            new < old(self).end_addr(),
        ensures
            final(self).wf(),
            swapped == (old(self).tail_addr() == current),
            old(self).tail_swung(final(self), current, new),
    {
        if self.tail == current {
            self.tail = new;
            assert forall|addr: int| self.is_live(addr) implies #[trigger] self.cell(addr)
                == self.cell_model(addr) by {
                assert(old(self).cell(addr) == old(self).cell_model(addr));
            }
            true
        } else {
            false
        }
    }

    /// Compare-and-swap on the link of the cell at `at`, from null to `node`:
    /// if that cell is the last of the chain, `node` becomes its successor and
    /// its address is returned; otherwise `node` comes back untouched.
    ///
    /// This is the one step by which a value enters the queue.
    pub fn cas_link(&mut self, at: usize, node: Node<T>) -> (linked: Result<usize, Node<T>>)
        requires
            old(self).wf(),
            node.value.is_some(),
            node.next.is_none(),
            at <= old(self).tail_addr(),
            old(self).end_addr() < usize::MAX,
        ensures
            final(self).wf(),
            final(self).same_words(old(self)),
            match linked {
                Ok(addr) => {
                    &&& at + 1 == old(self).end_addr()
                    &&& addr == old(self).end_addr()
                    &&& final(self).end_addr() == old(self).end_addr() + 1
                    &&& final(self).history() == old(self).history().push(node.value.unwrap())
                },
                Err(back) => {
                    &&& at + 1 != old(self).end_addr()
                    &&& back == node
                    &&& final(self).same_state(old(self))
                },
            },
    {
        if at < self.head || at - self.head >= self.cells.len() {
            return Err(node);
        }
        assert(self.cell(at as int) == self.cell_model(at as int));
        if self.cells[at - self.head].next.is_some() {
            return Err(node);
        }
        let ghost value = node.value.unwrap();
        let addr: usize = self.head + self.cells.len();
        let mut last = self.cells.pop_back().unwrap();
        last.next = Some(addr);
        self.cells.push_back(last);
        self.cells.push_back(node);
        self.pushed = Ghost(self.pushed@.push(value));
        assert forall|a: int| self.is_live(a) implies #[trigger] self.cell(a) == self.cell_model(
            a,
        ) by {
            if a == at {
                assert(old(self).cell(a) == old(self).cell_model(a));
            }
        }
        Ok(addr)
    }

    /// Compare-and-swap on the head pointer, from `current` to `new`. The one
    /// caller for which it succeeds takes the value out of the new sentinel and
    /// reclaims the old one, in the same step; for every other caller nothing
    /// changes and nothing is returned.
    ///
    /// This is the one step by which a value leaves the queue.
    pub fn cas_head(&mut self, current: usize, new: usize) -> (taken: Option<T>)
        requires
            old(self).wf(),
            new == current + 1,
            current < old(self).tail_addr(),
        ensures
            final(self).wf(),
            taken.is_some() == (old(self).head_addr() == current),
            match taken {
                Some(value) => {
                    &&& old(self)@.len() > 0
                    &&& value == old(self)@[0]
                    &&& final(self).head_addr() == new
                },
                None => final(self).head_addr() == old(self).head_addr(),
            },
            final(self).tail_addr() == old(self).tail_addr(),
            final(self).end_addr() == old(self).end_addr(),
            final(self).history() == old(self).history(),
            final(self).counter() == old(self).counter(),
            final(self).counted_in() == old(self).counted_in(),
            final(self).counted_out() == old(self).counted_out(),
    {
        if self.head != current {
            return None;
        }
        assert(old(self).cell(new as int) == old(self).cell_model(new as int));
        // The old sentinel leaves the arena and is freed; its address is
        // never handed out again.
        let _ = self.cells.pop_front();
        let mut first = self.cells.pop_front().unwrap();
        let taken = first.value.take();
        self.cells.push_front(first);
        self.head = new;
        assert forall|a: int| self.is_live(a) implies #[trigger] self.cell(a) == self.cell_model(
            a,
        ) by {
            assert(old(self).cell(a) == old(self).cell_model(a));
        }
        taken
    }

    /// Adds one to the counter, wrapping round at the word size.
    pub fn count_up(&mut self)
        requires
            old(self).wf(),
        ensures
            final(self).wf(),
            final(self).counter() == Self::bumped(old(self).counter()),
            final(self).counted_in() == old(self).counted_in() + 1,
            final(self).counted_out() == old(self).counted_out(),
            final(self).head_addr() == old(self).head_addr(),
            final(self).tail_addr() == old(self).tail_addr(),
            final(self).end_addr() == old(self).end_addr(),
            final(self).history() == old(self).history(),
    {
        let ghost w = self.wraps@;
        let ghost m = usize::MAX + 1;
        if self.count == usize::MAX {
            self.count = 0;
            self.wraps = Ghost(w - 1);
            assert((w - 1) * m == w * m - m) by (nonlinear_arith);
        } else {
            self.count = self.count + 1;
        }
        self.counted_in = Ghost(self.counted_in@ + 1);
        assert forall|a: int| self.is_live(a) implies #[trigger] self.cell(a) == self.cell_model(
            a,
        ) by {
            assert(old(self).cell(a) == old(self).cell_model(a));
        }
    }

    /// Takes one from the counter, wrapping round at zero.
    pub fn count_down(&mut self)
        requires
            old(self).wf(),
        ensures
            final(self).wf(),
            final(self).counter() == Self::lowered(old(self).counter()),
            final(self).counted_in() == old(self).counted_in(),
            final(self).counted_out() == old(self).counted_out() + 1,
            final(self).head_addr() == old(self).head_addr(),
            final(self).tail_addr() == old(self).tail_addr(),
            final(self).end_addr() == old(self).end_addr(),
            final(self).history() == old(self).history(),
    {
        let ghost w = self.wraps@;
        let ghost m = usize::MAX + 1;
        if self.count == 0 {
            self.count = usize::MAX;
            self.wraps = Ghost(w + 1);
            assert((w + 1) * m == w * m + m) by (nonlinear_arith);
        } else {
            self.count = self.count - 1;
        }
        self.counted_out = Ghost(self.counted_out@ + 1);
        assert forall|a: int| self.is_live(a) implies #[trigger] self.cell(a) == self.cell_model(
            a,
        ) by {
            assert(old(self).cell(a) == old(self).cell_model(a));
        }
    }
}

impl<T> Default for LockFreeQueue<T> {
    /// An empty queue, as `new` makes it.
    fn default() -> (q: Self)
        ensures
            q.wf(),
            q.settled(),
            q@ == Seq::<T>::empty(),
            q.history() == Seq::<T>::empty(),
            q.head_addr() == 0,
            q.tail_addr() == 0,
            q.end_addr() == 1,
            q.counter() == 0,
    {
        Self::new()
    }
}

} // verus!
