//! Per-provider instance pool: a fixed arena of instance slots and a queue of
//! callers waiting for one.
//!
//! The pool is the only place where access to an instance is serialized. A
//! slot is vacant (no live instance), idle (a live instance nobody uses) or
//! busy (checked out by exactly one caller). The pool never runs an instance
//! itself: it hands out handles and takes them back.

use vstd::prelude::*;

verus! {

/// State of one slot of the arena.
#[derive(Clone, Copy, Debug, PartialEq, Eq, Structural)]
pub enum Slot {
    /// No live instance: one is created when the slot is next handed out.
    Vacant,
    /// A live instance that no call is using.
    Idle,
    /// A live instance checked out by the caller `holder`.
    Busy { holder: u64 },
}

/// Proof of a checkout: the slot and the caller it was granted to.
#[derive(Clone, Copy, Debug, PartialEq, Eq, Structural)]
pub struct InstanceHandle {
    pub slot: usize,
    pub holder: u64,
}

/// Answer to a request for an instance.
#[derive(Clone, Copy, Debug, PartialEq, Eq, Structural)]
pub enum Grant {
    /// The caller now holds `handle`. When `fresh` is set the slot was vacant
    /// and an instance has to be created before the call runs.
    Ready { handle: InstanceHandle, fresh: bool },
    /// Every slot is busy: the caller was put at the end of the queue.
    Queued,
}

/// What became of a slot that its holder gave up.
#[derive(Clone, Copy, Debug, PartialEq, Eq, Structural)]
pub enum Handover {
    /// Nobody was waiting: the slot is free again.
    Freed,
    /// The longest-waiting caller `to` now holds `handle`; `fresh` as in
    /// [`Grant::Ready`].
    Handed { to: u64, handle: InstanceHandle, fresh: bool },
    /// The handle names no checkout of this pool: nothing changed.
    Stale,
}

/// Instance pool of one provider.
#[derive(Debug, PartialEq, Eq)]
pub struct Pool {
    pub slots: Vec<Slot>,
    pub waiting: Vec<u64>,
}

/// Mathematical content of a [`Pool`].
pub struct PoolView {
    pub slots: Seq<Slot>,
    pub waiting: Seq<u64>,
}

impl View for Pool {
    type V = PoolView;

    open spec fn view(&self) -> PoolView {
        PoolView { slots: self.slots@, waiting: self.waiting@ }
    }
}

impl PoolView {
    /// A pool has at least one slot, and callers wait only while every slot
    /// is busy.
    pub open spec fn wf(self) -> bool {
        &&& self.slots.len() >= 1
        &&& self.waiting.len() > 0 ==> self.all_busy()
    }

    /// Every slot is checked out.
    pub open spec fn all_busy(self) -> bool {
        forall|i: int| 0 <= i < self.slots.len() ==> #[trigger] self.slots[i] is Busy
    }

    /// No slot before `i` is idle.
    pub open spec fn none_idle_before(self, i: int) -> bool {
        forall|j: int| 0 <= j < i && j < self.slots.len() ==> !(#[trigger] self.slots[j] is Idle)
    }

    /// No slot before `i` is vacant.
    pub open spec fn none_vacant_before(self, i: int) -> bool {
        forall|j: int|
            0 <= j < i && j < self.slots.len() ==> !(#[trigger] self.slots[j] is Vacant)
    }

    /// The handle names a current checkout: its slot is busy on behalf of its
    /// holder.
    pub open spec fn holds(self, handle: InstanceHandle) -> bool {
        &&& handle.slot < self.slots.len()
        &&& self.slots[handle.slot as int] == Slot::Busy { holder: handle.holder }
    }

    /// The slot that a request is served from, if any: the first idle slot,
    /// or, when none is idle, the first vacant one.
    pub open spec fn served_from(self, slot: int, fresh: bool) -> bool {
        &&& 0 <= slot < self.slots.len()
        &&& if fresh {
            &&& self.slots[slot] is Vacant
            &&& self.none_idle_before(self.slots.len() as int)
            &&& self.none_vacant_before(slot)
        } else {
            &&& self.slots[slot] is Idle
            &&& self.none_idle_before(slot)
        }
    }

    /// `acquire` by `caller` leads from `self` to `post` with answer `grant`.
    pub open spec fn acquires(self, caller: u64, post: PoolView, grant: Grant) -> bool {
        match grant {
            Grant::Ready { handle, fresh } => {
                &&& handle.holder == caller
                &&& self.served_from(handle.slot as int, fresh)
                &&& post.slots == self.slots.update(
                    handle.slot as int,
                    Slot::Busy { holder: caller },
                )
                &&& post.waiting == self.waiting
            },
            Grant::Queued => {
                &&& self.all_busy()
                &&& post.slots == self.slots
                &&& post.waiting == self.waiting.push(caller)
            },
        }
    }

    /// Giving up `handle` leads from `self` to `post` with outcome `handover`.
    /// With `keep` the instance stays alive (a release); without it the
    /// instance is dropped and the slot needs a new one (a discard).
    pub open spec fn yields(
        self,
        handle: InstanceHandle,
        keep: bool,
        post: PoolView,
        handover: Handover,
    ) -> bool {
        if !self.holds(handle) {
            handover == Handover::Stale && post == self
        } else if self.waiting.len() == 0 {
            &&& handover == Handover::Freed
            &&& post.waiting == self.waiting
            &&& post.slots == self.slots.update(
                handle.slot as int,
                if keep {
                    Slot::Idle
                } else {
                    Slot::Vacant
                },
            )
        } else {
            &&& handover == Handover::Handed {
                to: self.waiting[0],
                handle: InstanceHandle { slot: handle.slot, holder: self.waiting[0] },
                fresh: !keep,
            }
            &&& post.waiting == self.waiting.skip(1)
            &&& post.slots == self.slots.update(
                handle.slot as int,
                Slot::Busy { holder: self.waiting[0] },
            )
        }
    }
}

impl Pool {
    /// Well-formedness of the pool, see [`PoolView::wf`].
    pub open spec fn wf(&self) -> bool {
        self@.wf()
    }

    /// A pool of `capacity` vacant slots with nobody waiting. A pool needs at
    /// least one slot: there is none for a capacity of zero.
    pub fn new(capacity: usize) -> (r: Option<Pool>)
        ensures
            r is Some <==> capacity >= 1,
            r matches Some(pool) ==> {
                &&& pool.wf()
                &&& pool@.slots == Seq::new(capacity as nat, |i: int| Slot::Vacant)
                &&& pool@.waiting == Seq::<u64>::empty()
            },
    {
        if capacity == 0 {
            return None;
        }
        let mut slots: Vec<Slot> = Vec::new();
        let mut i: usize = 0;
        while i < capacity
            invariant
                i <= capacity,
                slots@ == Seq::new(i as nat, |j: int| Slot::Vacant),
            decreases capacity - i,
        {
            slots.push(Slot::Vacant);
            i += 1;
            assert(slots@ =~= Seq::new(i as nat, |j: int| Slot::Vacant));
        }
        Some(Pool { slots, waiting: Vec::new() })
    }

    /// Tells whether the pool is well formed. A pool that was made by
    /// [`Pool::new`] and changed only through its methods always is.
    pub fn check(&self) -> (ok: bool)
        ensures
            ok == self.wf(),
    {
        if self.slots.len() == 0 {
            return false;
        }
        if self.waiting.len() == 0 {
            return true;
        }
        let mut i: usize = 0;
        while i < self.slots.len()
            invariant
                i <= self@.slots.len(),
                self@.slots.len() >= 1,
                self@.waiting.len() > 0,
                forall|j: int| 0 <= j < i ==> #[trigger] self@.slots[j] is Busy,
            decreases self@.slots.len() - i,
        {
            match self.slots[i] {
                Slot::Busy { .. } => {},
                _ => {
                    assert(!(self@.slots[i as int] is Busy));
                    return false;
                },
            }
            i += 1;
        }
        true
    }

    /// Number of slots.
    pub fn capacity(&self) -> (n: usize)
        ensures
            n == self@.slots.len(),
    {
        self.slots.len()
    }

    /// Number of callers in the queue.
    pub fn queued(&self) -> (n: usize)
        ensures
            n == self@.waiting.len(),
    {
        self.waiting.len()
    }

    /// Whether `handle` names a current checkout of this pool.
    pub fn holds(&self, handle: InstanceHandle) -> (r: bool)
        ensures
            r == self@.holds(handle),
    {
        if handle.slot >= self.slots.len() {
            return false;
        }
        match self.slots[handle.slot] {
            Slot::Busy { holder } => holder == handle.holder,
            _ => false,
        }
    }

    /// Index of the first idle slot, or the capacity when none is idle.
    fn first_idle(&self) -> (i: usize)
        ensures
            i <= self@.slots.len(),
            self@.none_idle_before(i as int),
            i < self@.slots.len() ==> self@.slots[i as int] is Idle,
    {
        let mut i: usize = 0;
        while i < self.slots.len()
            invariant
                i <= self@.slots.len(),
                self@.none_idle_before(i as int),
            decreases self@.slots.len() - i,
        {
            if let Slot::Idle = self.slots[i] {
                return i;
            }
            i += 1;
        }
        i
    }

    /// Index of the first vacant slot, or the capacity when none is vacant.
    fn first_vacant(&self) -> (i: usize)
        ensures
            i <= self@.slots.len(),
            self@.none_vacant_before(i as int),
            i < self@.slots.len() ==> self@.slots[i as int] is Vacant,
    {
        let mut i: usize = 0;
        while i < self.slots.len()
            invariant
                i <= self@.slots.len(),
                self@.none_vacant_before(i as int),
            decreases self@.slots.len() - i,
        {
            if let Slot::Vacant = self.slots[i] {
                return i;
            }
            i += 1;
        }
        i
    }

    /// Asks for an instance on behalf of `caller`.
    ///
    /// An idle instance is preferred; failing that a vacant slot is handed
    /// out for a new instance; failing that the caller joins the queue and
    /// will be served by a later [`Pool::release`] or [`Pool::discard`].
    pub fn acquire(&mut self, caller: u64) -> (grant: Grant)
        requires
            old(self).wf(),
        ensures
            final(self).wf(),
            old(self)@.acquires(caller, final(self)@, grant),
            grant is Queued <==> old(self)@.all_busy(),
    {
        let idle = self.first_idle();
        if idle < self.slots.len() {
            self.slots[idle] = Slot::Busy { holder: caller };
            return Grant::Ready { handle: InstanceHandle { slot: idle, holder: caller }, fresh: false };
        }
        let vacant = self.first_vacant();
        if vacant < self.slots.len() {
            self.slots[vacant] = Slot::Busy { holder: caller };
            return Grant::Ready {
                handle: InstanceHandle { slot: vacant, holder: caller },
                fresh: true,
            };
        }
        proof {
            assert forall|i: int| 0 <= i < self@.slots.len() implies #[trigger] self@.slots[i]
                is Busy by {
                assert(!(self@.slots[i] is Idle));
                assert(!(self@.slots[i] is Vacant));
            }
        }
        self.waiting.push(caller);
        Grant::Queued
    }

    /// Gives up a checkout; `keep` tells whether the instance stays alive.
    fn give_up(&mut self, handle: InstanceHandle, keep: bool) -> (handover: Handover)
        requires
            old(self).wf(),
        ensures
            final(self).wf(),
            old(self)@.yields(handle, keep, final(self)@, handover),
    {
        if !self.holds(handle) {
            return Handover::Stale;
        }
        if self.waiting.len() == 0 {
            self.slots[handle.slot] = if keep {
                Slot::Idle
            } else {
                Slot::Vacant
            };
            return Handover::Freed;
        }
        let next = self.waiting.remove(0);
        self.slots[handle.slot] = Slot::Busy { holder: next };
        proof {
            assert(self@.waiting =~= old(self)@.waiting.skip(1));
            assert forall|i: int| 0 <= i < self@.slots.len() implies #[trigger] self@.slots[i]
                is Busy by {
                if i != handle.slot {
                    assert(old(self)@.slots[i] is Busy);
                }
            }
        }
        Handover::Handed {
            to: next,
            handle: InstanceHandle { slot: handle.slot, holder: next },
            fresh: !keep,
        }
    }

    /// Returns an instance after a call that left it in a consistent state.
    ///
    /// The instance goes to the caller that has waited longest, or becomes
    /// idle when nobody waits. A handle that names no current checkout
    /// changes nothing.
    pub fn release(&mut self, handle: InstanceHandle) -> (handover: Handover)
        requires
            old(self).wf(),
        ensures
            final(self).wf(),
            old(self)@.yields(handle, true, final(self)@, handover),
    {
        self.give_up(handle, true)
    }

    /// Drops an instance that trapped or ran out of time.
    ///
    /// The slot becomes vacant, so that whoever is served from it next gets a
    /// newly created instance: the caller that has waited longest, at once,
    /// or a later [`Pool::acquire`].
    pub fn discard(&mut self, handle: InstanceHandle) -> (handover: Handover)
        requires
            old(self).wf(),
        ensures
            final(self).wf(),
            old(self)@.yields(handle, false, final(self)@, handover),
    {
        self.give_up(handle, false)
    }

    /// Takes `caller` out of the queue, at the place where it has waited
    /// longest. Reports whether it was waiting.
    pub fn withdraw(&mut self, caller: u64) -> (found: bool)
        requires
            old(self).wf(),
        ensures
            final(self).wf(),
            final(self)@.slots == old(self)@.slots,
            found == old(self)@.waiting.contains(caller),
            found ==> exists|k: int|
                first_at(old(self)@.waiting, caller, k) && final(self)@.waiting == old(
                    self,
                )@.waiting.remove(k),
            !found ==> *final(self) == *old(self),
    {
        let mut i: usize = 0;
        while i < self.waiting.len()
            invariant
                i <= self@.waiting.len(),
                *self == *old(self),
                self.wf(),
                forall|j: int| 0 <= j < i ==> self@.waiting[j] != caller,
            decreases self@.waiting.len() - i,
        {
            if self.waiting[i] == caller {
                self.waiting.remove(i);
                assert(first_at(old(self)@.waiting, caller, i as int));
                return true;
            }
            i += 1;
        }
        false
    }
}

/// `k` is the first place at which `caller` stands in the queue `w`.
pub open spec fn first_at(w: Seq<u64>, caller: u64, k: int) -> bool {
    &&& 0 <= k < w.len()
    &&& w[k] == caller
    &&& forall|j: int| 0 <= j < k ==> w[j] != caller
}

/// No instance is checked out twice: two different checkouts of a pool
/// never name the same slot.
pub proof fn lemma_checkouts_name_different_instances(
    pool: PoolView,
    one: InstanceHandle,
    two: InstanceHandle,
)
    requires
        pool.holds(one),
        pool.holds(two),
        one != two,
    ensures
        one.slot != two.slot,
{
}

/// An instance is granted only when nobody holds it: the slot of a grant was
/// idle or vacant before, it is held by the new caller afterwards, and every
/// checkout that stood before still stands.
pub proof fn lemma_grant_is_exclusive(
    pre: PoolView,
    caller: u64,
    post: PoolView,
    handle: InstanceHandle,
    fresh: bool,
)
    requires
        pre.acquires(caller, post, Grant::Ready { handle, fresh }),
    ensures
        !(pre.slots[handle.slot as int] is Busy),
        post.holds(handle),
        forall|other: InstanceHandle|
            pre.holds(other) ==> other.slot != handle.slot && post.holds(other),
{
}

/// Two callers that are granted instances one after the other, with no
/// release between the grants, are granted different instances.
pub proof fn lemma_consecutive_grants_differ(
    pre: PoolView,
    first: u64,
    mid: PoolView,
    one: InstanceHandle,
    fresh_one: bool,
    second: u64,
    post: PoolView,
    two: InstanceHandle,
    fresh_two: bool,
)
    requires
        pre.acquires(first, mid, Grant::Ready { handle: one, fresh: fresh_one }),
        mid.acquires(second, post, Grant::Ready { handle: two, fresh: fresh_two }),
    ensures
        one.slot != two.slot,
        post.holds(one),
        post.holds(two),
{
}

/// Giving up an instance passes it to at most one caller: the slot ends up
/// free, or held by the caller that waited longest, and no other checkout is
/// touched.
pub proof fn lemma_handover_is_exclusive(
    pre: PoolView,
    handle: InstanceHandle,
    keep: bool,
    post: PoolView,
    handover: Handover,
)
    requires
        pre.wf(),
        pre.holds(handle),
        pre.yields(handle, keep, post, handover),
    ensures
        match handover {
            Handover::Freed => !(post.slots[handle.slot as int] is Busy),
            Handover::Handed { to, handle: next, fresh } => {
                &&& next.slot == handle.slot
                &&& to == pre.waiting[0]
                &&& post.holds(next)
                &&& to != handle.holder ==> !post.holds(handle)
            },
            Handover::Stale => false,
        },
        forall|other: InstanceHandle|
            pre.holds(other) && other.slot != handle.slot ==> post.holds(other),
{
}

/// A pool that dropped an instance still serves: when nobody was waiting,
/// the next request for an instance is granted at once.
pub proof fn lemma_discard_leaves_pool_serving(
    pre: PoolView,
    handle: InstanceHandle,
    mid: PoolView,
    handover: Handover,
    caller: u64,
    post: PoolView,
    grant: Grant,
)
    requires
        pre.wf(),
        pre.holds(handle),
        pre.yields(handle, false, mid, handover),
        mid.acquires(caller, post, grant),
    ensures
        mid.wf(),
        handover is Freed ==> grant is Ready,
        handover is Handed ==> handover->fresh,
{
    if handover is Freed {
        assert(mid.slots[handle.slot as int] is Vacant);
    }
    if handover is Handed {
        assert forall|i: int| 0 <= i < mid.slots.len() implies #[trigger] mid.slots[i] is Busy by {
            if i != handle.slot {
                assert(pre.slots[i] is Busy);
            }
        }
    }
}

/// A dropped instance is never used again: whoever is served next from the
/// slot of a discarded instance gets a newly created one.
pub proof fn lemma_discarded_instance_not_reused(
    pre: PoolView,
    handle: InstanceHandle,
    mid: PoolView,
    handover: Handover,
    caller: u64,
    post: PoolView,
    next: InstanceHandle,
    fresh: bool,
)
    requires
        pre.wf(),
        pre.holds(handle),
        pre.yields(handle, false, mid, handover),
        mid.acquires(caller, post, Grant::Ready { handle: next, fresh }),
        next.slot == handle.slot,
    ensures
        handover is Freed,
        fresh,
{
}

/// The queue is served in order: with callers waiting, an instance that is
/// given up goes to the one at the head, and the others move up.
pub proof fn lemma_queue_is_first_come_first_served(
    pre: PoolView,
    handle: InstanceHandle,
    keep: bool,
    post: PoolView,
    handover: Handover,
)
    requires
        pre.wf(),
        pre.holds(handle),
        pre.waiting.len() > 0,
        pre.yields(handle, keep, post, handover),
    ensures
        handover matches Handover::Handed { to, .. } && to == pre.waiting[0],
        post.waiting == pre.waiting.skip(1),
        forall|k: int| 0 <= k < post.waiting.len() ==> post.waiting[k] == pre.waiting[k + 1],
{
}

/// One step in the life of a pool, with its outcome.
pub enum Step {
    /// A caller asked for an instance.
    Acquire { caller: u64, grant: Grant },
    /// A holder released (`keep`) or discarded its instance.
    GiveUp { handle: InstanceHandle, keep: bool, handover: Handover },
    /// A caller left the queue.
    Withdraw { caller: u64 },
}

/// `post` is reached from `pre` by `step`.
pub open spec fn reaches(pre: PoolView, step: Step, post: PoolView) -> bool {
    match step {
        Step::Acquire { caller, grant } => pre.acquires(caller, post, grant),
        Step::GiveUp { handle, keep, handover } => pre.yields(handle, keep, post, handover),
        Step::Withdraw { caller } => post.slots == pre.slots,
    }
}

/// The calls in flight after `step`, given those in flight before it: a
/// grant starts a call, giving up an instance ends the holder's call, and a
/// handover starts the call of the caller that was waiting.
pub open spec fn in_flight_after(before: Set<InstanceHandle>, step: Step) -> Set<InstanceHandle> {
    match step {
        Step::Acquire { grant: Grant::Ready { handle, .. }, .. } => before.insert(handle),
        Step::Acquire { grant: Grant::Queued, .. } => before,
        Step::GiveUp { handover: Handover::Stale, .. } => before,
        Step::GiveUp { handle, handover: Handover::Freed, .. } => before.remove(handle),
        Step::GiveUp { handle, handover: Handover::Handed { handle: next, .. }, .. } => before.remove(
            handle,
        ).insert(next),
        Step::Withdraw { .. } => before,
    }
}

/// The calls in flight after a sequence of steps that began with none.
pub open spec fn in_flight(steps: Seq<Step>) -> Set<InstanceHandle>
    decreases steps.len(),
{
    if steps.len() == 0 {
        Set::empty()
    } else {
        in_flight_after(in_flight(steps.drop_last()), steps.last())
    }
}

/// `states` is a run of a pool through `steps`: it starts well formed with
/// no instance checked out, and every state is reached from the one before
/// it by the step between them.
pub open spec fn is_run(states: Seq<PoolView>, steps: Seq<Step>) -> bool {
    &&& states.len() == steps.len() + 1
    &&& states[0].wf()
    &&& forall|i: int| 0 <= i < states[0].slots.len() ==> !(#[trigger] states[0].slots[i] is Busy)
    &&& forall|i: int| 0 <= i < steps.len() ==> reaches(states[i], #[trigger] steps[i], states[i + 1])
}

/// Throughout every run, every call in flight holds its instance in the
/// pool's own books.
pub proof fn lemma_calls_in_flight_are_held(states: Seq<PoolView>, steps: Seq<Step>)
    requires
        is_run(states, steps),
    ensures
        forall|h: InstanceHandle| in_flight(steps).contains(h) ==> states.last().holds(h),
    decreases steps.len(),
{
    if steps.len() > 0 {
        let n = steps.len() - 1;
        let front = steps.drop_last();
        let early = states.drop_last();
        assert forall|i: int| 0 <= i < front.len() implies reaches(
            early[i],
            #[trigger] front[i],
            early[i + 1],
        ) by {
            assert(reaches(states[i], steps[i], states[i + 1]));
        }
        assert(early[0] == states[0]);
        lemma_calls_in_flight_are_held(early, front);
        let pre = states[n];
        let post = states[n + 1];
        assert(early.last() == pre);
        assert(states.last() == post);
        assert(reaches(pre, steps[n], post));
        assert forall|h: InstanceHandle| in_flight(steps).contains(h) implies post.holds(h) by {
            let before = in_flight(front);
            match steps[n] {
                Step::Acquire { caller, grant } => {
                    if before.contains(h) {
                        assert(pre.holds(h));
                    }
                },
                Step::GiveUp { handle, keep, handover } => {
                    if before.contains(h) {
                        assert(pre.holds(h));
                    }
                },
                Step::Withdraw { caller } => {
                    assert(pre.holds(h));
                },
            }
        }
    }
}

/// At most one call is ever in flight against an instance: throughout every
/// run of a pool, two different calls in flight run on different instances.
pub proof fn lemma_one_call_per_instance(
    states: Seq<PoolView>,
    steps: Seq<Step>,
    one: InstanceHandle,
    two: InstanceHandle,
)
    requires
        is_run(states, steps),
        in_flight(steps).contains(one),
        in_flight(steps).contains(two),
        one != two,
    ensures
        one.slot != two.slot,
{
    lemma_calls_in_flight_are_held(states, steps);
}

} // verus!
