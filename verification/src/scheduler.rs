//! The bookkeeping of a bounded, ordered fan-out: at most `limit` operations
//! are outstanding at a time, and their results leave in the order in which
//! the operations were admitted, whatever the order in which they finish.
//!
//! The scheduler decides; its caller starts the operations and reports what
//! came back. Each admitted operation gets a ticket, its place in the order
//! of submission, counted from 0.

use vstd::prelude::*;

verus! {

/// The number of slots that still wait for their result.
pub open spec fn pending_count<R>(slots: Seq<Option<R>>) -> nat
    decreases slots.len(),
{
    if slots.len() == 0 {
        0
    } else {
        pending_count(slots.drop_last()) + if slots.last() is None {
            1nat
        } else {
            0nat
        }
    }
}

/// The scheduler's state as plain values. `slots[i]` belongs to the ticket
/// `delivered + i`: `None` while its operation is outstanding, then its result.
pub ghost struct SchedulerState<R> {
    pub limit: nat,
    pub delivered: nat,
    pub slots: Seq<Option<R>>,
}

impl<R> SchedulerState<R> {
    /// The number of operations admitted so far, and so the next ticket.
    pub open spec fn submitted(self) -> nat {
        self.delivered + self.slots.len()
    }

    /// The number of operations outstanding.
    pub open spec fn in_flight(self) -> nat {
        pending_count(self.slots)
    }

    /// Admission waits for nothing but a free place among the outstanding
    /// operations (and for a ticket that still fits its type).
    pub open spec fn can_submit(self) -> bool {
        self.in_flight() < self.limit && self.submitted() < u64::MAX
    }

    /// The operation with this ticket is outstanding.
    pub open spec fn awaits(self, ticket: nat) -> bool {
        self.delivered <= ticket < self.submitted() && self.slots[ticket - self.delivered] is None
    }

    /// The oldest undelivered operation has its result.
    pub open spec fn ready(self) -> bool {
        self.slots.len() > 0 && self.slots[0] is Some
    }
}

/// What can happen to a scheduler.
pub ghost enum Op<R> {
    /// The next operation asks to be started.
    Submit,
    /// The operation with this ticket has finished with this result.
    Complete(nat, R),
    /// The consumer asks for the next result.
    Deliver,
}

/// The state after `op`. An operation that cannot take place changes nothing.
pub open spec fn apply<R>(s: SchedulerState<R>, op: Op<R>) -> SchedulerState<R> {
    match op {
        Op::Submit => if s.can_submit() {
            SchedulerState { slots: s.slots.push(None), ..s }
        } else {
            s
        },
        Op::Complete(ticket, result) => if s.awaits(ticket) {
            SchedulerState { slots: s.slots.update(ticket - s.delivered, Some(result)), ..s }
        } else {
            s
        },
        Op::Deliver => if s.ready() {
            SchedulerState { delivered: s.delivered + 1, slots: s.slots.drop_first(), ..s }
        } else {
            s
        },
    }
}

/// What `op` hands to the consumer: a delivery hands over the oldest
/// undelivered ticket with its result, if that result is there.
pub open spec fn output<R>(s: SchedulerState<R>, op: Op<R>) -> Option<(nat, R)> {
    match op {
        Op::Deliver => if s.ready() {
            Some((s.delivered, s.slots[0]->0))
        } else {
            None
        },
        _ => None,
    }
}

/// The state after a run of operations.
pub open spec fn run<R>(s: SchedulerState<R>, ops: Seq<Op<R>>) -> SchedulerState<R>
    decreases ops.len(),
{
    if ops.len() == 0 {
        s
    } else {
        apply(run(s, ops.drop_last()), ops.last())
    }
}

/// What a run of operations hands to the consumer, in order.
pub open spec fn outputs<R>(s: SchedulerState<R>, ops: Seq<Op<R>>) -> Seq<(nat, R)>
    decreases ops.len(),
{
    if ops.len() == 0 {
        Seq::empty()
    } else {
        let before = outputs(s, ops.drop_last());
        match output(run(s, ops.drop_last()), ops.last()) {
            Some(o) => before.push(o),
            None => before,
        }
    }
}

proof fn lemma_pending_push<R>(slots: Seq<Option<R>>, x: Option<R>)
    ensures
        pending_count(slots.push(x)) == pending_count(slots) + if x is None {
            1nat
        } else {
            0nat
        },
{
    assert(slots.push(x).drop_last() =~= slots);
}

proof fn lemma_pending_update<R>(slots: Seq<Option<R>>, i: int, r: R)
    requires
        0 <= i < slots.len(),
        slots[i] is None,
    ensures
        pending_count(slots.update(i, Some(r))) + 1 == pending_count(slots),
    decreases slots.len(),
{
    let updated = slots.update(i, Some(r));
    if i == slots.len() - 1 {
        assert(updated.drop_last() =~= slots.drop_last());
    } else {
        lemma_pending_update(slots.drop_last(), i, r);
        assert(updated.drop_last() =~= slots.drop_last().update(i, Some(r)));
    }
}

proof fn lemma_pending_drop_first<R>(slots: Seq<Option<R>>)
    requires
        slots.len() > 0,
        slots[0] is Some,
    ensures
        pending_count(slots.drop_first()) == pending_count(slots),
    decreases slots.len(),
{
    if slots.len() == 1 {
        assert(slots.drop_last() =~= Seq::<Option<R>>::empty());
        assert(slots.drop_first() =~= Seq::<Option<R>>::empty());
    } else {
        lemma_pending_drop_first(slots.drop_last());
        assert(slots.drop_first().drop_last() =~= slots.drop_last().drop_first());
    }
}

/// One operation never takes the outstanding operations past the limit.
pub proof fn lemma_apply_keeps_bound<R>(s: SchedulerState<R>, op: Op<R>)
    requires
        s.in_flight() <= s.limit,
    ensures
        apply(s, op).limit == s.limit,
        apply(s, op).in_flight() <= s.limit,
{
    match op {
        Op::Submit => {
            lemma_pending_push(s.slots, None);
        },
        Op::Complete(ticket, result) => {
            if s.awaits(ticket) {
                lemma_pending_update(s.slots, ticket - s.delivered, result);
            }
        },
        Op::Deliver => {
            if s.ready() {
                lemma_pending_drop_first(s.slots);
            }
        },
    }
}

/// The concurrency bound: whatever happens, in whatever order, no more than
/// `limit` operations are ever outstanding.
pub proof fn lemma_bound_always<R>(s: SchedulerState<R>, ops: Seq<Op<R>>)
    requires
        s.in_flight() <= s.limit,
    ensures
        run(s, ops).limit == s.limit,
        run(s, ops).in_flight() <= s.limit,
    decreases ops.len(),
{
    if ops.len() > 0 {
        lemma_bound_always(s, ops.drop_last());
        lemma_apply_keeps_bound(run(s, ops.drop_last()), ops.last());
    }
}

/// Results leave in the order of submission: over any run of operations,
/// with completions in any order, the tickets handed to the consumer are the
/// undelivered ones in ascending order, none skipped and none repeated.
pub proof fn lemma_delivery_in_order<R>(s: SchedulerState<R>, ops: Seq<Op<R>>)
    ensures
        run(s, ops).delivered == s.delivered + outputs(s, ops).len(),
        forall|i: int|
            0 <= i < outputs(s, ops).len() ==> (#[trigger] outputs(s, ops)[i]).0 == s.delivered
                + i,
    decreases ops.len(),
{
    if ops.len() > 0 {
        lemma_delivery_in_order(s, ops.drop_last());
    }
}

/// A result that has come in is kept as it is until it is delivered under
/// its own ticket: any operation either hands it out with that ticket or
/// leaves it in place.
pub proof fn lemma_result_kept<R>(s: SchedulerState<R>, op: Op<R>, ticket: nat, result: R)
    requires
        s.delivered <= ticket < s.submitted(),
        s.slots[ticket - s.delivered] == Some(result),
    ensures
        output(s, op) == Some((ticket, result)) || ({
            let next = apply(s, op);
            &&& next.delivered <= ticket < next.submitted()
            &&& next.slots[ticket - next.delivered] == Some(result)
        }),
{
}

/// The scheduler of a bounded, ordered fan-out over results of type `R`.
pub struct Scheduler<R> {
    limit: usize,
    delivered: u64,
    slots: Vec<Option<R>>,
    in_flight: usize,
}

impl<R> View for Scheduler<R> {
    type V = SchedulerState<R>;

    closed spec fn view(&self) -> SchedulerState<R> {
        SchedulerState {
            limit: self.limit as nat,
            delivered: self.delivered as nat,
            slots: self.slots@,
        }
    }
}

impl<R> Scheduler<R> {
    /// What every scheduler keeps to: a limit of at least one, and a count
    /// of outstanding operations that is right.
    pub closed spec fn wf(&self) -> bool {
        &&& self.limit >= 1
        &&& self.in_flight == pending_count(self.slots@)
        &&& self.in_flight <= self.limit
        &&& self.delivered + self.slots@.len() <= u64::MAX
    }

    /// A well-formed scheduler is within its limit.
    pub proof fn lemma_within_limit(&self)
        requires
            self.wf(),
        ensures
            self@.limit >= 1,
            self@.in_flight() <= self@.limit,
    {
    }

    /// A scheduler that lets `limit` operations be outstanding at a time.
    pub fn new(limit: usize) -> (r: Self)
        requires
            limit >= 1,
        ensures
            r.wf(),
            r@ == (SchedulerState::<R> { limit: limit as nat, delivered: 0, slots: Seq::empty() }),
            r@.in_flight() == 0,
    {
        Scheduler { limit: limit, delivered: 0, slots: Vec::new(), in_flight: 0 }
    }

    /// The number of operations outstanding.
    pub fn in_flight(&self) -> (r: usize)
        requires
            self.wf(),
        ensures
            r == self@.in_flight(),
            r <= self@.limit,
    {
        self.in_flight
    }

    /// The number of results delivered so far.
    pub fn delivered(&self) -> (r: u64)
        ensures
            r == self@.delivered,
    {
        self.delivered
    }

    /// Whether every admitted operation has had its result delivered.
    pub fn is_drained(&self) -> (r: bool)
        ensures
            r == (self@.slots.len() == 0),
    {
        self.slots.len() == 0
    }

    /// Whether another operation may start now.
    pub fn can_submit(&self) -> (r: bool)
        requires
            self.wf(),
        ensures
            r == self@.can_submit(),
    {
        self.in_flight < self.limit && self.delivered + (self.slots.len() as u64) < u64::MAX
    }

    /// Admits the next operation if a place is free, and gives its ticket.
    pub fn submit(&mut self) -> (r: Option<u64>)
        requires
            old(self).wf(),
        ensures
            final(self).wf(),
            final(self)@ == apply(old(self)@, Op::Submit),
            match r {
                Some(ticket) => old(self)@.can_submit() && ticket == old(self)@.submitted()
                    && final(self)@.in_flight() == old(self)@.in_flight() + 1,
                None => !old(self)@.can_submit(),
            },
    {
        if !self.can_submit() {
            return None;
        }
        let ticket: u64 = self.delivered + (self.slots.len() as u64);
        proof {
            lemma_pending_push(self.slots@, None);
        }
        self.slots.push(None);
        self.in_flight = self.in_flight + 1;
        Some(ticket)
    }

    /// Records the result of the operation with this ticket. A ticket that
    /// is not outstanding is refused and changes nothing.
    pub fn complete(&mut self, ticket: u64, result: R) -> (accepted: bool)
        requires
            old(self).wf(),
        ensures
            final(self).wf(),
            accepted == old(self)@.awaits(ticket as nat),
            final(self)@ == apply(old(self)@, Op::Complete(ticket as nat, result)),
            accepted ==> final(self)@.in_flight() + 1 == old(self)@.in_flight(),
    {
        if ticket < self.delivered {
            return false;
        }
        let offset: u64 = ticket - self.delivered;
        if offset >= self.slots.len() as u64 {
            return false;
        }
        let i: usize = offset as usize;
        if self.slots[i].is_some() {
            return false;
        }
        proof {
            lemma_pending_update(self.slots@, i as int, result);
        }
        self.slots.set(i, Some(result));
        self.in_flight = self.in_flight - 1;
        true
    }

    /// Hands out the oldest undelivered result with its ticket, if it has
    /// come in. Results that came in out of turn wait for it.
    pub fn deliver(&mut self) -> (r: Option<(u64, R)>)
        requires
            old(self).wf(),
        ensures
            final(self).wf(),
            final(self)@ == apply(old(self)@, Op::Deliver),
            match r {
                Some((ticket, result)) => output(old(self)@, Op::Deliver) == Some(
                    (ticket as nat, result),
                ),
                None => output(old(self)@, Op::Deliver) is None,
            },
            final(self)@.in_flight() == old(self)@.in_flight(),
    {
        if self.slots.len() == 0 || self.slots[0].is_none() {
            return None;
        }
        proof {
            lemma_pending_drop_first(self.slots@);
            assert(self.slots@.remove(0) =~= self.slots@.drop_first());
        }
        let ticket: u64 = self.delivered;
        let head: Option<R> = self.slots.remove(0);
        self.delivered = self.delivered + 1;
        Some((ticket, head.unwrap()))
    }
}

} // verus!
