//! The consumer of the result stream: it keeps the crawl's statistics and
//! the count of consecutive misses, and ends the crawl when that count
//! passes its limit.

use vstd::prelude::*;
use vstd::string::*;
use crate::record::{line_text, PipelineResult, PipelineResultView};
use crate::text::{decimal, push_decimal};

verus! {

/// The number of consecutive misses that a crawl survives. One more ends it.
pub const MISS_LIMIT: u64 = 10;

/// Where the consumer stands.
#[derive(Debug, Clone, Copy, PartialEq, Eq, Structural)]
pub enum Phase {
    /// Results are taken.
    Running,
    /// The miss limit was passed. Nothing more is taken.
    Aborted,
    /// The input ran out. Nothing more is taken.
    Completed,
}

/// What a result is to the circuit breaker.
pub ghost enum Event {
    /// A record with a name.
    Named,
    /// A record without a name: a miss.
    Nameless,
    /// No record.
    Failed,
}

/// The consumer's state as plain values.
pub ghost struct ConsumerState {
    /// Results taken so far.
    pub count: nat,
    /// The sum of the times between results, in milliseconds.
    pub total_millis: nat,
    /// Misses since the last named record.
    pub misses: nat,
    pub phase: Phase,
}

/// What the caller is to do with a result.
#[derive(Debug, Clone, PartialEq, Eq)]
pub enum Action {
    /// Write this line to the output.
    Emit(String),
    /// Nothing.
    Skip,
    /// Stop the crawl: the miss limit was passed.
    Abort,
}

/// An action as plain values.
pub ghost enum ActionView {
    Emit(Seq<char>),
    Skip,
    Abort,
}

impl View for Action {
    type V = ActionView;

    open spec fn view(&self) -> ActionView {
        match self {
            Action::Emit(line) => ActionView::Emit(line@),
            Action::Skip => ActionView::Skip,
            Action::Abort => ActionView::Abort,
        }
    }
}

/// How the circuit breaker sees a result.
pub open spec fn event_of(r: PipelineResultView) -> Event {
    match r {
        PipelineResultView::Success(u) => if u.name is Some {
            Event::Named
        } else {
            Event::Nameless
        },
        PipelineResultView::Failure(_) => Event::Failed,
    }
}

/// The state after one result that arrived `elapsed` milliseconds after the
/// one before. Outside `Running` nothing changes. A named record clears the
/// misses, a nameless one adds one and aborts past the limit, a failure
/// leaves them as they are.
pub open spec fn advance(s: ConsumerState, e: Event, elapsed: nat) -> ConsumerState {
    if s.phase != Phase::Running {
        s
    } else {
        let count = s.count + 1;
        let total_millis = s.total_millis + elapsed;
        match e {
            Event::Named => ConsumerState { count, total_millis, misses: 0, phase: Phase::Running },
            Event::Failed => ConsumerState {
                count,
                total_millis,
                misses: s.misses,
                phase: Phase::Running,
            },
            Event::Nameless => ConsumerState {
                count,
                total_millis,
                misses: s.misses + 1,
                phase: if s.misses + 1 > MISS_LIMIT {
                    Phase::Aborted
                } else {
                    Phase::Running
                },
            },
        }
    }
}

/// What is to be done with a result taken in state `s`: a named record is
/// written out, the nameless record that passes the limit stops the crawl,
/// and everything else is passed over.
pub open spec fn action_for(s: ConsumerState, r: PipelineResultView) -> ActionView {
    if s.phase != Phase::Running {
        ActionView::Skip
    } else {
        match r {
            PipelineResultView::Success(u) => if u.name is Some {
                ActionView::Emit(line_text(u))
            } else if s.misses + 1 > MISS_LIMIT {
                ActionView::Abort
            } else {
                ActionView::Skip
            },
            PipelineResultView::Failure(_) => ActionView::Skip,
        }
    }
}

/// The average time per result, rounded down; 0 before the first result.
pub open spec fn average_of(s: ConsumerState) -> nat {
    if s.count == 0 {
        0
    } else {
        s.total_millis / s.count
    }
}

/// The status shown while the crawl runs.
pub open spec fn status_text(s: ConsumerState) -> Seq<char> {
    "Average Time Per User: "@ + decimal(average_of(s))
}

/// The summary shown when the input has run out.
pub open spec fn summary_text(s: ConsumerState) -> Seq<char> {
    "Total MS: "@ + decimal(s.total_millis) + " Count: "@ + decimal(s.count) + " Average MS: "@
        + decimal(average_of(s))
}

/// The consumer of the result stream.
#[derive(Debug, Clone, Copy, PartialEq, Eq)]
pub struct Consumer {
    count: u64,
    total_millis: u128,
    misses: u64,
    phase: Phase,
}

impl View for Consumer {
    type V = ConsumerState;

    closed spec fn view(&self) -> ConsumerState {
        ConsumerState {
            count: self.count as nat,
            total_millis: self.total_millis as nat,
            misses: self.misses as nat,
            phase: self.phase,
        }
    }
}

impl Consumer {
    /// What every consumer keeps to: while it runs the misses are within the
    /// limit, once aborted they are past it, and no gap between two results
    /// was longer than a 64-bit count of milliseconds.
    pub closed spec fn wf(&self) -> bool {
        &&& self.total_millis <= self.count * u64::MAX
        &&& self.phase == Phase::Running ==> self.misses <= MISS_LIMIT
        &&& self.phase == Phase::Aborted ==> self.misses == MISS_LIMIT + 1
    }

    /// A well-formed consumer's view keeps to the same bounds.
    pub proof fn lemma_wf_view(&self)
        requires
            self.wf(),
        ensures
            self@.count <= u64::MAX,
            self@.phase == Phase::Running ==> self@.misses <= MISS_LIMIT,
            self@.phase == Phase::Aborted ==> self@.misses == MISS_LIMIT + 1,
    {
    }

    /// A consumer that has seen nothing yet.
    pub fn new() -> (r: Consumer)
        ensures
            r.wf(),
            r@ == (ConsumerState { count: 0, total_millis: 0, misses: 0, phase: Phase::Running }),
    {
        Consumer { count: 0, total_millis: 0, misses: 0, phase: Phase::Running }
    }

    /// Takes one result, which arrived `elapsed_millis` after the one before,
    /// and says what to do with it.
    pub fn step(&mut self, result: &PipelineResult, elapsed_millis: u64) -> (action: Action)
        requires
            old(self).wf(),
            old(self)@.count < u64::MAX,
        ensures
            final(self).wf(),
            final(self)@ == advance(old(self)@, event_of(result@), elapsed_millis as nat),
            action@ == action_for(old(self)@, result@),
    {
        if self.phase != Phase::Running {
            return Action::Skip;
        }
        proof {
            let c: int = self.count as int;
            let m: int = u64::MAX as int;
            assert(c * m + m == (c + 1) * m) by (nonlinear_arith);
            assert((c + 1) * m <= m * m) by (nonlinear_arith)
                requires
                    c + 1 <= m,
                    m >= 0,
            ;
        }
        self.count = self.count + 1;
        self.total_millis = self.total_millis + elapsed_millis as u128;
        match result {
            PipelineResult::Success(user) => {
                if user.has_name() {
                    self.misses = 0;
                    Action::Emit(user.to_line())
                } else {
                    self.misses = self.misses + 1;
                    if self.misses > MISS_LIMIT {
                        self.phase = Phase::Aborted;
                        Action::Abort
                    } else {
                        Action::Skip
                    }
                }
            },
            PipelineResult::Failure(_) => Action::Skip,
        }
    }

    /// Marks the end of the input: a running consumer is completed, an
    /// aborted one stays aborted.
    pub fn finish(&mut self)
        requires
            old(self).wf(),
        ensures
            final(self).wf(),
            final(self)@ == (ConsumerState {
                phase: if old(self)@.phase == Phase::Running {
                    Phase::Completed
                } else {
                    old(self)@.phase
                },
                ..old(self)@
            }),
    {
        if self.phase == Phase::Running {
            self.phase = Phase::Completed;
        }
    }

    pub fn phase(&self) -> (r: Phase)
        ensures
            r == self@.phase,
    {
        self.phase
    }

    /// Results taken so far.
    pub fn count(&self) -> (r: u64)
        ensures
            r == self@.count,
    {
        self.count
    }

    /// The sum of the times between results, in milliseconds.
    pub fn total_millis(&self) -> (r: u128)
        ensures
            r == self@.total_millis,
    {
        self.total_millis
    }

    /// Misses since the last named record.
    pub fn misses(&self) -> (r: u64)
        ensures
            r == self@.misses,
    {
        self.misses
    }

    /// The average time per result in milliseconds; 0 before the first.
    pub fn average_millis(&self) -> (r: u128)
        ensures
            r == average_of(self@),
    {
        if self.count == 0 {
            0
        } else {
            self.total_millis / (self.count as u128)
        }
    }

    /// The status to show after a result.
    pub fn status_message(&self) -> (r: String)
        ensures
            r@ == status_text(self@),
    {
        let mut out = String::from_str("Average Time Per User: ");
        push_decimal(&mut out, self.average_millis());
        out
    }

    /// The summary to show when the input has run out.
    pub fn summary(&self) -> (r: String)
        ensures
            r@ == summary_text(self@),
    {
        let mut out = String::from_str("Total MS: ");
        push_decimal(&mut out, self.total_millis);
        out.append(" Count: ");
        push_decimal(&mut out, self.count as u128);
        out.append(" Average MS: ");
        push_decimal(&mut out, self.average_millis());
        out
    }
}

/// The state after a run of results, each with the time since the one before.
pub open spec fn run(s: ConsumerState, events: Seq<(Event, nat)>) -> ConsumerState
    decreases events.len(),
{
    if events.len() == 0 {
        s
    } else {
        advance(run(s, events.drop_last()), events.last().0, events.last().1)
    }
}

/// The number of nameless records in a run of results.
pub open spec fn nameless_count(events: Seq<(Event, nat)>) -> nat
    decreases events.len(),
{
    if events.len() == 0 {
        0
    } else {
        nameless_count(events.drop_last()) + if events.last().0 is Nameless {
            1nat
        } else {
            0nat
        }
    }
}

/// No result of the run is a named record.
pub open spec fn no_named(events: Seq<(Event, nat)>) -> bool {
    forall|i: int| 0 <= i < events.len() ==> !((#[trigger] events[i]).0 is Named)
}

/// Only misses move the breaker. Over a run without a named record, however
/// many failures lie between the nameless records, a running consumer within
/// the limit ends aborted exactly when its misses and the run's nameless
/// records together pass the limit; otherwise it still runs, with exactly
/// that many misses.
pub proof fn lemma_only_misses_count(s: ConsumerState, events: Seq<(Event, nat)>)
    requires
        s.phase == Phase::Running,
        s.misses <= MISS_LIMIT,
        no_named(events),
    ensures
        s.misses + nameless_count(events) > MISS_LIMIT ==> run(s, events).phase == Phase::Aborted
            && run(s, events).misses == MISS_LIMIT + 1,
        s.misses + nameless_count(events) <= MISS_LIMIT ==> run(s, events).phase == Phase::Running
            && run(s, events).misses == s.misses + nameless_count(events),
    decreases events.len(),
{
    if events.len() > 0 {
        let init = events.drop_last();
        assert forall|i: int| 0 <= i < init.len() implies !((#[trigger] init[i]).0 is Named) by {
            assert(init[i] == events[i]);
        }
        lemma_only_misses_count(s, init);
        assert(!(events[events.len() - 1].0 is Named));
    }
}

/// A named record taken by a running consumer clears the misses, whatever
/// they were, and keeps it running.
pub proof fn lemma_named_resets(s: ConsumerState, elapsed: nat)
    requires
        s.phase == Phase::Running,
    ensures
        advance(s, Event::Named, elapsed).misses == 0,
        advance(s, Event::Named, elapsed).phase == Phase::Running,
{
}

/// Once aborted or completed, a consumer takes nothing more.
pub proof fn lemma_terminal_stays(s: ConsumerState, events: Seq<(Event, nat)>)
    requires
        s.phase != Phase::Running,
    ensures
        run(s, events) == s,
    decreases events.len(),
{
    if events.len() > 0 {
        lemma_terminal_stays(s, events.drop_last());
    }
}

} // verus!
