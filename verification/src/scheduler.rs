//! Which package job runs when.
//!
//! The jobs of a run, one per package of the closure, pass through a window
//! of fixed size: at most that many are active at once, and a job that ends
//! frees its place for the next one not yet started. The first failure that
//! is reported becomes the result of the run; from then on no job is
//! started, the jobs already active are left to end, and the run is over
//! when the last of them has.
//!
//! A [`Scheduler`] holds the decisions only. The caller asks it what to do
//! with [`Scheduler::next`], does it, and reports the end of each job with
//! [`Scheduler::complete`].
use crate::error::ProgramError;
use vstd::prelude::*;

verus! {

/// What the caller is to do next.
#[derive(Debug, PartialEq, Eq, Structural)]
pub enum Step {
    /// Start the job of the package at this position of the closure.
    Start(usize),
    /// Start nothing; wait for an active job to end and report it.
    Wait,
    /// Nothing is active and nothing is left to start: the run is over.
    Done,
}

/// What happens to a scheduler: it is asked for the next step, or told how
/// a job ended.
pub enum Event {
    Poll,
    Completed(Result<(), ProgramError>),
}

/// The state of a run as numbers: how many jobs there are, how many may be
/// active at once, how many were started and how many of those have ended,
/// and the first failure reported.
pub struct SchedulerView {
    pub total: nat,
    pub parallelism: nat,
    pub started: nat,
    pub finished: nat,
    pub failure: Option<ProgramError>,
}

impl SchedulerView {
    /// The state before anything was started.
    pub open spec fn initial(total: nat, parallelism: nat) -> SchedulerView {
        SchedulerView { total, parallelism, started: 0, finished: 0, failure: None }
    }

    /// The number of jobs that were started and have not ended.
    pub open spec fn active(self) -> nat {
        (self.started - self.finished) as nat
    }

    /// No job ended before it started, none was started that does not
    /// exist, and the window is not overfull.
    pub open spec fn well_formed(self) -> bool {
        &&& self.parallelism > 0
        &&& self.finished <= self.started <= self.total
        &&& self.started - self.finished <= self.parallelism
    }

    /// A job may be started: nothing has failed, a job is left, and the
    /// window has a free place.
    pub open spec fn may_start(self) -> bool {
        self.failure is None && self.started < self.total && self.active() < self.parallelism
    }

    /// The answer to a poll.
    pub open spec fn step(self) -> Step {
        if self.may_start() {
            Step::Start(self.started as usize)
        } else if self.active() > 0 {
            Step::Wait
        } else {
            Step::Done
        }
    }

    /// The state after a poll: where a job may be started it counts as
    /// started.
    pub open spec fn after_poll(self) -> SchedulerView {
        if self.may_start() {
            SchedulerView { started: self.started + 1, ..self }
        } else {
            self
        }
    }

    /// The state after a job has ended: its place is free, and its failure
    /// is kept if it is the first.
    pub open spec fn after_completion(self, outcome: Result<(), ProgramError>) -> SchedulerView {
        SchedulerView {
            finished: self.finished + 1,
            failure: match (self.failure, outcome) {
                (None, Err(error)) => Some(error),
                _ => self.failure,
            },
            ..self
        }
    }

    /// The state after an event.
    pub open spec fn after(self, event: Event) -> SchedulerView {
        match event {
            Event::Poll => self.after_poll(),
            Event::Completed(outcome) => self.after_completion(outcome),
        }
    }

    /// The event can happen in this state: a job can only end while one is
    /// active.
    pub open spec fn admits(self, event: Event) -> bool {
        event is Completed ==> self.active() > 0
    }

    /// The state after a sequence of events.
    pub open spec fn run(self, events: Seq<Event>) -> SchedulerView
        decreases events.len(),
    {
        if events.len() == 0 {
            self
        } else {
            self.run(events.drop_last()).after(events.last())
        }
    }

    /// Each event of the sequence can happen in the state that the events
    /// before it lead to.
    pub open spec fn admits_run(self, events: Seq<Event>) -> bool {
        forall|k: int| 0 <= k < events.len() ==> self.run(events.take(k)).admits(#[trigger] events[k])
    }

    /// The result of the run: the first failure, or success.
    pub open spec fn outcome(self) -> Result<(), ProgramError> {
        match self.failure {
            Some(error) => Err(error),
            None => Ok(()),
        }
    }
}

/// An admissible event keeps a state well formed.
pub proof fn lemma_event_keeps_well_formed(state: SchedulerView, event: Event)
    requires
        state.well_formed(),
        state.admits(event),
    ensures
        state.after(event).well_formed(),
        state.after(event).total == state.total,
        state.after(event).parallelism == state.parallelism,
{
}

/// The events before an event of an admissible run are an admissible run.
proof fn lemma_prefix_admitted(state: SchedulerView, events: Seq<Event>, length: int)
    requires
        state.admits_run(events),
        0 <= length <= events.len(),
    ensures
        state.admits_run(events.take(length)),
{
    let prefix = events.take(length);
    assert forall|k: int| 0 <= k < prefix.len() implies state.run(prefix.take(k)).admits(
        #[trigger] prefix[k],
    ) by {
        assert(prefix.take(k) =~= events.take(k));
        assert(state.run(events.take(k)).admits(events[k]));
    }
}

/// An admissible run keeps a state well formed.
proof fn lemma_run_keeps_well_formed(state: SchedulerView, events: Seq<Event>)
    requires
        state.well_formed(),
        state.admits_run(events),
    ensures
        state.run(events).well_formed(),
        state.run(events).total == state.total,
        state.run(events).parallelism == state.parallelism,
    decreases events.len(),
{
    if events.len() > 0 {
        let before = events.drop_last();
        assert(before =~= events.take(events.len() - 1));
        lemma_prefix_admitted(state, events, events.len() - 1);
        lemma_run_keeps_well_formed(state, before);
        assert(state.run(before).admits(events[events.len() - 1]));
        lemma_event_keeps_well_formed(state.run(before), events.last());
    }
}

/// The window is never overfull: whatever happens from the start of a run,
/// and however far the events have come, no more jobs are active than the
/// parallelism allows.
pub proof fn lemma_window_is_never_exceeded(
    total: nat,
    parallelism: nat,
    events: Seq<Event>,
    instant: int,
)
    requires
        parallelism > 0,
        SchedulerView::initial(total, parallelism).admits_run(events),
        0 <= instant <= events.len(),
    ensures
        SchedulerView::initial(total, parallelism).run(events.take(instant)).active()
            <= parallelism,
{
    let start = SchedulerView::initial(total, parallelism);
    lemma_prefix_admitted(start, events, instant);
    lemma_run_keeps_well_formed(start, events.take(instant));
}

/// Once a failure is held, events change neither the failure nor the
/// number of jobs started.
proof fn lemma_failure_is_kept(state: SchedulerView, events: Seq<Event>)
    requires
        state.failure is Some,
    ensures
        state.run(events).failure == state.failure,
        state.run(events).started == state.started,
    decreases events.len(),
{
    if events.len() > 0 {
        lemma_failure_is_kept(state, events.drop_last());
    }
}

/// Until a job fails, no failure is held.
proof fn lemma_no_failure_before_first(state: SchedulerView, events: Seq<Event>)
    requires
        state.failure is None,
        forall|j: int| 0 <= j < events.len() ==> !(#[trigger] events[j] matches Event::Completed(Err(_))),
    ensures
        state.run(events).failure is None,
    decreases events.len(),
{
    if events.len() > 0 {
        let before = events.drop_last();
        assert forall|j: int| 0 <= j < before.len() implies !(#[trigger] before[j] matches Event::Completed(
            Err(_),
        )) by {
            assert(before[j] == events[j]);
        }
        lemma_no_failure_before_first(state, before);
        assert(!(events[events.len() - 1] matches Event::Completed(Err(_))));
    }
}

/// A run splits at any instant: the state after all events is the state
/// that the later events lead to from the state after the earlier ones.
proof fn lemma_run_splits(state: SchedulerView, events: Seq<Event>, instant: int)
    requires
        0 <= instant <= events.len(),
    ensures
        state.run(events) == state.run(events.take(instant)).run(events.skip(instant)),
    decreases events.len() - instant,
{
    let earlier = events.take(instant);
    let later = events.skip(instant);
    if instant == events.len() {
        assert(earlier =~= events);
        assert(later.len() == 0);
    } else {
        let before = events.drop_last();
        assert(before.take(instant) =~= earlier);
        assert(before.skip(instant) =~= later.drop_last());
        lemma_run_splits(state, before, instant);
        assert(later.last() == events.last());
    }
}

/// The run fails fast. Let the job whose end is reported by the event at
/// `first` be the first to fail, with `error`. Then at every later instant
/// the failure held is `error`, no job has been started since, and a poll
/// does not start one; `error` is the result of the run.
pub proof fn lemma_first_failure_is_final(
    state: SchedulerView,
    events: Seq<Event>,
    first: int,
    error: ProgramError,
    instant: int,
)
    requires
        state.failure is None,
        0 <= first < instant <= events.len(),
        events[first] == Event::Completed(Err(error)),
        forall|j: int| 0 <= j < first ==> !(#[trigger] events[j] matches Event::Completed(Err(_))),
    ensures
        state.run(events.take(instant)).failure == Some(error),
        state.run(events.take(instant)).outcome() == Err::<(), ProgramError>(error),
        state.run(events.take(instant)).started == state.run(events.take(first)).started,
        !(state.run(events.take(instant)).step() is Start),
{
    let upto = events.take(instant);
    let before = events.take(first);
    let through = events.take(first + 1);
    assert forall|j: int| 0 <= j < before.len() implies !(#[trigger] before[j] matches Event::Completed(
        Err(_),
    )) by {
        assert(before[j] == events[j]);
    }
    lemma_no_failure_before_first(state, before);
    assert(through.drop_last() =~= before);
    assert(through.last() == events[first]);
    assert(state.run(through) == state.run(before).after(events[first]));
    assert(state.run(through).failure == Some(error));
    lemma_run_splits(state, upto, first + 1);
    assert(upto.take(first + 1) =~= through);
    lemma_failure_is_kept(state.run(through), upto.skip(first + 1));
}

/// The decisions of one run: which job to start, when to wait, when the run
/// is over, and with what result.
pub struct Scheduler {
    total: usize,
    parallelism: usize,
    started: usize,
    finished: usize,
    failure: Option<ProgramError>,
}

impl View for Scheduler {
    type V = SchedulerView;

    closed spec fn view(&self) -> SchedulerView {
        SchedulerView {
            total: self.total as nat,
            parallelism: self.parallelism as nat,
            started: self.started as nat,
            finished: self.finished as nat,
            failure: self.failure,
        }
    }
}

impl Scheduler {
    #[verifier::type_invariant]
    spec fn well_formed(&self) -> bool {
        self@.well_formed()
    }

    /// A scheduler for `total` jobs, of which at most `parallelism` are
    /// active at once.
    pub fn new(total: usize, parallelism: usize) -> (scheduler: Scheduler)
        requires
            parallelism > 0,
        ensures
            scheduler@ == SchedulerView::initial(total as nat, parallelism as nat),
    {
        Scheduler { total, parallelism, started: 0, finished: 0, failure: None }
    }

    /// The number of jobs that were started and have not ended. It never
    /// exceeds the parallelism.
    pub fn active(&self) -> (active: usize)
        ensures
            active == self@.active(),
            active <= self@.parallelism,
            self@.well_formed(),
    {
        proof {
            use_type_invariant(self);
        }
        self.started - self.finished
    }

    /// The number of jobs started so far.
    pub fn started(&self) -> (started: usize)
        ensures
            started == self@.started,
    {
        self.started
    }

    /// The number of jobs that have ended.
    pub fn finished(&self) -> (finished: usize)
        ensures
            finished == self@.finished,
    {
        self.finished
    }

    /// Whether a job has failed.
    pub fn has_failed(&self) -> (failed: bool)
        ensures
            failed == self@.failure is Some,
    {
        self.failure.is_some()
    }

    /// Says what to do next. Where the answer is [`Step::Start`], the job
    /// counts as started from now on.
    pub fn next(&mut self) -> (step: Step)
        ensures
            step == old(self)@.step(),
            final(self)@ == old(self)@.after(Event::Poll),
            old(self)@.failure is Some ==> !(step is Start),
            step matches Step::Start(position) ==> position == old(self)@.started && position
                < old(self)@.total,
            final(self)@.active() <= final(self)@.parallelism,
    {
        proof {
            use_type_invariant(&*self);
        }
        if self.failure.is_none() && self.started < self.total && self.started - self.finished
            < self.parallelism {
            let position: usize = self.started;
            self.started = self.started + 1;
            Step::Start(position)
        } else if self.started - self.finished > 0 {
            Step::Wait
        } else {
            Step::Done
        }
    }

    /// Records that an active job has ended, and how. The first failure
    /// reported is kept; later ones are dropped.
    pub fn complete(&mut self, outcome: Result<(), ProgramError>)
        requires
            old(self)@.active() > 0,
        ensures
            final(self)@ == old(self)@.after(Event::Completed(outcome)),
            old(self)@.failure is Some ==> final(self)@.failure == old(self)@.failure,
            old(self)@.failure is None ==> final(self)@.outcome() == outcome,
    {
        proof {
            use_type_invariant(&*self);
        }
        self.finished = self.finished + 1;
        if self.failure.is_none() {
            match outcome {
                Err(error) => {
                    self.failure = Some(error);
                },
                Ok(done) => {
                    assert(done == ());
                },
            }
        }
    }

    /// The result of a run that is over: the first failure reported, or
    /// success where every job that was started ended well.
    pub fn outcome(self) -> (result: Result<(), ProgramError>)
        requires
            self@.step() is Done,
        ensures
            result == self@.outcome(),
            result is Ok ==> self@.finished == self@.total,
    {
        proof {
            use_type_invariant(&self);
        }
        match self.failure {
            Some(error) => Err(error),
            None => Ok(()),
        }
    }
}

} // verus!
