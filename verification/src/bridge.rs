//! The bridge as a whole: both ends, the two channels between them and the
//! executions in flight, as one state that moves in steps.
//!
//! Each step is one call of the library by the thread that owns the end in
//! question, with the channel doing what a channel does: what goes in comes
//! out once, in the order it went in. The steps are built from the same
//! decisions that the ends take in [`crate::tasks`] and [`crate::app`]. No
//! step stands for a teardown, and an execution that hangs is one whose last
//! step never comes.
//!
//! The laws at the end of the file hold after any sequence of steps from a
//! fresh bridge:
//!
//! - no task is lost, none is answered twice and no event is made up
//!   ([`law_no_task_lost`], [`law_no_event_fabricated`]);
//! - what is left to do can always be done, in as many steps as the backlog
//!   counts, and then every task has been answered exactly once
//!   ([`law_work_goes_on`], [`law_backlog_is_bounded`],
//!   [`law_bridge_settles`], [`law_every_task_is_answered`]);
//! - a poll of an empty channel returns nothing, and polls return the events
//!   in the order in which they were sent ([`law_poll_of_empty_channel`],
//!   [`law_polls_follow_reports`]);
//! - the startup event comes first ([`law_startup_event_first`]);
//! - tasks are taken in the order of submission and answered in the order
//!   of completion ([`law_tasks_taken_in_submission_order`],
//!   [`law_events_in_completion_order`]);
//! - an idle handler takes the next task ([`law_idle_handler_still_drains`]);
//! - a failure is reported like a reply and touches nothing but its own
//!   event ([`law_failure_is_isolated`],
//!   [`law_outcome_stays_with_its_task`]).

use crate::app::{initialised_after, Event, Task};
use crate::tasks::{forwarded, polled, startup_event, turn_for, Turn};
use std::sync::mpsc::TryRecvError;
use std::time::Duration;
use vstd::prelude::*;

verus! {

/// What a channel that holds `queue`, oldest first, gives to a poll.
pub open spec fn try_recv<T>(queue: Seq<T>) -> Result<T, TryRecvError> {
    if queue.len() > 0 {
        Ok(queue[0])
    } else {
        Err(TryRecvError::Empty)
    }
}

/// An event that was sent to the requester, with the task it answers: the
/// task's place among those submitted, or nothing for the startup event.
pub struct Report {
    pub origin: Option<nat>,
    pub event: Event,
}

/// The report that a starting handler sends: the event of
/// [`crate::tasks::announcement`], which answers no task.
pub open spec fn startup_report() -> Report {
    Report { origin: None, event: startup_event() }
}

/// `event` is what an execution of `task` can end with.
pub open spec fn is_event_of(task: Task, event: Event) -> bool {
    exists|elapsed: Duration, outcome: Result<String, String>| #[trigger]
        task.event_for(elapsed, outcome) == event
}

/// The state of a bridge. The two channels are kept as all that ever went
/// into them and a count of what has come out.
pub struct Bridge {
    /// Whether the handler has announced itself.
    pub started: bool,
    /// Every task handed to the requester, oldest first.
    pub submitted: Seq<Task>,
    /// How many of them the handler has taken out of its channel.
    pub taken: nat,
    /// The tasks whose execution was spawned and has not ended, by their
    /// place in `submitted`.
    pub running: Set<nat>,
    /// Every event sent to the requester, oldest first.
    pub reported: Seq<Report>,
    /// How many of them the requester has polled.
    pub seen: nat,
    /// What the UI knows of the handler.
    pub initialised: bool,
}

/// One step of a bridge.
pub enum Step {
    /// The UI hands a task to the requester.
    Submit(Task),
    /// The handler takes a turn.
    Turn,
    /// The execution of the task at this place ends, after this time and
    /// with this outcome, and reports.
    Finish(nat, Duration, Result<String, String>),
    /// The UI polls the requester and takes in what it gets.
    Poll,
}

impl Bridge {
    /// A bridge that was just made.
    pub open spec fn fresh() -> Bridge {
        Bridge {
            started: false,
            submitted: Seq::empty(),
            taken: 0,
            running: Set::empty(),
            reported: Seq::empty(),
            seen: 0,
            initialised: false,
        }
    }

    /// The tasks in the channel to the handler, oldest first.
    pub open spec fn waiting_tasks(self) -> Seq<Task> {
        self.submitted.subrange(self.taken as int, self.submitted.len() as int)
    }

    /// The events in the channel to the requester, oldest first.
    pub open spec fn waiting_events(self) -> Seq<Event> {
        Seq::new((self.reported.len() - self.seen) as nat, |i: int| self.reported[self.seen + i].event)
    }

    /// The events that polls have returned so far, oldest first.
    pub open spec fn observed(self) -> Seq<Event> {
        Seq::new(self.seen, |i: int| self.reported[i].event)
    }

    /// The task at `id` is still in the channel to the handler.
    pub open spec fn is_waiting(self, id: nat) -> bool {
        self.taken <= id < self.submitted.len()
    }

    /// The task at `id` is being executed.
    pub open spec fn is_running(self, id: nat) -> bool {
        self.running.contains(id)
    }

    /// The event at place `at` of those sent answers the task at `id`.
    pub open spec fn is_reported_at(self, id: nat, at: int) -> bool {
        0 <= at < self.reported.len() && self.reported[at].origin == Some(id)
    }

    /// An event that answers the task at `id` has been sent.
    pub open spec fn is_reported(self, id: nat) -> bool {
        exists|at: int| self.is_reported_at(id, at)
    }

    /// The turn that the handler takes in this state.
    pub open spec fn turn(self) -> Turn {
        turn_for(self.started, polled(try_recv(self.waiting_tasks())))
    }

    /// What a poll returns in this state.
    pub open spec fn poll(self) -> Option<Event> {
        polled(try_recv(self.waiting_events()))
    }

    /// Whether `step` can be taken. Only an execution that is running can
    /// end.
    pub open spec fn allows(self, step: Step) -> bool {
        match step {
            Step::Finish(id, _, _) => self.is_running(id),
            _ => true,
        }
    }

    /// The state after `step`. A step that cannot be taken changes nothing.
    pub open spec fn next(self, step: Step) -> Bridge {
        match step {
            Step::Submit(task) => Bridge { submitted: self.submitted.push(task), ..self },
            Step::Turn => match self.turn() {
                Turn::Announce => Bridge {
                    started: true,
                    reported: self.reported.push(startup_report()),
                    ..self
                },
                Turn::Dispatch(_) => Bridge {
                    taken: self.taken + 1,
                    running: self.running.insert(self.taken),
                    ..self
                },
                Turn::Idle(_) => self,
            },
            Step::Finish(id, elapsed, outcome) => if self.is_running(id) {
                match forwarded(self.submitted[id as int].event_for(elapsed, outcome)) {
                    Some(event) => Bridge {
                        running: self.running.remove(id),
                        reported: self.reported.push(Report { origin: Some(id), event }),
                        ..self
                    },
                    None => Bridge { running: self.running.remove(id), ..self },
                }
            } else {
                self
            },
            Step::Poll => match self.poll() {
                Some(event) => Bridge {
                    seen: self.seen + 1,
                    initialised: initialised_after(self.initialised, event),
                    ..self
                },
                None => self,
            },
        }
    }

    /// The state of a fresh bridge after `steps`, first to last.
    pub open spec fn after(steps: Seq<Step>) -> Bridge
        decreases steps.len(),
    {
        if steps.len() == 0 {
            Bridge::fresh()
        } else {
            Bridge::after(steps.drop_last()).next(steps.last())
        }
    }

    /// What is left to do before every task has been answered and every
    /// event taken in. Each step that does something, a submission aside,
    /// takes one off.
    pub open spec fn backlog(self) -> int {
        (if self.started {
            0int
        } else {
            2int
        }) + 3 * (self.submitted.len() - self.taken) + 2 * self.running.len() + (
        self.reported.len() - self.seen)
    }

    /// Nothing is left to do: the handler runs, no task waits or is being
    /// executed, and no event waits.
    pub open spec fn settled(self) -> bool {
        &&& self.started
        &&& self.taken == self.submitted.len()
        &&& self.running.len() == 0
        &&& self.seen == self.reported.len()
    }

    /// What holds of every state that a fresh bridge can get into.
    pub open spec fn wf(self) -> bool {
        &&& self.taken <= self.submitted.len()
        &&& self.seen <= self.reported.len()
        &&& self.running.finite()
        &&& self.reported.len() + self.running.len() == self.taken + (if self.started {
            1nat
        } else {
            0nat
        })
        &&& self.started ==> self.reported.len() > 0 && self.reported[0] == startup_report()
        &&& !self.started ==> self.taken == 0
        &&& self.initialised ==> self.seen > 0
        &&& self.seen > 0 ==> self.initialised
        &&& forall|id: nat| #[trigger] self.running.contains(id) ==> id < self.taken
        &&& forall|at: int|
            0 < at < self.reported.len() ==> self.answers_a_task(#[trigger] self.reported[at])
        &&& forall|at: int, other: int|
            0 < at < other < self.reported.len() ==> (#[trigger] self.reported[at]).origin != (
            #[trigger] self.reported[other]).origin
        &&& forall|id: nat| id < self.taken ==> #[trigger] self.is_running(id) || self.is_reported(id)
    }

    /// `report` holds an event of a task that was taken and is no longer
    /// being executed.
    pub open spec fn answers_a_task(self, report: Report) -> bool {
        &&& report.origin matches Some(id)
        &&& id < self.taken
        &&& !self.running.contains(id)
        &&& is_event_of(self.submitted[id as int], report.event)
    }
}

/// No task ends with the no-op, so every execution that ends is reported.
pub proof fn lemma_task_events_are_forwarded(
    task: Task,
    elapsed: Duration,
    outcome: Result<String, String>,
)
    ensures
        forwarded(task.event_for(elapsed, outcome)) == Some(task.event_for(elapsed, outcome)),
        task.event_for(elapsed, outcome) is Pong,
{
}

/// No event of a task is the startup event.
pub proof fn lemma_task_events_are_pongs(task: Task, event: Event)
    requires
        is_event_of(task, event),
    ensures
        event is Pong,
{
    let (elapsed, outcome) = choose|elapsed: Duration, outcome: Result<String, String>| #[trigger]
        task.event_for(elapsed, outcome) == event;
    lemma_task_events_are_forwarded(task, elapsed, outcome);
}

/// Every step keeps a well-formed bridge well-formed.
pub proof fn lemma_step_keeps_wf(s: Bridge, step: Step)
    requires
        s.wf(),
    ensures
        s.next(step).wf(),
{
    let t = s.next(step);
    match step {
        Step::Submit(task) => {
            assert forall|at: int| 0 < at < t.reported.len() implies t.answers_a_task(
                #[trigger] t.reported[at],
            ) by {
                assert(s.answers_a_task(s.reported[at]));
            }
            assert forall|id: nat| id < t.taken implies #[trigger] t.is_running(id)
                || t.is_reported(id) by {
                lemma_answer_stays(s, t, id);
            }
        },
        Step::Turn => match s.turn() {
            Turn::Announce => {
                assert(!s.started);
                assert(s.reported.len() == 0);
                assert(t.reported.len() == 1);
            },
            Turn::Dispatch(_) => {
                assert(s.started);
                assert(s.waiting_tasks().len() > 0);
                assert(!s.running.contains(s.taken));
                assert forall|at: int| 0 < at < t.reported.len() implies t.answers_a_task(
                    #[trigger] t.reported[at],
                ) by {
                    assert(s.answers_a_task(s.reported[at]));
                }
                assert forall|id: nat| id < t.taken implies #[trigger] t.is_running(id)
                    || t.is_reported(id) by {
                    if id < s.taken {
                        lemma_answer_stays(s, t, id);
                    }
                }
            },
            Turn::Idle(_) => {},
        },
        Step::Finish(id, elapsed, outcome) => {
            if s.is_running(id) {
                let event = s.submitted[id as int].event_for(elapsed, outcome);
                lemma_task_events_are_forwarded(s.submitted[id as int], elapsed, outcome);
                let last = s.reported.len() as int;
                assert(t.reported[last] == Report { origin: Some(id), event });
                assert(is_event_of(s.submitted[id as int], event));
                assert forall|at: int| 0 < at < t.reported.len() implies t.answers_a_task(
                    #[trigger] t.reported[at],
                ) by {
                    if at < last {
                        assert(s.answers_a_task(s.reported[at]));
                    }
                }
                assert forall|at: int, other: int| 0 < at < other < t.reported.len() implies (
                #[trigger] t.reported[at]).origin != (#[trigger] t.reported[other]).origin by {
                    assert(s.answers_a_task(s.reported[at]));
                }
                assert forall|other: nat| other < t.taken implies #[trigger] t.is_running(other)
                    || t.is_reported(other) by {
                    if other == id {
                        assert(t.is_reported_at(id, last));
                    } else {
                        lemma_answer_stays(s, t, other);
                    }
                }
            }
        },
        Step::Poll => {
            if s.poll() is Some {
                assert(s.waiting_events().len() > 0);
                assert(s.waiting_events()[0] == s.reported[s.seen as int].event);
                assert forall|id: nat| id < t.taken implies #[trigger] t.is_running(id)
                    || t.is_reported(id) by {
                    lemma_answer_stays(s, t, id);
                }
            }
        },
    }
}

/// A task that is running or reported in `s` is so in `t`, if it still runs
/// in `t` where it ran in `s` and what was reported in `s` is still
/// reported in `t`.
proof fn lemma_answer_stays(s: Bridge, t: Bridge, id: nat)
    requires
        s.is_running(id) || s.is_reported(id),
        s.is_running(id) ==> t.is_running(id),
        s.reported.len() <= t.reported.len(),
        forall|at: int| 0 <= at < s.reported.len() ==> s.reported[at] == t.reported[at],
    ensures
        t.is_running(id) || t.is_reported(id),
{
    if !s.is_running(id) {
        let at = choose|at: int| s.is_reported_at(id, at);
        assert(t.is_reported_at(id, at));
    }
}

/// Whatever the steps, the bridge they lead to is well-formed.
pub proof fn lemma_reachable_is_wf(steps: Seq<Step>)
    ensures
        Bridge::after(steps).wf(),
    decreases steps.len(),
{
    if steps.len() > 0 {
        lemma_reachable_is_wf(steps.drop_last());
        lemma_step_keeps_wf(Bridge::after(steps.drop_last()), steps.last());
    }
}

/// One more step at the end of a sequence is one step from where the
/// sequence led.
pub proof fn lemma_after_push(steps: Seq<Step>, step: Step)
    ensures
        Bridge::after(steps.push(step)) == Bridge::after(steps).next(step),
{
    assert(steps.push(step).drop_last() == steps);
}

/// Steps that change nothing where `steps` leads can be put after it
/// without effect.
proof fn lemma_after_idle_steps(steps: Seq<Step>, idle: Seq<Step>)
    requires
        forall|i: int|
            0 <= i < idle.len() ==> Bridge::after(steps).next(#[trigger] idle[i]) == Bridge::after(
                steps,
            ),
    ensures
        Bridge::after(steps + idle) == Bridge::after(steps),
    decreases idle.len(),
{
    if idle.len() == 0 {
        assert(steps + idle == steps);
    } else {
        lemma_after_idle_steps(steps, idle.drop_last());
        assert(steps + idle == (steps + idle.drop_last()).push(idle.last()));
        lemma_after_push(steps + idle.drop_last(), idle.last());
    }
}

/// Two bridges are alike but for what the events that answer the task at
/// `id` carry: the same tasks in the same places, the same events from the
/// same tasks in the same order, the same knowledge in the UI.
pub open spec fn alike_but_for(x: Bridge, y: Bridge, id: nat) -> bool {
    &&& x.started == y.started
    &&& x.submitted == y.submitted
    &&& x.taken == y.taken
    &&& x.running == y.running
    &&& x.seen == y.seen
    &&& x.initialised == y.initialised
    &&& x.reported.len() == y.reported.len()
    &&& forall|at: int|
        0 <= at < x.reported.len() ==> {
            let ours = #[trigger] x.reported[at];
            let theirs = y.reported[at];
            &&& ours.origin == theirs.origin
            &&& ours.origin != Some(id) ==> ours == theirs
            &&& ours.event is TaskHandlerInitialised <==> theirs.event is TaskHandlerInitialised
        }
}

/// A step keeps two bridges alike.
proof fn lemma_step_keeps_alike(x: Bridge, y: Bridge, id: nat, step: Step)
    requires
        alike_but_for(x, y, id),
        x.seen <= x.reported.len(),
    ensures
        alike_but_for(x.next(step), y.next(step), id),
{
    let after_x = x.next(step);
    let after_y = y.next(step);
    assert(x.waiting_tasks() == y.waiting_tasks());
    assert(x.waiting_events().len() == y.waiting_events().len());
    if x.seen < x.reported.len() {
        let at = x.seen as int;
        assert(x.waiting_events()[0] == x.reported[at].event);
        assert(y.waiting_events()[0] == y.reported[at].event);
        assert(x.reported[at].event is TaskHandlerInitialised <==> y.reported[at].event
            is TaskHandlerInitialised);
    }
    assert(after_x.reported.len() == after_y.reported.len());
    assert forall|at: int| 0 <= at < after_x.reported.len() implies ({
        let ours = #[trigger] after_x.reported[at];
        let theirs = after_y.reported[at];
        &&& ours.origin == theirs.origin
        &&& ours.origin != Some(id) ==> ours == theirs
        &&& ours.event is TaskHandlerInitialised <==> theirs.event is TaskHandlerInitialised
    }) by {
        if at < x.reported.len() {
            let ours = x.reported[at];
            assert(after_x.reported[at] == ours);
            assert(after_y.reported[at] == y.reported[at]);
        }
    }
}

/// Steps keep two bridges alike.
proof fn lemma_steps_keep_alike(a: Seq<Step>, b: Seq<Step>, id: nat, later: Seq<Step>)
    requires
        alike_but_for(Bridge::after(a), Bridge::after(b), id),
    ensures
        alike_but_for(Bridge::after(a + later), Bridge::after(b + later), id),
    decreases later.len(),
{
    if later.len() == 0 {
        assert(a + later == a);
        assert(b + later == b);
    } else {
        let before = later.drop_last();
        lemma_steps_keep_alike(a, b, id, before);
        assert(a + later == (a + before).push(later.last()));
        assert(b + later == (b + before).push(later.last()));
        lemma_after_push(a + before, later.last());
        lemma_after_push(b + before, later.last());
        lemma_reachable_is_wf(a + before);
        lemma_step_keeps_alike(
            Bridge::after(a + before),
            Bridge::after(b + before),
            id,
            later.last(),
        );
    }
}

/// No task is lost and none is answered twice. Whatever has happened since
/// the bridge was made, each task that was submitted is in exactly one
/// place: it waits in the channel to the handler, or it is being executed,
/// or an event that answers it has been sent to the requester; and no second
/// event answers it.
pub proof fn law_no_task_lost(steps: Seq<Step>, id: nat)
    requires
        id < Bridge::after(steps).submitted.len(),
    ensures
        ({
            let s = Bridge::after(steps);
            &&& s.is_waiting(id) || s.is_running(id) || s.is_reported(id)
            &&& !(s.is_waiting(id) && s.is_running(id))
            &&& !(s.is_waiting(id) && s.is_reported(id))
            &&& !(s.is_running(id) && s.is_reported(id))
            &&& forall|at: int, other: int|
                s.is_reported_at(id, at) && s.is_reported_at(id, other) ==> at == other
        }),
{
    let s = Bridge::after(steps);
    lemma_reachable_is_wf(steps);
    if id < s.taken {
        assert(s.is_running(id) || s.is_reported(id));
    }
    if s.is_reported(id) {
        let at = choose|at: int| s.is_reported_at(id, at);
        assert(s.answers_a_task(s.reported[at]));
    }
    assert forall|at: int, other: int|
        s.is_reported_at(id, at) && s.is_reported_at(id, other) implies at == other by {
        if at < other {
            assert(s.reported[at].origin == s.reported[other].origin);
        } else if other < at {
            assert(s.reported[other].origin == s.reported[at].origin);
        }
    }
}

/// No event is made up. The first event that a bridge sends to the
/// requester is the startup event; every other one answers a task that was
/// submitted, and is an event that an execution of that task ends with.
pub proof fn law_no_event_fabricated(steps: Seq<Step>, at: int)
    requires
        0 <= at < Bridge::after(steps).reported.len(),
    ensures
        ({
            let s = Bridge::after(steps);
            let report = s.reported[at];
            if at == 0 {
                report == startup_report()
            } else {
                &&& report.origin matches Some(id)
                &&& id < s.submitted.len()
                &&& is_event_of(s.submitted[id as int], report.event)
            }
        }),
{
    let s = Bridge::after(steps);
    lemma_reachable_is_wf(steps);
    if at > 0 {
        assert(s.answers_a_task(s.reported[at]));
    }
}

/// While anything is left to do, something can be done about it: the
/// returned step is not a submission, can be taken, and takes one off the
/// backlog.
pub proof fn law_work_goes_on(steps: Seq<Step>) -> (step: Step)
    requires
        !Bridge::after(steps).settled(),
    ensures
        !(step is Submit),
        Bridge::after(steps).allows(step),
        Bridge::after(steps.push(step)).backlog() == Bridge::after(steps).backlog() - 1,
{
    let s = Bridge::after(steps);
    lemma_reachable_is_wf(steps);
    let step = if !s.started || s.taken < s.submitted.len() {
        Step::Turn
    } else if s.running.len() > 0 {
        let id = choose|id: nat| s.running.contains(id);
        Step::Finish(id, arbitrary(), arbitrary())
    } else {
        Step::Poll
    };
    lemma_after_push(steps, step);
    match step {
        Step::Turn => {
            if s.started {
                assert(s.waiting_tasks().len() > 0);
            }
        },
        Step::Finish(id, elapsed, outcome) => {
            assert(s.running.len() > 0);
            assert(s.running.contains(id)) by {
                if forall|id: nat| !s.running.contains(id) {
                    assert(s.running =~= Set::empty());
                }
            }
            lemma_task_events_are_forwarded(s.submitted[id as int], elapsed, outcome);
        },
        _ => {
            assert(s.waiting_events().len() > 0);
        },
    }
    step
}

/// Nothing but a submission adds to the backlog, the backlog is never
/// negative, and it is zero exactly when the bridge is settled. So once the
/// UI stops submitting, the bridge is settled after as many steps that do
/// something as the backlog counts.
pub proof fn law_backlog_is_bounded(steps: Seq<Step>, step: Step)
    requires
        !(step is Submit),
    ensures
        Bridge::after(steps.push(step)).backlog() <= Bridge::after(steps).backlog(),
        Bridge::after(steps).backlog() >= 0,
        Bridge::after(steps).backlog() == 0 <==> Bridge::after(steps).settled(),
{
    let s = Bridge::after(steps);
    lemma_reachable_is_wf(steps);
    lemma_after_push(steps, step);
    match step {
        Step::Finish(id, elapsed, outcome) => {
            if s.is_running(id) {
                lemma_task_events_are_forwarded(s.submitted[id as int], elapsed, outcome);
            }
        },
        _ => {},
    }
}

/// A bridge can always settle. From wherever `steps` has led, the returned
/// steps, none of them a submission, and as many as the backlog counts, lead
/// to a settled bridge.
pub proof fn law_bridge_settles(steps: Seq<Step>) -> (rest: Seq<Step>)
    ensures
        forall|i: int| 0 <= i < rest.len() ==> !((#[trigger] rest[i]) is Submit),
        rest.len() == Bridge::after(steps).backlog(),
        Bridge::after(steps + rest).settled(),
    decreases Bridge::after(steps).backlog(),
{
    law_backlog_is_bounded(steps, Step::Poll);
    if Bridge::after(steps).settled() {
        assert(steps + Seq::<Step>::empty() == steps);
        Seq::empty()
    } else {
        let step = law_work_goes_on(steps);
        let tail = law_bridge_settles(steps.push(step));
        let rest = seq![step] + tail;
        assert(steps + rest == steps.push(step) + tail);
        rest
    }
}

/// Every task is answered exactly once. In a settled bridge the requester
/// has polled the startup event and one event for each task that was
/// submitted, no more and no fewer, and for each task an event that answers
/// it is among them.
pub proof fn law_every_task_is_answered(steps: Seq<Step>, id: nat)
    requires
        Bridge::after(steps).settled(),
        id < Bridge::after(steps).submitted.len(),
    ensures
        ({
            let s = Bridge::after(steps);
            &&& s.observed().len() == s.submitted.len() + 1
            &&& exists|at: int|
                0 < at < s.observed().len() && s.is_reported_at(id, at) && s.observed()[at]
                    == s.reported[at].event
        }),
{
    let s = Bridge::after(steps);
    lemma_reachable_is_wf(steps);
    assert(s.is_running(id) || s.is_reported(id));
    assert(!s.is_running(id)) by {
        if s.running.contains(id) {
            assert(s.running.len() > 0) by {
                assert(s.running.remove(id).len() + 1 == s.running.len());
            }
        }
    }
    let at = choose|at: int| s.is_reported_at(id, at);
    assert(0 < at < s.observed().len() && s.is_reported_at(id, at) && s.observed()[at]
        == s.reported[at].event);
}

/// A poll of an empty channel returns nothing and changes nothing.
pub proof fn law_poll_of_empty_channel(steps: Seq<Step>)
    requires
        Bridge::after(steps).seen == Bridge::after(steps).reported.len(),
    ensures
        Bridge::after(steps).poll() is None,
        Bridge::after(steps.push(Step::Poll)) == Bridge::after(steps),
{
    lemma_after_push(steps, Step::Poll);
}

/// Polls return the events in the order in which they were sent: each poll
/// returns the oldest event that has not been polled yet, and adds it to
/// what the UI has observed.
pub proof fn law_polls_follow_reports(steps: Seq<Step>)
    requires
        Bridge::after(steps).seen < Bridge::after(steps).reported.len(),
    ensures
        ({
            let s = Bridge::after(steps);
            let t = Bridge::after(steps.push(Step::Poll));
            &&& s.poll() == Some(s.reported[s.seen as int].event)
            &&& t.observed() == s.observed().push(s.reported[s.seen as int].event)
            &&& t.reported == s.reported
        }),
{
    let s = Bridge::after(steps);
    let t = Bridge::after(steps.push(Step::Poll));
    lemma_after_push(steps, Step::Poll);
    assert(s.waiting_events().len() > 0);
    assert(s.waiting_events()[0] == s.reported[s.seen as int].event);
    assert(t.observed() =~= s.observed().push(s.reported[s.seen as int].event));
}

/// The startup event comes first. Whatever the steps, and so even if tasks
/// were submitted before the handler took its first turn, the first event
/// that a poll returns is the startup event, and every later one is the
/// event of a task. The UI knows the handler to run from its first event on.
pub proof fn law_startup_event_first(steps: Seq<Step>)
    ensures
        ({
            let s = Bridge::after(steps);
            &&& s.observed().len() > 0 ==> s.observed()[0] == startup_event()
            &&& forall|at: int| 0 < at < s.observed().len() ==> (#[trigger] s.observed()[at]) is Pong
            &&& s.initialised <==> s.observed().len() > 0
        }),
{
    let s = Bridge::after(steps);
    lemma_reachable_is_wf(steps);
    assert forall|at: int| 0 < at < s.observed().len() implies (#[trigger] s.observed()[at])
        is Pong by {
        assert(s.answers_a_task(s.reported[at]));
        let id = s.reported[at].origin->0;
        lemma_task_events_are_pongs(s.submitted[id as int], s.reported[at].event);
    }
}

/// Events arrive in the order in which the executions end, not in the order
/// in which the tasks were submitted. Of two tasks that are being executed,
/// either can end first, and the one that does is reported first, and so
/// polled first, wherever the two stood among the tasks submitted.
pub proof fn law_events_in_completion_order(
    steps: Seq<Step>,
    first: nat,
    first_elapsed: Duration,
    first_outcome: Result<String, String>,
    second: nat,
    second_elapsed: Duration,
    second_outcome: Result<String, String>,
)
    requires
        Bridge::after(steps).is_running(first),
        Bridge::after(steps).is_running(second),
        first != second,
    ensures
        ({
            let s = Bridge::after(steps);
            let t = Bridge::after(
                steps.push(Step::Finish(first, first_elapsed, first_outcome)).push(
                    Step::Finish(second, second_elapsed, second_outcome),
                ),
            );
            t.reported == s.reported.push(
                Report {
                    origin: Some(first),
                    event: s.submitted[first as int].event_for(first_elapsed, first_outcome),
                },
            ).push(
                Report {
                    origin: Some(second),
                    event: s.submitted[second as int].event_for(second_elapsed, second_outcome),
                },
            )
        }),
{
    let s = Bridge::after(steps);
    let one = Step::Finish(first, first_elapsed, first_outcome);
    let two = Step::Finish(second, second_elapsed, second_outcome);
    lemma_after_push(steps, one);
    lemma_after_push(steps.push(one), two);
    lemma_task_events_are_forwarded(s.submitted[first as int], first_elapsed, first_outcome);
    lemma_task_events_are_forwarded(s.submitted[second as int], second_elapsed, second_outcome);
}

/// Idling does not starve a task. A handler that runs and finds no task
/// idles; however many turns it idles, nothing changes, and the turn after
/// a task is submitted takes that task and has it executed.
pub proof fn law_idle_handler_still_drains(steps: Seq<Step>, idle: Seq<Step>, task: Task)
    requires
        Bridge::after(steps).started,
        Bridge::after(steps).taken == Bridge::after(steps).submitted.len(),
        forall|i: int| 0 <= i < idle.len() ==> (#[trigger] idle[i]) is Turn,
    ensures
        ({
            let s = Bridge::after(steps);
            let woken = (steps + idle).push(Step::Submit(task));
            &&& s.turn() == Turn::Idle(crate::tasks::IDLE_WAIT_MILLIS)
            &&& Bridge::after(steps + idle) == s
            &&& Bridge::after(woken).turn() == Turn::Dispatch(task)
            &&& Bridge::after(woken.push(Step::Turn)).is_running(s.submitted.len())
        }),
{
    let s = Bridge::after(steps);
    let woken = (steps + idle).push(Step::Submit(task));
    assert(s.waiting_tasks().len() == 0);
    assert forall|i: int| 0 <= i < idle.len() implies s.next(#[trigger] idle[i]) == s by {
        assert(idle[i] is Turn);
    }
    lemma_after_idle_steps(steps, idle);
    lemma_after_push(steps + idle, Step::Submit(task));
    lemma_after_push(woken, Step::Turn);
    let w = Bridge::after(woken);
    assert(w.waiting_tasks().len() == 1);
    assert(w.waiting_tasks()[0] == task);
}

/// A failure stays with its task. An execution that fails sends an event
/// that carries the failure, and changes nothing else: the handler takes
/// the same turn as it would have, and any other execution ends with its own
/// outcome, which is reported as it is.
pub proof fn law_failure_is_isolated(
    steps: Seq<Step>,
    id: nat,
    elapsed: Duration,
    failure: String,
    other: nat,
    other_elapsed: Duration,
    other_outcome: Result<String, String>,
)
    requires
        Bridge::after(steps).is_running(id),
        Bridge::after(steps).is_running(other),
        other != id,
    ensures
        ({
            let s = Bridge::after(steps);
            let failed = steps.push(Step::Finish(id, elapsed, Err(failure)));
            let t = Bridge::after(failed);
            let u = Bridge::after(failed.push(Step::Finish(other, other_elapsed, other_outcome)));
            &&& t.reported == s.reported.push(
                Report { origin: Some(id), event: Event::Pong(elapsed, Err(failure)) },
            )
            &&& t.running == s.running.remove(id)
            &&& t.started == s.started
            &&& t.submitted == s.submitted
            &&& t.taken == s.taken
            &&& t.turn() == s.turn()
            &&& u.reported == t.reported.push(
                Report {
                    origin: Some(other),
                    event: s.submitted[other as int].event_for(other_elapsed, other_outcome),
                },
            )
        }),
{
    let s = Bridge::after(steps);
    let fail = Step::Finish(id, elapsed, Err(failure));
    let failed = steps.push(fail);
    lemma_after_push(steps, fail);
    lemma_after_push(failed, Step::Finish(other, other_elapsed, other_outcome));
    lemma_task_events_are_forwarded(s.submitted[id as int], elapsed, Err(failure));
    lemma_task_events_are_forwarded(s.submitted[other as int], other_elapsed, other_outcome);
}

/// What an execution ends with stays with its task. Had the execution of
/// the task at `id` ended otherwise, with a reply in place of a failure or
/// after another time, then after any steps that follow the bridge would be
/// as it is in all but what the event for that task carries: the handler
/// takes the same turns, every other task is answered by the same event, the
/// events arrive in the same order, and the UI knows the same.
pub proof fn law_outcome_stays_with_its_task(
    steps: Seq<Step>,
    id: nat,
    elapsed: Duration,
    outcome: Result<String, String>,
    other_elapsed: Duration,
    other_outcome: Result<String, String>,
    later: Seq<Step>,
)
    requires
        Bridge::after(steps).is_running(id),
    ensures
        alike_but_for(
            Bridge::after(steps.push(Step::Finish(id, elapsed, outcome)) + later),
            Bridge::after(steps.push(Step::Finish(id, other_elapsed, other_outcome)) + later),
            id,
        ),
{
    let s = Bridge::after(steps);
    let one = steps.push(Step::Finish(id, elapsed, outcome));
    let other = steps.push(Step::Finish(id, other_elapsed, other_outcome));
    lemma_after_push(steps, Step::Finish(id, elapsed, outcome));
    lemma_after_push(steps, Step::Finish(id, other_elapsed, other_outcome));
    lemma_task_events_are_forwarded(s.submitted[id as int], elapsed, outcome);
    lemma_task_events_are_forwarded(s.submitted[id as int], other_elapsed, other_outcome);
    lemma_steps_keep_alike(one, other, id, later);
}

/// The handler takes the tasks in the order in which they were submitted:
/// the task that a turn dispatches is the oldest one that is still waiting.
pub proof fn law_tasks_taken_in_submission_order(steps: Seq<Step>)
    ensures
        ({
            let s = Bridge::after(steps);
            s.turn() matches Turn::Dispatch(task) ==> {
                &&& s.is_waiting(s.taken)
                &&& task == s.submitted[s.taken as int]
                &&& Bridge::after(steps.push(Step::Turn)).is_running(s.taken)
                &&& Bridge::after(steps.push(Step::Turn)).taken == s.taken + 1
            }
        }),
{
    let s = Bridge::after(steps);
    lemma_reachable_is_wf(steps);
    lemma_after_push(steps, Step::Turn);
    if s.turn() is Dispatch {
        assert(s.waiting_tasks().len() > 0);
        assert(s.waiting_tasks()[0] == s.submitted[s.taken as int]);
    }
}

} // verus!
