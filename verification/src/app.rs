//! The tasks that the UI can ask for, the events that come back, and the
//! part of the UI's state that the events change.

use crate::tasks::{create_manager, ChannelError, TaskHandler, TaskRequester};
use std::time::Duration;
use vstd::prelude::*;

verus! {

/// The endpoint that a ping is sent to.
pub const PING_URL: &'static str = "http://127.0.0.1:8080/api/ping";

/// What the UI shows once the handler has announced itself.
pub const HANDLER_READY: &'static str = "Task handler initialised.";

/// What the UI shows until then.
pub const HANDLER_PENDING: &'static str = "Task handler has not yet responded...";

/// A result or a notice on its way to the UI.
#[derive(Debug, PartialEq, Eq)]
pub enum Event {
    /// Nothing to report. An execution that ends with it is passed over in
    /// silence.
    NoOp,
    /// The handler is running. Sent once, before the event of any task.
    TaskHandlerInitialised,
    /// The outcome of a ping, a reply or a failure, and the time it took.
    Pong(Duration, Result<String, String>),
}

/// A piece of background work that the UI can ask for.
#[derive(Debug, PartialEq, Eq)]
pub enum Task {
    /// Ask the server whether it is there.
    Ping,
}

/// The work that executing a task takes from its host.
#[derive(Debug, PartialEq, Eq)]
pub enum Request {
    /// Fetch the text at this address with a plain GET, and time it from
    /// just before the request to just after the body has been read. An
    /// answer that arrives becomes an outcome by [`reply_of`]; a request
    /// that gets no answer is a failure.
    Get(&'static str),
}

/// The lowest status that marks an answer as an error.
pub const FIRST_ERROR_STATUS: u16 = 400;

/// The outcome of a request that was answered with `status` and `body`: the
/// body as a reply, unless the status marks an error, in which case the body
/// is what the failure carries.
pub open spec fn reply_for(status: u16, body: String) -> Result<String, String> {
    if status < FIRST_ERROR_STATUS {
        Ok(body)
    } else {
        Err(body)
    }
}

/// Turns the answer to a request into its outcome. An error status is a
/// failure, not a reply.
pub fn reply_of(status: u16, body: String) -> (outcome: Result<String, String>)
    ensures
        outcome == reply_for(status, body),
{
    if status < FIRST_ERROR_STATUS {
        Ok(body)
    } else {
        Err(body)
    }
}

impl Task {
    /// What executing the task asks of the host.
    pub open spec fn request(&self) -> Request {
        match *self {
            Task::Ping => Request::Get(PING_URL),
        }
    }

    /// The event that the task ends with, given what its request came to.
    /// A failure becomes the event's payload like a reply does.
    pub open spec fn event_for(&self, elapsed: Duration, outcome: Result<String, String>) -> Event {
        match *self {
            Task::Ping => Event::Pong(elapsed, outcome),
        }
    }

    /// Starts executing the task: says what the host is to fetch. The host
    /// comes back with [`Task::finish`].
    pub fn run(&mut self) -> (request: Request)
        ensures
            request == old(self).request(),
            *final(self) == *old(self),
    {
        match self {
            Task::Ping => Request::Get(PING_URL),
        }
    }

    /// Ends the execution: packs what the request came to, and the time it
    /// took, into the task's event.
    pub fn finish(self, elapsed: Duration, outcome: Result<String, String>) -> (event: Event)
        ensures
            event == self.event_for(elapsed, outcome),
    {
        match self {
            Task::Ping => Event::Pong(elapsed, outcome),
        }
    }
}

/// Whether the handler is known to run after `event` has been taken in,
/// given whether it was known before.
pub open spec fn initialised_after(initialised: bool, event: Event) -> bool {
    initialised || event is TaskHandlerInitialised
}

/// Whether the handler is known to run after `events` have been taken in,
/// first to last.
pub open spec fn initialised_after_all(initialised: bool, events: Seq<Event>) -> bool
    decreases events.len(),
{
    if events.len() == 0 {
        initialised
    } else {
        initialised_after(initialised_after_all(initialised, events.drop_last()), events.last())
    }
}

/// The handler is known to run after some events exactly if it was known
/// before or the startup event is among them. So it stays known, and no
/// other event makes it known.
pub proof fn law_startup_event_marks_the_handler(initialised: bool, events: Seq<Event>)
    ensures
        initialised_after_all(initialised, events) <==> initialised || exists|i: int|
            0 <= i < events.len() && (#[trigger] events[i]) is TaskHandlerInitialised,
    decreases events.len(),
{
    if events.len() > 0 {
        let before = events.drop_last();
        law_startup_event_marks_the_handler(initialised, before);
        if initialised_after_all(initialised, before) && !initialised {
            let i = choose|i: int|
                0 <= i < before.len() && (#[trigger] before[i]) is TaskHandlerInitialised;
            assert(events[i] is TaskHandlerInitialised);
        }
        if events.last() is TaskHandlerInitialised {
            assert(events[events.len() - 1] is TaskHandlerInitialised);
        }
        if exists|i: int| 0 <= i < events.len() && (#[trigger] events[i]) is TaskHandlerInitialised {
            let i = choose|i: int|
                0 <= i < events.len() && (#[trigger] events[i]) is TaskHandlerInitialised;
            if i < before.len() {
                assert(before[i] is TaskHandlerInitialised);
            }
        }
    }
}

/// The state of the UI that lives across frames: whether the handler has
/// announced itself, and the requester to reach it by. A session has one
/// requester, given once.
pub struct App {
    handler_initialised: bool,
    tasks: Option<TaskRequester>,
}

impl Default for App {
    fn default() -> (app: App)
        ensures
            !app.handler_initialised(),
            app.requester() is None,
    {
        Self { tasks: None, handler_initialised: false }
    }
}

impl App {
    /// Whether the handler has announced itself.
    pub closed spec fn handler_initialised(&self) -> bool {
        self.handler_initialised
    }

    /// The requester of this session, once it has been given.
    pub closed spec fn requester(&self) -> Option<TaskRequester> {
        self.tasks
    }

    /// The state of a session that starts. Nothing of an earlier session is
    /// carried over: the handler is unheard of and there is no requester.
    pub fn new() -> (app: App)
        ensures
            !app.handler_initialised(),
            app.requester() is None,
    {
        Self { tasks: None, handler_initialised: false }
    }

    /// Whether the handler has announced itself.
    pub fn is_handler_initialised(&self) -> (initialised: bool)
        ensures
            initialised == self.handler_initialised(),
    {
        self.handler_initialised
    }

    /// Whether the session has its requester.
    pub fn has_task_requester(&self) -> (has: bool)
        ensures
            has == (self.requester() is Some),
    {
        self.tasks.is_some()
    }

    /// Makes the session's bridge: keeps the requester and hands out the
    /// handler, which has not announced itself yet. A session that has a
    /// requester must not ask for another.
    pub fn get_task_handler(&mut self) -> (handler: TaskHandler)
        requires
            old(self).requester() is None,
        ensures
            final(self).requester() is Some,
            final(self).handler_initialised() == old(self).handler_initialised(),
            !handler.started(),
    {
        let (req, handler) = create_manager();
        self.tasks = Some(req);
        handler
    }

    /// Gives the session the requester of a bridge made elsewhere. A session
    /// that has a requester must not be given another.
    pub fn with_task_requester(&mut self, req: TaskRequester)
        requires
            old(self).requester() is None,
        ensures
            final(self).requester() == Some(req),
            final(self).handler_initialised() == old(self).handler_initialised(),
    {
        self.tasks = Some(req);
    }

    /// Takes in one event. The startup event marks the handler as running;
    /// no other event changes what the UI shows.
    pub fn handle_event(&mut self, event: Event)
        ensures
            final(self).handler_initialised() == initialised_after(
                old(self).handler_initialised(),
                event,
            ),
            final(self).requester() == old(self).requester(),
    {
        match event {
            Event::NoOp => {},
            Event::TaskHandlerInitialised => {
                self.handler_initialised = true;
            },
            Event::Pong(_, _) => {},
        }
    }

    /// Takes in the events that have arrived, oldest first, until none is
    /// waiting, and returns how many there were. It never waits for one.
    /// (It also stops after `usize::MAX` events, so that it is seen to end.)
    ///
    /// Which events there are is for the channel to say. Whatever they are,
    /// the state afterwards is the state before with each of them taken in,
    /// one after the other, as [`App::handle_event`] does.
    pub fn handle_events(&mut self) -> (taken: usize)
        requires
            old(self).requester() is Some,
        ensures
            final(self).requester() == old(self).requester(),
            exists|events: Seq<Event>|
                events.len() == taken && final(self).handler_initialised()
                    == #[trigger] initialised_after_all(old(self).handler_initialised(), events),
    {
        let mut taken: usize = 0;
        let ghost mut events: Seq<Event> = Seq::empty();
        while taken < usize::MAX
            invariant
                self.requester() == old(self).requester(),
                self.requester() is Some,
                events.len() == taken,
                self.handler_initialised() == initialised_after_all(
                    old(self).handler_initialised(),
                    events,
                ),
            decreases usize::MAX - taken,
        {
            match self.tasks.as_ref().unwrap().next() {
                Some(event) => {
                    proof {
                        assert(events.push(event).drop_last() == events);
                        events = events.push(event);
                    }
                    self.handle_event(event);
                    taken = taken + 1;
                },
                None => {
                    return taken;
                },
            }
        }
        taken
    }

    /// Hands a task to the handler. Fails only if the handler is gone.
    pub fn send_task(&mut self, task: Task) -> (outcome: Result<(), ChannelError>)
        requires
            old(self).requester() is Some,
        ensures
            *final(self) == *old(self),
            outcome matches Err(error) ==> error == ChannelError::Closed,
    {
        self.tasks.as_ref().unwrap().run(task)
    }

    /// The line that tells the user whether the handler has been heard of.
    pub fn status_label(&self) -> (label: &'static str)
        ensures
            label@ == if self.handler_initialised() {
                HANDLER_READY@
            } else {
                HANDLER_PENDING@
            },
    {
        if self.handler_initialised {
            HANDLER_READY
        } else {
            HANDLER_PENDING
        }
    }
}

} // verus!
