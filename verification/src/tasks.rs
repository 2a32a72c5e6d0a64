//! The two ends of the bridge between the render loop and background work.
//!
//! A [`TaskRequester`] lives on the render thread: it hands out [`Task`]s and
//! polls for [`Event`]s, and never waits. A [`TaskHandler`] lives with the
//! background executor: it takes tasks, has each one executed on its own, and
//! sends the events back. The two are joined by a pair of channels, one for
//! each direction.
//!
//! The handler neither spawns nor sleeps itself. Each call of
//! [`TaskHandler::run`] takes it to the next thing that only its host can do,
//! and says what that is.

use crate::app::{Event, Task};
use std::sync::mpsc::{Receiver, SendError, Sender, TryRecvError};
use vstd::prelude::*;

verus! {

/// How long an idle handler waits before it looks for a task again, in
/// milliseconds.
pub const IDLE_WAIT_MILLIS: u64 = 20;

/// `std::sync::mpsc::Sender`: the sending end of a channel. Nothing of its
/// inside is known here.
#[verifier::external_type_specification]
#[verifier::external_body]
#[verifier::reject_recursive_types(T)]
pub struct ExSender<T>(Sender<T>);

/// `std::sync::mpsc::Receiver`: the receiving end of a channel. Nothing of
/// its inside is known here.
#[verifier::external_type_specification]
#[verifier::external_body]
#[verifier::reject_recursive_types(T)]
pub struct ExReceiver<T>(Receiver<T>);

/// `std::sync::mpsc::SendError`: what a send into a closed channel returns.
/// Nothing of its inside is known here.
#[verifier::external_type_specification]
#[verifier::external_body]
#[verifier::reject_recursive_types(T)]
pub struct ExSendError<T>(SendError<T>);

/// `std::sync::mpsc::TryRecvError`: why a poll returned no value, because
/// the channel is `Empty` or because it is `Disconnected`.
#[verifier::external_type_specification]
pub struct ExTryRecvError(TryRecvError);

/// `std::sync::mpsc::channel`: a new channel, as its two ends. Nothing is
/// claimed of them: that what is sent into the first comes out of the
/// second, once and in the order it was sent, is the channel's word, and
/// [`crate::bridge`] takes it at that.
pub assume_specification<T>[ std::sync::mpsc::channel::<T> ]() -> (ends: (Sender<T>, Receiver<T>))
;

/// `Sender::send`: puts a value into the channel without waiting. Nothing
/// is claimed of the result: whether the send succeeds depends on whether
/// the receiving end is still alive.
pub assume_specification<T>[ Sender::<T>::send ](sender: &Sender<T>, value: T) -> (sent: Result<
    (),
    SendError<T>,
>)
;

/// `Receiver::try_recv`: takes the oldest value out of the channel if there
/// is one, without waiting. Nothing is claimed of the result: it depends on
/// what the other threads have sent so far.
pub assume_specification<T>[ Receiver::<T>::try_recv ](receiver: &Receiver<T>) -> (got: Result<
    T,
    TryRecvError,
>)
;

/// `Sender::clone`: one more sending end of the same channel. Nothing is
/// claimed of it.
pub assume_specification<T>[ <Sender<T> as Clone>::clone ](sender: &Sender<T>) -> (twin: Sender<T>)
;

/// The other end of a channel is gone.
#[derive(Debug, Clone, Copy, PartialEq, Eq, Structural)]
pub enum ChannelError {
    Closed,
}

/// What became of a send: it fails exactly when the channel reported that
/// nobody is left to receive.
pub fn sent<T>(result: Result<(), SendError<T>>) -> (outcome: Result<(), ChannelError>)
    ensures
        outcome == match result {
            Ok(_) => Ok::<(), ChannelError>(()),
            Err(_) => Err(ChannelError::Closed),
        },
{
    match result {
        Ok(_) => Ok(()),
        Err(_) => Err(ChannelError::Closed),
    }
}

/// What a poll hands on: the value that was waiting, if one was. An empty
/// channel and a closed one both give nothing.
pub open spec fn polled<T>(got: Result<T, TryRecvError>) -> Option<T> {
    match got {
        Ok(value) => Some(value),
        Err(_) => None,
    }
}

/// Turns the result of a poll into the value that was waiting, if any.
pub fn received<T>(got: Result<T, TryRecvError>) -> (value: Option<T>)
    ensures
        value == polled(got),
{
    match got {
        Ok(value) => Some(value),
        Err(_) => None,
    }
}

/// The event to send on for an execution that ended with `event`: the event
/// itself, unless it is the no-op, which is dropped.
pub open spec fn forwarded(event: Event) -> Option<Event> {
    if event is NoOp {
        None
    } else {
        Some(event)
    }
}

/// Decides whether the event of a finished execution is sent on.
pub fn forward(event: Event) -> (kept: Option<Event>)
    ensures
        kept == forwarded(event),
{
    match event {
        Event::NoOp => None,
        event => Some(event),
    }
}

/// One turn of the handler, without the means to carry it out.
pub enum Turn {
    /// The handler has just announced itself; the UI is to repaint.
    Announce,
    /// The task is to be executed on its own, without holding up the handler.
    Dispatch(Task),
    /// Nothing to do: wait this many milliseconds, then take another turn.
    Idle(u64),
}

/// The turn that a handler takes. A handler that has not announced itself
/// does that first and looks at no task. One that has takes the task that
/// was waiting, or idles for the fixed interval.
pub open spec fn turn_for(started: bool, waiting: Option<Task>) -> Turn {
    if !started {
        Turn::Announce
    } else {
        match waiting {
            Some(task) => Turn::Dispatch(task),
            None => Turn::Idle(IDLE_WAIT_MILLIS),
        }
    }
}

/// The event by which a handler announces itself.
pub open spec fn startup_event() -> Event {
    Event::TaskHandlerInitialised
}

/// The event that a handler sends on its first turn, before it looks at any
/// task. It is no no-op, so it is an event that is sent on.
pub fn announcement() -> (event: Event)
    ensures
        event == startup_event(),
        forwarded(event) == Some(event),
{
    Event::TaskHandlerInitialised
}

/// What becomes of the first turn, given what became of sending the
/// announcement: a repaint if it was sent, and the failure if it was not.
pub open spec fn announced_as(sent: Result<(), ChannelError>) -> Result<
    HandlerAction,
    ChannelError,
> {
    match sent {
        Ok(_) => Ok(HandlerAction::Repaint),
        Err(error) => Err(error),
    }
}

/// Decides what follows the sending of the announcement. The handler has
/// started exactly if this is `Ok`.
pub fn announced(sent: Result<(), ChannelError>) -> (outcome: Result<HandlerAction, ChannelError>)
    ensures
        outcome == announced_as(sent),
{
    match sent {
        Ok(_) => Ok(HandlerAction::Repaint),
        Err(error) => Err(error),
    }
}

/// The sending end that one execution reports through.
pub struct Reporter {
    send: Sender<Event>,
}

impl Reporter {
    /// Sends on the event of a finished execution, and says whether the UI
    /// is to repaint. The no-op is not sent and asks for no repaint; every
    /// other event is sent, and asks for one if it got through.
    pub fn report(&self, event: Event) -> (repaint: Result<bool, ChannelError>)
        ensures
            forwarded(event) is None ==> repaint == Ok::<bool, ChannelError>(false),
            forwarded(event) is Some ==> repaint == Ok::<bool, ChannelError>(true) || repaint
                == Err::<bool, ChannelError>(ChannelError::Closed),
    {
        match forward(event) {
            None => Ok(false),
            Some(event) => match sent(self.send.send(event)) {
                Ok(_) => Ok(true),
                Err(error) => Err(error),
            },
        }
    }
}

/// What the host is to do for the handler before it calls
/// [`TaskHandler::run`] again.
pub enum HandlerAction {
    /// Ask the UI to repaint.
    Repaint,
    /// Execute the task as a unit of its own, hand its event to the
    /// reporter, and repaint if the reporter says so. Do not wait for it.
    Spawn(Task, Reporter),
    /// Suspend for this many milliseconds.
    Sleep(u64),
}

impl HandlerAction {
    /// The turn that the action carries out.
    pub open spec fn turn(&self) -> Turn {
        match *self {
            HandlerAction::Repaint => Turn::Announce,
            HandlerAction::Spawn(task, _) => Turn::Dispatch(task),
            HandlerAction::Sleep(millis) => Turn::Idle(millis),
        }
    }
}

/// The action of a handler that has announced itself and found `waiting`
/// in its channel.
pub fn action_for(waiting: Option<Task>, reporter: Reporter) -> (action: HandlerAction)
    ensures
        action.turn() == turn_for(true, waiting),
        action matches HandlerAction::Spawn(_, with) ==> with == reporter,
{
    match waiting {
        Some(task) => HandlerAction::Spawn(task, reporter),
        None => HandlerAction::Sleep(IDLE_WAIT_MILLIS),
    }
}

/// The end of the bridge on the render thread.
pub struct TaskRequester {
    pub send: Sender<Task>,
    pub recv: Receiver<Event>,
}

/// The end of the bridge on the background executor.
pub struct TaskHandler {
    send: Sender<Event>,
    recv: Receiver<Task>,
    started: bool,
}

/// Makes the two ends of a bridge. They are made together and joined to
/// each other; the handler has not announced itself yet.
pub fn create_manager() -> (ends: (TaskRequester, TaskHandler))
    ensures
        !ends.1.started(),
{
    let (req_tx, req_rx) = std::sync::mpsc::channel();
    let (handle_tx, handle_rx) = std::sync::mpsc::channel();

    let requester = TaskRequester { send: req_tx, recv: handle_rx };

    let handler = TaskHandler { send: handle_tx, recv: req_rx, started: false };

    (requester, handler)
}

impl TaskRequester {
    /// Hands a task to the handler, without waiting. Fails only if the
    /// handler is gone.
    pub fn run(&self, task: Task) -> (outcome: Result<(), ChannelError>)
        ensures
            outcome matches Err(error) ==> error == ChannelError::Closed,
    {
        sent(self.send.send(task))
    }

    /// The next event that has arrived, if any, without waiting. Call it
    /// again for the one after.
    pub fn next(&self) -> (event: Option<Event>) {
        received(self.recv.try_recv())
    }
}

impl TaskHandler {
    /// Whether the handler has announced itself to the UI.
    pub closed spec fn started(&self) -> bool {
        self.started
    }

    /// Whether the handler has announced itself to the UI.
    pub fn is_started(&self) -> (started: bool)
        ensures
            started == self.started(),
    {
        self.started
    }

    /// Takes the handler to the next thing that its host has to do for it.
    ///
    /// The first call announces the handler: it sends the [`announcement`]
    /// and does what [`announced`] makes of the send, which is to ask for a
    /// repaint. Every later call looks for a task without
    /// waiting, and asks for the task to be spawned, or for a pause of
    /// [`IDLE_WAIT_MILLIS`] if there is none. Pausing changes nothing in the
    /// handler, so the call after a pause looks for a task as before.
    ///
    /// The only failure is an announcement that cannot be sent because the
    /// requester is gone; the handler then has not started, and the next
    /// call announces it again.
    pub fn run(&mut self) -> (outcome: Result<HandlerAction, ChannelError>)
        ensures
            match outcome {
                Ok(action) => {
                    &&& final(self).started()
                    &&& exists|waiting: Option<Task>|
                        action.turn() == #[trigger] turn_for(old(self).started(), waiting)
                },
                Err(error) => {
                    &&& error == ChannelError::Closed
                    &&& !old(self).started()
                    &&& !final(self).started()
                },
            },
            !old(self).started() ==> exists|sent: Result<(), ChannelError>|
                outcome == #[trigger] announced_as(sent),
            old(self).started() || outcome is Err ==> *final(self) == *old(self),
    {
        if !self.started {
            let sent = sent(self.send.send(announcement()));
            let outcome = announced(sent);
            match &outcome {
                Ok(_) => {
                    self.started = true;
                },
                Err(_) => {},
            }
            assert(HandlerAction::Repaint.turn() == turn_for(old(self).started(), None));
            outcome
        } else {
            let waiting = received(self.recv.try_recv());
            let action = action_for(waiting, Reporter { send: self.send.clone() });
            assert(action.turn() == turn_for(old(self).started(), waiting));
            Ok(action)
        }
    }
}

} // verus!
