use std::sync::mpsc::{channel, TryRecvError};
use std::time::{Duration, Instant};

use task_bridge::app::{reply_of, Event, Request, Task, FIRST_ERROR_STATUS, PING_URL};
use task_bridge::tasks::{
    action_for, announced, announcement, create_manager, forward, received, sent, ChannelError,
    HandlerAction, Reporter, TaskHandler, TaskRequester, IDLE_WAIT_MILLIS,
};

/// A bridge whose handler has announced itself and whose requester has taken
/// the announcement in.
fn running_bridge() -> (TaskRequester, TaskHandler) {
    let (requester, mut handler) = create_manager();
    assert!(matches!(handler.run(), Ok(HandlerAction::Repaint)));
    assert_eq!(requester.next(), Some(Event::TaskHandlerInitialised));
    (requester, handler)
}

/// Takes a turn that must spawn, and hands out what it spawned.
fn spawned(handler: &mut TaskHandler) -> (Task, Reporter) {
    match handler.run() {
        Ok(HandlerAction::Spawn(task, reporter)) => (task, reporter),
        Ok(HandlerAction::Repaint) => panic!("the handler announced itself again"),
        Ok(HandlerAction::Sleep(_)) => panic!("the handler found no task"),
        Err(error) => panic!("the handler failed: {:?}", error),
    }
}

fn reply(millis: u64, text: &str) -> (Duration, Result<String, String>) {
    (Duration::from_millis(millis), Ok(text.to_string()))
}

#[test]
fn fresh_handler_has_not_started() {
    let (_requester, handler) = create_manager();
    assert!(!handler.is_started());
}

#[test]
fn first_turn_announces_the_handler() {
    let (requester, mut handler) = create_manager();
    assert_eq!(requester.next(), None);
    assert!(matches!(handler.run(), Ok(HandlerAction::Repaint)));
    assert!(handler.is_started());
    assert_eq!(requester.next(), Some(Event::TaskHandlerInitialised));
    assert_eq!(requester.next(), None);
}

#[test]
fn handler_announces_itself_once() {
    let (requester, mut handler) = create_manager();
    assert!(matches!(handler.run(), Ok(HandlerAction::Repaint)));
    for _ in 0..5 {
        assert!(matches!(handler.run(), Ok(HandlerAction::Sleep(_))));
    }
    assert_eq!(requester.next(), Some(Event::TaskHandlerInitialised));
    assert_eq!(requester.next(), None);
}

#[test]
fn idle_handler_sleeps_twenty_milliseconds() {
    let (_requester, mut handler) = running_bridge();
    assert_eq!(IDLE_WAIT_MILLIS, 20);
    assert!(matches!(handler.run(), Ok(HandlerAction::Sleep(20))));
}

#[test]
fn poll_of_an_empty_channel_returns_at_once() {
    let (requester, _handler) = running_bridge();
    let before = Instant::now();
    for _ in 0..1000 {
        assert_eq!(requester.next(), None);
    }
    assert!(before.elapsed() < Duration::from_secs(5));
}

#[test]
fn poll_returns_one_event_per_call() {
    let (requester, mut handler) = running_bridge();
    requester.run(Task::Ping).unwrap();
    requester.run(Task::Ping).unwrap();
    let (first, first_reporter) = spawned(&mut handler);
    let (second, second_reporter) = spawned(&mut handler);
    let (elapsed, outcome) = reply(1, "a");
    assert_eq!(first_reporter.report(first.finish(elapsed, outcome)), Ok(true));
    let (elapsed, outcome) = reply(2, "b");
    assert_eq!(second_reporter.report(second.finish(elapsed, outcome)), Ok(true));
    assert_eq!(
        requester.next(),
        Some(Event::Pong(Duration::from_millis(1), Ok("a".to_string())))
    );
    assert_eq!(
        requester.next(),
        Some(Event::Pong(Duration::from_millis(2), Ok("b".to_string())))
    );
    assert_eq!(requester.next(), None);
}

#[test]
fn every_task_is_answered_once() {
    let (requester, mut handler) = running_bridge();
    let count: u64 = 7;
    for _ in 0..count {
        assert_eq!(requester.run(Task::Ping), Ok(()));
    }
    let mut units = Vec::new();
    for _ in 0..count {
        units.push(spawned(&mut handler));
    }
    assert!(matches!(handler.run(), Ok(HandlerAction::Sleep(_))));
    for (number, (task, reporter)) in units.into_iter().enumerate() {
        let (elapsed, outcome) = reply(number as u64, "pong");
        assert_eq!(reporter.report(task.finish(elapsed, outcome)), Ok(true));
    }
    let mut seen = Vec::new();
    while let Some(event) = requester.next() {
        seen.push(event);
    }
    assert_eq!(seen.len() as u64, count);
    for number in 0..count {
        let expected = Event::Pong(Duration::from_millis(number), Ok("pong".to_string()));
        assert_eq!(seen.iter().filter(|event| **event == expected).count(), 1);
    }
    assert_eq!(requester.next(), None);
}

#[test]
fn startup_event_comes_before_the_event_of_an_early_task() {
    let (requester, mut handler) = create_manager();
    requester.run(Task::Ping).unwrap();
    assert!(matches!(handler.run(), Ok(HandlerAction::Repaint)));
    let (task, reporter) = spawned(&mut handler);
    let (elapsed, outcome) = reply(3, "pong");
    assert_eq!(reporter.report(task.finish(elapsed, outcome)), Ok(true));
    assert_eq!(requester.next(), Some(Event::TaskHandlerInitialised));
    assert_eq!(
        requester.next(),
        Some(Event::Pong(Duration::from_millis(3), Ok("pong".to_string())))
    );
    assert_eq!(requester.next(), None);
}

#[test]
fn events_arrive_in_completion_order() {
    let (requester, mut handler) = running_bridge();
    requester.run(Task::Ping).unwrap();
    requester.run(Task::Ping).unwrap();
    let (slow, slow_reporter) = spawned(&mut handler);
    let (fast, fast_reporter) = spawned(&mut handler);

    let (elapsed, outcome) = reply(10, "fast");
    assert_eq!(fast_reporter.report(fast.finish(elapsed, outcome)), Ok(true));
    assert_eq!(
        requester.next(),
        Some(Event::Pong(Duration::from_millis(10), Ok("fast".to_string())))
    );
    assert_eq!(requester.next(), None);

    let (elapsed, outcome) = reply(100, "slow");
    assert_eq!(slow_reporter.report(slow.finish(elapsed, outcome)), Ok(true));
    assert_eq!(
        requester.next(),
        Some(Event::Pong(Duration::from_millis(100), Ok("slow".to_string())))
    );
    assert_eq!(requester.next(), None);
}

#[test]
fn handler_takes_tasks_while_others_are_executed() {
    let (requester, mut handler) = running_bridge();
    requester.run(Task::Ping).unwrap();
    let (_pending, _pending_reporter) = spawned(&mut handler);
    assert!(matches!(handler.run(), Ok(HandlerAction::Sleep(_))));
    requester.run(Task::Ping).unwrap();
    let (task, reporter) = spawned(&mut handler);
    let (elapsed, outcome) = reply(1, "second");
    assert_eq!(reporter.report(task.finish(elapsed, outcome)), Ok(true));
    assert_eq!(
        requester.next(),
        Some(Event::Pong(Duration::from_millis(1), Ok("second".to_string())))
    );
}

#[test]
fn task_submitted_after_idling_is_executed() {
    let (requester, mut handler) = running_bridge();
    for _ in 0..50 {
        assert!(matches!(handler.run(), Ok(HandlerAction::Sleep(20))));
    }
    let idle_since = Instant::now();
    while idle_since.elapsed() < Duration::from_millis(2 * IDLE_WAIT_MILLIS + 5) {
        assert!(matches!(handler.run(), Ok(HandlerAction::Sleep(20))));
    }
    requester.run(Task::Ping).unwrap();
    let (task, reporter) = spawned(&mut handler);
    assert_eq!(task, Task::Ping);
    let (elapsed, outcome) = reply(4, "late");
    assert_eq!(reporter.report(task.finish(elapsed, outcome)), Ok(true));
    assert_eq!(
        requester.next(),
        Some(Event::Pong(Duration::from_millis(4), Ok("late".to_string())))
    );
}

#[test]
fn failed_task_reports_its_failure_and_nothing_else_changes() {
    let (requester, mut handler) = running_bridge();
    requester.run(Task::Ping).unwrap();
    let (task, reporter) = spawned(&mut handler);
    let failure = task.finish(Duration::from_millis(5), Err("connection refused".to_string()));
    assert_eq!(
        failure,
        Event::Pong(Duration::from_millis(5), Err("connection refused".to_string()))
    );
    assert_eq!(reporter.report(failure), Ok(true));

    requester.run(Task::Ping).unwrap();
    let (task, reporter) = spawned(&mut handler);
    let (elapsed, outcome) = reply(6, "pong");
    assert_eq!(reporter.report(task.finish(elapsed, outcome)), Ok(true));

    assert_eq!(
        requester.next(),
        Some(Event::Pong(Duration::from_millis(5), Err("connection refused".to_string())))
    );
    assert_eq!(
        requester.next(),
        Some(Event::Pong(Duration::from_millis(6), Ok("pong".to_string())))
    );
    assert_eq!(requester.next(), None);
    assert!(matches!(handler.run(), Ok(HandlerAction::Sleep(20))));
}

#[test]
fn no_op_is_not_sent_on() {
    let (requester, mut handler) = running_bridge();
    requester.run(Task::Ping).unwrap();
    let (_task, reporter) = spawned(&mut handler);
    assert_eq!(reporter.report(Event::NoOp), Ok(false));
    assert_eq!(requester.next(), None);
}

#[test]
fn forward_drops_only_the_no_op() {
    assert_eq!(forward(Event::NoOp), None);
    assert_eq!(forward(Event::TaskHandlerInitialised), Some(Event::TaskHandlerInitialised));
    assert_eq!(
        forward(Event::Pong(Duration::from_millis(9), Ok(String::new()))),
        Some(Event::Pong(Duration::from_millis(9), Ok(String::new())))
    );
    assert_eq!(
        forward(Event::Pong(Duration::ZERO, Err("timeout".to_string()))),
        Some(Event::Pong(Duration::ZERO, Err("timeout".to_string())))
    );
}

#[test]
fn send_to_a_dropped_handler_is_closed() {
    let (requester, handler) = create_manager();
    drop(handler);
    assert_eq!(requester.run(Task::Ping), Err(ChannelError::Closed));
}

#[test]
fn poll_after_the_handler_is_gone_returns_what_was_sent_then_nothing() {
    let (requester, mut handler) = create_manager();
    assert!(matches!(handler.run(), Ok(HandlerAction::Repaint)));
    drop(handler);
    assert_eq!(requester.next(), Some(Event::TaskHandlerInitialised));
    assert_eq!(requester.next(), None);
    assert_eq!(requester.next(), None);
}

#[test]
fn handler_without_requester_cannot_start() {
    let (requester, mut handler) = create_manager();
    drop(requester);
    assert!(matches!(handler.run(), Err(ChannelError::Closed)));
    assert!(!handler.is_started());
    assert!(matches!(handler.run(), Err(ChannelError::Closed)));
}

#[test]
fn handler_idles_when_the_requester_is_gone() {
    let (requester, mut handler) = running_bridge();
    drop(requester);
    assert!(matches!(handler.run(), Ok(HandlerAction::Sleep(20))));
    assert!(matches!(handler.run(), Ok(HandlerAction::Sleep(20))));
}

#[test]
fn report_to_a_dropped_requester_is_closed() {
    let (requester, mut handler) = running_bridge();
    requester.run(Task::Ping).unwrap();
    let (task, reporter) = spawned(&mut handler);
    drop(requester);
    let (elapsed, outcome) = reply(1, "pong");
    assert_eq!(reporter.report(task.finish(elapsed, outcome)), Err(ChannelError::Closed));
    assert_eq!(reporter.report(Event::NoOp), Ok(false));
}

#[test]
fn tasks_are_taken_in_submission_order() {
    let (requester, mut handler) = running_bridge();
    for _ in 0..3 {
        requester.run(Task::Ping).unwrap();
    }
    for _ in 0..3 {
        let (task, _reporter) = spawned(&mut handler);
        assert_eq!(task, Task::Ping);
    }
    assert!(matches!(handler.run(), Ok(HandlerAction::Sleep(_))));
}

#[test]
fn sent_maps_the_channel_error() {
    let (sender, receiver) = channel::<u8>();
    assert_eq!(sent(sender.send(1)), Ok(()));
    drop(receiver);
    assert_eq!(sent(sender.send(2)), Err(ChannelError::Closed));
}

#[test]
fn received_keeps_the_value_and_drops_the_error() {
    assert_eq!(received::<u8>(Ok(7)), Some(7));
    assert_eq!(received::<u8>(Err(TryRecvError::Empty)), None);
    assert_eq!(received::<u8>(Err(TryRecvError::Disconnected)), None);
    assert_eq!(received(Ok(Event::NoOp)), Some(Event::NoOp));
}

#[test]
fn action_for_spawns_a_waiting_task_and_sleeps_otherwise() {
    let (requester, mut handler) = running_bridge();
    requester.run(Task::Ping).unwrap();
    let (task, reporter) = spawned(&mut handler);
    match action_for(Some(task), reporter) {
        HandlerAction::Spawn(task, reporter) => {
            assert_eq!(task, Task::Ping);
            assert!(matches!(action_for(None, reporter), HandlerAction::Sleep(20)));
        }
        _ => panic!("a waiting task was not spawned"),
    }
}

#[test]
fn announcement_is_the_startup_event() {
    assert_eq!(announcement(), Event::TaskHandlerInitialised);
    assert_eq!(forward(announcement()), Some(Event::TaskHandlerInitialised));
}

#[test]
fn sent_announcement_asks_for_a_repaint() {
    assert!(matches!(announced(Ok(())), Ok(HandlerAction::Repaint)));
}

#[test]
fn unsent_announcement_is_the_failure() {
    assert!(matches!(announced(Err(ChannelError::Closed)), Err(ChannelError::Closed)));
}

#[test]
fn tasks_that_waited_are_taken_after_the_announcement() {
    let (requester, mut handler) = create_manager();
    requester.run(Task::Ping).unwrap();
    assert!(matches!(handler.run(), Ok(HandlerAction::Repaint)));
    assert!(handler.is_started());
    assert!(matches!(handler.run(), Ok(HandlerAction::Spawn(Task::Ping, _))));
    assert!(matches!(handler.run(), Ok(HandlerAction::Sleep(20))));
    assert_eq!(requester.next(), Some(Event::TaskHandlerInitialised));
    assert_eq!(requester.next(), None);
}

#[test]
fn answer_below_the_first_error_status_is_a_reply() {
    assert_eq!(FIRST_ERROR_STATUS, 400);
    assert_eq!(reply_of(200, "Get ponged :sunglasses:".to_string()), Ok("Get ponged :sunglasses:".to_string()));
    assert_eq!(reply_of(204, String::new()), Ok(String::new()));
    assert_eq!(reply_of(399, "edge".to_string()), Ok("edge".to_string()));
}

#[test]
fn answer_with_an_error_status_is_a_failure() {
    assert_eq!(reply_of(400, "edge".to_string()), Err("edge".to_string()));
    assert_eq!(reply_of(404, "Not Found".to_string()), Err("Not Found".to_string()));
    assert_eq!(reply_of(500, String::new()), Err(String::new()));
    assert_eq!(reply_of(u16::MAX, "far".to_string()), Err("far".to_string()));
}

#[test]
fn error_status_ends_in_an_event_that_carries_the_failure() {
    let outcome = reply_of(503, "Service Unavailable".to_string());
    assert_eq!(
        Task::Ping.finish(Duration::from_millis(8), outcome),
        Event::Pong(Duration::from_millis(8), Err("Service Unavailable".to_string()))
    );
}

#[test]
fn ping_asks_for_the_ping_endpoint() {
    let mut task = Task::Ping;
    assert_eq!(PING_URL, "http://127.0.0.1:8080/api/ping");
    assert_eq!(task.run(), Request::Get("http://127.0.0.1:8080/api/ping"));
    assert_eq!(task, Task::Ping);
}

#[test]
fn ping_ends_with_a_pong_of_its_outcome() {
    assert_eq!(
        Task::Ping.finish(Duration::from_micros(1500), Ok("Get ponged :sunglasses:".to_string())),
        Event::Pong(Duration::from_micros(1500), Ok("Get ponged :sunglasses:".to_string()))
    );
    assert_eq!(
        Task::Ping.finish(Duration::ZERO, Err("dns error".to_string())),
        Event::Pong(Duration::ZERO, Err("dns error".to_string()))
    );
}

