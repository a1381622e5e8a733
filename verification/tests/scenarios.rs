use std::cell::Cell;
use std::rc::Rc;

use tracing_actix::SpanHandle;
use tracing_actix::instrument::ActorInstrument;
use tracing_actix::pollable::{
    ActorPollable, CountdownPollable, ObserverPollable, PollOutcome, ReadyPollable, TaskHandle,
};
use tracing_actix::trace::{TraceEvent, TraceState};

/// A resource whose destructor reports that it ran.
struct DropProbe {
    dropped: Rc<Cell<bool>>,
}

impl Drop for DropProbe {
    fn drop(&mut self) {
        self.dropped.set(true);
    }
}

#[test]
fn ready_wrapper_yields_output_and_brackets_span() {
    let mut trace = TraceState::new();
    let mut task = TaskHandle::new();
    let mut actor: u8 = 0;
    let mut ctx: u8 = 0;

    let mut w = ReadyPollable::new(42u64).actor_instrument(SpanHandle::from_id(7));
    let r = w.poll(&mut actor, &mut ctx, &mut task, &mut trace);

    assert_eq!(r, PollOutcome::Ready(42));
    assert_eq!(trace.log, vec![TraceEvent::Enter(7), TraceEvent::Exit(7)]);
    assert_eq!(trace.depth(), 0);
}

#[test]
fn two_step_wrapper_brackets_each_poll() {
    let mut trace = TraceState::new();
    let mut task = TaskHandle::new();
    let mut actor: u8 = 0;
    let mut ctx: u8 = 0;

    let mut w = CountdownPollable::new(1, "done").actor_instrument(SpanHandle::from_id(11));

    let r1 = w.poll(&mut actor, &mut ctx, &mut task, &mut trace);
    assert_eq!(r1, PollOutcome::Pending);
    assert_eq!(trace.log, vec![TraceEvent::Enter(11), TraceEvent::Exit(11)]);
    assert_eq!(trace.depth(), 0);

    let r2 = w.poll(&mut actor, &mut ctx, &mut task, &mut trace);
    assert_eq!(r2, PollOutcome::Ready("done"));
    assert_eq!(
        trace.log,
        vec![
            TraceEvent::Enter(11),
            TraceEvent::Exit(11),
            TraceEvent::Enter(11),
            TraceEvent::Exit(11),
        ],
    );
    assert_eq!(trace.depth(), 0);
}

#[test]
fn dropping_wrapper_after_first_poll_cleans_up() {
    let mut trace = TraceState::new();
    let mut task = TaskHandle::new();
    let mut actor: u8 = 0;
    let mut ctx: u8 = 0;

    // Poll a two-step computation once, then drop the wrapper without ever
    // polling again: no span activation stays outstanding.
    let mut w = CountdownPollable::new(1, "done").actor_instrument(SpanHandle::from_id(11));
    let r1 = w.poll(&mut actor, &mut ctx, &mut task, &mut trace);
    assert_eq!(r1, PollOutcome::Pending);
    drop(w);
    assert_eq!(trace.depth(), 0);
    assert_eq!(trace.log, vec![TraceEvent::Enter(11), TraceEvent::Exit(11)]);

    // Dropping a wrapper drops the wrapped value: its cleanup runs.
    let dropped = Rc::new(Cell::new(false));
    let w2 = DropProbe { dropped: Rc::clone(&dropped) }.actor_instrument(SpanHandle::from_id(12));
    assert!(!dropped.get());
    drop(w2);
    assert!(dropped.get());
}

#[test]
fn ambient_capture_with_no_active_span_is_noop() {
    let mut trace = TraceState::new();
    let mut task = TaskHandle::new();
    let mut actor: u8 = 0;
    let mut ctx: u8 = 0;

    let mut w = ReadyPollable::new(1u64).in_current_actor_span(&trace);
    assert!(w.span().is_disabled());

    let r = w.poll(&mut actor, &mut ctx, &mut task, &mut trace);
    assert_eq!(r, PollOutcome::Ready(1));
    assert_eq!(trace.log, vec![]);
    assert_eq!(trace.depth(), 0);
}

#[test]
fn ambient_capture_takes_the_innermost_span() {
    let mut trace = TraceState::new();
    trace.enter(&SpanHandle::from_id(3));
    trace.enter(&SpanHandle::from_id(4));

    let w = ReadyPollable::new(1u64).in_current_actor_span(&trace);
    assert_eq!(w.span().id, Some(4));
}

#[test]
fn wrapped_and_direct_polling_agree() {
    let mut task = TaskHandle::new();
    let mut actor: u8 = 0;
    let mut ctx: u8 = 0;

    let mut direct_trace = TraceState::new();
    let mut direct = CountdownPollable::new(2, 10u64);
    let mut direct_outcomes = Vec::new();
    for _ in 0..3 {
        direct_outcomes.push(direct.poll(&mut actor, &mut ctx, &mut task, &mut direct_trace));
    }

    let mut wrapped_trace = TraceState::new();
    let mut wrapped = CountdownPollable::new(2, 10u64).actor_instrument(SpanHandle::from_id(5));
    let mut wrapped_outcomes = Vec::new();
    for _ in 0..3 {
        wrapped_outcomes.push(wrapped.poll(&mut actor, &mut ctx, &mut task, &mut wrapped_trace));
    }

    assert_eq!(direct_outcomes, wrapped_outcomes);
    assert_eq!(
        direct_outcomes,
        vec![PollOutcome::Pending, PollOutcome::Pending, PollOutcome::Ready(10)],
    );
}

#[test]
fn span_is_active_exactly_during_inner_poll() {
    let mut trace = TraceState::new();
    let mut task = TaskHandle::new();
    let mut actor: u8 = 0;
    let mut ctx: u8 = 0;

    let mut w = ObserverPollable::new().actor_instrument(SpanHandle::from_id(9));

    assert_eq!(trace.current().id, None);
    let r = w.poll(&mut actor, &mut ctx, &mut task, &mut trace);
    assert_eq!(r, PollOutcome::Ready(true));
    assert_eq!(w.inner().seen, vec![SpanHandle::from_id(9)]);
    assert_eq!(trace.current().id, None);
    assert_eq!(trace.log, vec![TraceEvent::Enter(9), TraceEvent::Exit(9)]);
}

#[test]
fn nested_wrappers_nest_spans() {
    let mut trace = TraceState::new();
    let mut task = TaskHandle::new();
    let mut actor: u8 = 0;
    let mut ctx: u8 = 0;

    let inner = ObserverPollable::new().actor_instrument(SpanHandle::from_id(2));
    let mut outer = inner.actor_instrument(SpanHandle::from_id(1));

    let r = outer.poll(&mut actor, &mut ctx, &mut task, &mut trace);
    assert_eq!(r, PollOutcome::Ready(true));
    // The observer ran with the inner span innermost.
    assert_eq!(outer.inner().inner().seen, vec![SpanHandle::from_id(2)]);
    assert_eq!(
        trace.log,
        vec![
            TraceEvent::Enter(1),
            TraceEvent::Enter(2),
            TraceEvent::Exit(2),
            TraceEvent::Exit(1),
        ],
    );
    assert_eq!(trace.depth(), 0);
}
