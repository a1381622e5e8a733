//! Actor-bound, poll-driven computations.
//!
//! An [`ActorPollable`] is a computation that the actor runtime advances one
//! step at a time: each poll gets exclusive access to the owning actor, its
//! execution context and a task-suspension handle, and reports either the
//! final output or that no progress can currently be made. The ambient
//! tracing context travels along as an explicit [`TraceState`], and the
//! contract of `poll` guarantees that whatever spans a step enters, it exits
//! again before returning.

use vstd::prelude::*;
use crate::SpanHandle;
use crate::trace::{bracketed, TraceEvent, TraceState};

verus! {

/// What one poll step reports: the final output, or "no progress yet".
#[derive(Clone, Copy, Debug, PartialEq, Eq)]
pub enum PollOutcome<O> {
    /// The computation finished with this output.
    Ready(O),
    /// No further progress can currently be made; poll again later.
    Pending,
}

/// The task-suspension handle a poll step receives: a pending computation
/// uses it to ask to be polled again.
#[derive(Clone, Copy, Debug, PartialEq, Eq)]
pub struct TaskHandle {
    /// True once the current step has asked to be polled again.
    pub wake_requested: bool,
}

impl TaskHandle {
    /// A fresh handle for one poll step, with no wake requested yet.
    pub fn new() -> (r: TaskHandle)
        ensures
            !r.wake_requested,
    {
        TaskHandle { wake_requested: false }
    }

    /// Ask the runtime to poll again.
    pub fn request_wake(&mut self)
        ensures
            final(self).wake_requested,
    {
        self.wake_requested = true;
    }
}

/// A computation, bound to an actor of type `A` with execution context `C`,
/// that is advanced by repeated polling.
///
/// The model pins the computation's observable schedule: `steps_left` polls
/// report [`PollOutcome::Pending`], and the poll after those reports
/// [`PollOutcome::Ready`] with `planned_output`, after which the computation
/// is `completed` and must not be polled again. Every step leaves the
/// ambient trace exactly as deep as it found it ([`bracketed`]): a step may
/// enter spans of its own, but it exits each of them before returning.
pub trait ActorPollable<A, C>: Sized {
    /// The type of the final output.
    type Output;

    /// True once the final output has been yielded; polling past this point
    /// is forbidden.
    spec fn completed(&self) -> bool;

    /// How many more polls report `Pending` before the final output.
    spec fn steps_left(&self) -> nat;

    /// The final output this computation will yield.
    spec fn planned_output(&self) -> Self::Output;

    /// Advance one step, with exclusive access to the owning actor and its
    /// execution context for the duration of the call.
    fn poll(
        &mut self,
        actor: &mut A,
        actor_ctx: &mut C,
        task: &mut TaskHandle,
        trace: &mut TraceState,
    ) -> (r: PollOutcome<Self::Output>)
        requires
            !old(self).completed(),
            old(trace).wf(),
        ensures
            final(trace).wf(),
            final(trace).stack@ == old(trace).stack@,
            old(trace).log@.is_prefix_of(final(trace).log@),
            bracketed(
                old(trace).stack@,
                final(trace).log@.skip(old(trace).log@.len() as int),
            ),
            old(self).steps_left() == 0 ==> {
                &&& r == PollOutcome::Ready(old(self).planned_output())
                &&& final(self).completed()
            },
            old(self).steps_left() > 0 ==> {
                &&& r == PollOutcome::<Self::Output>::Pending
                &&& !final(self).completed()
                &&& final(self).steps_left() == old(self).steps_left() - 1
                &&& final(self).planned_output() == old(self).planned_output()
            },
    ;
}

/// A computation that is ready at once with a fixed value.
#[derive(Clone, Copy, Debug, PartialEq, Eq)]
pub struct ReadyPollable<O> {
    /// The value the first poll yields.
    pub value: O,
    /// True once the value has been yielded.
    pub done: bool,
}

impl<O: Copy> ReadyPollable<O> {
    /// A computation whose first poll yields `value`.
    pub fn new(value: O) -> (r: ReadyPollable<O>)
        ensures
            !r.done,
            r.value == value,
    {
        ReadyPollable { value, done: false }
    }
}

impl<A, C, O: Copy> ActorPollable<A, C> for ReadyPollable<O> {
    type Output = O;

    open spec fn completed(&self) -> bool {
        self.done
    }

    open spec fn steps_left(&self) -> nat {
        0
    }

    open spec fn planned_output(&self) -> O {
        self.value
    }

    fn poll(
        &mut self,
        actor: &mut A,
        actor_ctx: &mut C,
        task: &mut TaskHandle,
        trace: &mut TraceState,
    ) -> (r: PollOutcome<O>)
        ensures
            *final(trace) == *old(trace),
            *final(actor) == *old(actor),
            *final(actor_ctx) == *old(actor_ctx),
            *final(task) == *old(task),
            final(self).value == old(self).value,
    {
        proof {
            lemma_unchanged_trace_bracketed(*trace);
        }
        self.done = true;
        PollOutcome::Ready(self.value)
    }
}

/// A computation that reports `Pending` a fixed number of times and then
/// yields a fixed value.
#[derive(Clone, Copy, Debug, PartialEq, Eq)]
pub struct CountdownPollable<O> {
    /// How many more polls report `Pending`.
    pub remaining: u64,
    /// The value the final poll yields.
    pub value: O,
    /// True once the value has been yielded.
    pub done: bool,
}

impl<O: Copy> CountdownPollable<O> {
    /// A computation that reports `Pending` `remaining` times, then yields
    /// `value`.
    pub fn new(remaining: u64, value: O) -> (r: CountdownPollable<O>)
        ensures
            !r.done,
            r.remaining == remaining,
            r.value == value,
    {
        CountdownPollable { remaining, value, done: false }
    }
}

impl<A, C, O: Copy> ActorPollable<A, C> for CountdownPollable<O> {
    type Output = O;

    open spec fn completed(&self) -> bool {
        self.done
    }

    open spec fn steps_left(&self) -> nat {
        self.remaining as nat
    }

    open spec fn planned_output(&self) -> O {
        self.value
    }

    fn poll(
        &mut self,
        actor: &mut A,
        actor_ctx: &mut C,
        task: &mut TaskHandle,
        trace: &mut TraceState,
    ) -> (r: PollOutcome<O>)
        ensures
            *final(trace) == *old(trace),
            *final(actor) == *old(actor),
            *final(actor_ctx) == *old(actor_ctx),
            final(self).value == old(self).value,
            old(self).remaining == 0 ==> *final(task) == *old(task),
            old(self).remaining > 0 ==> final(task).wake_requested,
    {
        proof {
            lemma_unchanged_trace_bracketed(*trace);
        }
        if self.remaining == 0 {
            self.done = true;
            PollOutcome::Ready(self.value)
        } else {
            self.remaining = self.remaining - 1;
            task.request_wake();
            PollOutcome::Pending
        }
    }
}

/// A computation that is ready at once, and that records the ambient span it
/// observes while its poll step runs — the way a real poll step would emit
/// its tracing events into whatever span is active at that moment.
#[derive(Clone, Debug, PartialEq, Eq)]
pub struct ObserverPollable {
    /// The ambient span observed during each poll, oldest first.
    pub seen: Vec<SpanHandle>,
    /// True once the output has been yielded.
    pub done: bool,
}

impl ObserverPollable {
    /// An observer that has not been polled yet.
    pub fn new() -> (r: ObserverPollable)
        ensures
            !r.done,
            r.seen@ == Seq::<SpanHandle>::empty(),
    {
        ObserverPollable { seen: Vec::new(), done: false }
    }
}

impl<A, C> ActorPollable<A, C> for ObserverPollable {
    type Output = bool;

    open spec fn completed(&self) -> bool {
        self.done
    }

    open spec fn steps_left(&self) -> nat {
        0
    }

    open spec fn planned_output(&self) -> bool {
        true
    }

    fn poll(
        &mut self,
        actor: &mut A,
        actor_ctx: &mut C,
        task: &mut TaskHandle,
        trace: &mut TraceState,
    ) -> (r: PollOutcome<bool>)
        ensures
            *final(trace) == *old(trace),
            *final(actor) == *old(actor),
            *final(actor_ctx) == *old(actor_ctx),
            *final(task) == *old(task),
            final(self).seen@ == old(self).seen@.push(old(trace).current_span()),
    {
        proof {
            lemma_unchanged_trace_bracketed(*trace);
        }
        let h = trace.current();
        self.seen.push(h);
        self.done = true;
        PollOutcome::Ready(true)
    }
}

/// A poll step that records no events leaves an empty, bracketed extension.
proof fn lemma_unchanged_trace_bracketed(trace: TraceState)
    ensures
        trace.log@.is_prefix_of(trace.log@),
        bracketed(trace.stack@, trace.log@.skip(trace.log@.len() as int)),
{
    assert(trace.log@.subrange(0, trace.log@.len() as int) =~= trace.log@);
    assert(trace.log@.skip(trace.log@.len() as int) =~= Seq::<TraceEvent>::empty());
    crate::trace::lemma_bracketed_empty(trace.stack@);
}

} // verus!
