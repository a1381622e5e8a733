//! Span instrumentation for actor-bound, poll-driven computations.
//!
//! A poll-driven computation loses its tracing context between poll steps:
//! nothing re-establishes the ambient span when the runtime resumes it. The
//! wrapper in this crate pairs such a computation with a span handle and, on
//! every poll step, enters the span before delegating and exits it as soon as
//! the step returns, so the span is active for exactly the duration of each
//! step and for no longer. The wrapper changes nothing else: its output and
//! the number of polls needed to finish are those of the wrapped computation.
//!
//! The ambient tracing context (the stack of entered spans that a thread-local
//! subscriber would maintain) is modelled as an explicit [`trace::TraceState`]
//! value threaded through every poll call, which is what makes the bracketing
//! discipline provable.

use vstd::prelude::*;

pub mod instrument;
pub mod pollable;
pub mod trace;

pub use instrument::{ActorInstrument, ActorInstrumented};
pub use pollable::{
    ActorPollable, CountdownPollable, ObserverPollable, PollOutcome, ReadyPollable, TaskHandle,
};
pub use trace::{TraceEvent, TraceState};

verus! {

/// A handle to a tracing span: an opaque, cheaply copyable context token.
///
/// A handle either designates a real span by its identifier, or is disabled
/// (the handle of "no span"): entering a disabled handle has no observable
/// effect on the trace.
#[derive(Clone, Copy, Debug, PartialEq, Eq)]
pub struct SpanHandle {
    pub id: Option<u64>,
}

impl SpanHandle {
    /// True if this handle designates a real span.
    pub open spec fn enabled(self) -> bool {
        self.id is Some
    }

    /// The disabled handle; entering it is a no-op.
    pub fn none() -> (r: SpanHandle)
        ensures
            !r.enabled(),
    {
        SpanHandle { id: None }
    }

    /// The handle of the span with the given identifier.
    pub fn from_id(id: u64) -> (r: SpanHandle)
        ensures
            r.id == Some(id),
    {
        SpanHandle { id: Some(id) }
    }

    /// True if this handle is the disabled handle.
    pub fn is_disabled(&self) -> (r: bool)
        ensures
            r == !self.enabled(),
    {
        match self.id {
            Some(_) => false,
            None => true,
        }
    }
}

} // verus!
