//! The instrumentation wrapper: a span, active for exactly one poll step.
//!
//! [`ActorInstrumented`] pairs a poll-driven computation with a span handle.
//! Its own poll step enters the span, delegates one step to the wrapped
//! computation, and exits the span again before returning, so the span is the
//! ambient context for exactly the duration of the delegated step. The
//! wrapper passes the step's outcome through unmodified and adds no steps of
//! its own.

use vstd::prelude::*;
use crate::SpanHandle;
use crate::pollable::{ActorPollable, PollOutcome, TaskHandle};
use crate::trace::{apply_event, bracketed, replay, TraceEvent, TraceState};

verus! {

/// A poll-driven computation that has been instrumented with a span.
///
/// The wrapper owns the computation and one handle to the span. It is itself
/// an [`ActorPollable`] with the same actor, context and output types, and
/// with the same schedule: it completes on the same poll, with the same
/// output, as the wrapped computation would.
#[derive(Clone, Copy, Debug, PartialEq, Eq)]
pub struct ActorInstrumented<T> {
    /// The wrapped computation.
    pub inner: T,
    /// The span entered around every poll step.
    pub span: SpanHandle,
}

/// Extension trait: lets any poll-driven computation be instrumented with a
/// span by a single method call.
pub trait ActorInstrument: Sized {
    /// Instruments this computation with the given span.
    ///
    /// When the returned wrapper is polled, the span is entered for the
    /// duration of the poll step and exited as soon as it returns.
    fn actor_instrument(self, span: SpanHandle) -> (r: ActorInstrumented<Self>)
        ensures
            r.inner == self,
            r.span == span,
    {
        ActorInstrumented { inner: self, span }
    }

    /// Instruments this computation with the currently active span.
    ///
    /// If no span is active in `trace`, the wrapper carries the disabled
    /// handle, and entering it has no observable effect.
    fn in_current_actor_span(self, trace: &TraceState) -> (r: ActorInstrumented<Self>)
        ensures
            r.inner == self,
            r.span == trace.current_span(),
    {
        self.actor_instrument(trace.current())
    }
}

impl<T: Sized> ActorInstrument for T {}

impl<T> ActorInstrumented<T> {
    /// Borrows the span that this computation is instrumented by.
    pub fn span(&self) -> (r: &SpanHandle)
        ensures
            *r == self.span,
    {
        &self.span
    }

    /// Mutably borrows the span that this computation is instrumented by.
    pub fn span_mut(&mut self) -> (r: &mut SpanHandle)
        ensures
            *r == old(self).span,
            final(self).span == *final(r),
            final(self).inner == old(self).inner,
    {
        &mut self.span
    }

    /// Borrows the wrapped computation.
    pub fn inner(&self) -> (r: &T)
        ensures
            *r == self.inner,
    {
        &self.inner
    }

    /// Mutably borrows the wrapped computation.
    pub fn inner_mut(&mut self) -> (r: &mut T)
        ensures
            *r == old(self).inner,
            final(self).inner == *final(r),
            final(self).span == old(self).span,
    {
        &mut self.inner
    }

    /// Consumes the wrapper, returning the wrapped computation.
    ///
    /// Note that this drops the wrapper's handle to the span.
    pub fn into_inner(self) -> (r: T)
        ensures
            r == self.inner,
    {
        self.inner
    }
}

impl<A, C, T: ActorPollable<A, C>> ActorPollable<A, C> for ActorInstrumented<T> {
    type Output = T::Output;

    open spec fn completed(&self) -> bool {
        self.inner.completed()
    }

    open spec fn steps_left(&self) -> nat {
        self.inner.steps_left()
    }

    open spec fn planned_output(&self) -> T::Output {
        self.inner.planned_output()
    }

    /// One poll step: enter the span, delegate exactly one step to the
    /// wrapped computation, exit the span, and hand the outcome through.
    ///
    /// Beyond the [`ActorPollable`] contract, the wrapper guarantees the
    /// bracket shape of the step's trace: when the span is enabled, the
    /// step's events open with entering it, close with exiting it, and the
    /// span stays on the stack at every moment strictly inside the step.
    fn poll(
        &mut self,
        actor: &mut A,
        actor_ctx: &mut C,
        task: &mut TaskHandle,
        trace: &mut TraceState,
    ) -> (r: PollOutcome<T::Output>)
        ensures
            final(self).span == old(self).span,
            ({
                let ext = final(trace).log@.skip(old(trace).log@.len() as int);
                match old(self).span.id {
                    Some(id) => {
                        &&& ext.len() >= 2
                        &&& ext.first() == TraceEvent::Enter(id)
                        &&& ext.last() == TraceEvent::Exit(id)
                        &&& bracketed(
                            old(trace).stack@.push(id),
                            ext.subrange(1, ext.len() as int - 1),
                        )
                        &&& forall|k: int|
                            1 <= k < ext.len() ==> #[trigger] replay(
                                old(trace).stack@,
                                ext.take(k),
                            ).contains(id)
                    },
                    None => true,
                }
            }),
    {
        let ghost base = trace.stack@;
        let ghost log0 = trace.log@;
        trace.enter(&self.span);
        let ghost log1 = trace.log@;
        let r = self.inner.poll(actor, actor_ctx, task, trace);
        let ghost log2 = trace.log@;
        let ghost mid = log2.skip(log1.len() as int);
        proof {
            assert(log2 =~= log1 + mid);
        }
        trace.exit(&self.span);
        proof {
            match self.span.id {
                Some(id) => {
                    assert(base.push(id).last() == id);
                    assert(base.push(id).drop_last() =~= base);
                    lemma_enter_exit_bracket(base, id, mid);
                    let lemma_ext = seq![TraceEvent::Enter(id)] + mid + seq![TraceEvent::Exit(id)];
                    assert(trace.log@ =~= log0 + lemma_ext);
                    assert(trace.log@.skip(log0.len() as int) =~= lemma_ext);
                    assert(lemma_ext.subrange(1, lemma_ext.len() as int - 1) =~= mid);
                    assert(log0.is_prefix_of(trace.log@)) by {
                        assert(trace.log@.subrange(0, log0.len() as int) =~= log0);
                    }
                },
                None => {
                    assert(log0.is_prefix_of(trace.log@));
                },
            }
        }
        r
    }
}

/// Law: instrumenting a computation is transparent to its schedule. The
/// wrapper has completed exactly when the wrapped computation has, the same
/// number of polls remain before the final output, and the final output is
/// the same — so polling the wrapper is, outcome for outcome, polling the
/// computation directly, in the same number of calls.
pub proof fn lemma_wrapper_is_transparent<A, C, T: ActorPollable<A, C>>(w: ActorInstrumented<T>)
    ensures
        <ActorInstrumented<T> as ActorPollable<A, C>>::completed(&w) == w.inner.completed(),
        <ActorInstrumented<T> as ActorPollable<A, C>>::steps_left(&w) == w.inner.steps_left(),
        <ActorInstrumented<T> as ActorPollable<A, C>>::planned_output(&w)
            == w.inner.planned_output(),
{
}

/// Wrapping a bracketed run of events in an enter/exit pair of span `id`
/// yields a run that is bracketed one level further out, and that keeps `id`
/// on the stack at every moment strictly inside it.
proof fn lemma_enter_exit_bracket(base: Seq<u64>, id: u64, mid: Seq<TraceEvent>)
    requires
        bracketed(base.push(id), mid),
    ensures
        ({
            let ext = seq![TraceEvent::Enter(id)] + mid + seq![TraceEvent::Exit(id)];
            &&& bracketed(base, ext)
            &&& ext.first() == TraceEvent::Enter(id)
            &&& ext.last() == TraceEvent::Exit(id)
            &&& forall|k: int|
                1 <= k < ext.len() ==> #[trigger] replay(base, ext.take(k)).contains(id)
        }),
{
    let enter = seq![TraceEvent::Enter(id)];
    let exit = seq![TraceEvent::Exit(id)];
    let ext = enter + mid + exit;
    assert(base.is_prefix_of(base)) by {
        assert(base.subrange(0, base.len() as int) =~= base);
    }

    // Replaying the enter alone pushes the span.
    assert(enter.drop_last() =~= Seq::<TraceEvent>::empty());
    assert(enter.last() == TraceEvent::Enter(id));
    assert(replay(base, Seq::<TraceEvent>::empty()) == base);
    assert(replay(base, enter) == apply_event(replay(base, enter.drop_last()), enter.last()));
    assert(replay(base, enter) == base.push(id));

    // Replaying enter + mid leaves the span on top.
    crate::trace::lemma_replay_concat(base, enter, mid);
    assert(replay(base, enter + mid) == base.push(id));

    // The closing exit pops exactly the span.
    crate::trace::lemma_replay_concat(base, enter + mid, exit);
    assert(exit.drop_last() =~= Seq::<TraceEvent>::empty());
    assert(exit.last() == TraceEvent::Exit(id));
    assert(base.push(id).last() == id);
    assert(base.push(id).drop_last() =~= base);
    assert(replay(base.push(id), Seq::<TraceEvent>::empty()) == base.push(id));
    assert(replay(base.push(id), exit) == apply_event(
        replay(base.push(id), exit.drop_last()),
        exit.last(),
    ));
    assert(replay(base, ext) == apply_event(base.push(id), TraceEvent::Exit(id)));
    assert(replay(base, ext) == base);

    // Every intermediate stack keeps `base` untouched, and keeps the span on
    // it strictly inside the bracket.
    assert forall|k: int| 0 <= k <= ext.len() implies base.is_prefix_of(
        #[trigger] replay(base, ext.take(k)),
    ) && (1 <= k < ext.len() ==> replay(base, ext.take(k)).contains(id)) by {
        if k == 0 {
            assert(ext.take(0) =~= Seq::<TraceEvent>::empty());
        } else if k == ext.len() {
            assert(ext.take(k) =~= ext);
        } else {
            // ext.take(k) is the enter followed by a prefix of mid.
            assert(ext.take(k) =~= enter + mid.take(k - 1));
            crate::trace::lemma_replay_concat(base, enter, mid.take(k - 1));
            let s = replay(base.push(id), mid.take(k - 1));
            assert(replay(base, ext.take(k)) == s);
            assert(base.push(id).is_prefix_of(s));
            assert(s.subrange(0, base.len() as int + 1) =~= base.push(id));
            assert(s[base.len() as int] == id);
            assert(s.contains(id));
            assert(base.is_prefix_of(s)) by {
                assert(s.subrange(0, base.len() as int) =~= base);
            }
        }
    }
}

} // verus!
