//! An explicit model of the ambient tracing context.
//!
//! A tracing subscriber maintains, per thread, a stack of the spans that are
//! currently entered, and the history of enter/exit operations determines that
//! stack at every moment. [`TraceState`] carries both: the `log` of every
//! enter and exit so far, and the `stack` of currently entered spans, which is
//! always the replay of the log from an empty stack.

use vstd::prelude::*;
use crate::SpanHandle;

verus! {

/// One operation on the ambient context: a span was entered or exited.
#[derive(Clone, Copy, Debug, PartialEq, Eq)]
pub enum TraceEvent {
    Enter(u64),
    Exit(u64),
}

/// The stack of entered spans after `e` happens on `stack`.
///
/// An `Exit` only pops when it matches the top of the stack; a mismatched
/// exit leaves the stack alone, so no event can disturb spans entered by an
/// enclosing scope.
pub open spec fn apply_event(stack: Seq<u64>, e: TraceEvent) -> Seq<u64> {
    match e {
        TraceEvent::Enter(id) => stack.push(id),
        TraceEvent::Exit(id) => if stack.len() > 0 && stack.last() == id {
            stack.drop_last()
        } else {
            stack
        },
    }
}

/// The stack of entered spans after the whole `log` happens on `stack`.
pub open spec fn replay(stack: Seq<u64>, log: Seq<TraceEvent>) -> Seq<u64>
    decreases log.len(),
{
    if log.len() == 0 {
        stack
    } else {
        apply_event(replay(stack, log.drop_last()), log.last())
    }
}

/// A run of events `ext` is bracketed over `base` when it leaves the stack as
/// it found it, and at no intermediate moment pops into the spans that were
/// already entered when it began.
pub open spec fn bracketed(base: Seq<u64>, ext: Seq<TraceEvent>) -> bool {
    &&& replay(base, ext) == base
    &&& forall|k: int|
        0 <= k <= ext.len() ==> base.is_prefix_of(#[trigger] replay(base, ext.take(k)))
}

/// The ambient tracing context, made explicit.
///
/// Invariant (`wf`): `stack` is the replay of `log` from the empty stack.
/// The fields are public so that unverified callers can inspect the history,
/// but every method keeps the invariant.
#[derive(Clone, Debug)]
pub struct TraceState {
    /// Identifiers of the spans currently entered, innermost last.
    pub stack: Vec<u64>,
    /// Every enter and exit so far, oldest first.
    pub log: Vec<TraceEvent>,
}

impl TraceState {
    /// The stack is exactly the replay of the recorded history.
    pub open spec fn wf(self) -> bool {
        self.stack@ == replay(Seq::empty(), self.log@)
    }

    /// The handle of the innermost entered span, or the disabled handle if no
    /// span is entered.
    pub open spec fn current_span(self) -> SpanHandle {
        if self.stack@.len() == 0 {
            SpanHandle { id: None }
        } else {
            SpanHandle { id: Some(self.stack@.last()) }
        }
    }

    /// A context in which no span has ever been entered.
    pub fn new() -> (r: TraceState)
        ensures
            r.wf(),
            r.stack@ == Seq::<u64>::empty(),
            r.log@ == Seq::<TraceEvent>::empty(),
    {
        TraceState { stack: Vec::new(), log: Vec::new() }
    }

    /// How many spans are currently entered.
    pub fn depth(&self) -> (r: usize)
        ensures
            r == self.stack@.len(),
    {
        self.stack.len()
    }

    /// The currently active span, as a handle ("the ambient span").
    pub fn current(&self) -> (r: SpanHandle)
        ensures
            r == self.current_span(),
    {
        if self.stack.len() == 0 {
            SpanHandle { id: None }
        } else {
            SpanHandle { id: Some(self.stack[self.stack.len() - 1]) }
        }
    }

    /// Enter the span designated by `h`: it becomes the innermost entered
    /// span. Entering a disabled handle has no observable effect.
    pub fn enter(&mut self, h: &SpanHandle)
        requires
            old(self).wf(),
        ensures
            final(self).wf(),
            !h.enabled() ==> *final(self) == *old(self),
            h.id matches Some(id) ==> {
                &&& final(self).stack@ == old(self).stack@.push(id)
                &&& final(self).log@ == old(self).log@.push(TraceEvent::Enter(id))
            },
    {
        match h.id {
            Some(id) => {
                proof {
                    lemma_replay_snoc(Seq::empty(), self.log@, TraceEvent::Enter(id));
                }
                self.stack.push(id);
                self.log.push(TraceEvent::Enter(id));
            },
            None => {},
        }
    }

    /// Exit the span designated by `h`. The caller must exit the innermost
    /// entered span: `h` has to match the top of the stack. Exiting a
    /// disabled handle has no observable effect.
    pub fn exit(&mut self, h: &SpanHandle)
        requires
            old(self).wf(),
            h.id matches Some(id) ==> old(self).stack@.len() > 0 && old(self).stack@.last() == id,
        ensures
            final(self).wf(),
            !h.enabled() ==> *final(self) == *old(self),
            h.id matches Some(id) ==> {
                &&& final(self).stack@ == old(self).stack@.drop_last()
                &&& final(self).log@ == old(self).log@.push(TraceEvent::Exit(id))
            },
    {
        match h.id {
            Some(id) => {
                proof {
                    lemma_replay_snoc(Seq::empty(), self.log@, TraceEvent::Exit(id));
                }
                let _ = self.stack.pop();
                self.log.push(TraceEvent::Exit(id));
            },
            None => {},
        }
    }
}

/// Appending one event to a history replays as one step on the replayed
/// history.
pub proof fn lemma_replay_snoc(stack: Seq<u64>, log: Seq<TraceEvent>, e: TraceEvent)
    ensures
        replay(stack, log.push(e)) == apply_event(replay(stack, log), e),
{
    assert(log.push(e).drop_last() =~= log);
    assert(log.push(e).last() == e);
}

/// Replaying a concatenation is replaying one part after the other.
pub proof fn lemma_replay_concat(stack: Seq<u64>, a: Seq<TraceEvent>, b: Seq<TraceEvent>)
    ensures
        replay(stack, a + b) == replay(replay(stack, a), b),
    decreases b.len(),
{
    if b.len() == 0 {
        assert(a + b =~= a);
    } else {
        lemma_replay_concat(stack, a, b.drop_last());
        Seq::drop_last_distributes_over_add(a, b);
        assert((a + b).last() == b.last());
        lemma_replay_snoc(stack, a + b.drop_last(), b.last());
        lemma_replay_snoc(replay(stack, a), b.drop_last(), b.last());
        assert((a + b.drop_last()).push(b.last()) =~= a + b);
    }
}

/// Law: two bracketed runs of events, one after the other, form a bracketed
/// run. Since every poll step leaves a bracketed extension of the log, any
/// sequence of poll steps does too: the activations of successive steps never
/// overlap, and the whole history leaves the stack as it found it.
pub proof fn lemma_bracketed_concat(base: Seq<u64>, a: Seq<TraceEvent>, b: Seq<TraceEvent>)
    requires
        bracketed(base, a),
        bracketed(base, b),
    ensures
        bracketed(base, a + b),
{
    lemma_replay_concat(base, a, b);
    assert forall|k: int| 0 <= k <= (a + b).len() implies base.is_prefix_of(
        #[trigger] replay(base, (a + b).take(k)),
    ) by {
        if k <= a.len() {
            assert((a + b).take(k) =~= a.take(k));
        } else {
            assert((a + b).take(k) =~= a + b.take(k - a.len()));
            lemma_replay_concat(base, a, b.take(k - a.len()));
            assert(base.is_prefix_of(replay(base, b.take(k - a.len()))));
        }
    }
}

/// The empty run of events is bracketed over any base stack.
pub proof fn lemma_bracketed_empty(base: Seq<u64>)
    ensures
        bracketed(base, Seq::<TraceEvent>::empty()),
{
    assert(base.is_prefix_of(base)) by {
        assert(base.subrange(0, base.len() as int) =~= base);
    }
    assert forall|k: int|
        0 <= k <= Seq::<TraceEvent>::empty().len() implies base.is_prefix_of(
        #[trigger] replay(base, Seq::<TraceEvent>::empty().take(k))) by {
        assert(Seq::<TraceEvent>::empty().take(k) =~= Seq::<TraceEvent>::empty());
    }
}

} // verus!
