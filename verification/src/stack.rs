//! The stack of entered spans of one unit of execution.

use vstd::prelude::*;
use crate::span::{Span, SpanView};

verus! {

/// A misuse of the span lifecycle: a fault of the calling program.
#[derive(Debug, Clone, Copy, PartialEq, Eq, Structural)]
pub enum SpanMisuseError {
    /// The guard's span is entered but is not the innermost one.
    OutOfOrder,
    /// The guard's span is not on this stack.
    NotEntered,
}

/// What a [`ScopeGuard`] holds, as mathematical values.
pub struct ScopeGuardView {
    pub depth: nat,
    pub trace_id: u128,
    pub span_id: u64,
}

/// The handle of one entered span: the place on the stack at which it was
/// entered and the identity of the span. It is given back to release the
/// span, once.
#[derive(Debug)]
pub struct ScopeGuard {
    depth: usize,
    trace_id: u128,
    span_id: u64,
}

impl View for ScopeGuard {
    type V = ScopeGuardView;

    closed spec fn view(&self) -> ScopeGuardView {
        ScopeGuardView { depth: self.depth as nat, trace_id: self.trace_id, span_id: self.span_id }
    }
}

/// The guard that entering `span` on `stack` hands out.
pub open spec fn guard_of(stack: Seq<SpanView>, span: SpanView) -> ScopeGuardView {
    ScopeGuardView {
        depth: stack.len(),
        trace_id: span.context.trace_id,
        span_id: span.context.span_id,
    }
}

/// Whether the span of `guard` stands on `stack` where the guard says.
pub open spec fn holds(stack: Seq<SpanView>, guard: ScopeGuardView) -> bool {
    &&& guard.depth < stack.len()
    &&& stack[guard.depth as int].context.trace_id == guard.trace_id
    &&& stack[guard.depth as int].context.span_id == guard.span_id
}

/// Whether `guard` may be released: its span is the innermost one, or else
/// which misuse the release would be.
pub open spec fn release_check(stack: Seq<SpanView>, guard: ScopeGuardView) -> Result<
    (),
    SpanMisuseError,
> {
    if !holds(stack, guard) {
        Err(SpanMisuseError::NotEntered)
    } else if guard.depth + 1 != stack.len() {
        Err(SpanMisuseError::OutOfOrder)
    } else {
        Ok(())
    }
}

/// The stack after the release of `guard`: without its innermost span
/// where the release is in order, and unchanged where it is a misuse.
pub open spec fn after_release(stack: Seq<SpanView>, guard: ScopeGuardView) -> Seq<SpanView> {
    if release_check(stack, guard) is Ok {
        stack.drop_last()
    } else {
        stack
    }
}

/// Releasing a span right after entering it restores the stack.
pub proof fn lemma_enter_release(stack: Seq<SpanView>, span: SpanView)
    ensures
        release_check(stack.push(span), guard_of(stack, span)) is Ok,
        after_release(stack.push(span), guard_of(stack, span)) == stack,
{
    assert(stack.push(span).drop_last() =~= stack);
}

/// Stack discipline. With `outer` entered before `inner`: releasing inner
/// and then outer is in order and restores the stack, so that a stack that
/// was empty is empty again; releasing outer while inner is still entered
/// is detected as `OutOfOrder` and changes nothing.
pub proof fn lemma_nested_release(stack: Seq<SpanView>, outer: SpanView, inner: SpanView)
    ensures
        ({
            let outer_guard = guard_of(stack, outer);
            let inner_guard = guard_of(stack.push(outer), inner);
            let nested = stack.push(outer).push(inner);
            &&& release_check(nested, inner_guard) is Ok
            &&& after_release(nested, inner_guard) == stack.push(outer)
            &&& release_check(after_release(nested, inner_guard), outer_guard) is Ok
            &&& after_release(after_release(nested, inner_guard), outer_guard) == stack
            &&& release_check(nested, outer_guard) == Err::<(), SpanMisuseError>(
                SpanMisuseError::OutOfOrder,
            )
            &&& after_release(nested, outer_guard) == nested
        }),
{
    assert(stack.push(outer).push(inner).drop_last() =~= stack.push(outer));
    assert(stack.push(outer).drop_last() =~= stack);
}

/// The entered spans of one unit of execution, innermost last. Each unit
/// owns a stack of its own; a stack is never shared between units.
#[derive(Debug)]
pub struct SpanStack {
    spans: Vec<Span>,
}

spec fn views(spans: Seq<Span>) -> Seq<SpanView> {
    Seq::new(spans.len(), |i: int| spans[i]@)
}

impl View for SpanStack {
    type V = Seq<SpanView>;

    closed spec fn view(&self) -> Seq<SpanView> {
        views(self.spans@)
    }
}

impl SpanStack {
    pub fn new() -> (stack: Self)
        ensures
            stack@ == Seq::<SpanView>::empty(),
    {
        let stack = SpanStack { spans: Vec::new() };
        assert(stack@ =~= Seq::<SpanView>::empty());
        stack
    }

    /// The number of entered spans.
    pub fn depth(&self) -> (depth: usize)
        ensures
            depth == self@.len(),
    {
        self.spans.len()
    }

    /// The innermost entered span, if any. The stack is not changed.
    pub fn current(&self) -> (top: Option<&Span>)
        ensures
            match top {
                Some(span) => self@.len() > 0 && span@ == self@.last(),
                None => self@.len() == 0,
            },
    {
        let depth: usize = self.spans.len();
        if depth > 0 {
            Some(&self.spans[depth - 1])
        } else {
            None
        }
    }

    /// Makes `span` the innermost entered span and hands out its guard.
    pub fn enter(&mut self, span: Span) -> (guard: ScopeGuard)
        ensures
            final(self)@ == old(self)@.push(span@),
            guard@ == guard_of(old(self)@, span@),
    {
        let guard = ScopeGuard {
            depth: self.spans.len(),
            trace_id: span.context().trace_id(),
            span_id: span.context().span_id(),
        };
        self.spans.push(span);
        assert(self@ =~= old(self)@.push(span@));
        guard
    }

    /// Releases the span of `guard` and gives it back to the caller.
    ///
    /// Only the innermost span can be released. A guard whose span lies
    /// deeper, or is not on this stack, is a misuse: it is reported and
    /// the stack stays as it is.
    pub fn exit(&mut self, guard: ScopeGuard) -> (released: Result<Span, SpanMisuseError>)
        ensures
            final(self)@ == after_release(old(self)@, guard@),
            match released {
                Ok(span) => release_check(old(self)@, guard@) is Ok && span@ == old(self)@.last(),
                Err(misuse) => release_check(old(self)@, guard@) == Err::<(), SpanMisuseError>(
                    misuse,
                ),
            },
    {
        let depth: usize = self.spans.len();
        if guard.depth >= depth {
            return Err(SpanMisuseError::NotEntered);
        }
        let held = &self.spans[guard.depth];
        if held.context().trace_id() != guard.trace_id || held.context().span_id()
            != guard.span_id {
            return Err(SpanMisuseError::NotEntered);
        }
        if guard.depth + 1 != depth {
            return Err(SpanMisuseError::OutOfOrder);
        }
        let span = self.spans.pop().unwrap();
        assert(self@ =~= old(self)@.drop_last());
        Ok(span)
    }

    /// Takes every entered span off the stack and hands them out in the
    /// order in which they were entered, the innermost last.
    pub fn unwind(&mut self) -> (spans: Vec<Span>)
        ensures
            final(self)@ == Seq::<SpanView>::empty(),
            spans@.len() == old(self)@.len(),
            forall|i: int| 0 <= i < spans@.len() ==> (#[trigger] spans@[i])@ == old(self)@[i],
    {
        let mut spans: Vec<Span> = Vec::new();
        std::mem::swap(&mut spans, &mut self.spans);
        assert(self@ =~= Seq::<SpanView>::empty());
        spans
    }
}

} // verus!
