//! The spans that are open in one thread of execution, innermost last.
//!
//! Entering a span pushes it and hands out a handle; the span is left by
//! giving the handle back, which pops it. Nothing is popped implicitly.

use crate::record::{Span, SpanModel};
use vstd::prelude::*;

verus! {

/// The stack of open spans of one thread of execution.
#[derive(Debug)]
pub struct SpanStack {
    spans: Vec<Span>,
}

impl View for SpanStack {
    type V = Seq<SpanModel>;

    closed spec fn view(&self) -> Seq<SpanModel> {
        self.spans@.map_values(|s: Span| s@)
    }
}

/// The right to leave the span that was entered at a given depth.
#[derive(Debug)]
pub struct SpanHandle {
    depth: usize,
}

impl SpanHandle {
    /// The number of spans that were open when the span was entered.
    pub closed spec fn depth(&self) -> nat {
        self.depth as nat
    }
}

impl SpanStack {
    /// No span is open.
    pub fn new() -> (stack: SpanStack)
        ensures
            stack@ == Seq::<SpanModel>::empty(),
    {
        let stack = SpanStack { spans: Vec::new() };
        stack
    }

    /// The number of open spans.
    pub fn depth(&self) -> (n: usize)
        ensures
            n == self@.len(),
    {
        self.spans.len()
    }

    /// The innermost open span, if any.
    pub fn active(&self) -> (top: Option<&Span>)
        ensures
            self@.len() == 0 ==> top is None,
            self@.len() > 0 ==> top is Some && top->0@ == self@.last(),
    {
        let n: usize = self.spans.len();
        if n == 0 {
            None
        } else {
            Some(&self.spans[n - 1])
        }
    }

    /// The name of the innermost open span, if any.
    pub fn active_name(&self) -> (name: Option<&str>)
        ensures
            self@.len() == 0 ==> name is None,
            self@.len() > 0 ==> name is Some && name->0@ == self@.last().name,
    {
        match self.active() {
            Some(span) => Some(span.name.as_str()),
            None => None,
        }
    }

    /// Opens `span` inside the spans that are open.
    pub fn enter(&mut self, span: Span) -> (handle: SpanHandle)
        ensures
            final(self)@ == old(self)@.push(span@),
            handle.depth() == old(self)@.len(),
    {
        let depth: usize = self.spans.len();
        self.spans.push(span);
        SpanHandle { depth }
    }

    /// Leaves the span that `handle` was given for, if it is the innermost
    /// open span, and hands the span back. Otherwise nothing changes and
    /// the result is `None`.
    pub fn exit(&mut self, handle: SpanHandle) -> (left: Option<Span>)
        ensures
            handle.depth() + 1 == old(self)@.len() ==> left is Some && left->0@ == old(self)@.last()
                && final(self)@ == old(self)@.drop_last(),
            handle.depth() + 1 != old(self)@.len() ==> left is None && final(self)@ == old(self)@,
    {
        let n: usize = self.spans.len();
        if n > 0 && handle.depth == n - 1 {
            let left = self.spans.pop();
            left
        } else {
            None
        }
    }
}

} // verus!
