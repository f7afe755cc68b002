//! The interface to the rendering engine. The engine itself is outside
//! the library: the shell calls it on the template text and the resolved
//! context, and hands its outcome back as plain values. What the library
//! states is the shape of a rendering failure — a top-level message and
//! its chain of nested causes, outermost first — and the failure output
//! order: the top message first, then each cause on its own line, in
//! cause order.

use vstd::prelude::*;
use crate::prompt::lines_view;

verus! {

/// A rendering failure: the top-level message followed by each nested
/// cause, outermost first. Built from the top message and its causes, so
/// a failure always carries at least one message.
#[derive(Debug)]
pub struct RenderFailure {
    messages: Vec<String>,
}

impl View for RenderFailure {
    type V = Seq<Seq<char>>;

    closed spec fn view(&self) -> Seq<Seq<char>> {
        self.messages@.map_values(|m: String| m@)
    }
}

impl RenderFailure {
    /// Builds a failure from the top-level message and the nested causes,
    /// outermost first.
    pub fn new(top: String, causes: Vec<String>) -> (r: RenderFailure)
        ensures
            r@ == seq![top@] + lines_view(causes@),
            r@.len() >= 1,
    {
        let ghost top_view = top@;
        let ghost causes_view = causes@;
        let mut messages: Vec<String> = Vec::new();
        messages.push(top);
        let mut rest = causes;
        messages.append(&mut rest);
        let r = RenderFailure { messages };
        proof {
            assert(r@ =~= seq![top_view] + lines_view(causes_view));
        }
        r
    }

    /// The failure output: the top-level message, then each nested cause
    /// on its own line, in cause order.
    pub fn report(&self) -> (lines: Vec<String>)
        ensures
            lines_view(lines@) == self@,
    {
        let mut lines: Vec<String> = Vec::new();
        let mut i: usize = 0;
        proof {
            assert(lines_view(lines@) =~= self@.take(0));
        }
        while i < self.messages.len()
            invariant
                0 <= i <= self.messages.len(),
                self@.len() == self.messages@.len(),
                lines_view(lines@) == self@.take(i as int),
            decreases self.messages.len() - i,
        {
            let ghost base = lines@;
            lines.push(self.messages[i].clone());
            proof {
                assert(lines_view(lines@) =~= lines_view(base).push(self.messages@[i as int]@));
                assert(self@.take(i + 1) =~= self@.take(i as int).push(self@[i as int]));
                assert(self@[i as int] == self.messages@[i as int]@);
            }
            i = i + 1;
        }
        proof {
            assert(self@.take(i as int) =~= self@);
        }
        lines
    }
}

} // verus!
