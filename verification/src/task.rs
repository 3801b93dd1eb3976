//! Fibers — in-flight script executions — and the records that park them
//! on an actor's agenda.
use vstd::prelude::*;

use std::sync::Arc;

use crate::action::Action;
use crate::action::ActorHandle;
use crate::action::Value;
use crate::action::script_wf;
use crate::action::value_wf;
use crate::action::lemma_value_wf_mono;
use crate::time::Instant;

verus! {

broadcast use vstd::std_specs::vec::group_vec_axioms, vstd::seq::group_seq_axioms;

/// One call-stack entry of a fiber: a program counter into a shared
/// script, and the frame's local bindings.
pub struct StackFrame {
    pub pc: usize,
    pub script: Arc<Vec<Action>>,
    pub locals: Vec<(String, Value)>,
}

/// One in-flight script execution: the actor it runs on and its call
/// stack.  The fiber ends when the top frame runs past its script or the
/// stack empties.
pub struct Fiber {
    pub me: ActorHandle,
    pub stack: Vec<StackFrame>,
}

/// The dispatch key of a parked task: earliest time first, and among equal
/// times the oldest guid first.
#[derive(Copy, Clone, PartialEq, Eq, Structural, Debug)]
pub struct SortToken {
    pub eta: Instant,
    pub guid: u64,
}

/// Strict lexicographic order on `(eta, guid)`.
pub open spec fn token_lt(a: SortToken, b: SortToken) -> bool {
    a.eta.at.raw < b.eta.at.raw || (a.eta.at.raw == b.eta.at.raw && a.guid < b.guid)
}

/// Non-strict lexicographic order on `(eta, guid)`.
pub open spec fn token_le(a: SortToken, b: SortToken) -> bool {
    token_lt(a, b) || a == b
}

impl SortToken {
    /// Decide the strict `(eta, guid)` order.
    pub fn before(&self, other: &SortToken) -> (r: bool)
        ensures
            r == token_lt(*self, *other),
    {
        self.eta.at.raw < other.eta.at.raw || (self.eta.at.raw == other.eta.at.raw && self.guid
            < other.guid)
    }
}

/// A fiber parked on an agenda's task slot, with its dispatch key.
pub struct QueuedTask {
    pub token: SortToken,
    pub fiber: Box<Fiber>,
}

/// A fiber parked on a listener table entry.  Its eta is assigned when a
/// matching transmit fulfils it; the guid was drawn when it began
/// listening.
pub struct Waiting {
    pub guid: u64,
    pub fiber: Box<Fiber>,
}

impl QueuedTask {
    /// Pair a fiber with its dispatch key.
    pub fn new(token: SortToken, fiber: Box<Fiber>) -> (r: Self)
        ensures
            r.token == token,
            r.fiber == fiber,
    {
        QueuedTask { token, fiber }
    }

    /// Split a dispatched task into its time and its fiber.
    pub fn into_parts(self) -> (r: (Instant, Box<Fiber>))
        ensures
            r.0 == self.token.eta,
            r.1 == self.fiber,
    {
        let QueuedTask { token, fiber } = self;
        (token.eta, fiber)
    }
}

/// A frame is well-formed against an actor table of length `n` when its
/// script never waits a negative interval and every local value only
/// holds handles below `n`.
pub open spec fn frame_wf(f: StackFrame, n: int) -> bool {
    &&& script_wf(f.script@)
    &&& forall|j: int| 0 <= j < f.locals@.len() ==> value_wf((#[trigger] f.locals@[j]).1, n)
}

/// A fiber is well-formed when it runs on a valid actor and all its
/// frames are well-formed.
pub open spec fn fiber_wf(f: Fiber, n: int) -> bool {
    &&& (f.me.idx as int) < n
    &&& forall|i: int| 0 <= i < f.stack@.len() ==> frame_wf(#[trigger] f.stack@[i], n)
}

/// Well-formedness of fibers survives growing the actor table.
pub proof fn lemma_fiber_wf_mono(f: Fiber, n: int, m: int)
    requires
        fiber_wf(f, n),
        n <= m,
    ensures
        fiber_wf(f, m),
{
    assert forall|i: int| 0 <= i < f.stack@.len() implies frame_wf(#[trigger] f.stack@[i], m) by {
        let fr = f.stack@[i];
        assert(frame_wf(fr, n));
        assert forall|j: int| 0 <= j < fr.locals@.len() implies value_wf(
            (#[trigger] fr.locals@[j]).1,
            m,
        ) by {
            lemma_value_wf_mono(fr.locals@[j].1, n, m);
        }
    }
}

impl Fiber {
    /// A fresh fiber on `me`, about to run `script` with no locals.
    pub fn new(me: ActorHandle, script: Arc<Vec<Action>>) -> (r: Fiber)
        ensures
            r.me == me,
            r.stack@.len() == 1,
            r.stack@[0].pc == 0,
            r.stack@[0].script == script,
            r.stack@[0].locals@ == Seq::<(String, Value)>::empty(),
    {
        Fiber { me, stack: vec![StackFrame { pc: 0, script, locals: Vec::new() }] }
    }

    /// The top frame, if the stack is not empty.
    pub fn frame(&self) -> (r: Option<&StackFrame>)
        ensures
            match r {
                Some(f) => self.stack@.len() > 0 && *f == self.stack@.last(),
                None => self.stack@.len() == 0,
            },
    {
        if self.stack.len() > 0 {
            Some(&self.stack[self.stack.len() - 1])
        } else {
            None
        }
    }

    /// Mutable access to the top frame of a non-empty stack.
    pub fn frame_mut(&mut self) -> (r: &mut StackFrame)
        requires
            old(self).stack@.len() > 0,
        ensures
            *r == old(self).stack@.last(),
            final(self).me == old(self).me,
            final(self).stack@ == old(self).stack@.update(
                old(self).stack@.len() - 1,
                *final(r),
            ),
    {
        let last = self.stack.len() - 1;
        &mut self.stack[last]
    }

    /// Read the next action of the top frame and advance its program
    /// counter.  Returns `None` — leaving the fiber unchanged — when the
    /// stack is empty or the top frame has run past its script: either
    /// way the fiber is finished.
    pub fn fetch(&mut self) -> (r: Option<Action>)
        ensures
            match r {
                None => {
                    &&& *final(self) == *old(self)
                    &&& (old(self).stack@.len() == 0 || old(self).stack@.last().pc
                        >= old(self).stack@.last().script@.len())
                },
                Some(a) => {
                    &&& old(self).stack@.len() > 0
                    &&& old(self).stack@.last().pc < old(self).stack@.last().script@.len()
                    &&& a == old(self).stack@.last().script@[old(self).stack@.last().pc as int]
                    &&& final(self).me == old(self).me
                    &&& final(self).stack@ == old(self).stack@.update(
                        old(self).stack@.len() - 1,
                        StackFrame {
                            pc: (old(self).stack@.last().pc + 1) as usize,
                            ..old(self).stack@.last()
                        },
                    )
                },
            },
    {
        if self.stack.len() == 0 {
            return None;
        }
        let last = self.stack.len() - 1;
        let pc = self.stack[last].pc;
        if pc >= self.stack[last].script.len() {
            return None;
        }
        let action = self.stack[last].script[pc].clone();
        let frame = &mut self.stack[last];
        frame.pc = pc + 1;
        Some(action)
    }
}

} // verus!
