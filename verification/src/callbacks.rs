//! The chain of observers that a driver shows each message to.
//!
//! Observers are kept and asked in the order in which they were
//! registered; none is ever moved or left out. Each observer accepts or
//! rejects a message. All of them see it; if any rejects it, the message
//! is dropped on the path that the chain guards, and on that path only.

use vstd::prelude::*;

verus! {

/// What becomes of a message after the observers have seen it.
#[derive(Clone, Copy, Debug, PartialEq, Eq, Structural)]
pub enum Verdict {
    /// Every observer accepted: the message goes on.
    Deliver,
    /// An observer rejected: the message is dropped on this path.
    Drop,
}

/// Observers of type `C`, in the order of their registration.
#[derive(Debug)]
pub struct Callbacks<C> {
    callbacks: Vec<C>,
}

impl<C> View for Callbacks<C> {
    type V = Seq<C>;

    closed spec fn view(&self) -> Seq<C> {
        self.callbacks@
    }
}

impl<C> Callbacks<C> {
    /// A chain without observers.
    pub fn new() -> (chain: Callbacks<C>)
        ensures
            chain@ == Seq::<C>::empty(),
    {
        Callbacks { callbacks: Vec::new() }
    }

    /// Registers `callback` behind the observers that are there.
    pub fn add_callback(&mut self, callback: C)
        ensures
            final(self)@ == old(self)@.push(callback),
    {
        self.callbacks.push(callback);
    }

    /// Number of observers.
    pub fn len(&self) -> (len: usize)
        ensures
            len == self@.len(),
    {
        self.callbacks.len()
    }

    /// The observers, in the order in which they are to be asked.
    pub fn call_all(&self) -> (callbacks: &[C])
        ensures
            callbacks@ == self@,
    {
        self.callbacks.as_slice()
    }
}

/// Every observer accepted.
pub open spec fn all_accepted(answers: Seq<bool>) -> bool {
    forall|i: int| 0 <= i < answers.len() ==> answers[i]
}

/// The verdict on a message of which the observers said `answers`, one
/// answer each, `true` for acceptance: it is delivered if none rejected it.
pub fn verdict(answers: &[bool]) -> (verdict: Verdict)
    ensures
        verdict == if all_accepted(answers@) {
            Verdict::Deliver
        } else {
            Verdict::Drop
        },
{
    let mut i: usize = 0;
    while i < answers.len()
        invariant
            i <= answers.len(),
            forall|k: int| 0 <= k < i ==> answers@[k],
        decreases answers.len() - i,
    {
        if !answers[i] {
            return Verdict::Drop;
        }
        i = i + 1;
    }
    Verdict::Deliver
}

} // verus!
