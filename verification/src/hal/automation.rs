//! Automation sequences: multi-step procedures that are polled until they
//! complete or fault.
use vstd::prelude::*;

verus! {

/// An automation sequence which will either be polled to completion or abort
/// early with a fault.
pub trait AutomationSequence<Input, Output> {
    /// Extra info attached to a fault.
    type FaultInfo;

    fn poll(&mut self, inputs: &Input, outputs: &mut Output) -> Transition<Self::FaultInfo>;
}

/// The result of a single call to [`AutomationSequence::poll()`].
#[derive(Debug, Copy, Clone, PartialEq)]
pub enum Transition<F> {
    /// The [`AutomationSequence`] completed successfully.
    Complete,
    /// The [`AutomationSequence`] failed with a particular fault code.
    Fault(F),
    /// The [`AutomationSequence`] is still running.
    Incomplete,
}

impl<F> Transition<F> {
    /// Has the sequence finished, either by completing or by faulting?
    pub fn at_end_state(&self) -> (r: bool)
        ensures
            r <==> !(*self is Incomplete),
    {
        match self {
            Transition::Complete | Transition::Fault(..) => true,
            Transition::Incomplete => false,
        }
    }
}

/// A combinator which combines many [`AutomationSequence`]s and will poll them
/// all to completion, stopping when either a fault is raised or there are no
/// more incomplete sequences.
///
/// Each slot holds a sequence that is still running, or `None` once that
/// sequence has finished. The combination also remembers how many slots its
/// last poll went through: all of them, unless a sequence faulted, in which
/// case the last slot gone through is the one that faulted.
#[derive(Debug, Clone, PartialEq)]
pub struct All<A> {
    sequences: Vec<Option<A>>,
    visited: usize,
}

impl<A> View for All<A> {
    type V = Seq<Option<A>>;

    /// The slots, in the order they are polled.
    closed spec fn view(&self) -> Seq<Option<A>> {
        self.sequences@
    }
}

impl<A> All<A> {
    /// Combine the given sequences.
    pub fn new(items: Vec<Option<A>>) -> (r: Self)
        ensures
            r@ == items@,
            r.visited() == 0,
    {
        All { sequences: items, visited: 0 }
    }

    /// How many slots the last poll went through (none before the first).
    pub closed spec fn visited(self) -> nat {
        self.visited as nat
    }

    /// How many slots the last poll went through: every slot, unless a
    /// sequence faulted; then the faulting sequence's slot is the last one
    /// gone through.
    pub fn slots_visited(&self) -> (r: usize)
        ensures
            r == self.visited(),
    {
        self.visited
    }
}

/// Poll the sequence in a slot (an empty slot counts as complete), and empty
/// the slot once its sequence has reached an end state.
pub fn poll_variant<I, O, A: AutomationSequence<I, O>>(
    variant: &mut Option<A>,
    inputs: &I,
    outputs: &mut O,
) -> (r: Transition<A::FaultInfo>)
    ensures
        *old(variant) is None ==> r is Complete,
        *final(variant) is None <==> !(r is Incomplete),
{
    let trans = match variant {
        Some(sequence) => sequence.poll(inputs, outputs),
        None => Transition::Complete,
    };
    if trans.at_end_state() {
        *variant = None;
    }
    trans
}

/// Every slot is empty.
pub open spec fn all_finished<A>(slots: Seq<Option<A>>) -> bool {
    forall|i: int| 0 <= i < slots.len() ==> (#[trigger] slots[i]) is None
}

impl<I, O, A: AutomationSequence<I, O>> AutomationSequence<I, O> for All<A> {
    type FaultInfo = A::FaultInfo;

    /// Poll every running sequence once, in order, stopping at the first one
    /// that faults (its slot is emptied and the later slots are left alone).
    /// Sequences that finish have their slots emptied; the combination is
    /// complete once every slot is empty.
    ///
    /// Unless a sequence faults, the poll goes through every slot, so the
    /// combination completes exactly when no sequence is left running after
    /// it. What a sequence's own `poll` returns, and so which of them finish
    /// or fault, is up to the implementations of [`AutomationSequence`],
    /// which carry no contract: the clauses below hold whatever they return,
    /// and do not state which fault a running sequence reported.
    fn poll(&mut self, inputs: &I, outputs: &mut O) -> (r: Transition<A::FaultInfo>)
        ensures
            final(self)@.len() == old(self)@.len(),
            forall|i: int|
                0 <= i < old(self)@.len() && (#[trigger] old(self)@[i]) is None
                    ==> final(self)@[i] is None,
            r is Fault ==> exists|k: int|
                {
                    &&& 0 <= k < old(self)@.len()
                    &&& (#[trigger] old(self)@[k]) is Some
                    &&& final(self)@[k] is None
                    &&& forall|j: int| k < j < old(self)@.len() ==> final(self)@[j] == old(self)@[j]
                },
            r is Fault ==> {
                &&& 1 <= final(self).visited() <= old(self)@.len()
                &&& old(self)@[final(self).visited() - 1] is Some
                &&& final(self)@[final(self).visited() - 1] is None
                &&& forall|j: int|
                    final(self).visited() <= j < old(self)@.len() ==> final(self)@[j] == old(
                        self,
                    )@[j]
            },
            !(r is Fault) ==> final(self).visited() == old(self)@.len(),
            !(r is Fault) ==> (r is Complete <==> all_finished(final(self)@)),
    {
        let len = self.sequences.len();
        let mut i: usize = 0;
        while i < len
            invariant
                len == self.sequences@.len(),
                len == old(self)@.len(),
                i <= len,
                forall|j: int|
                    0 <= j < len && (#[trigger] old(self)@[j]) is None ==> self.sequences@[j] is None,
                forall|j: int| i <= j < len ==> self.sequences@[j] == #[trigger] old(self)@[j],
            decreases len - i,
        {
            let trans = poll_variant(&mut self.sequences[i], inputs, outputs);
            if let Transition::Fault(f) = trans {
                assert(old(self)@[i as int] is Some);
                self.visited = i + 1;
                return Transition::Fault(f);
            }
            i = i + 1;
        }
        self.visited = i;
        let mut k: usize = 0;
        while k < len
            invariant
                len == self.sequences@.len(),
                len == old(self)@.len(),
                forall|j: int|
                    0 <= j < len && (#[trigger] old(self)@[j]) is None ==> self.sequences@[j] is None,
                k <= len,
                self.visited == len,
                forall|j: int| 0 <= j < k ==> (#[trigger] self.sequences@[j]) is None,
            decreases len - k,
        {
            if self.sequences[k].is_some() {
                return Transition::Incomplete;
            }
            k = k + 1;
        }
        Transition::Complete
    }
}

} // verus!
