//! Deferred operations and the Mutation Queue a background body builds.

use vstd::prelude::*;

verus! {

/// One deferred operation against the shared state.
///
/// The first two variants are domain mutations, the only kind a background
/// body may append itself. The last two are reserved: they are appended once,
/// by [`MutationQueue::seal`], when a body completes.
#[derive(Clone, Copy, PartialEq, Eq, Structural, Debug)]
pub enum Op {
    /// Domain mutation: mark the flag with this number as set.
    SetFlag(u64),
    /// Domain mutation: overwrite the shared register with this value.
    SetValue(u64),
    /// Reserved: remove the tracking record with this identity from the live set.
    Destroy(u64),
    /// Reserved: deliver the completion notification with this number.
    Notify(u64),
}

impl Op {
    /// A domain operation: one the background body itself is allowed to append.
    pub open spec fn is_domain(self) -> bool {
        match self {
            Op::SetFlag(_) => true,
            Op::SetValue(_) => true,
            Op::Destroy(_) => false,
            Op::Notify(_) => false,
        }
    }
}

/// The operations a completed background body hands back: its own domain
/// mutations in append order, then `Destroy(id)`, then the optional `Notify`.
pub open spec fn sealed_ops(body: Seq<Op>, id: u64, notify: Option<u64>) -> Seq<Op> {
    match notify {
        Some(e) => body.push(Op::Destroy(id)).push(Op::Notify(e)),
        None => body.push(Op::Destroy(id)),
    }
}

/// An ordered, appendable list of deferred operations, built off the owning
/// thread by a background body and applied later, in append order, on the
/// owning thread only.
pub struct MutationQueue {
    pub ops: Vec<Op>,
}

impl View for MutationQueue {
    type V = Seq<Op>;

    open spec fn view(&self) -> Seq<Op> {
        self.ops@
    }
}

impl MutationQueue {
    /// Every operation so far is a domain operation: the queue is still open
    /// for the background body to append to, and not yet sealed.
    pub open spec fn all_domain(self) -> bool {
        forall|i: int| 0 <= i < self@.len() ==> self@[i].is_domain()
    }

    pub fn new() -> (q: Self)
        ensures
            q@ == Seq::<Op>::empty(),
            q.all_domain(),
    {
        MutationQueue { ops: Vec::new() }
    }

    /// Append one domain mutation, as the background body does while it runs.
    pub fn push(&mut self, op: Op)
        requires
            old(self).all_domain(),
            op.is_domain(),
        ensures
            final(self)@ == old(self)@.push(op),
            final(self).all_domain(),
    {
        self.ops.push(op);
        proof {
            assert forall|i: int| 0 <= i < self@.len() implies self@[i].is_domain() by {
                if i < old(self)@.len() {
                    assert(self@[i] == old(self)@[i]);
                }
            }
        }
    }

    /// Terminate the queue with the reserved trailing operations: destroy the
    /// tracking record `id`, then, if one was requested at launch, deliver the
    /// completion notification `notify`.
    pub fn seal(&mut self, id: u64, notify: Option<u64>)
        requires
            old(self).all_domain(),
        ensures
            final(self)@ == sealed_ops(old(self)@, id, notify),
    {
        self.ops.push(Op::Destroy(id));
        if let Some(e) = notify {
            self.ops.push(Op::Notify(e));
        }
    }
}

} // verus!
