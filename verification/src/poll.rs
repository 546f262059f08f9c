//! The per-tick, non-blocking poll of the live tracking records, and the
//! tick that applies what the completed bodies produced.

use vstd::prelude::*;

use crate::laws::lemma_mark_consumed_wf;
use crate::ops::MutationQueue;
use crate::state::{
    apply_ops, contains_unconsumed, mark_consumed, wf_state, Record, StateV, TaskError, World,
};

verus! {

/// What one non-blocking check of an in-flight background body reported.
/// Only the host can observe this; the poller takes it as its event.
pub enum PollStatus {
    /// The body has not finished yet.
    Pending,
    /// The body completed normally; this is the queue it built and sealed.
    Finished(MutationQueue),
    /// The body terminated abnormally instead of producing a queue.
    Aborted,
}

/// One record's poll folded over the state. A record that is unknown, or
/// whose result was already taken, is left untouched whatever the status
/// says: a completed result is merged at most once. An unfinished body
/// leaves no trace at all, and an abnormal termination changes nothing
/// either — it only surfaces as an error.
pub open spec fn poll_one_spec(s: StateV, id: u64, st: PollStatus) -> StateV {
    if contains_unconsumed(s.records, id) {
        match st {
            PollStatus::Pending => s,
            PollStatus::Finished(q) => StateV {
                records: mark_consumed(s.records, id),
                pending: s.pending + q@,
                ..s
            },
            PollStatus::Aborted => s,
        }
    } else {
        s
    }
}

/// Whether polling this record propagates an abnormal termination to the
/// owning thread.
pub open spec fn poll_one_aborts(s: StateV, id: u64, st: PollStatus) -> bool {
    st is Aborted && contains_unconsumed(s.records, id)
}

/// A poll that can no longer do anything: the body was observed unfinished,
/// or no live record of that identity still holds an untaken result.
pub open spec fn poll_inactive(s: StateV, id: u64, st: PollStatus) -> bool {
    st is Pending || !contains_unconsumed(s.records, id)
}

/// The state after polling the given records in order, stopping at the
/// first record whose body aborted abnormally, together with that record's
/// identity if there was one.
pub open spec fn poll_all_res(s: StateV, sts: Seq<(u64, PollStatus)>) -> (StateV, Option<u64>)
    decreases sts.len(),
{
    if sts.len() == 0 {
        (s, None)
    } else if poll_one_aborts(s, sts[0].0, sts[0].1) {
        (s, Some(sts[0].0))
    } else {
        poll_all_res(poll_one_spec(s, sts[0].0, sts[0].1), sts.drop_first())
    }
}

/// What poll-all returns for the given records.
pub open spec fn poll_all_outcome(s: StateV, sts: Seq<(u64, PollStatus)>) -> Result<
    (),
    TaskError,
> {
    match poll_all_res(s, sts).1 {
        None => Ok(()),
        Some(id) => Err(TaskError::TaskFailure(id)),
    }
}

impl World {
    /// Non-blocking poll of one tracking record, given what the host
    /// observed of its background body.
    ///
    /// A finished body's queue is merged into the tick's pending buffer, in
    /// arrival order, and the record is marked consumed. An unfinished body
    /// has no observable effect. An abnormal termination is propagated to
    /// the owning thread as `TaskFailure` — the failure policy this bridge
    /// fixes — and the record stays live and unconsumed, so the same
    /// failure surfaces again on every later poll.
    pub fn poll_one(&mut self, id: u64, status: PollStatus) -> (r: Result<(), TaskError>)
        requires
            old(self).wf(),
        ensures
            final(self).wf(),
            final(self)@ == poll_one_spec(old(self)@, id, status),
            r == (if poll_one_aborts(old(self)@, id, status) {
                Err::<(), TaskError>(TaskError::TaskFailure(id))
            } else {
                Ok::<(), TaskError>(())
            }),
    {
        let n = self.records.len();
        let mut j: usize = 0;
        while j < n && !(self.records[j].id == id && !self.records[j].consumed)
            invariant
                j <= n,
                n == self.records@.len(),
                *self == *old(self),
                forall|k: int|
                    0 <= k < j ==> !((#[trigger] self.records@[k]).id == id
                        && !self.records@[k].consumed),
            decreases n - j,
        {
            j = j + 1;
        }
        if j == n {
            // no live, unconsumed record carries this identity: no effect
            assert(!contains_unconsumed(self@.records, id));
            return Ok(());
        }
        match status {
            PollStatus::Pending => Ok(()),
            PollStatus::Aborted => Err(TaskError::TaskFailure(id)),
            PollStatus::Finished(mut q) => {
                let ghost prev = old(self)@.records;
                self.records[j] = Record { id, consumed: true };
                self.pending.append(&mut q.ops);
                proof {
                    assert(contains_unconsumed(prev, id));
                    // identities are unique, so updating the one found index
                    // marks every record of this identity
                    assert forall|k: int| 0 <= k < prev.len() implies self@.records[k]
                        == mark_consumed(prev, id)[k] by {
                        if k != j {
                            assert(prev[k].id != prev[j as int].id);
                        }
                    }
                    assert(self@.records =~= mark_consumed(prev, id));
                    lemma_mark_consumed_wf(old(self)@, id);
                }
                Ok(())
            },
        }
    }

    /// Poll every given record once, in order, without blocking: the
    /// per-tick sweep over the live record set, with what the host observed
    /// of each record's body.
    ///
    /// The queues of the bodies that finished are merged into the tick's
    /// pending buffer, first finished first. The sweep stops at the first
    /// record whose body aborted abnormally and propagates that as
    /// `TaskFailure`; the records already swept keep their merged results.
    #[verifier::loop_isolation(false)]
    pub fn poll_all(&mut self, statuses: Vec<(u64, PollStatus)>) -> (r: Result<(), TaskError>)
        requires
            old(self).wf(),
        ensures
            final(self).wf(),
            final(self)@ == poll_all_res(old(self)@, statuses@).0,
            r == poll_all_outcome(old(self)@, statuses@),
    {
        let ghost s0 = self@;
        let ghost all = statuses@;
        let mut rest = statuses;
        while rest.len() > 0
            invariant
                wf_state(self@),
                poll_all_res(s0, all) == poll_all_res(self@, rest@),
            decreases rest@.len(),
        {
            let ghost before = rest@;
            let ghost pre = self@;
            let (id, st) = rest.remove(0);
            proof {
                assert(before[0] == (id, st));
                assert(before.drop_first() =~= rest@);
            }
            match self.poll_one(id, st) {
                Ok(()) => {},
                Err(e) => {
                    proof {
                        assert(poll_one_aborts(pre, id, st));
                        assert(poll_all_res(pre, before) == (pre, Some(id)));
                        assert(self@ == pre);
                    }
                    return Err(e);
                },
            }
        }
        proof {
            assert(poll_all_res(self@, rest@) == (self@, Option::<u64>::None));
        }
        Ok(())
    }

    /// One owning-thread tick: poll every given record without blocking,
    /// then apply the tick's pending buffer in append order and discard it.
    ///
    /// When a polled body aborted abnormally, the failure is propagated
    /// before anything is applied: the buffer keeps what was merged and is
    /// applied by the tick that next gets through the sweep.
    pub fn tick(&mut self, statuses: Vec<(u64, PollStatus)>) -> (r: Result<(), TaskError>)
        requires
            old(self).wf(),
        ensures
            final(self).wf(),
            r == poll_all_outcome(old(self)@, statuses@),
            r is Ok ==> final(self)@ == (StateV {
                pending: Seq::empty(),
                ..apply_ops(
                    poll_all_res(old(self)@, statuses@).0,
                    poll_all_res(old(self)@, statuses@).0.pending,
                )
            }),
            r is Err ==> final(self)@ == poll_all_res(old(self)@, statuses@).0,
    {
        match self.poll_all(statuses) {
            Ok(()) => {
                self.apply_pending();
                Ok(())
            },
            Err(e) => Err(e),
        }
    }
}

} // verus!
