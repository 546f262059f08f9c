//! The shared state the owning thread mutates: the live tracking records,
//! the tick's pending buffer of deferred operations, and the domain state
//! those operations act on.

use vstd::prelude::*;

use crate::laws::{lemma_apply_ops_snoc, lemma_apply_ops_wf};
use crate::ops::Op;

verus! {

/// One live tracking record: the shared-state entry for one in-flight
/// background body, identified uniquely and stable for its lifetime.
///
/// `consumed` records that the poller has already taken the finished body's
/// queue, so a completed result is merged at most once; the record itself is
/// destroyed only by the queue it produced, when that queue is applied.
#[derive(Clone, Copy, PartialEq, Eq, Structural, Debug)]
pub struct Record {
    pub id: u64,
    pub consumed: bool,
}

/// The mathematical view of the whole shared state.
#[verifier::ext_equal]
pub struct StateV {
    /// The identity the store will assign to the next record it creates.
    pub next_id: u64,
    /// The live tracking records, in creation order.
    pub records: Seq<Record>,
    /// The tick's pending buffer: operations merged by the poller and not
    /// yet applied.
    pub pending: Seq<Op>,
    /// Domain state: the numbers of the flags that have been set.
    pub flags: Seq<u64>,
    /// Domain state: a register overwritten by `Op::SetValue`.
    pub value: u64,
    /// The completion notifications delivered so far, in delivery order.
    pub delivered: Seq<u64>,
}

/// Some live record carries this identity.
pub open spec fn contains_id(rs: Seq<Record>, id: u64) -> bool {
    exists|i: int| 0 <= i < rs.len() && rs[i].id == id
}

/// Some live record carries this identity and its result is not yet taken.
pub open spec fn contains_unconsumed(rs: Seq<Record>, id: u64) -> bool {
    exists|i: int| 0 <= i < rs.len() && rs[i].id == id && !rs[i].consumed
}

/// The live records with every record of identity `id` removed.
pub open spec fn remove_id(rs: Seq<Record>, id: u64) -> Seq<Record>
    decreases rs.len(),
{
    if rs.len() == 0 {
        Seq::empty()
    } else if rs.last().id == id {
        remove_id(rs.drop_last(), id)
    } else {
        remove_id(rs.drop_last(), id).push(rs.last())
    }
}

/// Every record of identity `id` marked as having had its result taken.
pub open spec fn mark_consumed(rs: Seq<Record>, id: u64) -> Seq<Record> {
    rs.map(|i: int, r: Record| if r.id == id { Record { id: r.id, consumed: true } } else { r })
}

/// Record identities are distinct and below the allocator's next identity.
pub open spec fn wf_state(s: StateV) -> bool {
    &&& forall|i: int| 0 <= i < s.records.len() ==> (#[trigger] s.records[i]).id < s.next_id
    &&& forall|i: int, j: int|
        0 <= i < j < s.records.len() ==> (#[trigger] s.records[i]).id != (#[trigger] s.records[j]).id
}

/// One deferred operation applied against the shared state.
pub open spec fn apply_op(s: StateV, op: Op) -> StateV {
    match op {
        Op::SetFlag(x) => StateV { flags: s.flags.push(x), ..s },
        Op::SetValue(v) => StateV { value: v, ..s },
        Op::Destroy(id) => StateV { records: remove_id(s.records, id), ..s },
        Op::Notify(e) => StateV { delivered: s.delivered.push(e), ..s },
    }
}

/// A whole batch applied in append order: each operation sees the effects of
/// all the operations before it, and nothing runs in between.
pub open spec fn apply_ops(s: StateV, ops: Seq<Op>) -> StateV
    decreases ops.len(),
{
    if ops.len() == 0 {
        s
    } else {
        apply_ops(apply_op(s, ops[0]), ops.drop_first())
    }
}

/// The shared state before anything was launched.
pub open spec fn initial_state() -> StateV {
    StateV {
        next_id: 0,
        records: Seq::empty(),
        pending: Seq::empty(),
        flags: Seq::empty(),
        value: 0,
        delivered: Seq::empty(),
    }
}

/// The state after the store created one fresh record at launch.
pub open spec fn launch_state(s: StateV) -> StateV {
    StateV {
        next_id: (s.next_id + 1) as u64,
        records: s.records.push(Record { id: s.next_id, consumed: false }),
        ..s
    }
}

/// Why a launch or a poll failed.
#[derive(Clone, Copy, PartialEq, Eq, Structural, Debug)]
pub enum TaskError {
    /// The worker pool rejected the submission. Surfaced synchronously by
    /// `World::launch`; no tracking record is left behind.
    SpawnFailure,
    /// The background body of the record with this identity terminated
    /// abnormally instead of producing its queue. Surfaced by the poller on
    /// the owning thread, on every tick that polls the record.
    TaskFailure(u64),
}

/// The shared mutable state, owned and mutated by one thread only.
pub struct World {
    pub next_id: u64,
    pub records: Vec<Record>,
    pub pending: Vec<Op>,
    pub flags: Vec<u64>,
    pub value: u64,
    pub delivered: Vec<u64>,
}

impl View for World {
    type V = StateV;

    open spec fn view(&self) -> StateV {
        StateV {
            next_id: self.next_id,
            records: self.records@,
            pending: self.pending@,
            flags: self.flags@,
            value: self.value,
            delivered: self.delivered@,
        }
    }
}

impl World {
    pub open spec fn wf(self) -> bool {
        wf_state(self@)
    }

    pub fn new() -> (w: World)
        ensures
            w@ == initial_state(),
            w.wf(),
    {
        World {
            next_id: 0,
            records: Vec::new(),
            pending: Vec::new(),
            flags: Vec::new(),
            value: 0,
            delivered: Vec::new(),
        }
    }

    /// Launch: create the tracking record for one new background body,
    /// synchronously, before the body begins to run.
    ///
    /// `pool_accepts` is the outcome of handing the wrapped body to the
    /// worker pool, which only the host can observe. When the pool accepts,
    /// the fresh record's identity is returned, so the wrapped body can seal
    /// its queue with it. When the pool rejects the submission, the create
    /// step is rolled back atomically: the state is unchanged, no record is
    /// left behind, and `SpawnFailure` is surfaced to the caller.
    pub fn launch(&mut self, pool_accepts: bool) -> (r: Result<u64, TaskError>)
        requires
            old(self).wf(),
            old(self)@.next_id < u64::MAX,
        ensures
            final(self).wf(),
            pool_accepts ==> r == Ok::<u64, TaskError>(old(self)@.next_id)
                && final(self)@ == launch_state(old(self)@)
                && !contains_id(old(self)@.records, old(self)@.next_id),
            !pool_accepts ==> r == Err::<u64, TaskError>(TaskError::SpawnFailure)
                && final(self)@ == old(self)@,
    {
        if pool_accepts {
            let id = self.next_id;
            self.records.push(Record { id, consumed: false });
            self.next_id = self.next_id + 1;
            proof {
                let rs = self.records@;
                let prev = old(self)@.records;
                assert forall|i: int| 0 <= i < rs.len() implies (#[trigger] rs[i]).id
                    < self.next_id by {
                    if i < prev.len() {
                        assert(rs[i] == prev[i]);
                    } else {
                        assert(i == prev.len());
                        assert(rs[i].id == old(self).next_id);
                    }
                }
                assert forall|i: int, j: int| 0 <= i < j < rs.len() implies (#[trigger] rs[i]).id
                    != (#[trigger] rs[j]).id by {
                    assert(rs[i] == prev[i]);
                    if j < prev.len() {
                        assert(rs[j] == prev[j]);
                    } else {
                        assert(j == prev.len());
                        assert(rs[j].id == old(self).next_id);
                    }
                }
            }
            Ok(id)
        } else {
            Err(TaskError::SpawnFailure)
        }
    }

    /// Apply one deferred operation against the shared state.
    fn step(&mut self, op: Op)
        ensures
            final(self)@ == apply_op(old(self)@, op),
    {
        match op {
            Op::SetFlag(x) => self.flags.push(x),
            Op::SetValue(v) => self.value = v,
            Op::Destroy(id) => self.destroy(id),
            Op::Notify(e) => self.delivered.push(e),
        }
    }

    /// Destroy the tracking record with this identity: the reserved operation
    /// a completed body's queue carries for its own record.
    fn destroy(&mut self, id: u64)
        ensures
            final(self)@ == (StateV { records: remove_id(old(self)@.records, id), ..old(self)@ }),
    {
        let mut kept: Vec<Record> = Vec::new();
        let n = self.records.len();
        let mut j: usize = 0;
        while j < n
            invariant
                j <= n,
                n == self.records@.len(),
                *self == *old(self),
                kept@ == remove_id(self.records@.take(j as int), id),
            decreases n - j,
        {
            let r = self.records[j];
            proof {
                assert(self.records@.take(j as int + 1).drop_last() =~= self.records@.take(
                    j as int,
                ));
                assert(self.records@.take(j as int + 1).last() == r);
            }
            if r.id != id {
                kept.push(r);
            }
            j = j + 1;
        }
        proof {
            assert(self.records@.take(n as int) =~= self.records@);
        }
        self.records = kept;
    }

    /// Apply the tick's pending buffer against the shared state, in append
    /// order, then discard it: the buffer is consumed on the tick in which
    /// the completions were observed.
    pub fn apply_pending(&mut self)
        requires
            old(self).wf(),
        ensures
            final(self).wf(),
            final(self)@ == (StateV {
                pending: Seq::empty(),
                ..apply_ops(old(self)@, old(self)@.pending)
            }),
    {
        let ghost s0 = self@;
        let n = self.pending.len();
        let mut i: usize = 0;
        while i < n
            invariant
                i <= n,
                n == s0.pending.len(),
                self@ == apply_ops(s0, s0.pending.take(i as int)),
                self.pending@ == s0.pending,
            decreases n - i,
        {
            let op = self.pending[i];
            let ghost pre = self@;
            self.step(op);
            proof {
                lemma_apply_ops_snoc(s0, s0.pending.take(i as int), op);
                assert(s0.pending.take(i as int + 1) =~= s0.pending.take(i as int).push(op));
            }
            i = i + 1;
        }
        proof {
            assert(s0.pending.take(n as int) =~= s0.pending);
            lemma_apply_ops_wf(s0, s0.pending);
        }
        self.pending.clear();
    }
}

} // verus!
