//! The laws the bridge protocol obeys, stated and proved over the
//! mathematical model in [`crate::state`] and [`crate::poll`].

use vstd::prelude::*;

use crate::ops::{sealed_ops, MutationQueue, Op};
use crate::poll::{poll_all_res, poll_inactive, poll_one_aborts, poll_one_spec, PollStatus};
use crate::state::{
    apply_op, apply_ops, contains_id, contains_unconsumed, mark_consumed, remove_id, wf_state,
    Record, StateV,
};

verus! {

/// Applying a batch and then one more operation is the same as applying the
/// batch extended by that operation: the append order is the execution order.
pub proof fn lemma_apply_ops_snoc(s: StateV, ops: Seq<Op>, op: Op)
    ensures
        apply_ops(s, ops.push(op)) == apply_op(apply_ops(s, ops), op),
    decreases ops.len(),
{
    reveal_with_fuel(apply_ops, 2);
    if ops.len() == 0 {
        assert(ops.push(op)[0] == op);
        assert(ops.push(op).drop_first() =~= Seq::<Op>::empty());
    } else {
        assert(ops.push(op)[0] == ops[0]);
        assert(ops.push(op).drop_first() =~= ops.drop_first().push(op));
        lemma_apply_ops_snoc(apply_op(s, ops[0]), ops.drop_first(), op);
    }
}

/// Strict serialization: a batch split anywhere applies as the first part,
/// then the second part against the state the first part produced. No
/// operation of the second part is interleaved with the first.
pub proof fn lemma_apply_ops_serialized(s: StateV, first: Seq<Op>, second: Seq<Op>)
    ensures
        apply_ops(s, first + second) == apply_ops(apply_ops(s, first), second),
    decreases first.len(),
{
    if first.len() == 0 {
        assert(first + second =~= second);
    } else {
        assert((first + second)[0] == first[0]);
        assert((first + second).drop_first() =~= first.drop_first() + second);
        lemma_apply_ops_serialized(apply_op(s, first[0]), first.drop_first(), second);
    }
}

/// Every record kept by `remove_id` was among the given records.
proof fn lemma_remove_id_keeps_only(rs: Seq<Record>, id: u64)
    ensures
        forall|k: int|
            0 <= k < remove_id(rs, id).len() ==> rs.contains(#[trigger] remove_id(rs, id)[k]),
        remove_id(rs, id).len() <= rs.len(),
    decreases rs.len(),
{
    if rs.len() > 0 {
        lemma_remove_id_keeps_only(rs.drop_last(), id);
        assert(forall|k: int|
            0 <= k < rs.drop_last().len() ==> rs.contains(#[trigger] rs.drop_last()[k]));
    }
}

/// After `remove_id`, no record carries the removed identity.
pub proof fn lemma_remove_id_gone(rs: Seq<Record>, id: u64)
    ensures
        !contains_id(remove_id(rs, id), id),
    decreases rs.len(),
{
    if rs.len() > 0 {
        lemma_remove_id_gone(rs.drop_last(), id);
    }
}

/// `remove_id` keeps exactly the records of other identities, in order; in
/// particular it preserves well-formedness of the record set.
proof fn lemma_remove_id_wf(s: StateV, id: u64)
    requires
        wf_state(s),
    ensures
        wf_state(StateV { records: remove_id(s.records, id), ..s }),
{
    lemma_remove_id_keeps_only(s.records, id);
    let kept = remove_id(s.records, id);
    assert forall|i: int| 0 <= i < kept.len() implies (#[trigger] kept[i]).id < s.next_id by {
        let w = choose|w: int| 0 <= w < s.records.len() && s.records[w] == kept[i];
        assert(s.records[w].id < s.next_id);
    }
    assert forall|i: int, j: int|
        0 <= i < j < kept.len() implies (#[trigger] kept[i]).id != (#[trigger] kept[j]).id by {
        lemma_remove_id_distinct(s.records, id, i, j);
    }
}

/// Distinctness of identities survives `remove_id`.
proof fn lemma_remove_id_distinct(rs: Seq<Record>, id: u64, i: int, j: int)
    requires
        forall|a: int, b: int|
            0 <= a < b < rs.len() ==> (#[trigger] rs[a]).id != (#[trigger] rs[b]).id,
        0 <= i < j < remove_id(rs, id).len(),
    ensures
        remove_id(rs, id)[i].id != remove_id(rs, id)[j].id,
    decreases rs.len(),
{
    if rs.len() > 0 {
        let kept = remove_id(rs, id);
        let prev = remove_id(rs.drop_last(), id);
        assert(forall|a: int, b: int|
            0 <= a < b < rs.drop_last().len() ==> (#[trigger] rs.drop_last()[a]).id != (
            #[trigger] rs.drop_last()[b]).id);
        if rs.last().id == id {
            lemma_remove_id_distinct(rs.drop_last(), id, i, j);
        } else {
            if j < prev.len() {
                lemma_remove_id_distinct(rs.drop_last(), id, i, j);
            } else {
                lemma_remove_id_keeps_only(rs.drop_last(), id);
                let w = choose|w: int| 0 <= w < rs.drop_last().len() && rs.drop_last()[w] == prev[i];
                assert(rs[w] == rs.drop_last()[w]);
                assert(rs[w].id != rs.last().id);
            }
        }
    }
}

/// Applying any batch preserves well-formedness of the record set: domain
/// operations and notifications leave the records alone, and a destruction
/// only removes records.
pub proof fn lemma_apply_ops_wf(s: StateV, ops: Seq<Op>)
    requires
        wf_state(s),
    ensures
        wf_state(apply_ops(s, ops)),
    decreases ops.len(),
{
    if ops.len() > 0 {
        lemma_apply_op_wf(s, ops[0]);
        lemma_apply_ops_wf(apply_op(s, ops[0]), ops.drop_first());
    }
}

/// One applied operation preserves well-formedness of the record set.
proof fn lemma_apply_op_wf(s: StateV, op: Op)
    requires
        wf_state(s),
    ensures
        wf_state(apply_op(s, op)),
{
    match op {
        Op::Destroy(id) => lemma_remove_id_wf(s, id),
        _ => {},
    }
}

/// Marking a record's result as taken changes no identity and preserves
/// well-formedness.
pub proof fn lemma_mark_consumed_wf(s: StateV, id: u64)
    requires
        wf_state(s),
    ensures
        wf_state(StateV { records: mark_consumed(s.records, id), ..s }),
{
    assert(forall|i: int|
        0 <= i < s.records.len() ==> (#[trigger] mark_consumed(s.records, id)[i]).id
            == s.records[i].id);
}

/// Domain operations touch only the domain state: they create, remove and
/// notify nothing.
proof fn lemma_domain_ops_leave_lifecycle(s: StateV, body: Seq<Op>)
    requires
        forall|i: int| 0 <= i < body.len() ==> (#[trigger] body[i]).is_domain(),
    ensures
        apply_ops(s, body).records == s.records,
        apply_ops(s, body).delivered == s.delivered,
        apply_ops(s, body).pending == s.pending,
        apply_ops(s, body).next_id == s.next_id,
    decreases body.len(),
{
    if body.len() > 0 {
        assert forall|i: int|
            0 <= i < body.drop_first().len() implies (#[trigger] body.drop_first()[i]).is_domain()
        by {
            assert(body.drop_first()[i] == body[i + 1]);
        }
        lemma_domain_ops_leave_lifecycle(apply_op(s, body[0]), body.drop_first());
    }
}

/// Cleanup exactly once, notification exactly once, and strictly in that
/// order: applying the queue a completed body sealed removes the body's own
/// tracking record from the live set; before the optional notification is
/// delivered the record is already gone, and the notification is delivered
/// exactly once, as the queue's very last operation.
pub proof fn lemma_completion_lifecycle(s: StateV, body: Seq<Op>, id: u64, e: u64)
    requires
        forall|i: int| 0 <= i < body.len() ==> (#[trigger] body[i]).is_domain(),
    ensures
        !contains_id(apply_ops(s, sealed_ops(body, id, None)).records, id),
        apply_ops(s, sealed_ops(body, id, None)).delivered == s.delivered,
        apply_ops(s, sealed_ops(body, id, Some(e))) == apply_op(
            apply_ops(s, sealed_ops(body, id, None)),
            Op::Notify(e),
        ),
        !contains_id(apply_ops(s, sealed_ops(body, id, Some(e))).records, id),
        apply_ops(s, sealed_ops(body, id, Some(e))).delivered == s.delivered.push(e),
{
    let mid = apply_ops(s, body);
    lemma_domain_ops_leave_lifecycle(s, body);
    lemma_apply_ops_snoc(s, body, Op::Destroy(id));
    lemma_remove_id_gone(mid.records, id);
    lemma_apply_ops_snoc(s, body.push(Op::Destroy(id)), Op::Notify(e));
}

/// Polling records whose bodies have not finished has no observable effect:
/// no record is removed or consumed, nothing is merged, nothing fails.
pub proof fn lemma_pending_poll_no_effect(s: StateV, id: u64, sts: Seq<(u64, PollStatus)>)
    requires
        forall|i: int| 0 <= i < sts.len() ==> (#[trigger] sts[i]).1 is Pending,
    ensures
        poll_one_spec(s, id, PollStatus::Pending) == s,
        poll_all_res(s, sts) == (s, Option::<u64>::None),
    decreases sts.len(),
{
    if sts.len() > 0 {
        assert(sts[0].1 is Pending);
        assert forall|i: int|
            0 <= i < sts.drop_first().len() implies (#[trigger] sts.drop_first()[i]).1 is Pending
        by {
            assert(sts.drop_first()[i] == sts[i + 1]);
        }
        lemma_pending_poll_no_effect(s, id, sts.drop_first());
    }
}

/// An inactive poll is a no-op and cannot fail.
proof fn lemma_inactive_noop(s: StateV, id: u64, st: PollStatus)
    requires
        poll_inactive(s, id, st),
    ensures
        poll_one_spec(s, id, st) == s,
        !poll_one_aborts(s, id, st),
{
}

/// Once a record's poll has happened without failing, that poll is inactive:
/// either the body was unfinished, or its result is now taken.
proof fn lemma_poll_one_self_inactive(s: StateV, id: u64, st: PollStatus)
    requires
        !poll_one_aborts(s, id, st),
    ensures
        poll_inactive(poll_one_spec(s, id, st), id, st),
{
    match st {
        PollStatus::Finished(q) => {
            if contains_unconsumed(s.records, id) {
                let marked = mark_consumed(s.records, id);
                assert forall|i: int|
                    0 <= i < marked.len() implies !((#[trigger] marked[i]).id == id
                    && !marked[i].consumed) by {
                    assert(marked[i] == (if s.records[i].id == id {
                        Record { id: s.records[i].id, consumed: true }
                    } else {
                        s.records[i]
                    }));
                }
                assert(!contains_unconsumed(marked, id));
            }
        },
        _ => {},
    }
}

/// Polls only take results, never give them back: an inactive poll stays
/// inactive under any other record's poll.
proof fn lemma_poll_one_keeps_inactive(s: StateV, id: u64, st: PollStatus, id2: u64, st2: PollStatus)
    requires
        poll_inactive(s, id, st),
    ensures
        poll_inactive(poll_one_spec(s, id2, st2), id, st),
{
    if !(st is Pending) {
        match st2 {
            PollStatus::Finished(q) => {
                if contains_unconsumed(s.records, id2) {
                    let marked = mark_consumed(s.records, id2);
                    assert forall|i: int|
                        0 <= i < marked.len() implies !((#[trigger] marked[i]).id == id
                        && !marked[i].consumed) by {
                        assert(marked[i] == (if s.records[i].id == id2 {
                            Record { id: s.records[i].id, consumed: true }
                        } else {
                            s.records[i]
                        }));
                        if marked[i].id == id && !marked[i].consumed {
                            assert(s.records[i].id == id && !s.records[i].consumed);
                            assert(contains_unconsumed(s.records, id));
                        }
                    }
                    assert(!contains_unconsumed(marked, id));
                }
            },
            _ => {},
        }
    }
}

/// An inactive poll stays inactive under a whole sweep.
proof fn lemma_polls_keep_inactive(s: StateV, id: u64, st: PollStatus, sts: Seq<(u64, PollStatus)>)
    requires
        poll_inactive(s, id, st),
    ensures
        poll_inactive(poll_all_res(s, sts).0, id, st),
    decreases sts.len(),
{
    if sts.len() > 0 && !poll_one_aborts(s, sts[0].0, sts[0].1) {
        lemma_poll_one_keeps_inactive(s, id, st, sts[0].0, sts[0].1);
        lemma_polls_keep_inactive(poll_one_spec(s, sts[0].0, sts[0].1), id, st, sts.drop_first());
    }
}

/// Idempotence of the per-tick sweep: sweeping the same observations again
/// from the state the first sweep produced changes nothing — every completed
/// result was already taken, so nothing is merged twice — and reports the
/// same outcome.
pub proof fn lemma_poll_all_idempotent(s: StateV, sts: Seq<(u64, PollStatus)>)
    ensures
        poll_all_res(poll_all_res(s, sts).0, sts) == poll_all_res(s, sts),
    decreases sts.len(),
{
    if sts.len() > 0 {
        let id = sts[0].0;
        let st = sts[0].1;
        if !poll_one_aborts(s, id, st) {
            let s1 = poll_one_spec(s, id, st);
            let r = poll_all_res(s1, sts.drop_first());
            lemma_poll_all_idempotent(s1, sts.drop_first());
            lemma_poll_one_self_inactive(s, id, st);
            lemma_polls_keep_inactive(s1, id, st, sts.drop_first());
            lemma_inactive_noop(r.0, id, st);
        }
    }
}

/// One completed body, observed and applied within the same tick: when the
/// sweep reports the record's body finished with the queue it sealed, the
/// tick that applies the pending buffer removes the record from the live set
/// and delivers the requested notification exactly once.
pub proof fn lemma_tick_completes(
    s: StateV,
    id: u64,
    body: Seq<Op>,
    e: u64,
    sts: Seq<(u64, PollStatus)>,
    q: MutationQueue,
)
    requires
        s.pending.len() == 0,
        contains_unconsumed(s.records, id),
        forall|i: int| 0 <= i < body.len() ==> (#[trigger] body[i]).is_domain(),
        q@ == sealed_ops(body, id, Some(e)),
        sts =~= seq![(id, PollStatus::Finished(q))],
    ensures
        poll_all_res(s, sts).1 is None,
        !contains_id(
            apply_ops(poll_all_res(s, sts).0, poll_all_res(s, sts).0.pending).records,
            id,
        ),
        apply_ops(poll_all_res(s, sts).0, poll_all_res(s, sts).0.pending).delivered
            == s.delivered.push(e),
{
    let s1 = poll_one_spec(s, id, sts[0].1);
    assert(poll_all_res(s1, sts.drop_first()) == (s1, Option::<u64>::None));
    assert(s1.pending =~= q@);
    lemma_completion_lifecycle(s1, body, id, e);
}

} // verus!
