//! Properties of the timelock that span its operations.

use vstd::prelude::*;
use vstd::set_lib::{lemma_int_range, lemma_len_subset, set_int_range};

use crate::table::{has_key, key_index, lemma_put, lemma_remove, lookup};

use super::request::{sat_add_u128, total_deposit_of, FunctionCallView, RequestView};
use super::{
    add_proposal_call, cancel_error, execute_after_of, execute_error, execution_of, refund_of,
    schedule_error, schedule_proposal_error, ContractView, TimelockError,
};

verus! {

/// A request that left the queue (executed or cancelled) can never be
/// executed or cancelled again: both calls answer that it is not found.
pub proof fn lemma_left_request_is_gone(v: ContractView, request_id: u64, now: u64, caller: Seq<char>)
    requires
        v.well_formed(),
    ensures
        !v.dequeue(request_id).is_pending(request_id),
        execute_error(v.dequeue(request_id), now, request_id) == Some(TimelockError::RequestNotFound),
        cancel_error(v.dequeue(request_id), caller, request_id) is Some,
{
    lemma_remove(v.requests, request_id);
}

/// Removing a request keeps the state well formed and leaves every other
/// pending request, and the configuration, exactly as it was.
pub proof fn lemma_dequeue_keeps_others(v: ContractView, request_id: u64)
    requires
        v.well_formed(),
    ensures
        v.dequeue(request_id).well_formed(),
        v.dequeue(request_id).dao_id == v.dao_id,
        v.dequeue(request_id).admin_id == v.admin_id,
        v.dequeue(request_id).guardians == v.guardians,
        v.dequeue(request_id).delay_ns == v.delay_ns,
        v.dequeue(request_id).next_request_id == v.next_request_id,
        forall|other: u64|
            other != request_id ==> #[trigger] lookup(v.dequeue(request_id).requests, other) == lookup(
                v.requests,
                other,
            ),
{
    lemma_remove(v.requests, request_id);
    let w = v.dequeue(request_id);
    assert forall|i: int| 0 <= i < w.requests.len() implies (#[trigger] w.requests[i]).0 < w.next_request_id by {
        let k = w.requests[i].0;
        assert(has_key(w.requests, k));
        if k == request_id {
        } else {
            assert(lookup(w.requests, k) == lookup(v.requests, k));
            assert(has_key(v.requests, k));
            let j = key_index(v.requests, k);
            assert(v.requests[j].0 == k);
        }
    }
}

/// Scheduling assigns a fresh id: no pending request had it, the new request
/// is pending under it, every other pending request is unchanged, and the next
/// id moves on by one.
pub proof fn lemma_enqueue_fresh_id(v: ContractView, r: RequestView)
    requires
        v.well_formed(),
        v.next_request_id < u64::MAX,
        v.requests.len() < u32::MAX,
    ensures
        !v.is_pending(v.next_request_id),
        v.enqueue(r).well_formed(),
        v.enqueue(r).is_pending(v.next_request_id),
        v.enqueue(r).request(v.next_request_id) == r,
        v.enqueue(r).next_request_id == v.next_request_id + 1,
        forall|other: u64|
            other != v.next_request_id ==> #[trigger] lookup(v.enqueue(r).requests, other) == lookup(
                v.requests,
                other,
            ),
{
    let id = v.next_request_id;
    if has_key(v.requests, id) {
        let j = key_index(v.requests, id);
        assert(v.requests[j].0 < v.next_request_id);
    }
    lemma_put(v.requests, id, r);
    assert(crate::table::put(v.requests, id, r) == v.enqueue(r).requests);
    let w = v.enqueue(r);
    assert forall|i: int| 0 <= i < w.requests.len() implies (#[trigger] w.requests[i]).0 < w.next_request_id by {
        if i < v.requests.len() {
            assert(w.requests[i] == v.requests[i]);
        }
    }
}

/// Nothing executes before its time, and a request queued at `now` has its
/// time at least the configured delay later (unless the clock saturates).
pub proof fn lemma_no_early_execution(v: ContractView, exec_time: u64, request_id: u64, queued_at: u64)
    requires
        v.well_formed(),
    ensures
        execute_error(v, exec_time, request_id) is None ==> exec_time >= v.request(request_id).execute_after,
        queued_at + v.delay_ns <= u64::MAX ==> execute_after_of(queued_at, v.delay_ns) == queued_at + v.delay_ns,
{
}

/// A request with a predecessor only executes once the predecessor has left
/// the queue.
pub proof fn lemma_predecessor_first(v: ContractView, now: u64, request_id: u64)
    requires
        v.well_formed(),
        execute_error(v, now, request_id) is None,
    ensures
        v.request(request_id).predecessor_id matches Some(p) ==> !v.dequeue(request_id).is_pending(p),
{
}

/// The refund owed on cancelling a freshly scheduled request is exactly the
/// deposit the DAO attached when scheduling it, paid back to the DAO.
pub proof fn lemma_cancel_refunds_attached_deposit(
    v: ContractView,
    caller: Seq<char>,
    attached_deposit: u128,
    receiver_id: Seq<char>,
    actions: Seq<FunctionCallView>,
    predecessor_id: Option<u64>,
    now: u64,
)
    requires
        schedule_error(v, caller, attached_deposit, actions, predecessor_id) is None,
    ensures
        ({
            let r = RequestView {
                receiver_id,
                actions,
                funder_id: caller,
                execute_after: execute_after_of(now, v.delay_ns),
                approve: None,
                predecessor_id,
            };
            &&& attached_deposit == 0 ==> refund_of(r) is None
            &&& attached_deposit != 0 ==> refund_of(r) == Some((caller, attached_deposit))
        }),
{
}

/// A proposal request escrows exactly its bond: cancelling it refunds the
/// bond to the DAO, and executing it hands the bond to the callback, which
/// refunds it if `add_proposal` fails.
pub proof fn lemma_proposal_bond_escrow(
    v: ContractView,
    caller: Seq<char>,
    attached_deposit: u128,
    description: Seq<char>,
    kind: Seq<char>,
    dao_id: Seq<char>,
    proposal_bond: u128,
    add_proposal_gas: u64,
    act_proposal_gas: u64,
    predecessor_id: Option<u64>,
    now: u64,
    request_id: u64,
)
    requires
        schedule_proposal_error(
            v,
            caller,
            attached_deposit,
            add_proposal_call(description, kind, proposal_bond, add_proposal_gas),
            act_proposal_gas,
            predecessor_id,
        ) is None,
    ensures
        ({
            let r = RequestView {
                receiver_id: dao_id,
                actions: seq![add_proposal_call(description, kind, proposal_bond, add_proposal_gas)],
                funder_id: caller,
                execute_after: execute_after_of(now, v.delay_ns),
                approve: Some(super::request::ProposalApprovalView { kind, act_proposal_gas }),
                predecessor_id,
            };
            &&& total_deposit_of(r.actions) == attached_deposit
            &&& attached_deposit != 0 ==> refund_of(r) == Some((caller, attached_deposit))
            &&& execution_of(request_id, r).callback matches Some(cb) && cb.bond == attached_deposit
                && cb.funder_id == caller && cb.dao_id == dao_id
        }),
{
    let call = add_proposal_call(description, kind, proposal_bond, add_proposal_gas);
    assert(seq![call].drop_last() =~= Seq::<FunctionCallView>::empty());
    assert(total_deposit_of(Seq::<FunctionCallView>::empty()) == 0);
    assert(seq![call].last() == call);
    assert(total_deposit_of(seq![call]) == sat_add_u128(0, proposal_bond));
}

/// There are never more pending requests than requests ever scheduled.
pub proof fn lemma_pending_at_most_scheduled(v: ContractView)
    requires
        v.well_formed(),
    ensures
        v.requests.len() <= v.next_request_id,
{
    let ids = v.requests.map_values(|e: (u64, RequestView)| e.0 as int);
    assert(ids.no_duplicates()) by {
        assert forall|i: int, j: int| 0 <= i < ids.len() && 0 <= j < ids.len() && i != j implies ids[i] != ids[j] by {
            assert(v.requests[i].0 != v.requests[j].0);
        }
    }
    ids.unique_seq_to_set();
    lemma_int_range(0, v.next_request_id as int);
    assert(ids.to_set().subset_of(set_int_range(0, v.next_request_id as int))) by {
        assert forall|x: int| ids.to_set().contains(x) implies set_int_range(0, v.next_request_id as int).contains(x) by {
            let i = choose|i: int| 0 <= i < ids.len() && ids[i] == x;
            assert(v.requests[i].0 < v.next_request_id);
        }
    }
    lemma_len_subset(ids.to_set(), set_int_range(0, v.next_request_id as int));
}

} // verus!
