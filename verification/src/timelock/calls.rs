//! The timelock's state-changing calls as values, and what they and any
//! sequence of them do: roles are enforced, a request that left the queue
//! never comes back, and the next request id counts the requests ever
//! scheduled.

use vstd::prelude::*;

use crate::table::{has_key, key_index, lemma_remove, lookup};

use super::admin::admin_error;
use super::laws::{lemma_dequeue_keeps_others, lemma_enqueue_fresh_id, lemma_pending_at_most_scheduled};
use super::request::{FunctionCallView, ProposalApprovalView, RequestView};
use super::{
    add_proposal_call, cancel_error, execute_after_of, execute_error, insert_all, insert_unique,
    schedule_error, schedule_proposal_error, ContractView, TimelockError, MAX_DELAY_NS,
};

verus! {

/// A call of one of the timelock's state-changing methods, with the arguments
/// (by their views) and the context that decide its effect.
pub enum TimelockCall {
    Schedule {
        caller: Seq<char>,
        now: u64,
        attached_deposit: u128,
        receiver_id: Seq<char>,
        actions: Seq<FunctionCallView>,
        predecessor_id: Option<u64>,
    },
    ScheduleProposal {
        caller: Seq<char>,
        now: u64,
        attached_deposit: u128,
        description: Seq<char>,
        kind: Seq<char>,
        dao_id: Seq<char>,
        proposal_bond: u128,
        add_proposal_gas: u64,
        act_proposal_gas: u64,
        predecessor_id: Option<u64>,
    },
    Execute { now: u64, request_id: u64 },
    Cancel { caller: Seq<char>, request_id: u64 },
    /// The callback of a proposal request, whatever its arguments.
    ProposalAdded,
    SetDao { caller: Seq<char>, dao_id: Seq<char> },
    SetAdmin { caller: Seq<char>, admin_id: Seq<char> },
    SetGuardians { caller: Seq<char>, guardians: Seq<Seq<char>> },
    SetDelay { caller: Seq<char>, delay_ns: u64 },
}

/// Room for one more request: its id and the queue's length still fit.
/// Where there is none, the contract refuses to schedule.
pub open spec fn has_room(v: ContractView) -> bool {
    v.next_request_id < u64::MAX && v.requests.len() < u32::MAX
}

/// Whether `call` schedules a new request in the state `v`.
pub open spec fn schedules(v: ContractView, call: TimelockCall) -> bool {
    match call {
        TimelockCall::Schedule { caller, attached_deposit, actions, predecessor_id, .. } => has_room(v)
            && schedule_error(v, caller, attached_deposit, actions, predecessor_id) is None,
        TimelockCall::ScheduleProposal {
            caller,
            attached_deposit,
            description,
            kind,
            proposal_bond,
            add_proposal_gas,
            act_proposal_gas,
            predecessor_id,
            ..
        } => has_room(v) && schedule_proposal_error(
            v,
            caller,
            attached_deposit,
            add_proposal_call(description, kind, proposal_bond, add_proposal_gas),
            act_proposal_gas,
            predecessor_id,
        ) is None,
        _ => false,
    }
}

/// The state after `call` in the state `v`. A rejected call leaves the state
/// as it was.
pub open spec fn after_call(v: ContractView, call: TimelockCall) -> ContractView {
    match call {
        TimelockCall::Schedule { caller, now, receiver_id, actions, predecessor_id, .. } => if schedules(v, call) {
            v.enqueue(
                RequestView {
                    receiver_id,
                    actions,
                    funder_id: caller,
                    execute_after: execute_after_of(now, v.delay_ns),
                    approve: None,
                    predecessor_id,
                },
            )
        } else {
            v
        },
        TimelockCall::ScheduleProposal {
            caller,
            now,
            description,
            kind,
            dao_id,
            proposal_bond,
            add_proposal_gas,
            act_proposal_gas,
            predecessor_id,
            ..
        } => if schedules(v, call) {
            v.enqueue(
                RequestView {
                    receiver_id: dao_id,
                    actions: seq![add_proposal_call(description, kind, proposal_bond, add_proposal_gas)],
                    funder_id: caller,
                    execute_after: execute_after_of(now, v.delay_ns),
                    approve: Some(ProposalApprovalView { kind, act_proposal_gas }),
                    predecessor_id,
                },
            )
        } else {
            v
        },
        TimelockCall::Execute { now, request_id } => if execute_error(v, now, request_id) is None {
            v.dequeue(request_id)
        } else {
            v
        },
        TimelockCall::Cancel { caller, request_id } => if cancel_error(v, caller, request_id) is None {
            v.dequeue(request_id)
        } else {
            v
        },
        TimelockCall::ProposalAdded => v,
        TimelockCall::SetDao { caller, dao_id } => if admin_error(v, caller) is None {
            ContractView { dao_id, ..v }
        } else {
            v
        },
        TimelockCall::SetAdmin { caller, admin_id } => if admin_error(v, caller) is None {
            ContractView { admin_id, ..v }
        } else {
            v
        },
        TimelockCall::SetGuardians { caller, guardians } => if admin_error(v, caller) is None && guardians.len()
            <= u32::MAX {
            ContractView { guardians: insert_all(Seq::empty(), guardians), ..v }
        } else {
            v
        },
        TimelockCall::SetDelay { caller, delay_ns } => if admin_error(v, caller) is None && delay_ns
            <= MAX_DELAY_NS {
            ContractView { delay_ns, ..v }
        } else {
            v
        },
    }
}

/// The state after the calls, in order, starting from `v`.
pub open spec fn run(v: ContractView, calls: Seq<TimelockCall>) -> ContractView
    decreases calls.len(),
{
    if calls.len() == 0 {
        v
    } else {
        after_call(run(v, calls.drop_last()), calls.last())
    }
}

/// How many of the calls scheduled a request, starting from `v`.
pub open spec fn scheduled_count(v: ContractView, calls: Seq<TimelockCall>) -> nat
    decreases calls.len(),
{
    if calls.len() == 0 {
        0
    } else {
        scheduled_count(v, calls.drop_last()) + if schedules(run(v, calls.drop_last()), calls.last()) {
            1nat
        } else {
            0nat
        }
    }
}

proof fn lemma_insert_all_unique(s: Seq<Seq<char>>, xs: Seq<Seq<char>>)
    requires
        s.no_duplicates(),
    ensures
        insert_all(s, xs).no_duplicates(),
        insert_all(s, xs).len() <= s.len() + xs.len(),
    decreases xs.len(),
{
    if xs.len() > 0 {
        lemma_insert_all_unique(s, xs.drop_last());
        let t = insert_all(s, xs.drop_last());
        if !t.contains(xs.last()) {
            assert(insert_unique(t, xs.last()) == t.push(xs.last()));
            assert forall|i: int, j: int|
                0 <= i < t.len() + 1 && 0 <= j < t.len() + 1 && i != j implies #[trigger] t.push(xs.last())[i]
                != #[trigger] t.push(xs.last())[j] by {
                if i == t.len() {
                    assert(t[j] != xs.last());
                } else if j == t.len() {
                    assert(t[i] != xs.last());
                }
            }
        }
    }
}

/// Every call keeps the state well formed.
pub proof fn lemma_call_keeps_well_formed(v: ContractView, call: TimelockCall)
    requires
        v.well_formed(),
    ensures
        after_call(v, call).well_formed(),
{
    match call {
        TimelockCall::Schedule { caller, now, receiver_id, actions, predecessor_id, .. } => {
            if schedules(v, call) {
                lemma_enqueue_fresh_id(
                    v,
                    RequestView {
                        receiver_id,
                        actions,
                        funder_id: caller,
                        execute_after: execute_after_of(now, v.delay_ns),
                        approve: None,
                        predecessor_id,
                    },
                );
            }
        },
        TimelockCall::ScheduleProposal {
            caller,
            now,
            description,
            kind,
            dao_id,
            proposal_bond,
            add_proposal_gas,
            act_proposal_gas,
            predecessor_id,
            ..
        } => {
            if schedules(v, call) {
                lemma_enqueue_fresh_id(
                    v,
                    RequestView {
                        receiver_id: dao_id,
                        actions: seq![add_proposal_call(description, kind, proposal_bond, add_proposal_gas)],
                        funder_id: caller,
                        execute_after: execute_after_of(now, v.delay_ns),
                        approve: Some(ProposalApprovalView { kind, act_proposal_gas }),
                        predecessor_id,
                    },
                );
            }
        },
        TimelockCall::Execute { request_id, .. } => {
            lemma_dequeue_keeps_others(v, request_id);
        },
        TimelockCall::Cancel { request_id, .. } => {
            lemma_dequeue_keeps_others(v, request_id);
        },
        TimelockCall::SetGuardians { guardians, .. } => {
            lemma_insert_all_unique(Seq::empty(), guardians);
        },
        _ => {},
    }
}

/// Every sequence of calls keeps the state well formed; in particular there
/// are never more pending requests than ids handed out.
pub proof fn lemma_run_keeps_well_formed(v: ContractView, calls: Seq<TimelockCall>)
    requires
        v.well_formed(),
    ensures
        run(v, calls).well_formed(),
        run(v, calls).requests.len() <= run(v, calls).next_request_id,
    decreases calls.len(),
{
    if calls.len() > 0 {
        lemma_run_keeps_well_formed(v, calls.drop_last());
        lemma_call_keeps_well_formed(run(v, calls.drop_last()), calls.last());
    }
    lemma_pending_at_most_scheduled(run(v, calls));
}

/// The next request id goes up by one with every request scheduled and stays
/// as it is otherwise: after any calls it is its first value plus the number
/// of requests they scheduled, and it never goes down.
pub proof fn lemma_next_id_counts_schedules(v: ContractView, calls: Seq<TimelockCall>, k: int)
    requires
        0 <= k <= calls.len(),
    ensures
        run(v, calls).next_request_id == v.next_request_id + scheduled_count(v, calls),
        run(v, calls.take(k)).next_request_id <= run(v, calls).next_request_id,
    decreases calls.len(),
{
    if calls.len() > 0 {
        let prefix = calls.drop_last();
        if k == calls.len() {
            assert(calls.take(k) =~= calls);
            lemma_next_id_counts_schedules(v, prefix, 0);
        } else {
            lemma_next_id_counts_schedules(v, prefix, k);
            assert(calls.take(k) =~= prefix.take(k));
        }
    } else {
        assert(calls.take(k) =~= calls);
    }
}

/// A request id that was handed out and is not pending stays so, whatever
/// calls follow: executing or cancelling it is always answered that it is
/// not found.
pub proof fn lemma_gone_stays_gone(v: ContractView, calls: Seq<TimelockCall>, request_id: u64, now: u64, caller: Seq<
    char,
>)
    requires
        v.well_formed(),
        request_id < v.next_request_id,
        !v.is_pending(request_id),
    ensures
        request_id < run(v, calls).next_request_id,
        !run(v, calls).is_pending(request_id),
        execute_error(run(v, calls), now, request_id) == Some(TimelockError::RequestNotFound),
        cancel_error(run(v, calls), caller, request_id) is Some,
    decreases calls.len(),
{
    lemma_run_keeps_well_formed(v, calls);
    if calls.len() > 0 {
        let prefix = calls.drop_last();
        let u = run(v, prefix);
        lemma_gone_stays_gone(v, prefix, request_id, now, caller);
        lemma_run_keeps_well_formed(v, prefix);
        let w = run(v, calls);
        assert(w == after_call(u, calls.last()));
        if w.requests != u.requests {
            if w.next_request_id == u.next_request_id + 1 {
                // A request was queued under the id `u.next_request_id`.
                assert(w.requests == u.requests.push((u.next_request_id, w.requests.last().1)));
                if has_key(w.requests, request_id) {
                    let j = key_index(w.requests, request_id);
                    if j < u.requests.len() {
                        assert(w.requests[j] == u.requests[j]);
                    }
                }
            } else {
                // A request left the queue.
                let id = choose|id: u64| w.requests == #[trigger] crate::table::remove_key(u.requests, id);
                lemma_remove(u.requests, id);
                if id != request_id {
                    assert(lookup(w.requests, request_id) == lookup(u.requests, request_id));
                }
            }
        }
    }
}

/// Once a request has been executed, whatever calls follow, executing it
/// again is answered that it is not found: a request never executes twice.
pub proof fn lemma_executed_never_again(
    v: ContractView,
    now: u64,
    request_id: u64,
    calls: Seq<TimelockCall>,
    later: u64,
)
    requires
        v.well_formed(),
        execute_error(v, now, request_id) is None,
    ensures
        execute_error(
            run(after_call(v, TimelockCall::Execute { now, request_id }), calls),
            later,
            request_id,
        ) == Some(TimelockError::RequestNotFound),
{
    let j = key_index(v.requests, request_id);
    assert(v.requests[j].0 < v.next_request_id);
    lemma_remove(v.requests, request_id);
    lemma_dequeue_keeps_others(v, request_id);
    lemma_gone_stays_gone(v.dequeue(request_id), calls, request_id, later, Seq::empty());
}

/// Once a request has been cancelled, whatever calls follow, it can never be
/// executed.
pub proof fn lemma_cancelled_never_executes(
    v: ContractView,
    caller: Seq<char>,
    request_id: u64,
    calls: Seq<TimelockCall>,
    later: u64,
)
    requires
        v.well_formed(),
        cancel_error(v, caller, request_id) is None,
    ensures
        execute_error(
            run(after_call(v, TimelockCall::Cancel { caller, request_id }), calls),
            later,
            request_id,
        ) == Some(TimelockError::RequestNotFound),
{
    let j = key_index(v.requests, request_id);
    assert(v.requests[j].0 < v.next_request_id);
    lemma_remove(v.requests, request_id);
    lemma_dequeue_keeps_others(v, request_id);
    lemma_gone_stays_gone(v.dequeue(request_id), calls, request_id, later, caller);
}

/// Whether the caller of `call` holds the role the call needs: the DAO
/// schedules, a guardian cancels, the admin changes the configuration;
/// anyone may execute.
pub open spec fn caller_allowed(v: ContractView, call: TimelockCall) -> bool {
    match call {
        TimelockCall::Schedule { caller, .. } => caller == v.dao_id,
        TimelockCall::ScheduleProposal { caller, .. } => caller == v.dao_id,
        TimelockCall::Cancel { caller, .. } => v.guardians.contains(caller),
        TimelockCall::SetDao { caller, .. } => caller == v.admin_id,
        TimelockCall::SetAdmin { caller, .. } => caller == v.admin_id,
        TimelockCall::SetGuardians { caller, .. } => caller == v.admin_id,
        TimelockCall::SetDelay { caller, .. } => caller == v.admin_id,
        TimelockCall::Execute { .. } => true,
        TimelockCall::ProposalAdded => true,
    }
}

/// Whether `call` is one of the admin's configuration changes.
pub open spec fn is_config_change(call: TimelockCall) -> bool {
    call is SetDao || call is SetAdmin || call is SetGuardians || call is SetDelay
}

/// Roles are enforced: a call by an account without the role it needs
/// changes nothing; a configuration change leaves the queue and the ids as
/// they are; every other call leaves the configuration as it is.
pub proof fn lemma_roles_enforced(v: ContractView, call: TimelockCall)
    ensures
        !caller_allowed(v, call) ==> after_call(v, call) == v,
        is_config_change(call) ==> after_call(v, call).requests == v.requests
            && after_call(v, call).next_request_id == v.next_request_id,
        !is_config_change(call) ==> {
            &&& after_call(v, call).dao_id == v.dao_id
            &&& after_call(v, call).admin_id == v.admin_id
            &&& after_call(v, call).guardians == v.guardians
            &&& after_call(v, call).delay_ns == v.delay_ns
        },
{
}

} // verus!
