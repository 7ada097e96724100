//! What each timelock operation decides and produces, stated over its
//! inputs: when a call is accepted, what it sends, what it refunds, and what
//! a request escrows.

use vstd::prelude::*;

use crate::table::{lemma_remove, lookup};

use crate::table::page;

use super::admin::admin_error;
use super::calls::{after_call, schedules, TimelockCall};
use super::gas::{actions_cost, lemma_total_gas_closed_form};
use super::request::{total_deposit_of, FunctionCallView, ProposalApprovalView, RequestView};
use super::{
    act_proposal_call, add_proposal_call, cancel_error, execute_after_of, execute_error, execution_of, insert_all,
    insert_unique, refund_of, schedule_error, schedule_proposal_error, ContractView, TimelockError,
    GAS_FOR_EXECUTE_BODY, GAS_FOR_ON_PROPOSAL_ADDED, GAS_PER_ACTION, GAS_PER_RECEIPT, MAX_DELAY_NS,
    MAX_EXECUTION_GAS,
};

verus! {

/// The plain sum of the deposits, first action first.
pub open spec fn deposit_sum(actions: Seq<FunctionCallView>) -> nat
    decreases actions.len(),
{
    if actions.len() == 0 {
        0
    } else {
        (actions.first().deposit + deposit_sum(actions.drop_first())) as nat
    }
}

proof fn lemma_deposit_sum_push(actions: Seq<FunctionCallView>, a: FunctionCallView)
    ensures
        deposit_sum(actions.push(a)) == deposit_sum(actions) + a.deposit,
    decreases actions.len(),
{
    if actions.len() > 0 {
        assert(actions.push(a).drop_first() =~= actions.drop_first().push(a));
        assert(actions.push(a).first() == actions.first());
        lemma_deposit_sum_push(actions.drop_first(), a);
    } else {
        assert(actions.push(a).drop_first() =~= Seq::<FunctionCallView>::empty());
        assert(actions.push(a).first() == a);
        assert(deposit_sum(Seq::<FunctionCallView>::empty()) == 0);
    }
}

/// What a request escrows is the sum of the deposits of all its actions,
/// capped at `u128::MAX`.
pub proof fn lemma_total_deposit_is_sum(actions: Seq<FunctionCallView>)
    ensures
        total_deposit_of(actions) as nat == if deposit_sum(actions) > u128::MAX {
            u128::MAX as nat
        } else {
            deposit_sum(actions)
        },
    decreases actions.len(),
{
    if actions.len() > 0 {
        lemma_total_deposit_is_sum(actions.drop_last());
        assert(actions =~= actions.drop_last().push(actions.last()));
        lemma_deposit_sum_push(actions.drop_last(), actions.last());
    }
}

/// Adding an action adds its deposit to the escrow (capped at `u128::MAX`).
pub proof fn lemma_total_deposit_push(actions: Seq<FunctionCallView>, a: FunctionCallView)
    ensures
        total_deposit_of(actions.push(a)) as int == if total_deposit_of(actions) + a.deposit > u128::MAX {
            u128::MAX as int
        } else {
            total_deposit_of(actions) + a.deposit
        },
{
    lemma_total_deposit_is_sum(actions);
    lemma_total_deposit_is_sum(actions.push(a));
    lemma_deposit_sum_push(actions, a);
}

/// Executing a request sends exactly what it was scheduled with: all its
/// actions, in order, to its receiver; a proposal request adds the callback
/// that approves the proposal with the stored kind and gas and refunds the
/// escrowed bond to the funder if `add_proposal` fails; a plain request adds
/// no callback.
pub proof fn lemma_execution_sends_request(request_id: u64, r: RequestView)
    ensures
        execution_of(request_id, r).receiver_id == r.receiver_id,
        execution_of(request_id, r).actions.len() == r.actions.len(),
        forall|i: int| 0 <= i < r.actions.len() ==> #[trigger] execution_of(request_id, r).actions[i] == r.actions[i],
        r.approve is None ==> execution_of(request_id, r).callback is None,
        r.approve matches Some(a) ==> execution_of(request_id, r).callback matches Some(cb) && cb.request_id
            == request_id && cb.dao_id == r.receiver_id && cb.funder_id == r.funder_id && cb.bond
            == total_deposit_of(r.actions) && cb.kind == a.kind && cb.act_proposal_gas == a.act_proposal_gas
            && cb.static_gas >= a.act_proposal_gas && (GAS_FOR_ON_PROPOSAL_ADDED + a.act_proposal_gas
            <= u64::MAX ==> cb.static_gas == GAS_FOR_ON_PROPOSAL_ADDED + a.act_proposal_gas),
{
}

/// `execute` accepts a request exactly when it is pending, its time has
/// come, and its predecessor (if it names another request) has left the
/// queue; then it leaves the queue and nothing else changes. A request that
/// is not pending is answered that it is not found, and one whose time has
/// not come that it is too early.
pub proof fn lemma_execute_accepts(v: ContractView, now: u64, request_id: u64)
    requires
        v.well_formed(),
    ensures
        execute_error(v, now, request_id) is None <==> {
            &&& v.is_pending(request_id)
            &&& now >= v.request(request_id).execute_after
            &&& forall|p: u64|
                v.request(request_id).predecessor_id == Some(p) && p != request_id ==> !v.is_pending(p)
        },
        !v.is_pending(request_id) ==> execute_error(v, now, request_id) == Some(TimelockError::RequestNotFound),
        v.is_pending(request_id) && now < v.request(request_id).execute_after ==> execute_error(v, now, request_id)
            == Some(TimelockError::TooEarly),
        execute_error(v, now, request_id) is None ==> after_call(v, TimelockCall::Execute { now, request_id })
            == v.dequeue(request_id) && !v.dequeue(request_id).is_pending(request_id)
            && v.dequeue(request_id).requests.len() == v.requests.len() - 1,
{
    lemma_remove(v.requests, request_id);
    if let Some(p) = v.request(request_id).predecessor_id {
        if p != request_id {
            assert(lookup(v.dequeue(request_id).requests, p) == lookup(v.requests, p));
            assert(v.dequeue(request_id).is_pending(p) == v.is_pending(p));
        } else {
            assert(!v.dequeue(request_id).is_pending(p));
        }
    }
}

/// A guardian can always cancel a pending request, whatever it waits for:
/// `cancel` accepts exactly a guardian's call on a pending request, and the
/// request then leaves the queue. Anyone else is refused as not a guardian.
pub proof fn lemma_guardian_can_cancel(v: ContractView, caller: Seq<char>, request_id: u64)
    requires
        v.well_formed(),
    ensures
        cancel_error(v, caller, request_id) is None <==> v.guardians.contains(caller) && v.is_pending(request_id),
        !v.guardians.contains(caller) ==> cancel_error(v, caller, request_id) == Some(TimelockError::NotGuardian),
        v.guardians.contains(caller) && v.is_pending(request_id) ==> after_call(
            v,
            TimelockCall::Cancel { caller, request_id },
        ) == v.dequeue(request_id) && !v.dequeue(request_id).is_pending(request_id)
            && v.dequeue(request_id).requests.len() == v.requests.len() - 1,
{
    lemma_remove(v.requests, request_id);
}

/// Cancelling refunds the whole escrow to the funder, and only a request
/// that escrowed nothing refunds nothing.
pub proof fn lemma_refund_is_escrow(r: RequestView)
    ensures
        refund_of(r) is None <==> total_deposit_of(r.actions) == 0,
        refund_of(r) matches Some(x) ==> x.0 == r.funder_id && x.1 == total_deposit_of(r.actions),
{
}

/// `schedule` accepts exactly a DAO call with at least one action, a pending
/// predecessor (if one is named), an attached deposit equal to what the
/// actions escrow, and gas within the limit. Any other caller is refused as
/// not the DAO.
pub proof fn lemma_schedule_accepts(
    v: ContractView,
    caller: Seq<char>,
    attached_deposit: u128,
    actions: Seq<FunctionCallView>,
    predecessor_id: Option<u64>,
)
    ensures
        schedule_error(v, caller, attached_deposit, actions, predecessor_id) is None <==> {
            &&& caller == v.dao_id
            &&& actions.len() > 0
            &&& forall|p: u64| predecessor_id == Some(p) ==> v.is_pending(p)
            &&& attached_deposit == total_deposit_of(actions)
            &&& GAS_FOR_EXECUTE_BODY + GAS_PER_RECEIPT + actions_cost(actions) <= MAX_EXECUTION_GAS
        },
        caller != v.dao_id ==> schedule_error(v, caller, attached_deposit, actions, predecessor_id) == Some(
            TimelockError::NotDao,
        ),
{
    lemma_total_gas_closed_form(actions, None);
}

/// `schedule_proposal` accepts exactly a DAO call with a pending predecessor
/// (if one is named), an attached deposit equal to the bond, and room within
/// the gas limit for the batch, the `add_proposal` call with its fee, and the
/// callback with its receipt, fee, own gas and the approving vote's gas.
pub proof fn lemma_schedule_proposal_accepts(
    v: ContractView,
    caller: Seq<char>,
    attached_deposit: u128,
    description: Seq<char>,
    kind: Seq<char>,
    proposal_bond: u128,
    add_proposal_gas: u64,
    act_proposal_gas: u64,
    predecessor_id: Option<u64>,
)
    ensures
        schedule_proposal_error(
            v,
            caller,
            attached_deposit,
            add_proposal_call(description, kind, proposal_bond, add_proposal_gas),
            act_proposal_gas,
            predecessor_id,
        ) is None <==> {
            &&& caller == v.dao_id
            &&& forall|p: u64| predecessor_id == Some(p) ==> v.is_pending(p)
            &&& attached_deposit == proposal_bond
            &&& GAS_FOR_EXECUTE_BODY + 2 * GAS_PER_RECEIPT + 2 * GAS_PER_ACTION + GAS_FOR_ON_PROPOSAL_ADDED
                + add_proposal_gas + act_proposal_gas <= MAX_EXECUTION_GAS
        },
        caller != v.dao_id ==> schedule_proposal_error(
            v,
            caller,
            attached_deposit,
            add_proposal_call(description, kind, proposal_bond, add_proposal_gas),
            act_proposal_gas,
            predecessor_id,
        ) == Some(TimelockError::NotDao),
{
    let call = add_proposal_call(description, kind, proposal_bond, add_proposal_gas);
    lemma_total_gas_closed_form(seq![call], Some(ProposalApprovalView { kind: Seq::empty(), act_proposal_gas }));
    assert(seq![call].drop_last() =~= Seq::<FunctionCallView>::empty());
    assert(seq![call].last() == call);
    assert(actions_cost(Seq::<FunctionCallView>::empty()) == 0);
}

/// The calls a proposal request makes: `add_proposal` on the DAO with the
/// bond attached and the given gas, then `act_proposal` with no deposit and
/// the vote's gas.
pub proof fn lemma_proposal_calls(
    description: Seq<char>,
    kind: Seq<char>,
    proposal_bond: u128,
    add_proposal_gas: u64,
    proposal_id: u64,
    act_kind: Seq<char>,
    act_proposal_gas: u64,
)
    ensures
        add_proposal_call(description, kind, proposal_bond, add_proposal_gas).method_name == "add_proposal"@,
        add_proposal_call(description, kind, proposal_bond, add_proposal_gas).deposit == proposal_bond,
        add_proposal_call(description, kind, proposal_bond, add_proposal_gas).gas == add_proposal_gas,
        act_proposal_call(proposal_id, act_kind, act_proposal_gas).method_name == "act_proposal"@,
        act_proposal_call(proposal_id, act_kind, act_proposal_gas).deposit == 0,
        act_proposal_call(proposal_id, act_kind, act_proposal_gas).gas == act_proposal_gas,
{
}

/// An accepted `schedule` queues the request under the previous next id,
/// funded by the caller, with exactly the given receiver, actions and
/// predecessor, due after the delay, and moves the next id on by one; a
/// refused one changes nothing.
pub proof fn lemma_schedule_queues(
    v: ContractView,
    caller: Seq<char>,
    now: u64,
    attached_deposit: u128,
    receiver_id: Seq<char>,
    actions: Seq<FunctionCallView>,
    predecessor_id: Option<u64>,
)
    requires
        v.well_formed(),
    ensures
        ({
            let call = TimelockCall::Schedule { caller, now, attached_deposit, receiver_id, actions, predecessor_id };
            let w = after_call(v, call);
            let r = w.request(v.next_request_id);
            &&& schedules(v, call) ==> {
                &&& w.is_pending(v.next_request_id)
                &&& w.next_request_id == v.next_request_id + 1
                &&& w.requests.len() == v.requests.len() + 1
                &&& r.receiver_id == receiver_id
                &&& r.actions == actions
                &&& r.funder_id == caller
                &&& r.execute_after == execute_after_of(now, v.delay_ns)
                &&& r.approve is None
                &&& r.predecessor_id == predecessor_id
                &&& w.dao_id == v.dao_id && w.admin_id == v.admin_id && w.guardians == v.guardians
                    && w.delay_ns == v.delay_ns
            }
            &&& !schedules(v, call) ==> w == v
        }),
{
    let call = TimelockCall::Schedule { caller, now, attached_deposit, receiver_id, actions, predecessor_id };
    if schedules(v, call) {
        super::laws::lemma_enqueue_fresh_id(
            v,
            RequestView {
                receiver_id,
                actions,
                funder_id: caller,
                execute_after: execute_after_of(now, v.delay_ns),
                approve: None,
                predecessor_id,
            },
        );
    }
}

/// The admin's configuration changes take effect: the admin's call sets the
/// given value (the delay only up to 30 days); anyone else's changes
/// nothing.
pub proof fn lemma_admin_configures(
    v: ContractView,
    caller: Seq<char>,
    account: Seq<char>,
    guardians: Seq<Seq<char>>,
    delay_ns: u64,
)
    ensures
        admin_error(v, caller) is None <==> caller == v.admin_id,
        caller == v.admin_id ==> after_call(v, TimelockCall::SetDao { caller, dao_id: account }).dao_id == account,
        caller == v.admin_id ==> after_call(v, TimelockCall::SetAdmin { caller, admin_id: account }).admin_id
            == account,
        caller == v.admin_id && guardians.len() <= u32::MAX ==> forall|g: Seq<char>|
            #[trigger] after_call(v, TimelockCall::SetGuardians { caller, guardians }).guardians.contains(g)
                <==> guardians.contains(g),
        caller == v.admin_id && delay_ns <= MAX_DELAY_NS ==> after_call(
            v,
            TimelockCall::SetDelay { caller, delay_ns },
        ).delay_ns == delay_ns,
        delay_ns > MAX_DELAY_NS ==> after_call(v, TimelockCall::SetDelay { caller, delay_ns }) == v,
        caller != v.admin_id ==> after_call(v, TimelockCall::SetDao { caller, dao_id: account }) == v,
{
    assert forall|g: Seq<char>| #[trigger]
        insert_all(Seq::empty(), guardians).contains(g) <==> guardians.contains(g) by {
        lemma_insert_all_members(Seq::empty(), guardians, g);
    }
}

/// A page of a listing skips `from_index` entries and holds the next ones
/// in order, at most `limit` of them (all the rest by default).
pub proof fn lemma_page_window<T>(s: Seq<T>, from_index: u32, limit: Option<u32>)
    ensures
        from_index >= s.len() ==> page(s, Some(from_index), limit).len() == 0,
        forall|i: int|
            0 <= i < page(s, Some(from_index), limit).len() ==> #[trigger] page(s, Some(from_index), limit)[i]
                == s[from_index + i],
        limit is Some && from_index + limit->0 <= s.len() ==> page(s, Some(from_index), limit).len() == limit->0,
        limit is Some && from_index <= s.len() && from_index + limit->0 > s.len() ==> page(
            s,
            Some(from_index),
            limit,
        ).len() == s.len() - from_index,
        s.len() <= u32::MAX ==> page(s, None, None) == s && page(s, Some(0), None) == s,
{
    assert(s.len() <= u32::MAX ==> s.subrange(0, s.len() as int) =~= s);
}


/// A request becomes executable after the delay: at `now + delay_ns`, or at
/// the end of time where that sum does not fit.
pub proof fn lemma_execute_after(now: u64, delay_ns: u64)
    ensures
        execute_after_of(now, delay_ns) >= now,
        now + delay_ns <= u64::MAX ==> execute_after_of(now, delay_ns) == now + delay_ns,
        now + delay_ns > u64::MAX ==> execute_after_of(now, delay_ns) == u64::MAX,
{
}

/// The guardian list built from `xs` holds exactly the accounts of `s` and
/// of `xs`, each once.
pub proof fn lemma_insert_all_members(s: Seq<Seq<char>>, xs: Seq<Seq<char>>, x: Seq<char>)
    ensures
        insert_all(s, xs).contains(x) <==> s.contains(x) || xs.contains(x),
    decreases xs.len(),
{
    if xs.len() > 0 {
        lemma_insert_all_members(s, xs.drop_last(), x);
        let t = insert_all(s, xs.drop_last());
        assert(xs =~= xs.drop_last().push(xs.last()));
        if xs.drop_last().contains(x) {
            let i = choose|i: int| 0 <= i < xs.drop_last().len() && xs.drop_last()[i] == x;
            assert(xs[i] == x);
        }
        if xs.contains(x) && x != xs.last() {
            let i = choose|i: int| 0 <= i < xs.len() && xs[i] == x;
            assert(xs.drop_last()[i] == x);
        }
        if !t.contains(xs.last()) {
            assert(insert_unique(t, xs.last()) == t.push(xs.last()));
            if t.contains(x) {
                let i = choose|i: int| 0 <= i < t.len() && t[i] == x;
                assert(t.push(xs.last())[i] == x);
            }
            if t.push(xs.last()).contains(x) && x != xs.last() {
                let i = choose|i: int| 0 <= i < t.len() + 1 && t.push(xs.last())[i] == x;
                assert(t[i] == x);
            }
            assert(t.push(xs.last())[t.len() as int] == xs.last());
        }
    }
}

/// Accounts given without repetition keep their order: the guardian list
/// built from them is exactly that list.
pub proof fn lemma_insert_all_keeps_order(s: Seq<Seq<char>>, xs: Seq<Seq<char>>)
    requires
        (s + xs).no_duplicates(),
    ensures
        insert_all(s, xs) == s + xs,
    decreases xs.len(),
{
    if xs.len() > 0 {
        let prefix = xs.drop_last();
        assert((s + xs).drop_last() =~= s + prefix);
        assert((s + prefix).no_duplicates()) by {
            assert forall|i: int, j: int| 0 <= i < (s + prefix).len() && 0 <= j < (s + prefix).len() && i != j implies (s
                + prefix)[i] != (s + prefix)[j] by {
                assert((s + prefix)[i] == (s + xs)[i]);
                assert((s + prefix)[j] == (s + xs)[j]);
            }
        }
        lemma_insert_all_keeps_order(s, prefix);
        let last_index = (s + xs).len() - 1;
        assert((s + xs)[last_index] == xs.last());
        assert(!(s + prefix).contains(xs.last())) by {
            if (s + prefix).contains(xs.last()) {
                let i = choose|i: int| 0 <= i < (s + prefix).len() && (s + prefix)[i] == xs.last();
                assert((s + xs)[i] == xs.last());
            }
        }
        assert((s + prefix).push(xs.last()) =~= s + xs);
    } else {
        assert(s + xs =~= s);
    }
}

} // verus!
