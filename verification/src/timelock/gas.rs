//! The gas a request needs, in closed form, and what follows from it: the
//! total only grows with an action's gas, does not depend on the order of the
//! actions, and a proposal request adds its callback's share on top.

use vstd::prelude::*;
use vstd::seq_lib::group_to_multiset_ensures;

use super::request::{actions_gas, total_gas_of, FunctionCallView, ProposalApprovalView};
use super::{GAS_FOR_EXECUTE_BODY, GAS_FOR_ON_PROPOSAL_ADDED, GAS_PER_ACTION, GAS_PER_RECEIPT};

verus! {

/// `n` capped at `u64::MAX`.
pub open spec fn cap_gas(n: int) -> u64 {
    if n > u64::MAX {
        u64::MAX
    } else {
        n as u64
    }
}

/// What one action costs: its own gas and the runtime fee of the action.
pub open spec fn action_cost(a: FunctionCallView) -> nat {
    (a.gas + GAS_PER_ACTION) as nat
}

/// What all the actions cost together, without any cap.
pub open spec fn actions_cost(actions: Seq<FunctionCallView>) -> nat
    decreases actions.len(),
{
    if actions.len() == 0 {
        0
    } else {
        actions_cost(actions.drop_last()) + action_cost(actions.last())
    }
}

/// What the callback of a proposal request adds: its receipt, its action fee,
/// the callback's own gas and the gas of the approving vote.
pub open spec fn approval_cost(approve: Option<ProposalApprovalView>) -> nat {
    match approve {
        Some(a) => (GAS_PER_RECEIPT + GAS_PER_ACTION + GAS_FOR_ON_PROPOSAL_ADDED + a.act_proposal_gas) as nat,
        None => 0,
    }
}

proof fn lemma_actions_gas_capped(acc: u64, actions: Seq<FunctionCallView>)
    ensures
        actions_gas(acc, actions) == cap_gas(acc + actions_cost(actions)),
    decreases actions.len(),
{
    if actions.len() > 0 {
        lemma_actions_gas_capped(acc, actions.drop_last());
    }
}

/// The gas total of a request is the uncapped sum of the execute body, the
/// batch receipt, every action's cost and the callback's share, capped at
/// `u64::MAX`.
pub proof fn lemma_total_gas_closed_form(actions: Seq<FunctionCallView>, approve: Option<ProposalApprovalView>)
    ensures
        total_gas_of(actions, approve) == cap_gas(
            GAS_FOR_EXECUTE_BODY + GAS_PER_RECEIPT + actions_cost(actions) + approval_cost(approve),
        ),
{
    lemma_actions_gas_capped((GAS_FOR_EXECUTE_BODY + GAS_PER_RECEIPT) as u64, actions);
}

proof fn lemma_actions_cost_pointwise(a: Seq<FunctionCallView>, b: Seq<FunctionCallView>)
    requires
        a.len() == b.len(),
        forall|i: int| 0 <= i < a.len() ==> a[i].gas <= b[i].gas,
    ensures
        actions_cost(a) <= actions_cost(b),
    decreases a.len(),
{
    if a.len() > 0 {
        let i = a.len() - 1;
        assert(a[i].gas <= b[i].gas);
        lemma_actions_cost_pointwise(a.drop_last(), b.drop_last());
    }
}

/// Raising the gas of any actions never lowers the total: two requests whose
/// actions pair up one for one, each of the first with no more gas than its
/// partner, need no more gas in that order.
pub proof fn lemma_total_gas_monotone(
    a: Seq<FunctionCallView>,
    b: Seq<FunctionCallView>,
    approve: Option<ProposalApprovalView>,
)
    requires
        a.len() == b.len(),
        forall|i: int| 0 <= i < a.len() ==> #[trigger] a[i].gas <= b[i].gas,
    ensures
        total_gas_of(a, approve) <= total_gas_of(b, approve),
{
    lemma_actions_cost_pointwise(a, b);
    lemma_total_gas_closed_form(a, approve);
    lemma_total_gas_closed_form(b, approve);
}

proof fn lemma_actions_cost_remove(s: Seq<FunctionCallView>, j: int)
    requires
        0 <= j < s.len(),
    ensures
        actions_cost(s) == actions_cost(s.remove(j)) + action_cost(s[j]),
    decreases s.len(),
{
    if j == s.len() - 1 {
        assert(s.remove(j) =~= s.drop_last());
    } else {
        lemma_actions_cost_remove(s.drop_last(), j);
        assert(s.remove(j).drop_last() =~= s.drop_last().remove(j));
        assert(s.remove(j).last() == s.last());
    }
}

proof fn lemma_actions_cost_permutation(a: Seq<FunctionCallView>, b: Seq<FunctionCallView>)
    requires
        a.to_multiset() == b.to_multiset(),
    ensures
        actions_cost(a) == actions_cost(b),
    decreases a.len(),
{
    broadcast use group_to_multiset_ensures;

    if a.len() == 0 {
        assert(b.to_multiset().len() == 0);
    } else {
        let x = a.last();
        let rest = a.drop_last();
        assert(a =~= rest.push(x));
        assert(a.to_multiset() =~= rest.to_multiset().insert(x));
        assert(b.to_multiset().count(x) > 0);
        assert(b.contains(x));
        let j = choose|j: int| 0 <= j < b.len() && b[j] == x;
        assert(b.remove(j).to_multiset() =~= b.to_multiset().remove(x));
        assert(rest.to_multiset() =~= rest.to_multiset().insert(x).remove(x));
        lemma_actions_cost_permutation(rest, b.remove(j));
        lemma_actions_cost_remove(b, j);
    }
}

/// The order of the actions does not matter: two requests with the same
/// actions, in any order, need the same gas.
pub proof fn lemma_total_gas_permutation(
    a: Seq<FunctionCallView>,
    b: Seq<FunctionCallView>,
    approve: Option<ProposalApprovalView>,
)
    requires
        a.to_multiset() == b.to_multiset(),
    ensures
        total_gas_of(a, approve) == total_gas_of(b, approve),
{
    lemma_actions_cost_permutation(a, b);
    lemma_total_gas_closed_form(a, approve);
    lemma_total_gas_closed_form(b, approve);
}

/// A proposal request needs the gas of the same batch without the callback,
/// plus the callback's receipt and action fee, its own 10 TGas and the gas of
/// the approving vote; below the cap that is at least 10 TGas and the vote's
/// gas more.
pub proof fn lemma_approval_gas(actions: Seq<FunctionCallView>, approval: ProposalApprovalView)
    ensures
        total_gas_of(actions, Some(approval)) == cap_gas(
            total_gas_of(actions, None) + GAS_PER_RECEIPT + GAS_PER_ACTION + GAS_FOR_ON_PROPOSAL_ADDED
                + approval.act_proposal_gas,
        ),
        total_gas_of(actions, Some(approval)) < u64::MAX ==> total_gas_of(actions, Some(approval))
            >= total_gas_of(actions, None) + GAS_FOR_ON_PROPOSAL_ADDED + approval.act_proposal_gas,
{
    lemma_total_gas_closed_form(actions, Some(approval));
    lemma_total_gas_closed_form(actions, None);
}

} // verus!
