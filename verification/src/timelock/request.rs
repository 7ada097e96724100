//! Requests held by the timelock: a batch of function calls to one receiver.

use vstd::prelude::*;

use super::{
    GAS_FOR_EXECUTE_BODY, GAS_FOR_ON_PROPOSAL_ADDED, GAS_PER_ACTION, GAS_PER_RECEIPT,
};

verus! {

/// A single function call within a request. Mirrors the shape of a Sputnik
/// `ActionCall`: `args` are the raw argument bytes, `deposit` (yoctoNEAR) is
/// attached to the call, `gas` is the gas it is given.
pub struct FunctionCall {
    pub method_name: String,
    pub args: Vec<u8>,
    pub deposit: u128,
    pub gas: u64,
}

/// Mathematical value of a [`FunctionCall`].
pub struct FunctionCallView {
    pub method_name: Seq<char>,
    pub args: Seq<u8>,
    pub deposit: u128,
    pub gas: u64,
}

impl View for FunctionCall {
    type V = FunctionCallView;

    open spec fn view(&self) -> FunctionCallView {
        FunctionCallView {
            method_name: self.method_name@,
            args: self.args@,
            deposit: self.deposit,
            gas: self.gas,
        }
    }
}

impl Clone for FunctionCall {
    fn clone(&self) -> (res: Self)
        ensures
            res@ == self@,
    {
        FunctionCall {
            method_name: self.method_name.clone(),
            args: vstd::slice::slice_to_vec(self.args.as_slice()),
            deposit: self.deposit,
            gas: self.gas,
        }
    }
}

/// The follow-up vote of a proposal request: after the `add_proposal` action
/// resolves, the timelock approves the returned proposal id with this kind.
pub struct ProposalApproval {
    /// Raw JSON of the proposal kind, re-submitted in `act_proposal` so the DAO
    /// can verify the vote targets the intended proposal.
    pub kind: String,
    /// Gas attached to the `act_proposal` call made from the callback.
    pub act_proposal_gas: u64,
}

/// Mathematical value of a [`ProposalApproval`].
pub struct ProposalApprovalView {
    pub kind: Seq<char>,
    pub act_proposal_gas: u64,
}

impl View for ProposalApproval {
    type V = ProposalApprovalView;

    open spec fn view(&self) -> ProposalApprovalView {
        ProposalApprovalView { kind: self.kind@, act_proposal_gas: self.act_proposal_gas }
    }
}

impl Clone for ProposalApproval {
    fn clone(&self) -> (res: Self)
        ensures
            res@ == self@,
    {
        ProposalApproval { kind: self.kind.clone(), act_proposal_gas: self.act_proposal_gas }
    }
}

/// A scheduled request: a batch of function calls to one receiver.
pub struct Request {
    /// Account the function calls will be sent to.
    pub receiver_id: String,
    /// Function calls executed as a single atomic batch on the receiver.
    pub actions: Vec<FunctionCall>,
    /// Account that escrowed the deposits (the DAO at schedule time); refunded on cancel.
    pub funder_id: String,
    /// Block timestamp (ns) after which the request can be executed.
    pub execute_after: u64,
    /// `Some` marks a proposal request: `actions` holds the single `add_proposal`
    /// call, followed by a `VoteApprove` on the proposal id it returns.
    pub approve: Option<ProposalApproval>,
    /// A request that must have left the queue before this one can execute.
    pub predecessor_id: Option<u64>,
}

/// Mathematical value of a [`Request`].
pub struct RequestView {
    pub receiver_id: Seq<char>,
    pub actions: Seq<FunctionCallView>,
    pub funder_id: Seq<char>,
    pub execute_after: u64,
    pub approve: Option<ProposalApprovalView>,
    pub predecessor_id: Option<u64>,
}

pub open spec fn actions_view(actions: Seq<FunctionCall>) -> Seq<FunctionCallView> {
    actions.map_values(|a: FunctionCall| a@)
}

pub open spec fn approval_view(approve: Option<ProposalApproval>) -> Option<ProposalApprovalView> {
    match approve {
        Some(a) => Some(a@),
        None => None,
    }
}

impl View for Request {
    type V = RequestView;

    open spec fn view(&self) -> RequestView {
        RequestView {
            receiver_id: self.receiver_id@,
            actions: actions_view(self.actions@),
            funder_id: self.funder_id@,
            execute_after: self.execute_after,
            approve: approval_view(self.approve),
            predecessor_id: self.predecessor_id,
        }
    }
}

/// `a + b`, capped at `u128::MAX`.
pub open spec fn sat_add_u128(a: u128, b: u128) -> u128 {
    if a + b > u128::MAX {
        u128::MAX
    } else {
        (a + b) as u128
    }
}

/// `a + b`, capped at `u64::MAX`.
pub open spec fn sat_add_u64(a: u64, b: u64) -> u64 {
    if a + b > u64::MAX {
        u64::MAX
    } else {
        (a + b) as u64
    }
}

/// Sum of the action deposits, saturating at `u128::MAX`.
pub open spec fn total_deposit_of(actions: Seq<FunctionCallView>) -> u128
    decreases actions.len(),
{
    if actions.len() == 0 {
        0
    } else {
        sat_add_u128(total_deposit_of(actions.drop_last()), actions.last().deposit)
    }
}

/// `acc` plus, for every action, its own gas and the runtime fee of a
/// function call action (saturating).
pub open spec fn actions_gas(acc: u64, actions: Seq<FunctionCallView>) -> u64
    decreases actions.len(),
{
    if actions.len() == 0 {
        acc
    } else {
        sat_add_u64(sat_add_u64(actions_gas(acc, actions.drop_last()), actions.last().gas), GAS_PER_ACTION)
    }
}

/// Gas a request needs at execution time: the body of `execute` and the
/// receipt of the batch, every action with its fee and, for a proposal
/// request, the receipt, fee and attached gas of the `on_proposal_added`
/// callback. Saturating at `u64::MAX`.
pub open spec fn total_gas_of(actions: Seq<FunctionCallView>, approve: Option<ProposalApprovalView>) -> u64 {
    let batch = actions_gas(sat_add_u64(GAS_FOR_EXECUTE_BODY, GAS_PER_RECEIPT), actions);
    match approve {
        Some(a) => sat_add_u64(
            sat_add_u64(sat_add_u64(sat_add_u64(batch, GAS_PER_RECEIPT), GAS_PER_ACTION), GAS_FOR_ON_PROPOSAL_ADDED),
            a.act_proposal_gas,
        ),
        None => batch,
    }
}

impl Request {
    /// Sum of the deposits of all actions: what the request escrows.
    pub fn total_deposit(&self) -> (res: u128)
        ensures
            res == total_deposit_of(self@.actions),
    {
        let mut acc: u128 = 0;
        let mut i: usize = 0;
        while i < self.actions.len()
            invariant
                i <= self.actions.len(),
                acc == total_deposit_of(self@.actions.take(i as int)),
            decreases self.actions.len() - i,
        {
            proof {
                assert(self@.actions.take(i + 1).drop_last() =~= self@.actions.take(i as int));
                assert(self@.actions[i as int] == self.actions@[i as int]@);
            }
            acc = acc.saturating_add(self.actions[i].deposit);
            i += 1;
        }
        assert(self@.actions.take(i as int) =~= self@.actions);
        acc
    }

    /// Total gas the request needs at execution time (see [`total_gas_of`]).
    pub fn total_gas(&self) -> (res: u64)
        ensures
            res == total_gas_of(self@.actions, self@.approve),
    {
        let base = GAS_FOR_EXECUTE_BODY.saturating_add(GAS_PER_RECEIPT);
        let mut acc: u64 = base;
        let mut i: usize = 0;
        while i < self.actions.len()
            invariant
                i <= self.actions.len(),
                base == sat_add_u64(GAS_FOR_EXECUTE_BODY, GAS_PER_RECEIPT),
                acc == actions_gas(base, self@.actions.take(i as int)),
            decreases self.actions.len() - i,
        {
            proof {
                assert(self@.actions.take(i + 1).drop_last() =~= self@.actions.take(i as int));
                assert(self@.actions[i as int] == self.actions@[i as int]@);
            }
            acc = acc.saturating_add(self.actions[i].gas).saturating_add(GAS_PER_ACTION);
            i += 1;
        }
        assert(self@.actions.take(i as int) =~= self@.actions);
        match &self.approve {
            Some(approval) => acc.saturating_add(GAS_PER_RECEIPT).saturating_add(GAS_PER_ACTION).saturating_add(
                GAS_FOR_ON_PROPOSAL_ADDED,
            ).saturating_add(approval.act_proposal_gas),
            None => acc,
        }
    }
}

/// A copy of `actions`, call by call.
pub fn clone_actions(actions: &Vec<FunctionCall>) -> (res: Vec<FunctionCall>)
    ensures
        actions_view(res@) == actions_view(actions@),
{
    let mut res: Vec<FunctionCall> = Vec::new();
    let mut i: usize = 0;
    while i < actions.len()
        invariant
            i <= actions.len(),
            res@.len() == i,
            actions_view(res@) =~= actions_view(actions@).take(i as int),
        decreases actions.len() - i,
    {
        let call = actions[i].clone();
        let ghost prev = res@;
        let ghost c = call;
        res.push(call);
        proof {
            assert(res@ == prev.push(c));
            assert(c@ == actions@[i as int]@);
            assert forall|j: int| 0 <= j < i + 1 implies #[trigger] actions_view(res@)[j]
                == actions_view(actions@)[j] by {
                if j < i {
                    assert(res@[j] == prev[j]);
                    assert(actions_view(prev)[j] == actions_view(actions@).take(i as int)[j]);
                }
            }
            assert(actions_view(res@) =~= actions_view(actions@).take(i + 1));
        }
        i += 1;
    }
    assert(actions_view(actions@).take(i as int) =~= actions_view(actions@));
    res
}

impl Clone for Request {
    fn clone(&self) -> (res: Self)
        ensures
            res@ == self@,
    {
        let approve = match &self.approve {
            Some(a) => Some(a.clone()),
            None => None,
        };
        Request {
            receiver_id: self.receiver_id.clone(),
            actions: clone_actions(&self.actions),
            funder_id: self.funder_id.clone(),
            execute_after: self.execute_after,
            approve,
            predecessor_id: self.predecessor_id,
        }
    }
}

/// A pending request together with its id, as returned by view methods.
pub struct RequestOutput {
    pub request_id: u64,
    pub receiver_id: String,
    pub actions: Vec<FunctionCall>,
    pub funder_id: String,
    pub execute_after: u64,
    pub approve: Option<ProposalApproval>,
    pub predecessor_id: Option<u64>,
}

impl View for RequestOutput {
    type V = (u64, RequestView);

    open spec fn view(&self) -> (u64, RequestView) {
        (
            self.request_id,
            RequestView {
                receiver_id: self.receiver_id@,
                actions: actions_view(self.actions@),
                funder_id: self.funder_id@,
                execute_after: self.execute_after,
                approve: approval_view(self.approve),
                predecessor_id: self.predecessor_id,
            },
        )
    }
}

impl RequestOutput {
    /// Pairs a request with its id.
    pub fn new(request_id: u64, request: Request) -> (res: Self)
        ensures
            res@ == (request_id, request@),
    {
        RequestOutput {
            request_id,
            receiver_id: request.receiver_id,
            actions: request.actions,
            funder_id: request.funder_id,
            execute_after: request.execute_after,
            approve: request.approve,
            predecessor_id: request.predecessor_id,
        }
    }
}

} // verus!
