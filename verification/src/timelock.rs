//! The DAO timelock: requests scheduled by the DAO become executable after a
//! delay; guardians may cancel them; the admin changes the configuration.

use vstd::prelude::*;

pub mod admin;
pub mod calls;
pub mod events;
pub mod gas;
pub mod laws;
pub mod outcomes;
pub mod proposal;
pub mod request;

pub use request::{FunctionCall, ProposalApproval, Request, RequestOutput};
use request::{
    actions_view, sat_add_u64, total_deposit_of, total_gas_of, FunctionCallView, ProposalApprovalView,
    RequestView,
};
use proposal::{add_proposal_args, act_proposal_args, add_proposal_args_text, act_proposal_args_text};
use calls::{after_call, TimelockCall};
use crate::json::{json_value_text, reserialize_json};
use crate::table::{page, has_key, key_index, lemma_index_unique, lemma_put, lemma_remove, lookup, put, remove_key, unique_keys};
use vstd::utf8::encode_utf8;

verus! {

/// Upper bound for the execution delay (30 days in ns).
pub const MAX_DELAY_NS: u64 = 2_592_000_000_000_000;

/// Gas reserved for the `on_proposal_added` callback itself (10 TGas).
pub const GAS_FOR_ON_PROPOSAL_ADDED: u64 = 10_000_000_000_000;

/// Runtime fee per function call action (0.2 TGas send + 0.78 TGas execution).
pub const GAS_PER_ACTION: u64 = 980_000_000_000;

/// Runtime fee to create one action receipt (send + execution).
pub const GAS_PER_RECEIPT: u64 = 217_000_000_000;

/// Gas `execute` burns in its own body (5 TGas).
pub const GAS_FOR_EXECUTE_BODY: u64 = 5_000_000_000_000;

/// Upper bound for a request's total gas, checked at schedule time (280 TGas;
/// NEAR caps prepaid gas at 300 TGas).
pub const MAX_EXECUTION_GAS: u64 = 280_000_000_000_000;


/// Why the timelock rejects a call. Every rejection leaves the state as it was.
#[derive(Debug, Clone, Copy, PartialEq, Eq, Structural)]
pub enum TimelockError {
    /// The delay is above [`MAX_DELAY_NS`].
    DelayTooLong,
    /// Only the DAO can schedule requests.
    NotDao,
    /// A request must contain at least one action.
    EmptyRequest,
    /// The named predecessor is not a pending request.
    PredecessorNotFound,
    /// The attached deposit differs from the total deposit of the actions.
    WrongDeposit,
    /// The attached deposit differs from the proposal bond.
    WrongProposalDeposit,
    /// The request needs more than [`MAX_EXECUTION_GAS`].
    GasLimitExceeded,
    /// No pending request has this id.
    RequestNotFound,
    /// The delay of the request has not passed yet.
    TooEarly,
    /// The predecessor of the request is still pending.
    PredecessorPending,
    /// Only a guardian can cancel requests.
    NotGuardian,
    /// Only the admin can change the configuration.
    NotAdmin,
    /// The proposal kind kept for the approving vote is not valid JSON.
    InvalidStoredKind,
}

/// The timelock's state.
pub struct Contract {
    /// The Sputnik DAO account. The only account allowed to schedule requests.
    dao_id: String,
    /// The only account allowed to change the configuration.
    admin_id: String,
    /// Accounts allowed to cancel pending requests, without repetition.
    guardians: Vec<String>,
    /// Delay between scheduling and the earliest possible execution, in nanoseconds.
    delay_ns: u64,
    /// Id assigned to the next scheduled request.
    next_request_id: u64,
    /// Pending requests by id. Executed and cancelled requests are removed.
    requests: Vec<(u64, Request)>,
}

/// Mathematical value of the timelock's state.
pub struct ContractView {
    pub dao_id: Seq<char>,
    pub admin_id: Seq<char>,
    pub guardians: Seq<Seq<char>>,
    pub delay_ns: u64,
    pub next_request_id: u64,
    pub requests: Seq<(u64, RequestView)>,
}

pub open spec fn strings_view(v: Seq<String>) -> Seq<Seq<char>> {
    v.map_values(|s: String| s@)
}

pub open spec fn refs_view(v: Seq<&String>) -> Seq<Seq<char>> {
    v.map_values(|s: &String| s@)
}

pub open spec fn outputs_view(v: Seq<RequestOutput>) -> Seq<(u64, RequestView)> {
    v.map_values(|o: RequestOutput| o@)
}

pub open spec fn requests_view(v: Seq<(u64, Request)>) -> Seq<(u64, RequestView)> {
    v.map_values(|e: (u64, Request)| (e.0, e.1@))
}

impl View for Contract {
    type V = ContractView;

    closed spec fn view(&self) -> ContractView {
        ContractView {
            dao_id: self.dao_id@,
            admin_id: self.admin_id@,
            guardians: strings_view(self.guardians@),
            delay_ns: self.delay_ns,
            next_request_id: self.next_request_id,
            requests: requests_view(self.requests@),
        }
    }
}

/// `s` with `x` added at the end unless it is already there.
pub open spec fn insert_unique(s: Seq<Seq<char>>, x: Seq<char>) -> Seq<Seq<char>> {
    if s.contains(x) {
        s
    } else {
        s.push(x)
    }
}

/// `s` with every element of `xs` added in order, skipping repetitions.
pub open spec fn insert_all(s: Seq<Seq<char>>, xs: Seq<Seq<char>>) -> Seq<Seq<char>>
    decreases xs.len(),
{
    if xs.len() == 0 {
        s
    } else {
        insert_unique(insert_all(s, xs.drop_last()), xs.last())
    }
}

impl ContractView {
    /// What every state of the timelock satisfies.
    pub open spec fn well_formed(self) -> bool {
        &&& self.delay_ns <= MAX_DELAY_NS
        &&& self.guardians.no_duplicates()
        &&& self.guardians.len() <= u32::MAX
        &&& unique_keys(self.requests)
        &&& self.requests.len() <= u32::MAX
        &&& forall|i: int|
            0 <= i < self.requests.len() ==> (#[trigger] self.requests[i]).0 < self.next_request_id
    }

    pub open spec fn is_pending(self, request_id: u64) -> bool {
        has_key(self.requests, request_id)
    }

    /// The pending request with this id.
    pub open spec fn request(self, request_id: u64) -> RequestView {
        lookup(self.requests, request_id)->0
    }

    /// The state after queueing `r` under the next id.
    pub open spec fn enqueue(self, r: RequestView) -> ContractView {
        ContractView {
            dao_id: self.dao_id,
            admin_id: self.admin_id,
            guardians: self.guardians,
            delay_ns: self.delay_ns,
            next_request_id: (self.next_request_id + 1) as u64,
            requests: self.requests.push((self.next_request_id, r)),
        }
    }

    /// The state after the request `request_id` left the queue.
    pub open spec fn dequeue(self, request_id: u64) -> ContractView {
        ContractView {
            dao_id: self.dao_id,
            admin_id: self.admin_id,
            guardians: self.guardians,
            delay_ns: self.delay_ns,
            next_request_id: self.next_request_id,
            requests: remove_key(self.requests, request_id),
        }
    }
}

/// The earliest execution time of a request scheduled at `now`.
pub open spec fn execute_after_of(now: u64, delay_ns: u64) -> u64 {
    sat_add_u64(now, delay_ns)
}

/// Why `schedule` rejects the call, if it does; checked in this order.
pub open spec fn schedule_error(
    v: ContractView,
    caller: Seq<char>,
    attached_deposit: u128,
    actions: Seq<FunctionCallView>,
    predecessor_id: Option<u64>,
) -> Option<TimelockError> {
    if caller != v.dao_id {
        Some(TimelockError::NotDao)
    } else if actions.len() == 0 {
        Some(TimelockError::EmptyRequest)
    } else if predecessor_id matches Some(p) && !v.is_pending(p) {
        Some(TimelockError::PredecessorNotFound)
    } else if attached_deposit != total_deposit_of(actions) {
        Some(TimelockError::WrongDeposit)
    } else if total_gas_of(actions, None) > MAX_EXECUTION_GAS {
        Some(TimelockError::GasLimitExceeded)
    } else {
        None
    }
}

/// The single action of a proposal request.
pub open spec fn add_proposal_call(
    description: Seq<char>,
    kind: Seq<char>,
    proposal_bond: u128,
    add_proposal_gas: u64,
) -> FunctionCallView {
    FunctionCallView {
        method_name: "add_proposal"@,
        args: encode_utf8(add_proposal_args_text(description, kind)),
        deposit: proposal_bond,
        gas: add_proposal_gas,
    }
}

/// Why `schedule_proposal` rejects the call, if it does; checked in this order.
pub open spec fn schedule_proposal_error(
    v: ContractView,
    caller: Seq<char>,
    attached_deposit: u128,
    call: FunctionCallView,
    act_proposal_gas: u64,
    predecessor_id: Option<u64>,
) -> Option<TimelockError> {
    if caller != v.dao_id {
        Some(TimelockError::NotDao)
    } else if predecessor_id matches Some(p) && !v.is_pending(p) {
        Some(TimelockError::PredecessorNotFound)
    } else if attached_deposit != call.deposit {
        Some(TimelockError::WrongProposalDeposit)
    } else if total_gas_of(
        seq![call],
        Some(ProposalApprovalView { kind: Seq::empty(), act_proposal_gas }),
    ) > MAX_EXECUTION_GAS {
        Some(TimelockError::GasLimitExceeded)
    } else {
        None
    }
}

/// Why `execute` rejects the call, if it does; checked in this order.
pub open spec fn execute_error(v: ContractView, now: u64, request_id: u64) -> Option<TimelockError> {
    if !v.is_pending(request_id) {
        Some(TimelockError::RequestNotFound)
    } else if now < v.request(request_id).execute_after {
        Some(TimelockError::TooEarly)
    } else if v.request(request_id).predecessor_id matches Some(p) && v.dequeue(request_id).is_pending(p) {
        Some(TimelockError::PredecessorPending)
    } else {
        None
    }
}

/// Why `cancel` rejects the call, if it does; checked in this order.
pub open spec fn cancel_error(v: ContractView, caller: Seq<char>, request_id: u64) -> Option<TimelockError> {
    if !v.guardians.contains(caller) {
        Some(TimelockError::NotGuardian)
    } else if !v.is_pending(request_id) {
        Some(TimelockError::RequestNotFound)
    } else {
        None
    }
}

/// The callback that follows a proposal request's `add_proposal` call.
pub struct ProposalCallback {
    pub request_id: u64,
    /// The DAO the proposal was added to.
    pub dao_id: String,
    /// The account refunded if `add_proposal` fails.
    pub funder_id: String,
    /// The escrowed bond.
    pub bond: u128,
    /// JSON text of the proposal kind.
    pub kind: String,
    /// Gas for the approving `act_proposal` call.
    pub act_proposal_gas: u64,
    /// Gas attached to the callback itself.
    pub static_gas: u64,
}

/// What `execute` sends: the batch of calls to the receiver and, for a
/// proposal request, the callback that approves the added proposal.
pub struct Execution {
    pub receiver_id: String,
    pub actions: Vec<FunctionCall>,
    pub callback: Option<ProposalCallback>,
}

/// Mathematical value of a [`ProposalCallback`].
pub struct ProposalCallbackView {
    pub request_id: u64,
    pub dao_id: Seq<char>,
    pub funder_id: Seq<char>,
    pub bond: u128,
    pub kind: Seq<char>,
    pub act_proposal_gas: u64,
    pub static_gas: u64,
}

/// Mathematical value of an [`Execution`].
pub struct ExecutionView {
    pub receiver_id: Seq<char>,
    pub actions: Seq<FunctionCallView>,
    pub callback: Option<ProposalCallbackView>,
}

impl View for Execution {
    type V = ExecutionView;

    open spec fn view(&self) -> ExecutionView {
        ExecutionView {
            receiver_id: self.receiver_id@,
            actions: actions_view(self.actions@),
            callback: match self.callback {
                Some(c) => Some(
                    ProposalCallbackView {
                        request_id: c.request_id,
                        dao_id: c.dao_id@,
                        funder_id: c.funder_id@,
                        bond: c.bond,
                        kind: c.kind@,
                        act_proposal_gas: c.act_proposal_gas,
                        static_gas: c.static_gas,
                    },
                ),
                None => None,
            },
        }
    }
}

/// What executing request `request_id` sends: its actions to its receiver
/// and, for a proposal request, the approving callback, which carries the
/// escrowed deposit as the bond to refund on failure.
pub open spec fn execution_of(request_id: u64, r: RequestView) -> ExecutionView {
    ExecutionView {
        receiver_id: r.receiver_id,
        actions: r.actions,
        callback: match r.approve {
            Some(a) => Some(
                ProposalCallbackView {
                    request_id,
                    dao_id: r.receiver_id,
                    funder_id: r.funder_id,
                    bond: total_deposit_of(r.actions),
                    kind: a.kind,
                    act_proposal_gas: a.act_proposal_gas,
                    static_gas: sat_add_u64(GAS_FOR_ON_PROPOSAL_ADDED, a.act_proposal_gas),
                },
            ),
            None => None,
        },
    }
}

/// A transfer of `amount` yoctoNEAR back to `receiver_id`.
pub struct Refund {
    pub receiver_id: String,
    pub amount: u128,
}

impl View for Refund {
    type V = (Seq<char>, u128);

    open spec fn view(&self) -> (Seq<char>, u128) {
        (self.receiver_id@, self.amount)
    }
}

/// The refund owed when request `r` is cancelled: its whole deposit to its
/// funder, or nothing when it escrowed nothing.
pub open spec fn refund_of(r: RequestView) -> Option<(Seq<char>, u128)> {
    if total_deposit_of(r.actions) == 0 {
        None
    } else {
        Some((r.funder_id, total_deposit_of(r.actions)))
    }
}

/// `x` occurs in `v`.
pub fn contains_string(v: &Vec<String>, x: &String) -> (res: bool)
    ensures
        res == strings_view(v@).contains(x@),
{
    let mut i: usize = 0;
    while i < v.len()
        invariant
            i <= v.len(),
            forall|j: int| 0 <= j < i ==> strings_view(v@)[j] != x@,
        decreases v.len() - i,
    {
        if v[i] == *x {
            assert(strings_view(v@)[i as int] == x@);
            return true;
        }
        i += 1;
    }
    proof {
        if strings_view(v@).contains(x@) {
            let j = choose|j: int| 0 <= j < strings_view(v@).len() && strings_view(v@)[j] == x@;
            assert(strings_view(v@)[j] == x@);
        }
    }
    false
}

/// The guardian set built from `guardians`: each account once, in the order
/// of its first occurrence.
fn guardian_set(guardians: Vec<String>) -> (res: Vec<String>)
    ensures
        strings_view(res@) == insert_all(Seq::empty(), strings_view(guardians@)),
        strings_view(res@).no_duplicates(),
        res@.len() <= guardians@.len(),
{
    let mut res: Vec<String> = Vec::new();
    let mut i: usize = 0;
    while i < guardians.len()
        invariant
            i <= guardians.len(),
            strings_view(res@) == insert_all(Seq::empty(), strings_view(guardians@).take(i as int)),
            strings_view(res@).no_duplicates(),
            res@.len() <= i,
        decreases guardians.len() - i,
    {
        proof {
            assert(strings_view(guardians@).take(i + 1).drop_last() =~= strings_view(guardians@).take(i as int));
        }
        let ghost prev = strings_view(res@);
        if !contains_string(&res, &guardians[i]) {
            let g = guardians[i].clone();
            res.push(g);
            assert(strings_view(res@) =~= prev.push(guardians@[i as int]@));
        }
        i += 1;
    }
    assert(strings_view(guardians@).take(i as int) =~= strings_view(guardians@));
    res
}

impl Contract {
    /// Initializes the timelock with no pending requests.
    pub fn new(dao_id: String, admin_id: String, guardians: Vec<String>, delay_ns: u64) -> (res:
        Result<Contract, TimelockError>)
        requires
            guardians@.len() <= u32::MAX,
        ensures
            delay_ns > MAX_DELAY_NS ==> res == Err::<Contract, TimelockError>(TimelockError::DelayTooLong),
            delay_ns <= MAX_DELAY_NS ==> res is Ok,
            res matches Ok(c) ==> {
                &&& c@.well_formed()
                &&& c@ == ContractView {
                    dao_id: dao_id@,
                    admin_id: admin_id@,
                    guardians: insert_all(Seq::empty(), strings_view(guardians@)),
                    delay_ns,
                    next_request_id: 0,
                    requests: Seq::empty(),
                }
            },
    {
        if delay_ns > MAX_DELAY_NS {
            return Err(TimelockError::DelayTooLong);
        }
        let guardians = guardian_set(guardians);
        let contract = Contract {
            dao_id,
            admin_id,
            guardians,
            delay_ns,
            next_request_id: 0,
            requests: Vec::new(),
        };
        assert(contract@.requests =~= Seq::<(u64, RequestView)>::empty());
        Ok(contract)
    }

    /// The position of the pending request `request_id`, if any.
    fn find_request(&self, request_id: u64) -> (res: Option<usize>)
        requires
            self@.well_formed(),
        ensures
            match res {
                Some(i) => {
                    &&& i < self@.requests.len()
                    &&& self@.requests[i as int].0 == request_id
                    &&& key_index(self@.requests, request_id) == i
                    &&& self@.is_pending(request_id)
                    &&& self@.request(request_id) == self@.requests[i as int].1
                },
                None => !self@.is_pending(request_id),
            },
    {
        let mut i: usize = 0;
        while i < self.requests.len()
            invariant
                i <= self.requests.len(),
                self@.well_formed(),
                forall|j: int| 0 <= j < i ==> (#[trigger] self.requests@[j]).0 != request_id,
            decreases self.requests.len() - i,
        {
            if self.requests[i].0 == request_id {
                proof {
                    assert(self@.requests[i as int].0 == request_id);
                    lemma_index_unique(self@.requests, request_id, i as int);
                }
                return Some(i);
            }
            i += 1;
        }
        proof {
            if self@.is_pending(request_id) {
                let j = key_index(self@.requests, request_id);
                assert(self@.requests[j].0 == self.requests@[j].0);
            }
        }
        None
    }

    /// Takes the pending request at position `i` out of the queue.
    fn take_request(&mut self, i: usize, request_id: u64) -> (res: Request)
        requires
            old(self)@.well_formed(),
            i < old(self)@.requests.len(),
            old(self)@.requests[i as int].0 == request_id,
            key_index(old(self)@.requests, request_id) == i,
        ensures
            final(self)@ == old(self)@.dequeue(request_id),
            final(self)@.well_formed(),
            res@ == old(self)@.request(request_id),
    {
        let ghost old_v = self@;
        let (_, request) = self.requests.swap_remove(i);
        proof {
            lemma_index_unique(old_v.requests, request_id, i as int);
            lemma_remove(old_v.requests, request_id);
            assert(self@.requests =~= remove_key(old_v.requests, request_id));
            assert forall|j: int| 0 <= j < self@.requests.len() implies (
            #[trigger] self@.requests[j]).0 < self@.next_request_id by {
                let k = if j == i { old_v.requests.len() - 1 } else { j };
                assert(self@.requests[j] == old_v.requests[k]);
            }
        }
        request
    }

    /// Schedules a new request and returns its id. Only callable by the DAO.
    /// The attached deposit must equal the sum of the action deposits;
    /// the optional predecessor must leave the queue before this one can execute.
    pub fn schedule(
        &mut self,
        caller: &String,
        now: u64,
        attached_deposit: u128,
        receiver_id: String,
        actions: Vec<FunctionCall>,
        predecessor_id: Option<u64>,
    ) -> (res: Result<u64, TimelockError>)
        requires
            old(self)@.well_formed(),
            old(self)@.next_request_id < u64::MAX,
            old(self)@.requests.len() < u32::MAX,
        ensures
            final(self)@.well_formed(),
            final(self)@ == after_call(
                old(self)@,
                (TimelockCall::Schedule {
                    caller: caller@,
                    now,
                    attached_deposit,
                    receiver_id: receiver_id@,
                    actions: actions_view(actions@),
                    predecessor_id,
                }),
            ),
            match schedule_error(old(self)@, caller@, attached_deposit, actions_view(actions@), predecessor_id) {
                Some(e) => res == Err::<u64, TimelockError>(e) && final(self)@ == old(self)@,
                None => {
                    &&& res == Ok::<u64, TimelockError>(old(self)@.next_request_id)
                    &&& final(self)@ == old(self)@.enqueue(
                        RequestView {
                            receiver_id: receiver_id@,
                            actions: actions_view(actions@),
                            funder_id: caller@,
                            execute_after: execute_after_of(now, old(self)@.delay_ns),
                            approve: None,
                            predecessor_id,
                        },
                    )
                },
            },
    {
        if *caller != self.dao_id {
            return Err(TimelockError::NotDao);
        }
        if actions.len() == 0 {
            return Err(TimelockError::EmptyRequest);
        }
        if let Some(p) = predecessor_id {
            if self.find_request(p).is_none() {
                return Err(TimelockError::PredecessorNotFound);
            }
        }
        let request = Request {
            receiver_id,
            actions,
            funder_id: caller.clone(),
            execute_after: now.saturating_add(self.delay_ns),
            approve: None,
            predecessor_id,
        };
        if attached_deposit != request.total_deposit() {
            return Err(TimelockError::WrongDeposit);
        }
        if request.total_gas() > MAX_EXECUTION_GAS {
            return Err(TimelockError::GasLimitExceeded);
        }
        Ok(self.insert_request(request))
    }

    /// Assigns the next id to the request, stores it, and returns the id.
    fn insert_request(&mut self, request: Request) -> (res: u64)
        requires
            old(self)@.well_formed(),
            old(self)@.next_request_id < u64::MAX,
            old(self)@.requests.len() < u32::MAX,
        ensures
            res == old(self)@.next_request_id,
            final(self)@ == old(self)@.enqueue(request@),
            final(self)@.well_formed(),
    {
        let ghost old_v = self@;
        let request_id = self.next_request_id;
        self.next_request_id = self.next_request_id + 1;
        self.requests.push((request_id, request));
        proof {
            assert(self@.requests =~= old_v.requests.push((request_id, request@)));
            assert(!has_key(old_v.requests, request_id)) by {
                if has_key(old_v.requests, request_id) {
                    let j = key_index(old_v.requests, request_id);
                    assert(old_v.requests[j].0 < old_v.next_request_id);
                }
            }
            lemma_put(old_v.requests, request_id, request@);
            assert(put(old_v.requests, request_id, request@) == self@.requests);
            assert forall|j: int| 0 <= j < self@.requests.len() implies (
            #[trigger] self@.requests[j]).0 < self@.next_request_id by {
                if j < old_v.requests.len() {
                    assert(self@.requests[j] == old_v.requests[j]);
                }
            }
        }
        request_id
    }
}


impl Contract {
    /// Schedules a Sputnik proposal on `dao_id`: `add_proposal`, then a `VoteApprove`
    /// in a callback; the target DAO must grant this contract the matching
    /// AddProposal/VoteApprove permissions. `proposal_bond` must match the target
    /// DAO's bond and equal the attached deposit; it is attached to `add_proposal`.
    /// `kind` is the JSON text of the proposal kind.
    pub fn schedule_proposal(
        &mut self,
        caller: &String,
        now: u64,
        attached_deposit: u128,
        description: String,
        kind: String,
        dao_id: String,
        proposal_bond: u128,
        add_proposal_gas: u64,
        act_proposal_gas: u64,
        predecessor_id: Option<u64>,
    ) -> (res: Result<u64, TimelockError>)
        requires
            old(self)@.well_formed(),
            old(self)@.next_request_id < u64::MAX,
            old(self)@.requests.len() < u32::MAX,
        ensures
            final(self)@.well_formed(),
            final(self)@ == after_call(
                old(self)@,
                (TimelockCall::ScheduleProposal {
                    caller: caller@,
                    now,
                    attached_deposit,
                    description: description@,
                    kind: kind@,
                    dao_id: dao_id@,
                    proposal_bond,
                    add_proposal_gas,
                    act_proposal_gas,
                    predecessor_id,
                }),
            ),
            ({
                let call = add_proposal_call(description@, kind@, proposal_bond, add_proposal_gas);
                match schedule_proposal_error(
                    old(self)@,
                    caller@,
                    attached_deposit,
                    call,
                    act_proposal_gas,
                    predecessor_id,
                ) {
                    Some(e) => res == Err::<u64, TimelockError>(e) && final(self)@ == old(self)@,
                    None => {
                        &&& res == Ok::<u64, TimelockError>(old(self)@.next_request_id)
                        &&& final(self)@ == old(self)@.enqueue(
                            RequestView {
                                receiver_id: dao_id@,
                                actions: seq![call],
                                funder_id: caller@,
                                execute_after: execute_after_of(now, old(self)@.delay_ns),
                                approve: Some(ProposalApprovalView { kind: kind@, act_proposal_gas }),
                                predecessor_id,
                            },
                        )
                    },
                }
            }),
    {
        if *caller != self.dao_id {
            return Err(TimelockError::NotDao);
        }
        if let Some(p) = predecessor_id {
            if self.find_request(p).is_none() {
                return Err(TimelockError::PredecessorNotFound);
            }
        }
        if attached_deposit != proposal_bond {
            return Err(TimelockError::WrongProposalDeposit);
        }
        let args = add_proposal_args(description.as_str(), kind.as_str());
        let call = FunctionCall {
            method_name: "add_proposal".to_owned(),
            args,
            deposit: proposal_bond,
            gas: add_proposal_gas,
        };
        let mut actions: Vec<FunctionCall> = Vec::new();
        actions.push(call);
        let request = Request {
            receiver_id: dao_id,
            actions,
            funder_id: caller.clone(),
            execute_after: now.saturating_add(self.delay_ns),
            approve: Some(ProposalApproval { kind, act_proposal_gas }),
            predecessor_id,
        };
        let ghost call_view = add_proposal_call(description@, kind@, proposal_bond, add_proposal_gas);
        assert(request@.actions =~= seq![call_view]);
        if request.total_gas() > MAX_EXECUTION_GAS {
            return Err(TimelockError::GasLimitExceeded);
        }
        Ok(self.insert_request(request))
    }

    /// Executes a request whose delay has passed. Callable by anyone.
    /// The request leaves the queue, so it can never execute twice; its
    /// predecessor (if any) must have left the queue first.
    pub fn execute(&mut self, now: u64, request_id: u64) -> (res: Result<Execution, TimelockError>)
        requires
            old(self)@.well_formed(),
        ensures
            final(self)@.well_formed(),
            final(self)@ == after_call(old(self)@, (TimelockCall::Execute { now, request_id })),
            res matches Ok(x) ==> x.receiver_id@ == old(self)@.request(request_id).receiver_id && actions_view(
                x.actions@,
            ) == old(self)@.request(request_id).actions,
            match execute_error(old(self)@, now, request_id) {
                Some(e) => res matches Err(e2) && e2 == e && final(self)@ == old(self)@,
                None => {
                    &&& res matches Ok(x) && x@ == execution_of(request_id, old(self)@.request(request_id))
                    &&& final(self)@ == old(self)@.dequeue(request_id)
                },
            },
    {
        let i = match self.find_request(request_id) {
            Some(i) => i,
            None => return Err(TimelockError::RequestNotFound),
        };
        if now < self.requests[i].1.execute_after {
            return Err(TimelockError::TooEarly);
        }
        if let Some(p) = self.requests[i].1.predecessor_id {
            proof {
                lemma_remove(self@.requests, request_id);
                if p != request_id {
                    assert(lookup(self@.dequeue(request_id).requests, p) == lookup(self@.requests, p));
                }
            }
            // The predecessor must not be pending once this request has left the queue.
            if p != request_id && self.find_request(p).is_some() {
                return Err(TimelockError::PredecessorPending);
            }
        }
        let request = self.take_request(i, request_id);
        let total_deposit = request.total_deposit();
        let callback = match request.approve {
            Some(approval) => Some(
                ProposalCallback {
                    request_id,
                    dao_id: request.receiver_id.clone(),
                    funder_id: request.funder_id,
                    bond: total_deposit,
                    kind: approval.kind,
                    act_proposal_gas: approval.act_proposal_gas,
                    static_gas: GAS_FOR_ON_PROPOSAL_ADDED.saturating_add(approval.act_proposal_gas),
                },
            ),
            None => None,
        };
        Ok(Execution { receiver_id: request.receiver_id, actions: request.actions, callback })
    }

    /// Cancels a pending request and returns the refund of its escrowed
    /// deposit to the funder (nothing when it escrowed nothing). Callable
    /// only by a guardian.
    pub fn cancel(&mut self, caller: &String, request_id: u64) -> (res: Result<Option<Refund>, TimelockError>)
        requires
            old(self)@.well_formed(),
        ensures
            final(self)@.well_formed(),
            final(self)@ == after_call(old(self)@, (TimelockCall::Cancel { caller: caller@, request_id })),
            match cancel_error(old(self)@, caller@, request_id) {
                Some(e) => res matches Err(e2) && e2 == e && final(self)@ == old(self)@,
                None => {
                    &&& res matches Ok(refund) && match refund {
                        Some(r) => refund_of(old(self)@.request(request_id)) == Some(r@),
                        None => refund_of(old(self)@.request(request_id)) is None,
                    }
                    &&& final(self)@ == old(self)@.dequeue(request_id)
                },
            },
    {
        if !contains_string(&self.guardians, caller) {
            return Err(TimelockError::NotGuardian);
        }
        let i = match self.find_request(request_id) {
            Some(i) => i,
            None => return Err(TimelockError::RequestNotFound),
        };
        let request = self.take_request(i, request_id);
        let total_deposit = request.total_deposit();
        if total_deposit == 0 {
            Ok(None)
        } else {
            Ok(Some(Refund { receiver_id: request.funder_id, amount: total_deposit }))
        }
    }
}


/// What follows the `add_proposal` call of a proposal request.
pub enum ProposalFollowUp {
    /// Vote `VoteApprove` on the added proposal with `call` on `receiver_id`.
    Approve { receiver_id: String, call: FunctionCall },
    /// `add_proposal` failed: return the bond to the funder.
    Refund(Refund),
    /// `add_proposal` failed and there is no bond to return.
    Nothing,
}

/// The approving `act_proposal` call on `proposal_id`; `kind` is the proposal
/// kind as `serde_json` writes it back.
pub open spec fn act_proposal_call(proposal_id: u64, kind: Seq<char>, act_proposal_gas: u64) -> FunctionCallView {
    FunctionCallView {
        method_name: "act_proposal"@,
        args: encode_utf8(act_proposal_args_text(proposal_id, kind)),
        deposit: 0,
        gas: act_proposal_gas,
    }
}

impl Contract {
    /// Callback of a proposal request's `add_proposal` call: on success, votes
    /// `VoteApprove` on the returned proposal id; on failure, refunds the bond
    /// to the funder. The state is left as it is.
    pub fn on_proposal_added(
        &mut self,
        request_id: u64,
        dao_id: String,
        funder_id: String,
        bond: u128,
        kind: String,
        act_proposal_gas: u64,
        result: Result<u64, ()>,
    ) -> (res: Result<ProposalFollowUp, TimelockError>)
        ensures
            final(self)@ == old(self)@,
            final(self)@ == after_call(old(self)@, TimelockCall::ProposalAdded),
            match result {
                Ok(proposal_id) => match json_value_text(kind@) {
                    Some(k) => res matches Ok(ProposalFollowUp::Approve { receiver_id, call }) && receiver_id@
                        == dao_id@ && call@ == act_proposal_call(proposal_id, k, act_proposal_gas),
                    None => res matches Err(e) && e == TimelockError::InvalidStoredKind,
                },
                Err(_) => if bond == 0 {
                    res matches Ok(ProposalFollowUp::Nothing)
                } else {
                    res matches Ok(ProposalFollowUp::Refund(r)) && r@ == (funder_id@, bond)
                },
            },
    {
        match result {
            Ok(proposal_id) => {
                let kind = match reserialize_json(kind.as_str()) {
                    Some(k) => k,
                    None => return Err(TimelockError::InvalidStoredKind),
                };
                let args = act_proposal_args(proposal_id, kind.as_str());
                let call = FunctionCall {
                    method_name: "act_proposal".to_owned(),
                    args,
                    deposit: 0,
                    gas: act_proposal_gas,
                };
                Ok(ProposalFollowUp::Approve { receiver_id: dao_id, call })
            },
            Err(_) => {
                if bond == 0 {
                    Ok(ProposalFollowUp::Nothing)
                } else {
                    Ok(ProposalFollowUp::Refund(Refund { receiver_id: funder_id, amount: bond }))
                }
            },
        }
    }

    pub fn get_dao(&self) -> (res: &String)
        ensures
            res@ == self@.dao_id,
    {
        &self.dao_id
    }

    pub fn get_admin(&self) -> (res: &String)
        ensures
            res@ == self@.admin_id,
    {
        &self.admin_id
    }

    /// The guardians, each once, in the order they were added.
    pub fn get_guardians(&self) -> (res: Vec<&String>)
        ensures
            refs_view(res@) == self@.guardians,
    {
        let mut res: Vec<&String> = Vec::new();
        let mut i: usize = 0;
        while i < self.guardians.len()
            invariant
                i <= self.guardians.len(),
                res@.len() == i,
                refs_view(res@) =~= self@.guardians.take(i as int),
            decreases self.guardians.len() - i,
        {
            let ghost prev = res@;
            res.push(&self.guardians[i]);
            proof {
                assert forall|j: int| 0 <= j < i + 1 implies #[trigger] refs_view(res@)[j]
                    == self@.guardians.take(i + 1)[j] by {
                    if j < i {
                        assert(res@[j] == prev[j]);
                        assert(refs_view(prev)[j] == self@.guardians.take(i as int)[j]);
                    }
                }
                assert(refs_view(res@) =~= self@.guardians.take(i + 1));
            }
            i += 1;
        }
        assert(self@.guardians.take(i as int) =~= self@.guardians);
        res
    }

    pub fn get_delay(&self) -> (res: u64)
        ensures
            res == self@.delay_ns,
    {
        self.delay_ns
    }

    /// Total number of requests ever scheduled. Also the id of the next request.
    pub fn get_next_request_id(&self) -> (res: u64)
        ensures
            res == self@.next_request_id,
    {
        self.next_request_id
    }

    pub fn get_num_requests(&self) -> (res: u32)
        requires
            self@.well_formed(),
        ensures
            res == self@.requests.len(),
    {
        self.requests.len() as u32
    }

    /// The pending request `request_id`, if any.
    pub fn get_request(&self, request_id: u64) -> (res: Option<RequestOutput>)
        requires
            self@.well_formed(),
        ensures
            match res {
                Some(out) => self@.is_pending(request_id) && out@ == (request_id, self@.request(request_id)),
                None => !self@.is_pending(request_id),
            },
    {
        match self.find_request(request_id) {
            Some(i) => Some(RequestOutput::new(request_id, self.requests[i].1.clone())),
            None => None,
        }
    }

    /// Returns pending requests, skipping `from_index` (default 0) and
    /// returning at most `limit` (default `u32::MAX`). The order is the order
    /// of the queue, not sorted by id.
    pub fn get_requests(&self, from_index: Option<u32>, limit: Option<u32>) -> (res: Vec<RequestOutput>)
        requires
            self@.well_formed(),
        ensures
            outputs_view(res@) == page(self@.requests, from_index, limit),
    {
        let from: usize = match from_index {
            Some(f) => f as usize,
            None => 0,
        };
        let limit: usize = match limit {
            Some(l) => l as usize,
            None => u32::MAX as usize,
        };
        let len = self.requests.len();
        let start = if from < len { from } else { len };
        let end = if limit < len - start { start + limit } else { len };
        let mut res: Vec<RequestOutput> = Vec::new();
        let mut i: usize = start;
        while i < end
            invariant
                start <= i <= end <= len,
                len == self.requests.len(),
                res@.len() == i - start,
                outputs_view(res@) =~= self@.requests.subrange(start as int, i as int),
            decreases end - i,
        {
            let entry = &self.requests[i];
            let out = RequestOutput::new(entry.0, entry.1.clone());
            let ghost prev = res@;
            let ghost out_view = out@;
            res.push(out);
            proof {
                assert(out_view == self@.requests[i as int]);
                assert(res@[i - start]@ == out_view);
                assert forall|j: int| 0 <= j < i + 1 - start implies #[trigger] outputs_view(res@)[j] == self@.requests.subrange(start as int, i + 1)[j] by {
                    if j < i - start {
                        assert(res@[j] == prev[j]);
                        assert(outputs_view(prev)[j] == self@.requests.subrange(
                            start as int,
                            i as int,
                        )[j]);
                    }
                }
                assert(outputs_view(res@) =~= self@.requests.subrange(start as int, i + 1));
            }
            i += 1;
        }
        res
    }
}



/// `v` has no repeated element.
fn strings_unique(v: &Vec<String>) -> (res: bool)
    ensures
        res == strings_view(v@).no_duplicates(),
{
    let mut i: usize = 0;
    while i < v.len()
        invariant
            i <= v.len(),
            forall|a: int, b: int| 0 <= a < b < v.len() && a < i ==> strings_view(v@)[a] != strings_view(v@)[b],
        decreases v.len() - i,
    {
        let mut j: usize = i + 1;
        while j < v.len()
            invariant
                i < v.len(),
                i + 1 <= j <= v.len(),
                forall|a: int, b: int| 0 <= a < b < v.len() && a < i ==> strings_view(v@)[a] != strings_view(v@)[b],
                forall|b: int| i < b < j ==> strings_view(v@)[i as int] != strings_view(v@)[b],
            decreases v.len() - j,
        {
            if v[i] == v[j] {
                assert(strings_view(v@)[i as int] == strings_view(v@)[j as int]);
                return false;
            }
            j += 1;
        }
        i += 1;
    }
    true
}

impl Contract {
    /// Rebuilds a state from its parts (as kept in storage), provided they
    /// satisfy the timelock's invariant: delay within the maximum, guardians
    /// without repetition, request ids unique and below `next_request_id`,
    /// and at most `u32::MAX` guardians and requests.
    pub fn restore(
        dao_id: String,
        admin_id: String,
        guardians: Vec<String>,
        delay_ns: u64,
        next_request_id: u64,
        requests: Vec<(u64, Request)>,
    ) -> (res: Option<Contract>)
        ensures
            ({
                let v = ContractView {
                    dao_id: dao_id@,
                    admin_id: admin_id@,
                    guardians: strings_view(guardians@),
                    delay_ns,
                    next_request_id,
                    requests: requests_view(requests@),
                };
                &&& v.well_formed() ==> (res matches Some(c) && c@ == v)
                &&& !v.well_formed() ==> res is None
            }),
    {
        let ghost rv = requests_view(requests@);
        if delay_ns > MAX_DELAY_NS || guardians.len() > u32::MAX as usize || requests.len() > u32::MAX as usize {
            return None;
        }
        if !strings_unique(&guardians) {
            return None;
        }
        let mut i: usize = 0;
        while i < requests.len()
            invariant
                i <= requests.len(),
                rv == requests_view(requests@),
                forall|a: int| 0 <= a < i ==> (#[trigger] rv[a]).0 < next_request_id,
                forall|a: int, b: int| 0 <= a < b < rv.len() && a < i ==> rv[a].0 != rv[b].0,
            decreases requests.len() - i,
        {
            if requests[i].0 >= next_request_id {
                assert(rv[i as int].0 >= next_request_id);
                return None;
            }
            let mut j: usize = i + 1;
            while j < requests.len()
                invariant
                    i < requests.len(),
                    i + 1 <= j <= requests.len(),
                    rv == requests_view(requests@),
                    forall|a: int, b: int| 0 <= a < b < rv.len() && a < i ==> rv[a].0 != rv[b].0,
                    forall|b: int| i < b < j ==> rv[i as int].0 != rv[b].0,
                decreases requests.len() - j,
            {
                if requests[i].0 == requests[j].0 {
                    assert(rv[i as int].0 == rv[j as int].0);
                    return None;
                }
                j += 1;
            }
            i += 1;
        }
        let contract = Contract { dao_id, admin_id, guardians, delay_ns, next_request_id, requests };
        proof {
            assert(unique_keys(rv)) by {
                assert forall|a: int, b: int| 0 <= a < rv.len() && 0 <= b < rv.len() && a != b implies (
                #[trigger] rv[a]).0 != (#[trigger] rv[b]).0 by {
                    if a < b {
                        assert(rv[a].0 != rv[b].0);
                    } else {
                        assert(rv[b].0 != rv[a].0);
                    }
                }
            }
        }
        Some(contract)
    }
}

} // verus!
