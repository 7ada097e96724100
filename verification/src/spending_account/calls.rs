//! The spending account's state-changing calls as values, and what they and
//! any sequence of them keep: the roles are separate, and the contract's own
//! account is never whitelisted.

use vstd::prelude::*;

use crate::table::{lemma_put, lemma_remove, lookup, put, unique_keys};

use super::admin::admin_error;
use super::laws::{lemma_batches_never_whitelist_self, no_entry_for};
use super::transfer::{charged, rolled_back, transfer_error};
use super::whitelist::{
    add_step, apply_all, batch_outcome, decrease_step, increase_step, remove_step, set_limit_step,
    with_whitelist,
};
use super::{ContractView, KeyView, SpendingError, WhitelistView};

verus! {

/// A call of one of the spending account's state-changing methods, with the
/// arguments (by their views) and the context that decide its effect.
/// `self_id` is the contract's own account; `failed` says whether the payout
/// a callback reports on failed.
pub enum SpendingCall {
    AddToWhitelist { caller: Seq<char>, self_id: Seq<char>, entries: Seq<(KeyView, u128)> },
    RemoveFromWhitelist { caller: Seq<char>, keys: Seq<KeyView> },
    SetLimit { caller: Seq<char>, entries: Seq<(KeyView, u128)> },
    IncreaseLimit { caller: Seq<char>, self_id: Seq<char>, changes: Seq<(KeyView, u128)> },
    DecreaseLimit { caller: Seq<char>, changes: Seq<(KeyView, u128)> },
    Transfer { caller: Seq<char>, receiver_id: Seq<char>, amount: u128 },
    OnTransfer { receiver_id: Seq<char>, amount: u128, failed: bool },
    TransferFt { caller: Seq<char>, receiver_id: Seq<char>, token_id: Seq<char>, amount: u128 },
    OnTransferFt { receiver_id: Seq<char>, token_id: Seq<char>, amount: u128, failed: bool },
    SetSpender { caller: Seq<char>, spender_id: Seq<char> },
    SetManager { caller: Seq<char>, manager_id: Seq<char> },
    SetAdmin { caller: Seq<char>, admin_id: Seq<char> },
}

/// The state after a manager batch: the new whitelist if it was accepted.
pub open spec fn after_batch(v: ContractView, outcome: Result<WhitelistView, SpendingError>) -> ContractView {
    match outcome {
        Ok(w) => with_whitelist(v, w),
        Err(_) => v,
    }
}

/// Room for `n` more entries in the whitelist; where there is none, the
/// contract refuses a batch that may add entries.
pub open spec fn has_room(v: ContractView, n: nat) -> bool {
    v.whitelist.len() + n <= u32::MAX
}

/// The state after `call` in the state `v`. A rejected call leaves the state
/// as it was.
pub open spec fn after_call(v: ContractView, call: SpendingCall) -> ContractView {
    match call {
        SpendingCall::AddToWhitelist { caller, self_id, entries } => if has_room(v, entries.len()) {
            after_batch(v, batch_outcome(v, caller, entries, add_step(self_id)))
        } else {
            v
        },
        SpendingCall::RemoveFromWhitelist { caller, keys } => after_batch(
            v,
            batch_outcome(v, caller, keys, remove_step()),
        ),
        SpendingCall::SetLimit { caller, entries } => after_batch(
            v,
            batch_outcome(v, caller, entries, set_limit_step()),
        ),
        SpendingCall::IncreaseLimit { caller, self_id, changes } => if has_room(v, changes.len()) {
            after_batch(v, batch_outcome(v, caller, changes, increase_step(self_id)))
        } else {
            v
        },
        SpendingCall::DecreaseLimit { caller, changes } => after_batch(
            v,
            batch_outcome(v, caller, changes, decrease_step()),
        ),
        SpendingCall::Transfer { caller, receiver_id, amount } => {
            let key = (receiver_id, None::<Seq<char>>);
            if transfer_error(v, caller, key, amount, SpendingError::ReceiverNotWhitelisted) is None {
                with_whitelist(v, charged(v.whitelist, key, amount))
            } else {
                v
            }
        },
        SpendingCall::OnTransfer { receiver_id, amount, failed } => if failed {
            with_whitelist(v, rolled_back(v.whitelist, (receiver_id, None::<Seq<char>>), amount))
        } else {
            v
        },
        SpendingCall::TransferFt { caller, receiver_id, token_id, amount } => {
            let key = (receiver_id, Some(token_id));
            if transfer_error(v, caller, key, amount, SpendingError::ReceiverNotWhitelistedForToken) is None {
                with_whitelist(v, charged(v.whitelist, key, amount))
            } else {
                v
            }
        },
        SpendingCall::OnTransferFt { receiver_id, token_id, amount, failed } => if failed {
            with_whitelist(v, rolled_back(v.whitelist, (receiver_id, Some(token_id)), amount))
        } else {
            v
        },
        SpendingCall::SetSpender { caller, spender_id } => if admin_error(v, caller) is None {
            ContractView { spender_id, ..v }
        } else {
            v
        },
        SpendingCall::SetManager { caller, manager_id } => if admin_error(v, caller) is None {
            ContractView { manager_id, ..v }
        } else {
            v
        },
        SpendingCall::SetAdmin { caller, admin_id } => if admin_error(v, caller) is None {
            ContractView { admin_id, ..v }
        } else {
            v
        },
    }
}

/// The state after the calls, in order, starting from `v`.
pub open spec fn run(v: ContractView, calls: Seq<SpendingCall>) -> ContractView
    decreases calls.len(),
{
    if calls.len() == 0 {
        v
    } else {
        after_call(run(v, calls.drop_last()), calls.last())
    }
}

/// The call names `self_id` as the contract's own account, where it names one.
pub open spec fn names_self(call: SpendingCall, self_id: Seq<char>) -> bool {
    match call {
        SpendingCall::AddToWhitelist { self_id: s, .. } => s == self_id,
        SpendingCall::IncreaseLimit { self_id: s, .. } => s == self_id,
        _ => true,
    }
}

/// Every step of the batch adds at most `growth` entries.
spec fn step_grows_by<T>(step: spec_fn(WhitelistView, T) -> Result<WhitelistView, SpendingError>, growth: nat) -> bool {
    forall|w: WhitelistView, x: T|
        unique_keys(w) && (#[trigger] step(w, x)) is Ok ==> {
            &&& unique_keys(step(w, x)->Ok_0)
            &&& step(w, x)->Ok_0.len() <= w.len() + growth
        }
}

proof fn lemma_steps_grow(self_id: Seq<char>)
    ensures
        step_grows_by(add_step(self_id), 1),
        step_grows_by(increase_step(self_id), 1),
        step_grows_by(set_limit_step(), 0),
        step_grows_by(decrease_step(), 0),
        step_grows_by(remove_step(), 0),
{
    assert forall|w: WhitelistView, x: (KeyView, u128)|
        unique_keys(w) && (#[trigger] add_step(self_id)(w, x)) is Ok implies {
        &&& unique_keys(add_step(self_id)(w, x)->Ok_0)
        &&& add_step(self_id)(w, x)->Ok_0.len() <= w.len() + 1
    } by {
        lemma_put(w, x.0, x.1);
    }
    assert forall|w: WhitelistView, x: (KeyView, u128)|
        unique_keys(w) && (#[trigger] increase_step(self_id)(w, x)) is Ok implies {
        &&& unique_keys(increase_step(self_id)(w, x)->Ok_0)
        &&& increase_step(self_id)(w, x)->Ok_0.len() <= w.len() + 1
    } by {
        let current: u128 = match lookup(w, x.0) {
            Some(l) => l,
            None => 0,
        };
        lemma_put(w, x.0, (current + x.1) as u128);
    }
    assert forall|w: WhitelistView, x: (KeyView, u128)|
        unique_keys(w) && (#[trigger] set_limit_step()(w, x)) is Ok implies {
        &&& unique_keys(set_limit_step()(w, x)->Ok_0)
        &&& set_limit_step()(w, x)->Ok_0.len() <= w.len()
    } by {
        lemma_put(w, x.0, x.1);
    }
    assert forall|w: WhitelistView, x: (KeyView, u128)|
        unique_keys(w) && (#[trigger] decrease_step()(w, x)) is Ok implies {
        &&& unique_keys(decrease_step()(w, x)->Ok_0)
        &&& decrease_step()(w, x)->Ok_0.len() <= w.len()
    } by {
        let l = lookup(w, x.0)->0;
        lemma_put(w, x.0, if l >= x.1 { (l - x.1) as u128 } else { 0u128 });
    }
    assert forall|w: WhitelistView, k: KeyView|
        unique_keys(w) && (#[trigger] remove_step()(w, k)) is Ok implies {
        &&& unique_keys(remove_step()(w, k)->Ok_0)
        &&& remove_step()(w, k)->Ok_0.len() <= w.len()
    } by {
        lemma_remove(w, k);
    }
}

proof fn lemma_batch_grows<T>(
    w: WhitelistView,
    items: Seq<T>,
    step: spec_fn(WhitelistView, T) -> Result<WhitelistView, SpendingError>,
    growth: nat,
)
    requires
        unique_keys(w),
        step_grows_by(step, growth),
        growth <= 1,
    ensures
        apply_all(w, items, step) matches Ok(w2) ==> unique_keys(w2) && w2.len() <= w.len() + if growth == 1 {
            items.len()
        } else {
            0
        },
    decreases items.len(),
{
    if items.len() > 0 {
        lemma_batch_grows(w, items.drop_last(), step, growth);
        if let Ok(u) = apply_all(w, items.drop_last(), step) {
            assert(step_grows_by(step, growth));
            if step(u, items.last()) is Ok {
                assert(unique_keys(step(u, items.last())->Ok_0));
            }
        }
    }
}

proof fn lemma_put_existing_keeps_self_out(w: WhitelistView, key: KeyView, value: u128, self_id: Seq<char>)
    requires
        unique_keys(w),
        no_entry_for(w, self_id),
        lookup(w, key) is Some,
    ensures
        unique_keys(put(w, key, value)),
        put(w, key, value).len() == w.len(),
        no_entry_for(put(w, key, value), self_id),
{
    lemma_put(w, key, value);
    assert(key.0 != self_id) by {
        if key.0 == self_id {
            assert(crate::table::has_key(w, (self_id, key.1)));
        }
    }
    assert forall|t: Option<Seq<char>>| !#[trigger] crate::table::has_key(put(w, key, value), (self_id, t)) by {
        assert(lookup(put(w, key, value), (self_id, t)) == lookup(w, (self_id, t)));
    }
}

/// One call, naming `self_id` as the contract's account, keeps the state well
/// formed and adds no entry for `self_id`.
pub proof fn lemma_call_keeps_self_out(v: ContractView, call: SpendingCall, self_id: Seq<char>)
    requires
        v.well_formed(),
        no_entry_for(v.whitelist, self_id),
        names_self(call, self_id),
    ensures
        after_call(v, call).well_formed(),
        no_entry_for(after_call(v, call).whitelist, self_id),
{
    lemma_steps_grow(self_id);
    match call {
        SpendingCall::AddToWhitelist { entries, .. } => {
            lemma_batches_never_whitelist_self(v.whitelist, self_id, entries, Seq::empty());
            lemma_batch_grows(v.whitelist, entries, add_step(self_id), 1);
        },
        SpendingCall::RemoveFromWhitelist { keys, .. } => {
            lemma_batches_never_whitelist_self(v.whitelist, self_id, Seq::empty(), keys);
            lemma_batch_grows(v.whitelist, keys, remove_step(), 0);
        },
        SpendingCall::SetLimit { entries, .. } => {
            lemma_batches_never_whitelist_self(v.whitelist, self_id, entries, Seq::empty());
            lemma_batch_grows(v.whitelist, entries, set_limit_step(), 0);
        },
        SpendingCall::IncreaseLimit { changes, .. } => {
            lemma_batches_never_whitelist_self(v.whitelist, self_id, changes, Seq::empty());
            lemma_batch_grows(v.whitelist, changes, increase_step(self_id), 1);
        },
        SpendingCall::DecreaseLimit { changes, .. } => {
            lemma_batches_never_whitelist_self(v.whitelist, self_id, changes, Seq::empty());
            lemma_batch_grows(v.whitelist, changes, decrease_step(), 0);
        },
        SpendingCall::Transfer { receiver_id, amount, .. } => {
            let key = (receiver_id, None::<Seq<char>>);
            if lookup(v.whitelist, key) is Some {
                lemma_put_existing_keeps_self_out(
                    v.whitelist,
                    key,
                    (lookup(v.whitelist, key)->0 - amount) as u128,
                    self_id,
                );
            }
        },
        SpendingCall::TransferFt { receiver_id, token_id, amount, .. } => {
            let key = (receiver_id, Some(token_id));
            if lookup(v.whitelist, key) is Some {
                lemma_put_existing_keeps_self_out(
                    v.whitelist,
                    key,
                    (lookup(v.whitelist, key)->0 - amount) as u128,
                    self_id,
                );
            }
        },
        SpendingCall::OnTransfer { receiver_id, amount, .. } => {
            let key = (receiver_id, None::<Seq<char>>);
            if let Some(limit) = lookup(v.whitelist, key) {
                lemma_put_existing_keeps_self_out(
                    v.whitelist,
                    key,
                    if limit + amount > u128::MAX { u128::MAX } else { (limit + amount) as u128 },
                    self_id,
                );
            }
        },
        SpendingCall::OnTransferFt { receiver_id, token_id, amount, .. } => {
            let key = (receiver_id, Some(token_id));
            if let Some(limit) = lookup(v.whitelist, key) {
                lemma_put_existing_keeps_self_out(
                    v.whitelist,
                    key,
                    if limit + amount > u128::MAX { u128::MAX } else { (limit + amount) as u128 },
                    self_id,
                );
            }
        },
        _ => {},
    }
}

/// The contract's own account is never whitelisted: starting from a state
/// without an entry for it, no sequence of calls (manager batches, payouts,
/// their callbacks, role changes) that name it as the contract's account
/// ever creates one, and every state reached is well formed.
pub proof fn lemma_self_never_whitelisted(v: ContractView, calls: Seq<SpendingCall>, self_id: Seq<char>)
    requires
        v.well_formed(),
        no_entry_for(v.whitelist, self_id),
        forall|i: int| 0 <= i < calls.len() ==> names_self(#[trigger] calls[i], self_id),
    ensures
        run(v, calls).well_formed(),
        no_entry_for(run(v, calls).whitelist, self_id),
    decreases calls.len(),
{
    if calls.len() > 0 {
        let prefix = calls.drop_last();
        assert forall|i: int| 0 <= i < prefix.len() implies names_self(#[trigger] prefix[i], self_id) by {
            assert(prefix[i] == calls[i]);
        }
        lemma_self_never_whitelisted(v, prefix, self_id);
        assert(names_self(calls[calls.len() - 1], self_id));
        lemma_call_keeps_self_out(run(v, prefix), calls.last(), self_id);
    }
}

/// Whether the caller of `call` holds the role the call needs: the manager
/// runs the whitelist batches, the spender the payouts, the admin the role
/// changes. The callbacks carry no caller.
pub open spec fn caller_allowed(v: ContractView, call: SpendingCall) -> bool {
    match call {
        SpendingCall::AddToWhitelist { caller, .. } => caller == v.manager_id,
        SpendingCall::RemoveFromWhitelist { caller, .. } => caller == v.manager_id,
        SpendingCall::SetLimit { caller, .. } => caller == v.manager_id,
        SpendingCall::IncreaseLimit { caller, .. } => caller == v.manager_id,
        SpendingCall::DecreaseLimit { caller, .. } => caller == v.manager_id,
        SpendingCall::Transfer { caller, .. } => caller == v.spender_id,
        SpendingCall::TransferFt { caller, .. } => caller == v.spender_id,
        SpendingCall::SetSpender { caller, .. } => caller == v.admin_id,
        SpendingCall::SetManager { caller, .. } => caller == v.admin_id,
        SpendingCall::SetAdmin { caller, .. } => caller == v.admin_id,
        SpendingCall::OnTransfer { .. } => true,
        SpendingCall::OnTransferFt { .. } => true,
    }
}

/// Whether `call` is one of the admin's role changes.
pub open spec fn is_role_change(call: SpendingCall) -> bool {
    call is SetSpender || call is SetManager || call is SetAdmin
}

/// The three roles are separate: a call by an account without the role it
/// needs changes nothing; a role change leaves the whitelist and the limits
/// as they are; every other call leaves the roles as they are.
pub proof fn lemma_roles_separated(v: ContractView, call: SpendingCall)
    ensures
        !caller_allowed(v, call) ==> after_call(v, call) == v,
        is_role_change(call) ==> after_call(v, call).whitelist == v.whitelist,
        !is_role_change(call) ==> {
            &&& after_call(v, call).spender_id == v.spender_id
            &&& after_call(v, call).manager_id == v.manager_id
            &&& after_call(v, call).admin_id == v.admin_id
        },
{
}

} // verus!
