//! Properties of the spending account that span its operations.

use vstd::prelude::*;

use crate::table::{has_key, key_index, lemma_index_unique, lemma_put, lookup, put, unique_keys};

use super::transfer::{charged, rolled_back, transfer_error};
use super::whitelist::{
    add_step, apply_all, decrease_step, increase_step, remove_step, set_limit_step,
};
use super::{ContractView, KeyView, SpendingError, WhitelistView};

verus! {

/// A payout that fails gives the whole allowance back: charging an amount and
/// then rolling the same amount back restores the whitelist exactly.
pub proof fn lemma_failed_transfer_restores_limit(w: WhitelistView, key: KeyView, amount: u128)
    requires
        unique_keys(w),
        lookup(w, key) matches Some(limit) && amount <= limit,
    ensures
        rolled_back(charged(w, key, amount), key, amount) == w,
{
    let limit = lookup(w, key)->0;
    let i = key_index(w, key);
    assert(w[i].0 == key);
    let c = charged(w, key, amount);
    lemma_put(w, key, (limit - amount) as u128);
    assert(c[i] == (key, (limit - amount) as u128));
    lemma_index_unique(c, key, i);
    let r = rolled_back(c, key, amount);
    assert(r =~= w);
}

/// A payout moves exactly its amount out of the pair's allowance and touches
/// no other pair: the NEAR allowance and the token allowances of a receiver
/// are separate.
pub proof fn lemma_transfer_charges_only_its_pair(w: WhitelistView, key: KeyView, amount: u128)
    requires
        unique_keys(w),
        lookup(w, key) matches Some(limit) && amount <= limit,
    ensures
        unique_keys(charged(w, key, amount)),
        charged(w, key, amount).len() == w.len(),
        lookup(charged(w, key, amount), key) == Some((lookup(w, key)->0 - amount) as u128),
        forall|other: KeyView| other != key ==> #[trigger] lookup(charged(w, key, amount), other) == lookup(w, other),
{
    lemma_put(w, key, (lookup(w, key)->0 - amount) as u128);
}

/// Allowances are per (receiver, token) pair: a payout for a pair that is
/// not whitelisted is rejected whatever other entries the receiver holds, so
/// a NEAR entry grants no token allowance and a token entry no NEAR
/// allowance (`missing` is the rejection of the payout kind).
pub proof fn lemma_allowances_are_per_pair(
    v: ContractView,
    receiver: Seq<char>,
    token: Option<Seq<char>>,
    amount: u128,
    missing: SpendingError,
)
    requires
        !has_key(v.whitelist, (receiver, token)),
        amount > 0,
    ensures
        transfer_error(v, v.spender_id, (receiver, token), amount, missing) == Some(missing),
{
}

/// `w` holds no entry for the account `account`, for any token.
pub open spec fn no_entry_for(w: WhitelistView, account: Seq<char>) -> bool {
    forall|t: Option<Seq<char>>| !#[trigger] has_key(w, (account, t))
}

proof fn lemma_put_keeps_absent(w: WhitelistView, k: KeyView, v: u128, account: Seq<char>)
    requires
        unique_keys(w),
        no_entry_for(w, account),
        k.0 != account,
    ensures
        no_entry_for(put(w, k, v), account),
        unique_keys(put(w, k, v)),
{
    lemma_put(w, k, v);
    assert forall|t: Option<Seq<char>>| !#[trigger] has_key(put(w, k, v), (account, t)) by {
        assert(lookup(put(w, k, v), (account, t)) == lookup(w, (account, t)));
    }
}

/// No manager batch ever whitelists the contract's own account: if it held no
/// entry before, it holds none after any accepted batch.
pub proof fn lemma_batches_never_whitelist_self(
    w: WhitelistView,
    self_id: Seq<char>,
    entries: Seq<(KeyView, u128)>,
    keys: Seq<KeyView>,
)
    requires
        unique_keys(w),
        no_entry_for(w, self_id),
    ensures
        apply_all(w, entries, add_step(self_id)) matches Ok(w2) ==> no_entry_for(w2, self_id),
        apply_all(w, entries, increase_step(self_id)) matches Ok(w2) ==> no_entry_for(w2, self_id),
        apply_all(w, entries, set_limit_step()) matches Ok(w2) ==> no_entry_for(w2, self_id),
        apply_all(w, entries, decrease_step()) matches Ok(w2) ==> no_entry_for(w2, self_id),
        apply_all(w, keys, remove_step()) matches Ok(w2) ==> no_entry_for(w2, self_id),
{
    lemma_steps_keep_self_out(self_id);
    lemma_batch_keeps_self_out(w, self_id, entries, add_step(self_id));
    lemma_batch_keeps_self_out(w, self_id, entries, increase_step(self_id));
    lemma_batch_keeps_self_out(w, self_id, entries, set_limit_step());
    lemma_batch_keeps_self_out(w, self_id, entries, decrease_step());
    lemma_batch_keeps_self_out(w, self_id, keys, remove_step());
}

/// The steps of the manager batches keep the keys unique and add no entry
/// for `self_id`.
pub open spec fn step_keeps_self_out<T>(
    step: spec_fn(WhitelistView, T) -> Result<WhitelistView, SpendingError>,
    self_id: Seq<char>,
) -> bool {
    forall|w: WhitelistView, x: T|
        unique_keys(w) && no_entry_for(w, self_id) && (#[trigger] step(w, x)) is Ok ==> {
            &&& unique_keys(step(w, x)->Ok_0)
            &&& no_entry_for(step(w, x)->Ok_0, self_id)
        }
}

proof fn lemma_steps_keep_self_out(self_id: Seq<char>)
    ensures
        step_keeps_self_out(add_step(self_id), self_id),
        step_keeps_self_out(increase_step(self_id), self_id),
        step_keeps_self_out(set_limit_step(), self_id),
        step_keeps_self_out(decrease_step(), self_id),
        step_keeps_self_out(remove_step(), self_id),
{
    assert forall|w: WhitelistView, x: (KeyView, u128)|
        unique_keys(w) && no_entry_for(w, self_id) && (#[trigger] add_step(self_id)(w, x)) is Ok implies {
        &&& unique_keys(add_step(self_id)(w, x)->Ok_0)
        &&& no_entry_for(add_step(self_id)(w, x)->Ok_0, self_id)
    } by {
        lemma_put_keeps_absent(w, x.0, x.1, self_id);
    }
    assert forall|w: WhitelistView, x: (KeyView, u128)|
        unique_keys(w) && no_entry_for(w, self_id) && (#[trigger] increase_step(self_id)(w, x)) is Ok implies {
        &&& unique_keys(increase_step(self_id)(w, x)->Ok_0)
        &&& no_entry_for(increase_step(self_id)(w, x)->Ok_0, self_id)
    } by {
        let current: u128 = match lookup(w, x.0) {
            Some(l) => l,
            None => 0,
        };
        lemma_put_keeps_absent(w, x.0, (current + x.1) as u128, self_id);
    }
    assert forall|w: WhitelistView, x: (KeyView, u128)|
        unique_keys(w) && no_entry_for(w, self_id) && (#[trigger] set_limit_step()(w, x)) is Ok implies {
        &&& unique_keys(set_limit_step()(w, x)->Ok_0)
        &&& no_entry_for(set_limit_step()(w, x)->Ok_0, self_id)
    } by {
        assert(x.0.0 != self_id) by {
            if x.0.0 == self_id {
                assert(has_key(w, (self_id, x.0.1)));
            }
        }
        lemma_put_keeps_absent(w, x.0, x.1, self_id);
    }
    assert forall|w: WhitelistView, x: (KeyView, u128)|
        unique_keys(w) && no_entry_for(w, self_id) && (#[trigger] decrease_step()(w, x)) is Ok implies {
        &&& unique_keys(decrease_step()(w, x)->Ok_0)
        &&& no_entry_for(decrease_step()(w, x)->Ok_0, self_id)
    } by {
        let l = lookup(w, x.0)->0;
        assert(x.0.0 != self_id) by {
            if x.0.0 == self_id {
                assert(has_key(w, (self_id, x.0.1)));
            }
        }
        lemma_put_keeps_absent(w, x.0, if l >= x.1 { (l - x.1) as u128 } else { 0u128 }, self_id);
    }
    assert forall|w: WhitelistView, k: KeyView|
        unique_keys(w) && no_entry_for(w, self_id) && (#[trigger] remove_step()(w, k)) is Ok implies {
        &&& unique_keys(remove_step()(w, k)->Ok_0)
        &&& no_entry_for(remove_step()(w, k)->Ok_0, self_id)
    } by {
        crate::table::lemma_remove(w, k);
        let w2 = remove_step()(w, k)->Ok_0;
        assert forall|t: Option<Seq<char>>| !#[trigger] has_key(w2, (self_id, t)) by {
            if (self_id, t) != k {
                assert(lookup(w2, (self_id, t)) == lookup(w, (self_id, t)));
            }
        }
    }
}

proof fn lemma_batch_keeps_self_out<T>(
    w: WhitelistView,
    self_id: Seq<char>,
    items: Seq<T>,
    step: spec_fn(WhitelistView, T) -> Result<WhitelistView, SpendingError>,
)
    requires
        unique_keys(w),
        no_entry_for(w, self_id),
        step_keeps_self_out(step, self_id),
    ensures
        apply_all(w, items, step) matches Ok(w2) ==> unique_keys(w2) && no_entry_for(w2, self_id),
    decreases items.len(),
{
    if items.len() > 0 {
        lemma_batch_keeps_self_out(w, self_id, items.drop_last(), step);
        if let Ok(v) = apply_all(w, items.drop_last(), step) {
            assert(step_keeps_self_out(step, self_id));
            if step(v, items.last()) is Ok {
                assert(unique_keys(step(v, items.last())->Ok_0));
            }
        }
    }
}

} // verus!
