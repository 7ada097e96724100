//! What each step of the manager batches, each payout and each rollback does
//! to the whitelist, stated over the limits it leaves: which pair changes,
//! to what, and when the step is refused.

use vstd::prelude::*;

use crate::table::{has_key, lemma_put, lemma_remove, lookup, unique_keys};

use super::admin::admin_error;
use super::calls::{after_call, SpendingCall};
use super::transfer::{rolled_back, transfer_error};
use super::whitelist::{
    add_step, apply_all, batch_outcome, decrease_step, increase_step, remove_step, set_limit_step,
};
use super::{ContractView, KeyView, SpendingError, WhitelistView};

verus! {

/// `w2` differs from `w` at most in the limit of `key`: every other pair is
/// listed with the same limit, or absent, in both.
pub open spec fn others_unchanged(w: WhitelistView, w2: WhitelistView, key: KeyView) -> bool {
    forall|other: KeyView| other != key ==> #[trigger] lookup(w2, other) == lookup(w, other)
}

/// Whitelisting a new pair for another account than the contract's own
/// succeeds and lists it with the given limit; the contract's own account
/// and a pair already listed are refused.
pub proof fn lemma_add_step_outcome(w: WhitelistView, self_id: Seq<char>, key: KeyView, limit: u128)
    requires
        unique_keys(w),
    ensures
        key.0 == self_id ==> add_step(self_id)(w, (key, limit)) == Err::<WhitelistView, SpendingError>(
            SpendingError::SelfWhitelist,
        ),
        key.0 != self_id && has_key(w, key) ==> add_step(self_id)(w, (key, limit)) == Err::<
            WhitelistView,
            SpendingError,
        >(SpendingError::AlreadyWhitelisted),
        key.0 != self_id && !has_key(w, key) ==> (add_step(self_id)(w, (key, limit)) matches Ok(w2) && lookup(w2, key)
            == Some(limit) && others_unchanged(w, w2, key) && w2.len() == w.len() + 1),
{
    lemma_put(w, key, limit);
}

/// Removing a listed pair succeeds and unlists it alone; an unlisted pair is
/// refused.
pub proof fn lemma_remove_step_outcome(w: WhitelistView, key: KeyView)
    requires
        unique_keys(w),
    ensures
        !has_key(w, key) ==> remove_step()(w, key) == Err::<WhitelistView, SpendingError>(
            SpendingError::NotWhitelisted,
        ),
        has_key(w, key) ==> (remove_step()(w, key) matches Ok(w2) && lookup(w2, key) is None && others_unchanged(
            w,
            w2,
            key,
        ) && w2.len() == w.len() - 1),
{
    lemma_remove(w, key);
}

/// Setting the limit of a listed pair always succeeds, whatever its current
/// remaining limit, and leaves exactly the given limit; an unlisted pair is
/// refused.
pub proof fn lemma_set_limit_step_outcome(w: WhitelistView, key: KeyView, limit: u128)
    requires
        unique_keys(w),
    ensures
        !has_key(w, key) ==> set_limit_step()(w, (key, limit)) == Err::<WhitelistView, SpendingError>(
            SpendingError::NotWhitelisted,
        ),
        has_key(w, key) ==> (set_limit_step()(w, (key, limit)) matches Ok(w2) && lookup(w2, key) == Some(limit)
            && others_unchanged(w, w2, key) && w2.len() == w.len()),
{
    lemma_put(w, key, limit);
}

/// Raising a limit adds the amount to the current one (a pair not listed
/// yet starts from zero and becomes listed); a sum that does not fit in a
/// `u128` and the contract's own account are refused.
pub proof fn lemma_increase_step_outcome(w: WhitelistView, self_id: Seq<char>, key: KeyView, amount: u128)
    requires
        unique_keys(w),
    ensures
        key.0 == self_id ==> increase_step(self_id)(w, (key, amount)) == Err::<WhitelistView, SpendingError>(
            SpendingError::SelfWhitelist,
        ),
        key.0 != self_id && lookup(w, key) is None ==> (increase_step(self_id)(w, (key, amount)) matches Ok(w2)
            && lookup(w2, key) == Some(amount) && others_unchanged(w, w2, key) && w2.len() == w.len() + 1),
        ({
            let r = increase_step(self_id)(w, (key, amount));
            let l = lookup(w, key)->0;
            key.0 != self_id && lookup(w, key) is Some && l + amount <= u128::MAX ==> (r is Ok && lookup(r->Ok_0, key)
                is Some && lookup(r->Ok_0, key)->0 == l + amount && others_unchanged(w, r->Ok_0, key)
                && r->Ok_0.len() == w.len())
        }),
        ({
            let r = increase_step(self_id)(w, (key, amount));
            let l = lookup(w, key)->0;
            key.0 != self_id && lookup(w, key) is Some && l + amount > u128::MAX ==> r == Err::<
                WhitelistView,
                SpendingError,
            >(SpendingError::LimitOverflow)
        }),
{
    let current: u128 = match lookup(w, key) {
        Some(l) => l,
        None => 0,
    };
    if current + amount <= u128::MAX {
        lemma_put(w, key, (current + amount) as u128);
    }
}

/// Lowering the limit of any listed pair, NEAR or token alike, succeeds:
/// the amount comes off the limit, which stops at zero; an unlisted pair is
/// refused.
pub proof fn lemma_decrease_step_outcome(w: WhitelistView, key: KeyView, amount: u128)
    requires
        unique_keys(w),
    ensures
        !has_key(w, key) ==> decrease_step()(w, (key, amount)) == Err::<WhitelistView, SpendingError>(
            SpendingError::NotWhitelisted,
        ),
        ({
            let r = decrease_step()(w, (key, amount));
            let l = lookup(w, key)->0;
            let l2 = lookup(r->Ok_0, key)->0;
            has_key(w, key) ==> {
                &&& r is Ok
                &&& lookup(r->Ok_0, key) is Some
                &&& l2 <= l
                &&& amount <= l ==> l2 + amount == l
                &&& amount > l ==> l2 == 0
                &&& others_unchanged(w, r->Ok_0, key)
                &&& r->Ok_0.len() == w.len()
            }
        }),
{
    if let Some(l) = lookup(w, key) {
        lemma_put(w, key, if l >= amount { (l - amount) as u128 } else { 0u128 });
    }
}

/// A batch of one element is that element's step, and a batch made of two
/// parts runs the second part on what the first one left, stopping at the
/// first refusal.
pub proof fn lemma_batch_in_order<T>(
    w: WhitelistView,
    first: Seq<T>,
    second: Seq<T>,
    x: T,
    step: spec_fn(WhitelistView, T) -> Result<WhitelistView, SpendingError>,
)
    ensures
        apply_all(w, seq![x], step) == step(w, x),
        apply_all(w, first + second, step) == match apply_all(w, first, step) {
            Ok(u) => apply_all(u, second, step),
            Err(e) => Err(e),
        },
    decreases second.len(),
{
    assert(seq![x].drop_last() =~= Seq::<T>::empty());
    assert(seq![x].last() == x);
    assert(apply_all(w, Seq::<T>::empty(), step) == Ok::<WhitelistView, SpendingError>(w));
    if second.len() == 0 {
        assert(first + second =~= first);
    } else {
        lemma_batch_in_order(w, first, second.drop_last(), x, step);
        assert((first + second).drop_last() =~= first + second.drop_last());
        assert((first + second).last() == second.last());
    }
}

/// A manager batch is refused as a whole when the caller is not the manager
/// or the batch is empty; otherwise it is the batch applied in order.
pub proof fn lemma_batch_needs_manager<T>(
    v: ContractView,
    caller: Seq<char>,
    items: Seq<T>,
    step: spec_fn(WhitelistView, T) -> Result<WhitelistView, SpendingError>,
)
    ensures
        caller != v.manager_id ==> batch_outcome(v, caller, items, step) == Err::<WhitelistView, SpendingError>(
            SpendingError::NotManager,
        ),
        caller == v.manager_id && items.len() == 0 ==> batch_outcome(v, caller, items, step) == Err::<
            WhitelistView,
            SpendingError,
        >(SpendingError::EmptyBatch),
        caller == v.manager_id && items.len() > 0 ==> batch_outcome(v, caller, items, step) == apply_all(
            v.whitelist,
            items,
            step,
        ),
{
}

/// A `set_limit` or `decrease_limit` batch whose pairs are all listed always
/// succeeds and keeps the same pairs listed.
pub proof fn lemma_listed_batches_succeed(w: WhitelistView, items: Seq<(KeyView, u128)>)
    requires
        unique_keys(w),
        forall|i: int| 0 <= i < items.len() ==> has_key(w, #[trigger] items[i].0),
    ensures
        apply_all(w, items, set_limit_step()) matches Ok(w2) && unique_keys(w2) && forall|k: KeyView|
            #[trigger] has_key(w2, k) == has_key(w, k),
        apply_all(w, items, decrease_step()) matches Ok(w2) && unique_keys(w2) && forall|k: KeyView|
            #[trigger] has_key(w2, k) == has_key(w, k),
    decreases items.len(),
{
    if items.len() > 0 {
        let prefix = items.drop_last();
        let x = items.last();
        assert forall|i: int| 0 <= i < prefix.len() implies has_key(w, #[trigger] prefix[i].0) by {
            assert(prefix[i] == items[i]);
        }
        lemma_listed_batches_succeed(w, prefix);
        assert(has_key(w, items[items.len() - 1].0));
        let u = apply_all(w, prefix, set_limit_step())->Ok_0;
        lemma_put(u, x.0, x.1);
        assert forall|k: KeyView| #[trigger] has_key(set_limit_step()(u, x)->Ok_0, k) == has_key(w, k) by {
            if k != x.0 {
                assert(lookup(set_limit_step()(u, x)->Ok_0, k) == lookup(u, k));
            }
        }
        let d = apply_all(w, prefix, decrease_step())->Ok_0;
        let l = lookup(d, x.0)->0;
        let lowered: u128 = if l >= x.1 { (l - x.1) as u128 } else { 0u128 };
        lemma_put(d, x.0, lowered);
        assert forall|k: KeyView| #[trigger] has_key(decrease_step()(d, x)->Ok_0, k) == has_key(w, k) by {
            if k != x.0 {
                assert(lookup(decrease_step()(d, x)->Ok_0, k) == lookup(d, k));
            }
        }
    }
}

/// The spender's payout is accepted exactly when the amount is positive and
/// within the remaining limit of a listed pair.
pub proof fn lemma_transfer_accepts(
    v: ContractView,
    caller: Seq<char>,
    key: KeyView,
    amount: u128,
    missing: SpendingError,
)
    ensures
        transfer_error(v, caller, key, amount, missing) is None <==> (caller == v.spender_id && amount > 0 && lookup(
            v.whitelist,
            key,
        ) is Some && amount <= lookup(v.whitelist, key)->0),
        caller == v.spender_id && amount > 0 && lookup(v.whitelist, key) is None ==> transfer_error(
            v,
            caller,
            key,
            amount,
            missing,
        ) == Some(missing),
{
}

/// Rolling back a failed payout adds the amount back onto the pair's limit
/// (capped at `u128::MAX`) and changes nothing else; a pair removed in the
/// meantime stays removed.
pub proof fn lemma_rollback_outcome(w: WhitelistView, key: KeyView, amount: u128)
    requires
        unique_keys(w),
    ensures
        lookup(w, key) is None ==> rolled_back(w, key, amount) == w,
        ({
            let l = lookup(w, key)->0;
            let l2 = lookup(rolled_back(w, key, amount), key)->0;
            has_key(w, key) ==> {
                &&& lookup(rolled_back(w, key, amount), key) is Some
                &&& l + amount <= u128::MAX ==> l2 == l + amount
                &&& l + amount > u128::MAX ==> l2 == u128::MAX
            }
        }),
        others_unchanged(w, rolled_back(w, key, amount), key),
        unique_keys(rolled_back(w, key, amount)),
        rolled_back(w, key, amount).len() == w.len(),
{
    if let Some(l) = lookup(w, key) {
        lemma_put(w, key, if l + amount > u128::MAX { u128::MAX } else { (l + amount) as u128 });
    }
}

/// The admin's role changes take effect: the admin's call hands the role to
/// the given account; anyone else's changes nothing.
pub proof fn lemma_admin_assigns_roles(v: ContractView, caller: Seq<char>, account: Seq<char>)
    ensures
        admin_error(v, caller) is None <==> caller == v.admin_id,
        caller == v.admin_id ==> after_call(v, SpendingCall::SetSpender { caller, spender_id: account }).spender_id
            == account,
        caller == v.admin_id ==> after_call(v, SpendingCall::SetManager { caller, manager_id: account }).manager_id
            == account,
        caller == v.admin_id ==> after_call(v, SpendingCall::SetAdmin { caller, admin_id: account }).admin_id
            == account,
        caller != v.admin_id ==> after_call(v, SpendingCall::SetSpender { caller, spender_id: account }) == v,
        caller != v.admin_id ==> after_call(v, SpendingCall::SetManager { caller, manager_id: account }) == v,
        caller != v.admin_id ==> after_call(v, SpendingCall::SetAdmin { caller, admin_id: account }) == v,
{
}

} // verus!
