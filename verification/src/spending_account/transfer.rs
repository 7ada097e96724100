//! Spender-only payouts of NEAR and NEP-141 tokens within the whitelist
//! limits, and the callbacks that roll a failed payout back.

use vstd::prelude::*;
use vstd::string::*;
use vstd::utf8::encode_utf8;

use crate::json::{decimal, decimal_string, json_string, json_string_text};
use crate::table::{lemma_put, lookup, put};

use super::whitelist::with_whitelist;
use super::{find_entry, set_entry, Contract, ContractView, KeyView, SpendingError, WhitelistView};

use super::calls::{after_call, SpendingCall};

verus! {

/// Gas attached to the `on_transfer` / `on_transfer_ft` callbacks (10 TGas).
pub const ON_TRANSFER_GAS: u64 = 10_000_000_000_000;

/// Gas attached to `ft_transfer` (10 TGas).
pub const FT_TRANSFER_GAS: u64 = 10_000_000_000_000;

/// Deposit `ft_transfer` requires: 1 yoctoNEAR, paid from this contract's balance.
pub const ONE_YOCTO: u128 = 1;

/// Why a payout of `amount` for the pair `key` by `caller` is rejected, if it
/// is; `missing` is the error for a pair that is not whitelisted.
pub open spec fn transfer_error(
    v: ContractView,
    caller: Seq<char>,
    key: KeyView,
    amount: u128,
    missing: SpendingError,
) -> Option<SpendingError> {
    if caller != v.spender_id {
        Some(SpendingError::NotSpender)
    } else if amount == 0 {
        Some(SpendingError::ZeroAmount)
    } else {
        match lookup(v.whitelist, key) {
            None => Some(missing),
            Some(limit) => if amount > limit {
                Some(SpendingError::ExceedsLimit)
            } else {
                None
            },
        }
    }
}

/// The whitelist after charging `amount` to the pair `key`.
pub open spec fn charged(w: WhitelistView, key: KeyView, amount: u128) -> WhitelistView {
    put(w, key, (lookup(w, key)->0 - amount) as u128)
}

/// The whitelist after a failed payout of `amount` to the pair `key` is
/// rolled back: the amount goes back onto the limit (saturating), unless the
/// pair was removed in the meantime.
pub open spec fn rolled_back(w: WhitelistView, key: KeyView, amount: u128) -> WhitelistView {
    match lookup(w, key) {
        Some(limit) => put(w, key, if limit + amount > u128::MAX { u128::MAX } else { (limit + amount) as u128 }),
        None => w,
    }
}

/// JSON arguments of `ft_transfer`: `{"receiver_id":<receiver>,"amount":"<amount>"}`.
pub open spec fn ft_transfer_args_text(receiver_id: Seq<char>, amount: u128) -> Seq<char> {
    "{\"receiver_id\":"@ + json_string_text(receiver_id) + ",\"amount\":\""@ + decimal(amount as nat)
        + "\"}"@
}

/// A NEAR payout: send `amount` yoctoNEAR to `receiver_id`, then call
/// `on_transfer`. `remaining` is the receiver's limit after the charge.
pub struct NearPayout {
    pub receiver_id: String,
    pub amount: u128,
    pub remaining: u128,
}

/// A token payout: call `ft_transfer` on `token_id` with `args`, attaching
/// [`ONE_YOCTO`] and [`FT_TRANSFER_GAS`], then call `on_transfer_ft`.
/// `remaining` is the receiver's limit after the charge.
pub struct FtPayout {
    pub token_id: String,
    pub receiver_id: String,
    pub amount: u128,
    pub remaining: u128,
    pub args: Vec<u8>,
}

fn ft_transfer_args(receiver_id: &str, amount: u128) -> (res: Vec<u8>)
    ensures
        res@ == encode_utf8(ft_transfer_args_text(receiver_id@, amount)),
{
    let mut text = "{\"receiver_id\":".to_owned();
    let quoted = json_string(receiver_id);
    text.append(quoted.as_str());
    text.append(",\"amount\":\"");
    let digits = decimal_string(amount);
    text.append(digits.as_str());
    text.append("\"}");
    vstd::slice::slice_to_vec(text.as_str().as_bytes())
}

impl Contract {
    /// Charges `amount` to the pair at position `i` of the whitelist.
    fn charge(&mut self, i: usize, key: (String, Option<String>), amount: u128) -> (remaining: u128)
        requires
            old(self)@.well_formed(),
            i < old(self)@.whitelist.len(),
            old(self)@.whitelist[i as int].0 == super::key_view(key.0, key.1),
            lookup(old(self)@.whitelist, super::key_view(key.0, key.1)) == Some(old(self)@.whitelist[i as int].1),
            amount <= old(self)@.whitelist[i as int].1,
        ensures
            final(self)@.well_formed(),
            final(self)@ == with_whitelist(old(self)@, charged(old(self)@.whitelist, super::key_view(key.0, key.1), amount)),
            remaining == old(self)@.whitelist[i as int].1 - amount,
    {
        let ghost k = super::key_view(key.0, key.1);
        let remaining = self.whitelist[i].1 - amount;
        proof {
            assert(self@.whitelist[i as int].1 == self.whitelist@[i as int].1);
            lemma_put(self@.whitelist, k, remaining);
        }
        set_entry(&mut self.whitelist, i, key, remaining);
        remaining
    }

    /// Transfers `amount` yoctoNEAR to a receiver whitelisted for NEAR,
    /// charging its limit. Only callable by the spender.
    pub fn transfer(&mut self, caller: &String, receiver_id: String, amount: u128) -> (res: Result<NearPayout, SpendingError>)
        requires
            old(self)@.well_formed(),
        ensures
            final(self)@ == after_call(
                old(self)@,
                (SpendingCall::Transfer { caller: caller@, receiver_id: receiver_id@, amount }),
            ),
            final(self)@.well_formed(),
            ({
                let key = (receiver_id@, None::<Seq<char>>);
                match transfer_error(old(self)@, caller@, key, amount, SpendingError::ReceiverNotWhitelisted) {
                    Some(e) => res matches Err(e2) && e2 == e && final(self)@ == old(self)@,
                    None => {
                        &&& res matches Ok(p) && p.receiver_id@ == receiver_id@ && p.amount == amount
                            && p.remaining == lookup(old(self)@.whitelist, key)->0 - amount
                        &&& final(self)@ == with_whitelist(old(self)@, charged(old(self)@.whitelist, key, amount))
                    },
                }
            }),
    {
        if *caller != self.spender_id {
            return Err(SpendingError::NotSpender);
        }
        if amount == 0 {
            return Err(SpendingError::ZeroAmount);
        }
        let none: Option<String> = None;
        let i = match find_entry(&self.whitelist, &receiver_id, &none) {
            Some(i) => i,
            None => return Err(SpendingError::ReceiverNotWhitelisted),
        };
        if amount > self.whitelist[i].1 {
            return Err(SpendingError::ExceedsLimit);
        }
        let remaining = self.charge(i, (receiver_id.clone(), None), amount);
        Ok(NearPayout { receiver_id, amount, remaining })
    }

    /// Restores the limit if the NEAR transfer failed; the rollback is skipped
    /// if the entry was removed in the meantime.
    pub fn on_transfer(&mut self, receiver_id: String, amount: u128, result: Result<(), ()>)
        requires
            old(self)@.well_formed(),
        ensures
            final(self)@ == after_call(
                old(self)@,
                (SpendingCall::OnTransfer { receiver_id: receiver_id@, amount, failed: result is Err }),
            ),
            final(self)@.well_formed(),
            result is Ok ==> final(self)@ == old(self)@,
            result is Err ==> final(self)@ == with_whitelist(
                old(self)@,
                rolled_back(old(self)@.whitelist, (receiver_id@, None::<Seq<char>>), amount),
            ),
    {
        if result.is_ok() {
            return;
        }
        let none: Option<String> = None;
        self.roll_back(receiver_id, none, amount);
    }

    /// Transfers `amount` of `token_id` to a receiver whitelisted for that
    /// token, charging its limit. Only callable by the spender.
    pub fn transfer_ft(&mut self, caller: &String, receiver_id: String, token_id: String, amount: u128) -> (res:
        Result<FtPayout, SpendingError>)
        requires
            old(self)@.well_formed(),
        ensures
            final(self)@ == after_call(
                old(self)@,
                (SpendingCall::TransferFt { caller: caller@, receiver_id: receiver_id@, token_id: token_id@, amount }),
            ),
            final(self)@.well_formed(),
            ({
                let key = (receiver_id@, Some(token_id@));
                match transfer_error(old(self)@, caller@, key, amount, SpendingError::ReceiverNotWhitelistedForToken) {
                    Some(e) => res matches Err(e2) && e2 == e && final(self)@ == old(self)@,
                    None => {
                        &&& res matches Ok(p) && p.token_id@ == token_id@ && p.receiver_id@ == receiver_id@
                            && p.amount == amount && p.remaining == lookup(old(self)@.whitelist, key)->0 - amount
                            && p.args@ == encode_utf8(ft_transfer_args_text(receiver_id@, amount))
                        &&& final(self)@ == with_whitelist(old(self)@, charged(old(self)@.whitelist, key, amount))
                    },
                }
            }),
    {
        if *caller != self.spender_id {
            return Err(SpendingError::NotSpender);
        }
        if amount == 0 {
            return Err(SpendingError::ZeroAmount);
        }
        let token = Some(token_id.clone());
        let i = match find_entry(&self.whitelist, &receiver_id, &token) {
            Some(i) => i,
            None => return Err(SpendingError::ReceiverNotWhitelistedForToken),
        };
        if amount > self.whitelist[i].1 {
            return Err(SpendingError::ExceedsLimit);
        }
        let remaining = self.charge(i, (receiver_id.clone(), token), amount);
        let args = ft_transfer_args(receiver_id.as_str(), amount);
        Ok(FtPayout { token_id, receiver_id, amount, remaining, args })
    }

    /// Restores the limit if `ft_transfer` failed; the rollback is skipped if
    /// the entry was removed in the meantime.
    pub fn on_transfer_ft(&mut self, receiver_id: String, token_id: String, amount: u128, result: Result<(), ()>)
        requires
            old(self)@.well_formed(),
        ensures
            final(self)@ == after_call(
                old(self)@,
                (SpendingCall::OnTransferFt {
                    receiver_id: receiver_id@,
                    token_id: token_id@,
                    amount,
                    failed: result is Err,
                }),
            ),
            final(self)@.well_formed(),
            result is Ok ==> final(self)@ == old(self)@,
            result is Err ==> final(self)@ == with_whitelist(
                old(self)@,
                rolled_back(old(self)@.whitelist, (receiver_id@, Some(token_id@)), amount),
            ),
    {
        if result.is_ok() {
            return;
        }
        self.roll_back(receiver_id, Some(token_id), amount);
    }

    /// Puts `amount` back onto the limit of the pair, if still whitelisted.
    fn roll_back(&mut self, receiver_id: String, token_id: Option<String>, amount: u128)
        requires
            old(self)@.well_formed(),
        ensures
            final(self)@.well_formed(),
            final(self)@ == with_whitelist(
                old(self)@,
                rolled_back(old(self)@.whitelist, super::key_view(receiver_id, token_id), amount),
            ),
    {
        let ghost k = super::key_view(receiver_id, token_id);
        match find_entry(&self.whitelist, &receiver_id, &token_id) {
            Some(i) => {
                let restored = self.whitelist[i].1.saturating_add(amount);
                proof {
                    lemma_put(self@.whitelist, k, restored);
                }
                set_entry(&mut self.whitelist, i, (receiver_id, token_id), restored);
            },
            None => {},
        }
    }
}

} // verus!
