//! A treasury that pays out NEAR and NEP-141 tokens only to whitelisted
//! receivers, each capped by a non-expiring spending limit. The **spender**
//! can only transfer within an entry's remaining allowance; the **manager**
//! manages the whitelist and limits; the **admin** only assigns the roles.
//! Failed transfers are rolled back by a callback and do not consume the
//! allowance.

use vstd::prelude::*;

use crate::table::{has_key, key_index, lemma_index_unique, lookup, put, remove_key, unique_keys};

pub mod admin;
pub mod calls;
pub mod events;
pub mod laws;
pub mod outcomes;
pub mod transfer;
pub mod whitelist;

verus! {

/// Key of a whitelist entry: (receiver, token contract), where `None` as the
/// token means native NEAR.
pub type WhitelistKey = (String, Option<String>);

/// Mathematical value of a [`WhitelistKey`].
pub type KeyView = (Seq<char>, Option<Seq<char>>);

/// Mathematical value of the whitelist: (key, remaining limit) pairs in
/// listing order.
pub type WhitelistView = Seq<(KeyView, u128)>;

pub open spec fn token_view(token_id: Option<String>) -> Option<Seq<char>> {
    match token_id {
        Some(t) => Some(t@),
        None => None,
    }
}

pub open spec fn key_view(account_id: String, token_id: Option<String>) -> KeyView {
    (account_id@, token_view(token_id))
}

pub open spec fn whitelist_view(v: Seq<(WhitelistKey, u128)>) -> WhitelistView {
    v.map_values(|e: (WhitelistKey, u128)| (key_view(e.0.0, e.0.1), e.1))
}

/// Why the spending account rejects a call. Every rejection leaves the state
/// as it was.
#[derive(Debug, Clone, Copy, PartialEq, Eq, Structural)]
pub enum SpendingError {
    /// Only the admin can assign the roles.
    NotAdmin,
    /// Only the manager can manage the whitelist and the limits.
    NotManager,
    /// Only the spender can transfer.
    NotSpender,
    /// A whitelist batch must hold at least one element.
    EmptyBatch,
    /// The contract cannot whitelist itself.
    SelfWhitelist,
    /// The (receiver, token) pair is already whitelisted.
    AlreadyWhitelisted,
    /// The (receiver, token) pair is not whitelisted.
    NotWhitelisted,
    /// The raised limit does not fit in a `u128`.
    LimitOverflow,
    /// A transfer amount must be positive.
    ZeroAmount,
    /// The receiver is not whitelisted for native NEAR.
    ReceiverNotWhitelisted,
    /// The receiver is not whitelisted for this token.
    ReceiverNotWhitelistedForToken,
    /// The amount is above the receiver's remaining limit.
    ExceedsLimit,
}

/// A whitelist entry with its (remaining) limit, as returned by view methods
/// and taken by `add_to_whitelist` / `set_limit`. `token_id: None` is native
/// NEAR (`limit` in yoctoNEAR); `Some` is a NEP-141 token (`limit` in its
/// smallest unit).
pub struct WhitelistEntry {
    pub account_id: String,
    pub token_id: Option<String>,
    pub limit: u128,
}

impl View for WhitelistEntry {
    type V = (KeyView, u128);

    open spec fn view(&self) -> (KeyView, u128) {
        (key_view(self.account_id, self.token_id), self.limit)
    }
}

/// Identifies a whitelist entry in `remove_from_whitelist` arguments.
pub struct WhitelistEntryKey {
    pub account_id: String,
    pub token_id: Option<String>,
}

impl View for WhitelistEntryKey {
    type V = KeyView;

    open spec fn view(&self) -> KeyView {
        key_view(self.account_id, self.token_id)
    }
}

/// A limit adjustment taken by `increase_limit` / `decrease_limit`, with
/// `amount` in the token's smallest unit.
pub struct LimitChange {
    pub account_id: String,
    pub token_id: Option<String>,
    pub amount: u128,
}

impl View for LimitChange {
    type V = (KeyView, u128);

    open spec fn view(&self) -> (KeyView, u128) {
        (key_view(self.account_id, self.token_id), self.amount)
    }
}

/// The spending account's state.
pub struct Contract {
    /// The only account allowed to transfer funds.
    spender_id: String,
    /// The only account allowed to manage the whitelist and limits.
    manager_id: String,
    /// The only account allowed to assign the roles.
    admin_id: String,
    /// Whitelisted (receiver, token) pairs and their remaining limits.
    whitelist: Vec<(WhitelistKey, u128)>,
}

/// Mathematical value of the spending account's state.
pub struct ContractView {
    pub spender_id: Seq<char>,
    pub manager_id: Seq<char>,
    pub admin_id: Seq<char>,
    pub whitelist: WhitelistView,
}

impl View for Contract {
    type V = ContractView;

    closed spec fn view(&self) -> ContractView {
        ContractView {
            spender_id: self.spender_id@,
            manager_id: self.manager_id@,
            admin_id: self.admin_id@,
            whitelist: whitelist_view(self.whitelist@),
        }
    }
}

impl ContractView {
    /// What every state of the spending account satisfies.
    pub open spec fn well_formed(self) -> bool {
        &&& unique_keys(self.whitelist)
        &&& self.whitelist.len() <= u32::MAX
    }

    /// The remaining limit of the (account, token) pair, if whitelisted.
    pub open spec fn limit(self, key: KeyView) -> Option<u128> {
        lookup(self.whitelist, key)
    }
}

/// `a` and `b` hold the same optional account.
fn same_token(a: &Option<String>, b: &Option<String>) -> (res: bool)
    ensures
        res == (token_view(*a) == token_view(*b)),
{
    match (a, b) {
        (Some(x), Some(y)) => *x == *y,
        (None, None) => true,
        _ => false,
    }
}

fn clone_token(t: &Option<String>) -> (res: Option<String>)
    ensures
        token_view(res) == token_view(*t),
{
    match t {
        Some(x) => Some(x.clone()),
        None => None,
    }
}

/// The position of the (account, token) pair in `wl`, if whitelisted.
fn find_entry(wl: &Vec<(WhitelistKey, u128)>, account_id: &String, token_id: &Option<String>) -> (res:
    Option<usize>)
    requires
        unique_keys(whitelist_view(wl@)),
    ensures
        match res {
            Some(i) => {
                &&& i < wl@.len()
                &&& whitelist_view(wl@)[i as int].0 == key_view(*account_id, *token_id)
                &&& key_index(whitelist_view(wl@), key_view(*account_id, *token_id)) == i
                &&& lookup(whitelist_view(wl@), key_view(*account_id, *token_id)) == Some(wl@[i as int].1)
            },
            None => !has_key(whitelist_view(wl@), key_view(*account_id, *token_id)),
        },
{
    let ghost k = key_view(*account_id, *token_id);
    let mut i: usize = 0;
    while i < wl.len()
        invariant
            i <= wl.len(),
            unique_keys(whitelist_view(wl@)),
            k == key_view(*account_id, *token_id),
            forall|j: int| 0 <= j < i ==> (#[trigger] whitelist_view(wl@)[j]).0 != k,
        decreases wl.len() - i,
    {
        let entry = &wl[i];
        if entry.0.0 == *account_id && same_token(&entry.0.1, token_id) {
            proof {
                assert(whitelist_view(wl@)[i as int].0 == k);
                lemma_index_unique(whitelist_view(wl@), k, i as int);
            }
            return Some(i);
        }
        assert(whitelist_view(wl@)[i as int].0 != k);
        i += 1;
    }
    proof {
        if has_key(whitelist_view(wl@), k) {
            let j = key_index(whitelist_view(wl@), k);
            assert(whitelist_view(wl@)[j].0 == k);
        }
    }
    None
}

/// A copy of the whitelist.
fn clone_whitelist(wl: &Vec<(WhitelistKey, u128)>) -> (res: Vec<(WhitelistKey, u128)>)
    ensures
        whitelist_view(res@) == whitelist_view(wl@),
{
    let mut res: Vec<(WhitelistKey, u128)> = Vec::new();
    let mut i: usize = 0;
    while i < wl.len()
        invariant
            i <= wl.len(),
            res@.len() == i,
            whitelist_view(res@) =~= whitelist_view(wl@).take(i as int),
        decreases wl.len() - i,
    {
        let entry = &wl[i];
        let copy: (WhitelistKey, u128) = ((entry.0.0.clone(), clone_token(&entry.0.1)), entry.1);
        let ghost prev = res@;
        let ghost c = copy;
        res.push(copy);
        proof {
            assert(res@ == prev.push(c));
            assert forall|j: int| 0 <= j < i + 1 implies #[trigger] whitelist_view(res@)[j]
                == whitelist_view(wl@).take(i + 1)[j] by {
                if j < i {
                    assert(res@[j] == prev[j]);
                    assert(whitelist_view(prev)[j] == whitelist_view(wl@).take(i as int)[j]);
                }
            }
            assert(whitelist_view(res@) =~= whitelist_view(wl@).take(i + 1));
        }
        i += 1;
    }
    assert(whitelist_view(wl@).take(i as int) =~= whitelist_view(wl@));
    res
}

/// Stores `limit` at position `i`, where the pair `key` already is.
fn set_entry(wl: &mut Vec<(WhitelistKey, u128)>, i: usize, key: WhitelistKey, limit: u128)
    requires
        unique_keys(whitelist_view(old(wl)@)),
        i < old(wl)@.len(),
        whitelist_view(old(wl)@)[i as int].0 == key_view(key.0, key.1),
    ensures
        whitelist_view(final(wl)@) == put(whitelist_view(old(wl)@), key_view(key.0, key.1), limit),
        final(wl)@.len() == old(wl)@.len(),
{
    let ghost k = key_view(key.0, key.1);
    proof {
        lemma_index_unique(whitelist_view(wl@), k, i as int);
    }
    wl.set(i, (key, limit));
    assert(whitelist_view(wl@) =~= put(whitelist_view(old(wl)@), k, limit));
}

/// Appends the pair `key`, which is not whitelisted yet.
fn push_entry(wl: &mut Vec<(WhitelistKey, u128)>, key: WhitelistKey, limit: u128)
    requires
        !has_key(whitelist_view(old(wl)@), key_view(key.0, key.1)),
    ensures
        whitelist_view(final(wl)@) == put(whitelist_view(old(wl)@), key_view(key.0, key.1), limit),
        final(wl)@.len() == old(wl)@.len() + 1,
{
    let ghost k = key_view(key.0, key.1);
    wl.push((key, limit));
    assert(whitelist_view(wl@) =~= whitelist_view(old(wl)@).push((k, limit)));
}

/// Removes the pair at position `i`: the last pair takes its slot.
fn remove_entry(wl: &mut Vec<(WhitelistKey, u128)>, i: usize, Ghost(key): Ghost<KeyView>)
    requires
        unique_keys(whitelist_view(old(wl)@)),
        i < old(wl)@.len(),
        whitelist_view(old(wl)@)[i as int].0 == key,
    ensures
        whitelist_view(final(wl)@) == remove_key(whitelist_view(old(wl)@), key),
        final(wl)@.len() == old(wl)@.len() - 1,
{
    proof {
        lemma_index_unique(whitelist_view(wl@), key, i as int);
    }
    wl.swap_remove(i);
    assert(whitelist_view(wl@) =~= remove_key(whitelist_view(old(wl)@), key));
}

impl Contract {
    /// Initializes the contract with an empty whitelist.
    pub fn new(admin_id: String, manager_id: String, spender_id: String) -> (res: Contract)
        ensures
            res@.well_formed(),
            res@ == (ContractView {
                spender_id: spender_id@,
                manager_id: manager_id@,
                admin_id: admin_id@,
                whitelist: Seq::empty(),
            }),
    {
        let c = Contract { spender_id, manager_id, admin_id, whitelist: Vec::new() };
        assert(c@.whitelist =~= Seq::<(KeyView, u128)>::empty());
        c
    }

    pub fn get_spender(&self) -> (res: &String)
        ensures
            res@ == self@.spender_id,
    {
        &self.spender_id
    }

    pub fn get_manager(&self) -> (res: &String)
        ensures
            res@ == self@.manager_id,
    {
        &self.manager_id
    }

    pub fn get_admin(&self) -> (res: &String)
        ensures
            res@ == self@.admin_id,
    {
        &self.admin_id
    }
}


pub open spec fn entries_as_whitelist(v: Seq<WhitelistEntry>) -> WhitelistView {
    v.map_values(|e: WhitelistEntry| e@)
}

impl Contract {
    /// Rebuilds a state from its parts (as kept in storage), provided the
    /// whitelist holds each (account, token) pair once and at most
    /// `u32::MAX` entries. The entries keep their order.
    pub fn restore(spender_id: String, manager_id: String, admin_id: String, whitelist: Vec<WhitelistEntry>) -> (res:
        Option<Contract>)
        ensures
            ({
                let v = ContractView {
                    spender_id: spender_id@,
                    manager_id: manager_id@,
                    admin_id: admin_id@,
                    whitelist: entries_as_whitelist(whitelist@),
                };
                &&& v.well_formed() ==> (res matches Some(c) && c@ == v)
                &&& !v.well_formed() ==> res is None
            }),
    {
        let ghost ev = entries_as_whitelist(whitelist@);
        if whitelist.len() > u32::MAX as usize {
            return None;
        }
        let mut wl: Vec<(WhitelistKey, u128)> = Vec::new();
        let mut i: usize = 0;
        while i < whitelist.len()
            invariant
                i <= whitelist.len(),
                ev == entries_as_whitelist(whitelist@),
                whitelist_view(wl@) =~= ev.take(i as int),
                wl@.len() == i,
                unique_keys(whitelist_view(wl@)),
            decreases whitelist.len() - i,
        {
            let entry = &whitelist[i];
            let ghost w = whitelist_view(wl@);
            proof {
                assert(ev[i as int] == entry@);
            }
            if find_entry(&wl, &entry.account_id, &entry.token_id).is_some() {
                proof {
                    let k = entry@.0;
                    let j = key_index(w, k);
                    assert(w[j].0 == k);
                    assert(ev[j] == w[j]);
                    assert(ev[j].0 == ev[i as int].0);
                }
                return None;
            }
            push_entry(&mut wl, (entry.account_id.clone(), clone_token(&entry.token_id)), entry.limit);
            proof {
                crate::table::lemma_put(w, entry@.0, entry@.1);
                assert(ev.take(i + 1) =~= ev.take(i as int).push(entry@));
            }
            i += 1;
        }
        assert(ev.take(i as int) =~= ev);
        Some(Contract { spender_id, manager_id, admin_id, whitelist: wl })
    }
}

} // verus!
