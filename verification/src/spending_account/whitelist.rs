//! Manager-only whitelist management. Every method takes a non-empty batch
//! and applies it atomically: the elements are applied in order, and the
//! first invalid element rejects the whole call, leaving the whitelist as it
//! was. `token_id: None` is native NEAR, `Some` a NEP-141 token.

use vstd::prelude::*;

use crate::table::{page, has_key, lemma_put, lemma_remove, lookup, put, remove_key, unique_keys};

use super::{
    clone_token, clone_whitelist, find_entry, key_view, push_entry, remove_entry, set_entry,
    whitelist_view, Contract, ContractView, KeyView, LimitChange, SpendingError, WhitelistEntry,
    WhitelistEntryKey, WhitelistView,
};

use super::calls::{after_call, SpendingCall};

verus! {

/// The result of applying `step` to each of `items` in order, starting from
/// `w`; the first error stops the batch.
pub open spec fn apply_all<T>(
    w: WhitelistView,
    items: Seq<T>,
    step: spec_fn(WhitelistView, T) -> Result<WhitelistView, SpendingError>,
) -> Result<WhitelistView, SpendingError>
    decreases items.len(),
{
    if items.len() == 0 {
        Ok(w)
    } else {
        match apply_all(w, items.drop_last(), step) {
            Ok(v) => step(v, items.last()),
            Err(e) => Err(e),
        }
    }
}

/// A batch that fails on a prefix fails as a whole, with the same error.
pub proof fn lemma_apply_all_err<T>(
    w: WhitelistView,
    items: Seq<T>,
    step: spec_fn(WhitelistView, T) -> Result<WhitelistView, SpendingError>,
    k: int,
)
    requires
        0 <= k <= items.len(),
        apply_all(w, items.take(k), step) is Err,
    ensures
        apply_all(w, items, step) == apply_all(w, items.take(k), step),
    decreases items.len() - k,
{
    if k < items.len() {
        assert(items.take(k + 1).drop_last() =~= items.take(k));
        lemma_apply_all_err(w, items, step, k + 1);
    } else {
        assert(items.take(k) =~= items);
    }
}

/// What a manager batch does to the state `v`: rejected unless `caller` is
/// the manager and the batch is non-empty, else the batch applied in order.
pub open spec fn batch_outcome<T>(
    v: ContractView,
    caller: Seq<char>,
    items: Seq<T>,
    step: spec_fn(WhitelistView, T) -> Result<WhitelistView, SpendingError>,
) -> Result<WhitelistView, SpendingError> {
    if caller != v.manager_id {
        Err(SpendingError::NotManager)
    } else if items.len() == 0 {
        Err(SpendingError::EmptyBatch)
    } else {
        apply_all(v.whitelist, items, step)
    }
}

/// `v` with the whitelist replaced by `w`.
pub open spec fn with_whitelist(v: ContractView, w: WhitelistView) -> ContractView {
    ContractView { spender_id: v.spender_id, manager_id: v.manager_id, admin_id: v.admin_id, whitelist: w }
}

/// Whitelists a new pair with its limit; never the contract itself.
pub open spec fn add_step(self_id: Seq<char>) -> spec_fn(WhitelistView, (KeyView, u128)) -> Result<
    WhitelistView,
    SpendingError,
> {
    |w: WhitelistView, e: (KeyView, u128)|
        if e.0.0 == self_id {
            Err(SpendingError::SelfWhitelist)
        } else if has_key(w, e.0) {
            Err(SpendingError::AlreadyWhitelisted)
        } else {
            Ok(put(w, e.0, e.1))
        }
}

/// Removes a whitelisted pair.
pub open spec fn remove_step() -> spec_fn(WhitelistView, KeyView) -> Result<WhitelistView, SpendingError> {
    |w: WhitelistView, k: KeyView|
        if !has_key(w, k) {
            Err(SpendingError::NotWhitelisted)
        } else {
            Ok(remove_key(w, k))
        }
}

/// Overrides the remaining limit of a whitelisted pair.
pub open spec fn set_limit_step() -> spec_fn(WhitelistView, (KeyView, u128)) -> Result<WhitelistView, SpendingError> {
    |w: WhitelistView, e: (KeyView, u128)|
        if !has_key(w, e.0) {
            Err(SpendingError::NotWhitelisted)
        } else {
            Ok(put(w, e.0, e.1))
        }
}

/// Raises the limit of a pair by an amount, whitelisting it at that amount
/// when absent; never the contract itself; the new limit must fit in a `u128`.
pub open spec fn increase_step(self_id: Seq<char>) -> spec_fn(WhitelistView, (KeyView, u128)) -> Result<
    WhitelistView,
    SpendingError,
> {
    |w: WhitelistView, c: (KeyView, u128)|
        if c.0.0 == self_id {
            Err(SpendingError::SelfWhitelist)
        } else {
            let current: u128 = match lookup(w, c.0) {
                Some(l) => l,
                None => 0,
            };
            if current + c.1 > u128::MAX {
                Err(SpendingError::LimitOverflow)
            } else {
                Ok(put(w, c.0, (current + c.1) as u128))
            }
        }
}

/// Lowers the limit of a whitelisted pair by an amount, flooring at zero.
pub open spec fn decrease_step() -> spec_fn(WhitelistView, (KeyView, u128)) -> Result<WhitelistView, SpendingError> {
    |w: WhitelistView, c: (KeyView, u128)|
        match lookup(w, c.0) {
            None => Err(SpendingError::NotWhitelisted),
            Some(l) => Ok(put(w, c.0, if l >= c.1 { (l - c.1) as u128 } else { 0u128 })),
        }
}

pub open spec fn entries_view(s: Seq<WhitelistEntry>) -> Seq<(KeyView, u128)> {
    s.map_values(|e: WhitelistEntry| e@)
}

pub open spec fn keys_view(s: Seq<WhitelistEntryKey>) -> Seq<KeyView> {
    s.map_values(|k: WhitelistEntryKey| k@)
}

pub open spec fn changes_view(s: Seq<LimitChange>) -> Seq<(KeyView, u128)> {
    s.map_values(|c: LimitChange| c@)
}

impl Contract {
    /// Whitelists each (receiver, token) pair with its limit. Rejects the
    /// batch if a pair is the contract's own account (`self_id`) or already
    /// whitelisted.
    pub fn add_to_whitelist(&mut self, caller: &String, self_id: &String, entries: Vec<WhitelistEntry>) -> (res:
        Result<(), SpendingError>)
        requires
            old(self)@.well_formed(),
            old(self)@.whitelist.len() + entries@.len() <= u32::MAX,
        ensures
            final(self)@ == after_call(
                old(self)@,
                (SpendingCall::AddToWhitelist { caller: caller@, self_id: self_id@, entries: entries_view(entries@) }),
            ),
            final(self)@.well_formed(),
            match batch_outcome(old(self)@, caller@, entries_view(entries@), add_step(self_id@)) {
                Ok(w) => res is Ok && final(self)@ == with_whitelist(old(self)@, w),
                Err(e) => res == Err::<(), SpendingError>(e) && final(self)@ == old(self)@,
            },
    {
        self.assert_manager(caller)?;
        if entries.len() == 0 {
            return Err(SpendingError::EmptyBatch);
        }
        let ghost items = entries_view(entries@);
        let ghost step = add_step(self_id@);
        let ghost start = self@.whitelist;
        let mut wl = clone_whitelist(&self.whitelist);
        let mut i: usize = 0;
        while i < entries.len()
            invariant
                i <= entries.len(),
                self@ == old(self)@,
                start == old(self)@.whitelist,
                caller@ == old(self)@.manager_id,
                entries@.len() > 0,
                items == entries_view(entries@),
                step == add_step(self_id@),
                unique_keys(start),
                apply_all(start, items.take(i as int), step) == Ok::<WhitelistView, SpendingError>(whitelist_view(wl@)),
                unique_keys(whitelist_view(wl@)),
                wl@.len() <= start.len() + i,
                start.len() + entries@.len() <= u32::MAX,
            decreases entries.len() - i,
        {
            let entry = &entries[i];
            let ghost w = whitelist_view(wl@);
            proof {
                assert(items.take(i + 1).drop_last() =~= items.take(i as int));
                assert(items[i as int] == entry@);
            }
            if entry.account_id == *self_id {
                proof {
                    lemma_apply_all_err(start, items, step, i + 1);
                }
                return Err(SpendingError::SelfWhitelist);
            }
            if find_entry(&wl, &entry.account_id, &entry.token_id).is_some() {
                proof {
                    lemma_apply_all_err(start, items, step, i + 1);
                }
                return Err(SpendingError::AlreadyWhitelisted);
            }
            push_entry(&mut wl, (entry.account_id.clone(), clone_token(&entry.token_id)), entry.limit);
            proof {
                lemma_put(w, entry@.0, entry@.1);
            }
            i += 1;
        }
        proof {
            assert(items.take(i as int) =~= items);
        }
        self.whitelist = wl;
        Ok(())
    }

    /// Removes each whitelisted pair. Rejects the batch if a pair is not
    /// whitelisted.
    pub fn remove_from_whitelist(&mut self, caller: &String, keys: Vec<WhitelistEntryKey>) -> (res: Result<
        (),
        SpendingError,
    >)
        requires
            old(self)@.well_formed(),
        ensures
            final(self)@ == after_call(
                old(self)@,
                (SpendingCall::RemoveFromWhitelist { caller: caller@, keys: keys_view(keys@) }),
            ),
            final(self)@.well_formed(),
            match batch_outcome(old(self)@, caller@, keys_view(keys@), remove_step()) {
                Ok(w) => res is Ok && final(self)@ == with_whitelist(old(self)@, w),
                Err(e) => res == Err::<(), SpendingError>(e) && final(self)@ == old(self)@,
            },
    {
        self.assert_manager(caller)?;
        if keys.len() == 0 {
            return Err(SpendingError::EmptyBatch);
        }
        let ghost items = keys_view(keys@);
        let ghost step = remove_step();
        let ghost start = self@.whitelist;
        let mut wl = clone_whitelist(&self.whitelist);
        let mut i: usize = 0;
        while i < keys.len()
            invariant
                i <= keys.len(),
                self@ == old(self)@,
                start == old(self)@.whitelist,
                caller@ == old(self)@.manager_id,
                keys@.len() > 0,
                items == keys_view(keys@),
                step == remove_step(),
                unique_keys(start),
                apply_all(start, items.take(i as int), step) == Ok::<WhitelistView, SpendingError>(whitelist_view(wl@)),
                unique_keys(whitelist_view(wl@)),
                wl@.len() <= start.len(),
                start.len() <= u32::MAX,
            decreases keys.len() - i,
        {
            let key = &keys[i];
            let ghost w = whitelist_view(wl@);
            proof {
                assert(items.take(i + 1).drop_last() =~= items.take(i as int));
                assert(items[i as int] == key@);
            }
            match find_entry(&wl, &key.account_id, &key.token_id) {
                None => {
                    proof {
                        lemma_apply_all_err(start, items, step, i + 1);
                    }
                    return Err(SpendingError::NotWhitelisted);
                },
                Some(j) => {
                    remove_entry(&mut wl, j, Ghost(key@));
                    proof {
                        lemma_remove(w, key@);
                    }
                },
            }
            i += 1;
        }
        proof {
            assert(items.take(i as int) =~= items);
        }
        self.whitelist = wl;
        Ok(())
    }

    /// Overrides the remaining limit of each whitelisted pair. Rejects the
    /// batch if a pair is not whitelisted.
    pub fn set_limit(&mut self, caller: &String, entries: Vec<WhitelistEntry>) -> (res: Result<(), SpendingError>)
        requires
            old(self)@.well_formed(),
        ensures
            final(self)@ == after_call(
                old(self)@,
                (SpendingCall::SetLimit { caller: caller@, entries: entries_view(entries@) }),
            ),
            final(self)@.well_formed(),
            match batch_outcome(old(self)@, caller@, entries_view(entries@), set_limit_step()) {
                Ok(w) => res is Ok && final(self)@ == with_whitelist(old(self)@, w),
                Err(e) => res == Err::<(), SpendingError>(e) && final(self)@ == old(self)@,
            },
    {
        self.assert_manager(caller)?;
        if entries.len() == 0 {
            return Err(SpendingError::EmptyBatch);
        }
        let ghost items = entries_view(entries@);
        let ghost step = set_limit_step();
        let ghost start = self@.whitelist;
        let mut wl = clone_whitelist(&self.whitelist);
        let mut i: usize = 0;
        while i < entries.len()
            invariant
                i <= entries.len(),
                self@ == old(self)@,
                start == old(self)@.whitelist,
                caller@ == old(self)@.manager_id,
                entries@.len() > 0,
                items == entries_view(entries@),
                step == set_limit_step(),
                unique_keys(start),
                apply_all(start, items.take(i as int), step) == Ok::<WhitelistView, SpendingError>(whitelist_view(wl@)),
                unique_keys(whitelist_view(wl@)),
                wl@.len() == start.len(),
                start.len() <= u32::MAX,
            decreases entries.len() - i,
        {
            let entry = &entries[i];
            let ghost w = whitelist_view(wl@);
            proof {
                assert(items.take(i + 1).drop_last() =~= items.take(i as int));
                assert(items[i as int] == entry@);
            }
            match find_entry(&wl, &entry.account_id, &entry.token_id) {
                None => {
                    proof {
                        lemma_apply_all_err(start, items, step, i + 1);
                    }
                    return Err(SpendingError::NotWhitelisted);
                },
                Some(j) => {
                    set_entry(&mut wl, j, (entry.account_id.clone(), clone_token(&entry.token_id)), entry.limit);
                    proof {
                        lemma_put(w, entry@.0, entry@.1);
                    }
                },
            }
            i += 1;
        }
        proof {
            assert(items.take(i as int) =~= items);
        }
        self.whitelist = wl;
        Ok(())
    }

    /// Raises the limit of each pair by its amount; a pair that is not
    /// whitelisted yet is added with the amount as its limit. Rejects the
    /// batch if a pair is the contract's own account (`self_id`) or a raised
    /// limit overflows.
    pub fn increase_limit(&mut self, caller: &String, self_id: &String, changes: Vec<LimitChange>) -> (res:
        Result<(), SpendingError>)
        requires
            old(self)@.well_formed(),
            old(self)@.whitelist.len() + changes@.len() <= u32::MAX,
        ensures
            final(self)@ == after_call(
                old(self)@,
                (SpendingCall::IncreaseLimit { caller: caller@, self_id: self_id@, changes: changes_view(changes@) }),
            ),
            final(self)@.well_formed(),
            match batch_outcome(old(self)@, caller@, changes_view(changes@), increase_step(self_id@)) {
                Ok(w) => res is Ok && final(self)@ == with_whitelist(old(self)@, w),
                Err(e) => res == Err::<(), SpendingError>(e) && final(self)@ == old(self)@,
            },
    {
        self.assert_manager(caller)?;
        if changes.len() == 0 {
            return Err(SpendingError::EmptyBatch);
        }
        let ghost items = changes_view(changes@);
        let ghost step = increase_step(self_id@);
        let ghost start = self@.whitelist;
        let mut wl = clone_whitelist(&self.whitelist);
        let mut i: usize = 0;
        while i < changes.len()
            invariant
                i <= changes.len(),
                self@ == old(self)@,
                start == old(self)@.whitelist,
                caller@ == old(self)@.manager_id,
                changes@.len() > 0,
                items == changes_view(changes@),
                step == increase_step(self_id@),
                unique_keys(start),
                apply_all(start, items.take(i as int), step) == Ok::<WhitelistView, SpendingError>(whitelist_view(wl@)),
                unique_keys(whitelist_view(wl@)),
                wl@.len() <= start.len() + i,
                start.len() + changes@.len() <= u32::MAX,
            decreases changes.len() - i,
        {
            let change = &changes[i];
            let ghost w = whitelist_view(wl@);
            proof {
                assert(items.take(i + 1).drop_last() =~= items.take(i as int));
                assert(items[i as int] == change@);
            }
            if change.account_id == *self_id {
                proof {
                    lemma_apply_all_err(start, items, step, i + 1);
                }
                return Err(SpendingError::SelfWhitelist);
            }
            let key: (String, Option<String>) = (change.account_id.clone(), clone_token(&change.token_id));
            match find_entry(&wl, &change.account_id, &change.token_id) {
                Some(j) => {
                    let current = wl[j].1;
                    match current.checked_add(change.amount) {
                        None => {
                            proof {
                                lemma_apply_all_err(start, items, step, i + 1);
                            }
                            return Err(SpendingError::LimitOverflow);
                        },
                        Some(raised) => {
                            set_entry(&mut wl, j, key, raised);
                            proof {
                                lemma_put(w, change@.0, raised);
                            }
                        },
                    }
                },
                None => {
                    push_entry(&mut wl, key, change.amount);
                    proof {
                        lemma_put(w, change@.0, change.amount);
                    }
                },
            }
            i += 1;
        }
        proof {
            assert(items.take(i as int) =~= items);
        }
        self.whitelist = wl;
        Ok(())
    }

    /// Lowers the limit of each whitelisted pair by its amount, flooring at
    /// zero. Rejects the batch if a pair is not whitelisted.
    pub fn decrease_limit(&mut self, caller: &String, changes: Vec<LimitChange>) -> (res: Result<(), SpendingError>)
        requires
            old(self)@.well_formed(),
        ensures
            final(self)@ == after_call(
                old(self)@,
                (SpendingCall::DecreaseLimit { caller: caller@, changes: changes_view(changes@) }),
            ),
            final(self)@.well_formed(),
            match batch_outcome(old(self)@, caller@, changes_view(changes@), decrease_step()) {
                Ok(w) => res is Ok && final(self)@ == with_whitelist(old(self)@, w),
                Err(e) => res == Err::<(), SpendingError>(e) && final(self)@ == old(self)@,
            },
    {
        self.assert_manager(caller)?;
        if changes.len() == 0 {
            return Err(SpendingError::EmptyBatch);
        }
        let ghost items = changes_view(changes@);
        let ghost step = decrease_step();
        let ghost start = self@.whitelist;
        let mut wl = clone_whitelist(&self.whitelist);
        let mut i: usize = 0;
        while i < changes.len()
            invariant
                i <= changes.len(),
                self@ == old(self)@,
                start == old(self)@.whitelist,
                caller@ == old(self)@.manager_id,
                changes@.len() > 0,
                items == changes_view(changes@),
                step == decrease_step(),
                unique_keys(start),
                apply_all(start, items.take(i as int), step) == Ok::<WhitelistView, SpendingError>(whitelist_view(wl@)),
                unique_keys(whitelist_view(wl@)),
                wl@.len() == start.len(),
                start.len() <= u32::MAX,
            decreases changes.len() - i,
        {
            let change = &changes[i];
            let ghost w = whitelist_view(wl@);
            proof {
                assert(items.take(i + 1).drop_last() =~= items.take(i as int));
                assert(items[i as int] == change@);
            }
            match find_entry(&wl, &change.account_id, &change.token_id) {
                None => {
                    proof {
                        lemma_apply_all_err(start, items, step, i + 1);
                    }
                    return Err(SpendingError::NotWhitelisted);
                },
                Some(j) => {
                    let lowered = wl[j].1.saturating_sub(change.amount);
                    set_entry(&mut wl, j, (change.account_id.clone(), clone_token(&change.token_id)), lowered);
                    proof {
                        lemma_put(w, change@.0, lowered);
                    }
                },
            }
            i += 1;
        }
        proof {
            assert(items.take(i as int) =~= items);
        }
        self.whitelist = wl;
        Ok(())
    }
}


pub open spec fn entry_list_view(s: Seq<WhitelistEntry>) -> Seq<(KeyView, u128)> {
    s.map_values(|e: WhitelistEntry| e@)
}

impl Contract {
    pub fn get_num_whitelisted(&self) -> (res: u32)
        requires
            self@.well_formed(),
        ensures
            res == self@.whitelist.len(),
    {
        self.whitelist.len() as u32
    }

    /// The entry of the (account, token) pair: `token_id: None` returns the
    /// native NEAR entry, `Some` a token entry.
    pub fn get_whitelist_entry(&self, account_id: String, token_id: Option<String>) -> (res: Option<
        WhitelistEntry,
    >)
        requires
            self@.well_formed(),
        ensures
            match lookup(self@.whitelist, key_view(account_id, token_id)) {
                Some(limit) => res matches Some(e) && e@ == (key_view(account_id, token_id), limit),
                None => res is None,
            },
    {
        match find_entry(&self.whitelist, &account_id, &token_id) {
            Some(i) => Some(WhitelistEntry { account_id, token_id, limit: self.whitelist[i].1 }),
            None => None,
        }
    }

    /// Returns whitelist entries of both kinds, skipping `from_index`
    /// (default 0) and returning at most `limit` (default `u32::MAX`), in
    /// listing order.
    pub fn get_whitelist_entries(&self, from_index: Option<u32>, limit: Option<u32>) -> (res: Vec<WhitelistEntry>)
        requires
            self@.well_formed(),
        ensures
            entry_list_view(res@) == page(self@.whitelist, from_index, limit),
    {
        let from: usize = match from_index {
            Some(f) => f as usize,
            None => 0,
        };
        let limit: usize = match limit {
            Some(l) => l as usize,
            None => u32::MAX as usize,
        };
        let len = self.whitelist.len();
        let start = if from < len { from } else { len };
        let end = if limit < len - start { start + limit } else { len };
        let mut res: Vec<WhitelistEntry> = Vec::new();
        let mut i: usize = start;
        while i < end
            invariant
                start <= i <= end <= len,
                len == self.whitelist.len(),
                res@.len() == i - start,
                entry_list_view(res@) =~= self@.whitelist.subrange(start as int, i as int),
            decreases end - i,
        {
            let pair = &self.whitelist[i];
            let entry = WhitelistEntry {
                account_id: pair.0.0.clone(),
                token_id: clone_token(&pair.0.1),
                limit: pair.1,
            };
            let ghost prev = res@;
            let ghost entry_view = entry@;
            res.push(entry);
            proof {
                assert(entry_view == self@.whitelist[i as int]);
                assert(res@[i - start]@ == entry_view);
                assert forall|j: int| 0 <= j < i + 1 - start implies #[trigger] entry_list_view(res@)[j]
                    == self@.whitelist.subrange(start as int, i + 1)[j] by {
                    if j < i - start {
                        assert(res@[j] == prev[j]);
                        assert(entry_list_view(prev)[j] == self@.whitelist.subrange(start as int, i as int)[j]);
                    }
                }
                assert(entry_list_view(res@) =~= self@.whitelist.subrange(start as int, i + 1));
            }
            i += 1;
        }
        res
    }
}

} // verus!
