use treasury::spending_account::transfer::{FT_TRANSFER_GAS, ONE_YOCTO, ON_TRANSFER_GAS};
use treasury::spending_account::{
    Contract, LimitChange, SpendingError, WhitelistEntry, WhitelistEntryKey,
};

const LIMIT: u128 = 100;
const FT_LIMIT: u128 = 100;
const ONE_NEAR: u128 = 1_000_000_000_000_000_000_000_000;

/// Whole NEAR in yoctoNEAR, as the whitelist methods take for `token_id: None`.
fn yocto(near: u128) -> u128 {
    near * ONE_NEAR
}

fn admin() -> String {
    "admin-timelock.near".to_string()
}

fn manager() -> String {
    "manager-timelock.near".to_string()
}

fn spender() -> String {
    "spender-timelock.near".to_string()
}

fn treasury() -> String {
    "treasury.near".to_string()
}

fn alice() -> String {
    "alice.near".to_string()
}

fn token() -> String {
    "token.near".to_string()
}

fn other_token() -> String {
    "other-token.near".to_string()
}

fn new_contract() -> Contract {
    Contract::new(admin(), manager(), spender())
}

fn entries(account_id: String, token_id: Option<String>, limit: u128) -> Vec<WhitelistEntry> {
    vec![WhitelistEntry { account_id, token_id, limit }]
}

fn keys(account_id: String, token_id: Option<String>) -> Vec<WhitelistEntryKey> {
    vec![WhitelistEntryKey { account_id, token_id }]
}

fn changes(account_id: String, token_id: Option<String>, amount: u128) -> Vec<LimitChange> {
    vec![LimitChange { account_id, token_id, amount }]
}

/// A fresh contract with alice whitelisted for `token_id` at `limit`.
fn contract_with_alice(token_id: Option<String>, limit: u128) -> Contract {
    let mut contract = new_contract();
    contract
        .add_to_whitelist(&manager(), &treasury(), entries(alice(), token_id, limit))
        .unwrap();
    contract
}

fn ft_contract_with_alice(limit: u128) -> Contract {
    contract_with_alice(Some(token()), limit)
}

fn near_contract_with_alice(limit: u128) -> Contract {
    contract_with_alice(None, yocto(limit))
}

fn remaining(contract: &Contract) -> u128 {
    contract.get_whitelist_entry(alice(), Some(token())).unwrap().limit
}

fn near_remaining(contract: &Contract) -> u128 {
    contract.get_whitelist_entry(alice(), None).unwrap().limit
}

// --- roles ---

#[test]
fn test_set_roles() {
    let mut contract = new_contract();
    let new_spender = "spender2.near".to_string();
    let new_manager = "manager2.near".to_string();
    let new_admin = "admin2.near".to_string();
    contract.set_spender(&admin(), new_spender.clone()).unwrap();
    assert_eq!(contract.get_spender(), &new_spender);
    contract.set_manager(&admin(), new_manager.clone()).unwrap();
    assert_eq!(contract.get_manager(), &new_manager);
    contract.set_admin(&admin(), new_admin.clone()).unwrap();
    assert_eq!(contract.get_admin(), &new_admin);
    // The old admin lost control.
    assert!(contract.set_spender(&admin(), spender()).is_err());
}

#[test]
fn test_set_spender_by_spender_fails() {
    let mut contract = new_contract();
    assert_eq!(contract.set_spender(&spender(), spender()), Err(SpendingError::NotAdmin));
}

#[test]
fn test_set_roles_by_manager_fails() {
    let mut contract = new_contract();
    assert_eq!(contract.set_admin(&manager(), manager()), Err(SpendingError::NotAdmin));
    assert_eq!(contract.get_admin(), &admin());
}

// --- NEAR transfers ---

#[test]
fn test_near_transfer_within_limit() {
    let mut contract = near_contract_with_alice(100);
    contract.transfer(&spender(), alice(), yocto(60)).unwrap();
    contract.transfer(&spender(), alice(), yocto(40)).unwrap();
    assert_eq!(near_remaining(&contract), 0);
}

#[test]
fn test_near_transfer_over_limit_fails() {
    let mut contract = near_contract_with_alice(100);
    assert!(matches!(
        contract.transfer(&spender(), alice(), yocto(101)),
        Err(SpendingError::ExceedsLimit)
    ));
}

#[test]
fn test_near_transfer_cumulative_over_limit_fails() {
    let mut contract = near_contract_with_alice(100);
    contract.transfer(&spender(), alice(), yocto(60)).unwrap();
    assert!(matches!(
        contract.transfer(&spender(), alice(), yocto(41)),
        Err(SpendingError::ExceedsLimit)
    ));
    assert_eq!(near_remaining(&contract), yocto(40));
}

#[test]
fn test_near_transfer_by_admin_fails() {
    let mut contract = near_contract_with_alice(100);
    assert!(matches!(
        contract.transfer(&admin(), alice(), yocto(1)),
        Err(SpendingError::NotSpender)
    ));
}

#[test]
fn test_near_transfer_by_manager_fails() {
    let mut contract = near_contract_with_alice(100);
    assert!(matches!(
        contract.transfer(&manager(), alice(), yocto(1)),
        Err(SpendingError::NotSpender)
    ));
}

#[test]
fn test_near_transfer_to_non_whitelisted_fails() {
    let mut contract = new_contract();
    assert!(matches!(
        contract.transfer(&spender(), alice(), yocto(1)),
        Err(SpendingError::ReceiverNotWhitelisted)
    ));
}

#[test]
fn test_near_transfer_zero_fails() {
    let mut contract = near_contract_with_alice(100);
    assert!(matches!(
        contract.transfer(&spender(), alice(), 0),
        Err(SpendingError::ZeroAmount)
    ));
}

#[test]
fn test_near_raised_limit_extends_allowance() {
    let mut contract = near_contract_with_alice(100);
    contract.transfer(&spender(), alice(), yocto(100)).unwrap();
    // The allowance is used up; the manager must raise it to allow more.
    contract
        .increase_limit(&manager(), &treasury(), changes(alice(), None, yocto(50)))
        .unwrap();
    contract.transfer(&spender(), alice(), yocto(50)).unwrap();
    assert_eq!(near_remaining(&contract), 0);
}

#[test]
fn test_near_failed_transfer_restores_limit() {
    let mut contract = near_contract_with_alice(100);
    contract.transfer(&spender(), alice(), yocto(60)).unwrap();
    contract.on_transfer(alice(), yocto(60), Err(()));
    assert_eq!(near_remaining(&contract), yocto(100));
}

#[test]
fn test_near_successful_transfer_keeps_limit_consumed() {
    let mut contract = near_contract_with_alice(100);
    contract.transfer(&spender(), alice(), yocto(60)).unwrap();
    contract.on_transfer(alice(), yocto(60), Ok(()));
    assert_eq!(near_remaining(&contract), yocto(40));
}

#[test]
fn test_near_rollback_after_readd_tops_up_fresh_limit() {
    let mut contract = near_contract_with_alice(100);
    contract.transfer(&spender(), alice(), yocto(60)).unwrap();
    // The account is removed and re-added before the failed transfer's
    // callback lands: the refund is added on top of the fresh limit.
    contract.remove_from_whitelist(&manager(), keys(alice(), None)).unwrap();
    contract
        .add_to_whitelist(&manager(), &treasury(), entries(alice(), None, yocto(100)))
        .unwrap();
    contract.on_transfer(alice(), yocto(60), Err(()));
    assert_eq!(near_remaining(&contract), yocto(160));
}

#[test]
fn test_near_rollback_after_removal_does_not_panic() {
    let mut contract = near_contract_with_alice(100);
    contract.transfer(&spender(), alice(), yocto(60)).unwrap();
    contract.remove_from_whitelist(&manager(), keys(alice(), None)).unwrap();
    contract.on_transfer(alice(), yocto(60), Err(()));
    assert!(contract.get_whitelist_entry(alice(), None).is_none());
}

// --- NEP-141 token transfers ---

#[test]
fn test_ft_transfer_within_limit() {
    let mut contract = ft_contract_with_alice(FT_LIMIT);
    contract.transfer_ft(&spender(), alice(), token(), 60).unwrap();
    contract.transfer_ft(&spender(), alice(), token(), 40).unwrap();
    assert_eq!(remaining(&contract), 0);
}

#[test]
fn test_ft_transfer_over_limit_fails() {
    let mut contract = ft_contract_with_alice(FT_LIMIT);
    assert!(matches!(
        contract.transfer_ft(&spender(), alice(), token(), FT_LIMIT + 1),
        Err(SpendingError::ExceedsLimit)
    ));
}

#[test]
fn test_ft_transfer_cumulative_over_limit_fails() {
    let mut contract = ft_contract_with_alice(FT_LIMIT);
    contract.transfer_ft(&spender(), alice(), token(), 60).unwrap();
    assert!(matches!(
        contract.transfer_ft(&spender(), alice(), token(), 41),
        Err(SpendingError::ExceedsLimit)
    ));
}

#[test]
fn test_ft_transfer_by_admin_fails() {
    let mut contract = ft_contract_with_alice(FT_LIMIT);
    assert!(matches!(
        contract.transfer_ft(&admin(), alice(), token(), 1),
        Err(SpendingError::NotSpender)
    ));
}

#[test]
fn test_ft_transfer_other_token_fails() {
    let mut contract = ft_contract_with_alice(FT_LIMIT);
    assert!(matches!(
        contract.transfer_ft(&spender(), alice(), other_token(), 1),
        Err(SpendingError::ReceiverNotWhitelistedForToken)
    ));
}

#[test]
fn test_ft_near_whitelist_does_not_grant_ft() {
    let mut contract = new_contract();
    contract
        .add_to_whitelist(&manager(), &treasury(), entries(alice(), None, yocto(100)))
        .unwrap();
    assert!(matches!(
        contract.transfer_ft(&spender(), alice(), token(), 1),
        Err(SpendingError::ReceiverNotWhitelistedForToken)
    ));
}

#[test]
fn test_ft_transfer_zero_fails() {
    let mut contract = ft_contract_with_alice(FT_LIMIT);
    assert!(matches!(
        contract.transfer_ft(&spender(), alice(), token(), 0),
        Err(SpendingError::ZeroAmount)
    ));
}

#[test]
fn test_ft_raised_limit_extends_allowance() {
    let mut contract = ft_contract_with_alice(FT_LIMIT);
    contract.transfer_ft(&spender(), alice(), token(), FT_LIMIT).unwrap();
    // The allowance is used up; the manager must raise it to allow more.
    contract
        .increase_limit(&manager(), &treasury(), changes(alice(), Some(token()), 50))
        .unwrap();
    contract.transfer_ft(&spender(), alice(), token(), 50).unwrap();
    assert_eq!(remaining(&contract), 0);
}

#[test]
fn test_ft_failed_transfer_restores_limit() {
    let mut contract = ft_contract_with_alice(FT_LIMIT);
    contract.transfer_ft(&spender(), alice(), token(), 60).unwrap();
    contract.on_transfer_ft(alice(), token(), 60, Err(()));
    assert_eq!(remaining(&contract), FT_LIMIT);
}

#[test]
fn test_ft_successful_transfer_keeps_limit_consumed() {
    let mut contract = ft_contract_with_alice(FT_LIMIT);
    contract.transfer_ft(&spender(), alice(), token(), 60).unwrap();
    contract.on_transfer_ft(alice(), token(), 60, Ok(()));
    assert_eq!(remaining(&contract), FT_LIMIT - 60);
}

#[test]
fn test_ft_rollback_after_readd_tops_up_fresh_limit() {
    let mut contract = ft_contract_with_alice(FT_LIMIT);
    contract.transfer_ft(&spender(), alice(), token(), 60).unwrap();
    // The pair is removed and re-added before the failed transfer's
    // callback lands: the refund is added on top of the fresh limit.
    contract.remove_from_whitelist(&manager(), keys(alice(), Some(token()))).unwrap();
    contract
        .add_to_whitelist(&manager(), &treasury(), entries(alice(), Some(token()), FT_LIMIT))
        .unwrap();
    contract.on_transfer_ft(alice(), token(), 60, Err(()));
    assert_eq!(remaining(&contract), FT_LIMIT + 60);
}

#[test]
fn test_ft_rollback_after_removal_does_not_panic() {
    let mut contract = ft_contract_with_alice(FT_LIMIT);
    contract.transfer_ft(&spender(), alice(), token(), 60).unwrap();
    contract.remove_from_whitelist(&manager(), keys(alice(), Some(token()))).unwrap();
    contract.on_transfer_ft(alice(), token(), 60, Err(()));
    assert!(contract.get_whitelist_entry(alice(), Some(token())).is_none());
}

// --- whitelist management ---

#[test]
fn test_add_to_whitelist() {
    let contract = ft_contract_with_alice(LIMIT);
    assert_eq!(contract.get_num_whitelisted(), 1);
    let entry = contract.get_whitelist_entry(alice(), Some(token())).unwrap();
    assert_eq!(entry.account_id, alice());
    assert_eq!(entry.limit, LIMIT);
    assert_eq!(entry.token_id, Some(token()));
    assert_eq!(contract.get_whitelist_entries(None, None).len(), 1);
}

#[test]
fn test_add_duplicate_fails() {
    let mut contract = ft_contract_with_alice(LIMIT);
    assert_eq!(
        contract.add_to_whitelist(&manager(), &treasury(), entries(alice(), Some(token()), 1)),
        Err(SpendingError::AlreadyWhitelisted)
    );
}

#[test]
fn test_add_self_fails() {
    let mut contract = new_contract();
    assert_eq!(
        contract.add_to_whitelist(&manager(), &treasury(), entries(treasury(), Some(token()), 1)),
        Err(SpendingError::SelfWhitelist)
    );
}

#[test]
fn test_add_by_spender_fails() {
    let mut contract = new_contract();
    assert_eq!(
        contract.add_to_whitelist(&spender(), &treasury(), entries(alice(), Some(token()), 1)),
        Err(SpendingError::NotManager)
    );
}

#[test]
fn test_add_by_admin_fails() {
    let mut contract = new_contract();
    assert_eq!(
        contract.add_to_whitelist(&admin(), &treasury(), entries(alice(), Some(token()), 1)),
        Err(SpendingError::NotManager)
    );
}

#[test]
fn test_remove_from_whitelist() {
    let mut contract = ft_contract_with_alice(LIMIT);
    contract.remove_from_whitelist(&manager(), keys(alice(), Some(token()))).unwrap();
    assert!(contract.get_whitelist_entry(alice(), Some(token())).is_none());
    assert_eq!(contract.get_num_whitelisted(), 0);
}

#[test]
fn test_remove_missing_fails() {
    let mut contract = new_contract();
    assert_eq!(
        contract.remove_from_whitelist(&manager(), keys(alice(), Some(token()))),
        Err(SpendingError::NotWhitelisted)
    );
}

#[test]
fn test_remove_by_other_fails() {
    let mut contract = ft_contract_with_alice(LIMIT);
    assert_eq!(
        contract.remove_from_whitelist(&alice(), keys(alice(), Some(token()))),
        Err(SpendingError::NotManager)
    );
}

#[test]
fn test_set_limit_overrides_remaining() {
    let mut contract = ft_contract_with_alice(LIMIT);
    contract.transfer_ft(&spender(), alice(), token(), 30).unwrap();
    contract.set_limit(&manager(), entries(alice(), Some(token()), 40)).unwrap();
    assert_eq!(remaining(&contract), 40);
}

#[test]
fn test_set_limit_missing_fails() {
    let mut contract = new_contract();
    assert_eq!(
        contract.set_limit(&manager(), entries(alice(), Some(token()), 1)),
        Err(SpendingError::NotWhitelisted)
    );
}

#[test]
fn test_increase_limit() {
    let mut contract = ft_contract_with_alice(LIMIT);
    contract
        .increase_limit(&manager(), &treasury(), changes(alice(), Some(token()), 50))
        .unwrap();
    assert_eq!(remaining(&contract), LIMIT + 50);
}

#[test]
fn test_increase_limit_overflow_fails() {
    let mut contract = ft_contract_with_alice(LIMIT);
    assert_eq!(
        contract.increase_limit(&manager(), &treasury(), changes(alice(), Some(token()), u128::MAX)),
        Err(SpendingError::LimitOverflow)
    );
    assert_eq!(remaining(&contract), LIMIT);
}

#[test]
fn test_decrease_limit_saturates_at_zero() {
    let mut contract = ft_contract_with_alice(LIMIT);
    contract.decrease_limit(&manager(), changes(alice(), Some(token()), 30)).unwrap();
    assert_eq!(remaining(&contract), LIMIT - 30);
    // A decrease larger than the current limit zeroes it.
    contract
        .decrease_limit(&manager(), changes(alice(), Some(token()), LIMIT * 2))
        .unwrap();
    assert_eq!(remaining(&contract), 0);
}

#[test]
fn test_increase_limit_creates_missing_entry() {
    let mut contract = new_contract();
    contract
        .increase_limit(&manager(), &treasury(), changes(alice(), Some(token()), 1))
        .unwrap();
    assert_eq!(remaining(&contract), 1);
}

#[test]
fn test_increase_limit_self_fails() {
    let mut contract = new_contract();
    assert_eq!(
        contract.increase_limit(&manager(), &treasury(), changes(treasury(), Some(token()), 1)),
        Err(SpendingError::SelfWhitelist)
    );
}

#[test]
fn test_decrease_limit_missing_fails() {
    let mut contract = new_contract();
    assert_eq!(
        contract.decrease_limit(&manager(), changes(alice(), Some(token()), 1)),
        Err(SpendingError::NotWhitelisted)
    );
}

#[test]
fn test_increase_limit_by_spender_fails() {
    let mut contract = ft_contract_with_alice(LIMIT);
    assert_eq!(
        contract.increase_limit(&spender(), &treasury(), changes(alice(), Some(token()), 1)),
        Err(SpendingError::NotManager)
    );
}

#[test]
fn test_readd_restores_limit() {
    let mut contract = ft_contract_with_alice(LIMIT);
    contract.transfer_ft(&spender(), alice(), token(), LIMIT).unwrap();
    contract.remove_from_whitelist(&manager(), keys(alice(), Some(token()))).unwrap();
    contract
        .add_to_whitelist(&manager(), &treasury(), entries(alice(), Some(token()), LIMIT))
        .unwrap();
    assert_eq!(remaining(&contract), LIMIT);
}

#[test]
fn test_entry_does_not_grant_other_tokens() {
    let contract = ft_contract_with_alice(LIMIT);
    assert!(contract.get_whitelist_entry(alice(), Some(other_token())).is_none());
    // The token entry grants no native NEAR allowance either.
    assert!(contract.get_whitelist_entry(alice(), None).is_none());
}

#[test]
fn test_add_same_receiver_other_token() {
    let mut contract = ft_contract_with_alice(LIMIT);
    contract
        .add_to_whitelist(&manager(), &treasury(), entries(alice(), Some(other_token()), 1))
        .unwrap();
    contract
        .add_to_whitelist(&manager(), &treasury(), entries(alice(), None, yocto(1)))
        .unwrap();
    assert_eq!(contract.get_num_whitelisted(), 3);
}

#[test]
fn test_token_entry_does_not_grant_near_limit() {
    // `token_id: None` targets the native NEAR entry, which alice lacks.
    let mut contract = ft_contract_with_alice(LIMIT);
    assert_eq!(
        contract.set_limit(&manager(), entries(alice(), None, 1)),
        Err(SpendingError::NotWhitelisted)
    );
}

// --- further cases ---

#[test]
fn spending_batch_is_atomic() {
    let mut contract = new_contract();
    let batch = vec![
        WhitelistEntry { account_id: alice(), token_id: None, limit: 5 },
        WhitelistEntry { account_id: "bob.near".to_string(), token_id: None, limit: 6 },
        WhitelistEntry { account_id: alice(), token_id: None, limit: 7 },
    ];
    assert_eq!(
        contract.add_to_whitelist(&manager(), &treasury(), batch),
        Err(SpendingError::AlreadyWhitelisted)
    );
    // Nothing of the rejected batch was applied.
    assert_eq!(contract.get_num_whitelisted(), 0);
}

#[test]
fn spending_empty_batches_fail() {
    let mut contract = ft_contract_with_alice(LIMIT);
    assert_eq!(contract.add_to_whitelist(&manager(), &treasury(), vec![]), Err(SpendingError::EmptyBatch));
    assert_eq!(contract.remove_from_whitelist(&manager(), vec![]), Err(SpendingError::EmptyBatch));
    assert_eq!(contract.set_limit(&manager(), vec![]), Err(SpendingError::EmptyBatch));
    assert_eq!(contract.increase_limit(&manager(), &treasury(), vec![]), Err(SpendingError::EmptyBatch));
    assert_eq!(contract.decrease_limit(&manager(), vec![]), Err(SpendingError::EmptyBatch));
}

#[test]
fn spending_batch_applies_in_order() {
    let mut contract = new_contract();
    let batch = vec![
        LimitChange { account_id: alice(), token_id: None, amount: 5 },
        LimitChange { account_id: alice(), token_id: None, amount: 6 },
    ];
    contract.increase_limit(&manager(), &treasury(), batch).unwrap();
    assert_eq!(near_remaining(&contract), 11);
}

#[test]
fn spending_payout_descriptions() {
    let mut contract = near_contract_with_alice(100);
    let payout = contract.transfer(&spender(), alice(), yocto(60)).unwrap();
    assert_eq!(payout.receiver_id, alice());
    assert_eq!(payout.amount, yocto(60));
    assert_eq!(payout.remaining, yocto(40));

    let mut contract = ft_contract_with_alice(FT_LIMIT);
    let payout = contract.transfer_ft(&spender(), alice(), token(), 60).unwrap();
    assert_eq!(payout.token_id, token());
    assert_eq!(payout.remaining, 40);
    assert_eq!(
        String::from_utf8(payout.args).unwrap(),
        r#"{"receiver_id":"alice.near","amount":"60"}"#
    );
    assert_eq!(ONE_YOCTO, 1);
    assert_eq!(FT_TRANSFER_GAS, 10_000_000_000_000);
    assert_eq!(ON_TRANSFER_GAS, 10_000_000_000_000);
}

#[test]
fn spending_whitelist_listing_order() {
    let mut contract = new_contract();
    let batch = vec![
        WhitelistEntry { account_id: "a.near".to_string(), token_id: None, limit: 1 },
        WhitelistEntry { account_id: "b.near".to_string(), token_id: None, limit: 2 },
        WhitelistEntry { account_id: "c.near".to_string(), token_id: Some(token()), limit: 3 },
    ];
    contract.add_to_whitelist(&manager(), &treasury(), batch).unwrap();
    contract.remove_from_whitelist(&manager(), keys("a.near".to_string(), None)).unwrap();
    let listed: Vec<u128> = contract.get_whitelist_entries(None, None).iter().map(|e| e.limit).collect();
    assert_eq!(listed, vec![3, 2]);
    let page: Vec<u128> = contract.get_whitelist_entries(Some(1), Some(5)).iter().map(|e| e.limit).collect();
    assert_eq!(page, vec![2]);
}

#[test]
fn spending_rollback_saturates() {
    let mut contract = contract_with_alice(None, u128::MAX);
    contract.on_transfer(alice(), 5, Err(()));
    assert_eq!(near_remaining(&contract), u128::MAX);
}

#[test]
fn spending_transfer_charges_only_its_pair() {
    let mut contract = ft_contract_with_alice(FT_LIMIT);
    contract
        .add_to_whitelist(&manager(), &treasury(), entries(alice(), None, yocto(5)))
        .unwrap();
    contract.transfer(&spender(), alice(), yocto(2)).unwrap();
    assert_eq!(near_remaining(&contract), yocto(3));
    assert_eq!(remaining(&contract), FT_LIMIT);
    contract.transfer_ft(&spender(), alice(), token(), 10).unwrap();
    assert_eq!(near_remaining(&contract), yocto(3));
    assert_eq!(remaining(&contract), FT_LIMIT - 10);
}

#[test]
fn spending_self_never_whitelisted_after_any_calls() {
    let mut contract = near_contract_with_alice(5);
    assert_eq!(
        contract.add_to_whitelist(&manager(), &treasury(), entries(treasury(), None, 1)),
        Err(SpendingError::SelfWhitelist)
    );
    let payout = contract.transfer(&spender(), alice(), yocto(2)).unwrap();
    contract.on_transfer(payout.receiver_id, payout.amount, Err(()));
    assert!(contract.transfer(&spender(), treasury(), 1).is_err());
    contract.on_transfer(treasury(), 1, Err(()));
    contract.on_transfer_ft(treasury(), token(), 1, Err(()));
    assert_eq!(
        contract.increase_limit(&manager(), &treasury(), changes(treasury(), Some(token()), 1)),
        Err(SpendingError::SelfWhitelist)
    );
    assert!(contract.increase_limit(&manager(), &treasury(), changes(alice(), Some(token()), 3)).is_ok());
    assert!(contract.get_whitelist_entry(treasury(), None).is_none());
    assert!(contract.get_whitelist_entry(treasury(), Some(token())).is_none());
    assert_eq!(contract.get_num_whitelisted(), 2);
}
