//! End-to-end scenarios: DAOs act on the spending account through their
//! timelocks. A small harness delivers the calls a timelock sends.

use treasury::spending_account;
use treasury::spending_account::{SpendingError, WhitelistEntry, WhitelistEntryKey};
use treasury::timelock;
use treasury::timelock::{Execution, FunctionCall, ProposalFollowUp, TimelockError};

const NS_IN_SECOND: u64 = 1_000_000_000;
const TIMELOCK_DELAY_SECONDS: u64 = 60;
const DELAY_NS: u64 = TIMELOCK_DELAY_SECONDS * NS_IN_SECOND;
const START_TS: u64 = 1_700_000_000 * NS_IN_SECOND;
const TGAS: u64 = 1_000_000_000_000;
const ONE_NEAR: u128 = 1_000_000_000_000_000_000_000_000;

fn near(n: u128) -> u128 {
    n * ONE_NEAR
}

fn s(x: &str) -> String {
    x.to_string()
}

fn function_call(method_name: &str, args: String, deposit: u128, tgas: u64) -> FunctionCall {
    FunctionCall { method_name: s(method_name), args: args.into_bytes(), deposit, gas: tgas * TGAS }
}

fn add_to_whitelist_args(account_id: &str, limit: u128) -> String {
    format!(r#"{{"entries":[{{"account_id":"{}","token_id":null,"limit":"{}"}}]}}"#, account_id, limit)
}

/// Delivers one call that `caller` sends to the spending account.
fn deliver_to_treasury(
    treasury: &mut spending_account::Contract,
    treasury_id: &str,
    caller: &str,
    call: &FunctionCall,
) -> Result<(), SpendingError> {
    let args: serde_json::Value = serde_json::from_slice(&call.args).unwrap();
    let caller = s(caller);
    match call.method_name.as_str() {
        "add_to_whitelist" => {
            let entries = args["entries"]
                .as_array()
                .unwrap()
                .iter()
                .map(|e| WhitelistEntry {
                    account_id: s(e["account_id"].as_str().unwrap()),
                    token_id: e["token_id"].as_str().map(s),
                    limit: e["limit"].as_str().unwrap().parse().unwrap(),
                })
                .collect();
            treasury.add_to_whitelist(&caller, &s(treasury_id), entries)
        }
        "transfer" => treasury
            .transfer(
                &caller,
                s(args["receiver_id"].as_str().unwrap()),
                args["amount"].as_str().unwrap().parse().unwrap(),
            )
            .map(|_| ()),
        "set_spender" => treasury.set_spender(&caller, s(args["spender_id"].as_str().unwrap())),
        other => panic!("unexpected method {}", other),
    }
}

/// Delivers one call that `caller` sends to a timelock.
fn deliver_to_timelock(tl: &mut timelock::Contract, caller: &str, call: &FunctionCall) -> Result<(), TimelockError> {
    let args: serde_json::Value = serde_json::from_slice(&call.args).unwrap();
    let caller = s(caller);
    match call.method_name.as_str() {
        "set_delay" => tl.set_delay(&caller, args["delay_ns"].as_str().unwrap().parse().unwrap()),
        "set_guardians" => tl.set_guardians(
            &caller,
            args["guardians"].as_array().unwrap().iter().map(|g| s(g.as_str().unwrap())).collect(),
        ),
        other => panic!("unexpected method {}", other),
    }
}

fn deliver_all_to_treasury(
    execution: &Execution,
    treasury: &mut spending_account::Contract,
    treasury_id: &str,
    from: &str,
) -> Result<(), SpendingError> {
    assert_eq!(execution.receiver_id, treasury_id);
    for call in &execution.actions {
        deliver_to_treasury(treasury, treasury_id, from, call)?;
    }
    Ok(())
}

fn is_whitelisted(treasury: &spending_account::Contract, account: &str) -> bool {
    treasury.get_whitelist_entry(s(account), None).is_some()
}

fn new_timelock(dao: &str, admin: &str, guardian: &str) -> timelock::Contract {
    timelock::Contract::new(s(dao), s(admin), vec![s(guardian)], DELAY_NS).unwrap()
}

// --- timelock ---

#[test]
fn test_timelock_test_init_and_views() {
    let tl = new_timelock("admin-dao.near", "admin-timelock.near", "guardian.near");
    assert_eq!(tl.get_dao(), "admin-dao.near");
    assert_eq!(tl.get_guardians(), vec![&s("guardian.near")]);
    assert_eq!(tl.get_delay(), TIMELOCK_DELAY_SECONDS * NS_IN_SECOND);
    assert_eq!(tl.get_num_requests(), 0);
}

#[test]
fn test_schedule_and_execute_after_delay() {
    let tl_id = "admin-timelock.near";
    let mut tl = new_timelock("admin-dao.near", tl_id, "guardian.near");
    let mut treasury = spending_account::Contract::new(s(tl_id), s(tl_id), s("spender.near"));
    let action = function_call("add_to_whitelist", add_to_whitelist_args("alice.near", near(10)), 0, 30);

    let before = START_TS;
    let request_id = tl.schedule(&s("admin-dao.near"), before, 0, s("treasury.near"), vec![action], None).unwrap();
    assert_eq!(request_id, 0);
    assert_eq!(tl.get_num_requests(), 1);

    let request = tl.get_request(request_id).unwrap();
    assert_eq!(request.receiver_id, "treasury.near");
    assert_eq!(request.funder_id, "admin-dao.near");
    assert!(
        request.execute_after >= before + TIMELOCK_DELAY_SECONDS * NS_IN_SECOND,
        "execute_after should be at least the delay in the future"
    );

    // Executing before the delay has passed must fail.
    assert!(tl.execute(before + 1, request_id).is_err(), "Executing before the delay should fail");
    assert_eq!(tl.get_num_requests(), 1);
    assert!(!is_whitelisted(&treasury, "alice.near"));

    // After the delay, anyone can execute.
    let execution = tl.execute(request.execute_after, request_id).unwrap();
    deliver_all_to_treasury(&execution, &mut treasury, "treasury.near", tl_id).unwrap();

    assert!(is_whitelisted(&treasury, "alice.near"));
    assert_eq!(tl.get_num_requests(), 0);
    assert!(tl.get_request(request_id).is_none());

    // The request is removed: executing it again must fail.
    assert!(tl.execute(request.execute_after, request_id).is_err(), "Executing twice should fail");
}

#[test]
fn test_only_dao_can_schedule() {
    let mut tl = new_timelock("admin-dao.near", "admin-timelock.near", "guardian.near");
    let action = function_call("get_period_info", s("{}"), 0, 10);

    // Neither a guardian nor the other DAO can schedule.
    for account in ["guardian.near", "spender-dao.near"] {
        let res = tl.schedule(&s(account), START_TS, 0, s("treasury.near"), vec![action.clone()], None);
        assert_eq!(res, Err(TimelockError::NotDao), "Scheduling by non-DAO should fail");
    }
    assert_eq!(tl.get_num_requests(), 0);

    // A request with no actions is rejected.
    let res = tl.schedule(&s("admin-dao.near"), START_TS, 0, s("treasury.near"), vec![], None);
    assert!(res.is_err(), "Scheduling an empty request should fail");
}

#[test]
fn test_deposit_escrow_and_cancel_refund() {
    let mut tl = new_timelock("admin-dao.near", "admin-timelock.near", "guardian.near");
    let deposit = near(1);
    let action = function_call("some_method", s("{}"), deposit, 10);

    // The attached deposit must exactly match the total action deposits.
    let res = tl.schedule(&s("admin-dao.near"), START_TS, 0, s("treasury.near"), vec![action.clone()], None);
    assert!(res.is_err(), "Scheduling with a wrong deposit should fail");

    // Schedule with the correct deposit: it is held in escrow by the timelock.
    let mut dao_balance = near(100);
    let balance_before = dao_balance;
    let request_id =
        tl.schedule(&s("admin-dao.near"), START_TS, deposit, s("treasury.near"), vec![action], None).unwrap();
    dao_balance -= deposit;
    assert_eq!(dao_balance, balance_before - deposit);

    // A random account cannot cancel.
    assert!(tl.cancel(&s("anyone.near"), request_id).is_err(), "Cancelling by a random account should fail");

    // A guardian cancels and the deposit is refunded to the funder (the DAO).
    let refund = tl.cancel(&s("guardian.near"), request_id).unwrap().unwrap();
    assert_eq!(refund.receiver_id, "admin-dao.near");
    dao_balance += refund.amount;
    assert_eq!(tl.get_num_requests(), 0);
    assert_eq!(dao_balance, balance_before);

    // The cancelled request cannot be executed.
    assert!(tl.execute(START_TS + DELAY_NS, request_id).is_err(), "Executing a cancelled request should fail");
}

#[test]
fn test_config_change_via_scheduled_request() {
    // The admin timelock administers itself.
    let tl_id = "admin-timelock.near";
    let mut tl = new_timelock("admin-dao.near", tl_id, "guardian.near");

    // Neither the DAO nor a guardian can change the config directly.
    let new_delay_ns = NS_IN_SECOND;
    for account in ["admin-dao.near", "guardian.near"] {
        assert!(tl.set_delay(&s(account), new_delay_ns).is_err(), "Direct config change should fail");
    }

    // The config is changed by the timelock calling itself via a scheduled request.
    let mut now = START_TS;
    let action = function_call("set_delay", format!(r#"{{"delay_ns":"{}"}}"#, new_delay_ns), 0, 10);
    let id = tl.schedule(&s("admin-dao.near"), now, 0, s(tl_id), vec![action], None).unwrap();
    now += DELAY_NS;
    let execution = tl.execute(now, id).unwrap();
    assert_eq!(execution.receiver_id, tl_id);
    for call in &execution.actions {
        deliver_to_timelock(&mut tl, tl_id, call).unwrap();
    }
    assert_eq!(tl.get_delay(), new_delay_ns);

    // Same pipeline for the guardians list.
    let action = function_call("set_guardians", s(r#"{"guardians":["new-guardian.near"]}"#), 0, 10);
    let id = tl.schedule(&s("admin-dao.near"), now, 0, s(tl_id), vec![action], None).unwrap();
    now += new_delay_ns;
    let execution = tl.execute(now, id).unwrap();
    for call in &execution.actions {
        deliver_to_timelock(&mut tl, tl_id, call).unwrap();
    }
    assert_eq!(tl.get_guardians(), vec![&s("new-guardian.near")]);

    // The old guardian lost the ability to cancel.
    let action = function_call("get_period_info", s("{}"), 0, 10);
    let request_id = tl.schedule(&s("admin-dao.near"), now, 0, s("treasury.near"), vec![action], None).unwrap();
    assert!(
        tl.cancel(&s("guardian.near"), request_id).is_err(),
        "The removed guardian should not be able to cancel"
    );
    assert!(tl.cancel(&s("new-guardian.near"), request_id).is_ok());
}

#[test]
fn test_failed_inner_proposal_refunds_bond() {
    let mut tl = new_timelock("dao.near", "timelock.near", "guardian.near");
    let bond = near(1);
    let mut dao_balance = near(100);
    let dao_balance_before = dao_balance;

    let bad_inner_kind = s(r#"{"FunctionCall":{"receiver_id":"guardian.near","actions":[]}}"#);
    let request_id = tl
        .schedule_proposal(
            &s("dao.near"),
            START_TS,
            bond,
            s("bad proposal"),
            bad_inner_kind.clone(),
            s("dao.near"),
            bond,
            50 * TGAS,
            100 * TGAS,
            None,
        )
        .unwrap();
    dao_balance -= bond;

    let execution = tl.execute(START_TS + DELAY_NS, request_id).unwrap();
    let callback = execution.callback.unwrap();
    // add_proposal fails: the callback refunds the bond instead of voting.
    let follow_up = tl
        .on_proposal_added(
            callback.request_id,
            callback.dao_id,
            callback.funder_id,
            callback.bond,
            callback.kind,
            callback.act_proposal_gas,
            Err(()),
        )
        .unwrap();
    match follow_up {
        ProposalFollowUp::Refund(refund) => {
            assert_eq!(refund.receiver_id, "dao.near");
            dao_balance += refund.amount;
        }
        _ => panic!("expected the bond to be refunded"),
    }
    assert_eq!(tl.get_num_requests(), 0);
    assert!(dao_balance >= dao_balance_before, "DAO must recover its full bond");
    assert_eq!(dao_balance, dao_balance_before);
}

// --- spending account ---

fn spending_with_roles() -> spending_account::Contract {
    spending_account::Contract::new(s("admin-dao.near"), s("admin-dao.near"), s("spender-dao.near"))
}

#[test]
fn test_whitelist_and_transfer() {
    let mut treasury = spending_with_roles();
    let limit = near(10);
    let entries = vec![WhitelistEntry { account_id: s("alice.near"), token_id: None, limit }];
    treasury.add_to_whitelist(&s("admin-dao.near"), &s("treasury.near"), entries).unwrap();
    assert!(is_whitelisted(&treasury, "alice.near"));
    assert_eq!(treasury.get_num_whitelisted(), 1);
    assert_eq!(treasury.get_whitelist_entry(s("alice.near"), None).unwrap().limit, limit);

    // The spender transfers within the limit; the receiver gets the exact amount.
    let amount = near(4);
    let payout = treasury.transfer(&s("spender-dao.near"), s("alice.near"), amount).unwrap();
    assert_eq!(payout.amount, amount, "The receiver should get the exact amount");
    let available = treasury.get_whitelist_entry(s("alice.near"), None).unwrap().limit;
    assert_eq!(available, limit - amount);

    // Spending the exact remaining allowance is allowed.
    treasury.transfer(&s("spender-dao.near"), s("alice.near"), available).unwrap();
    assert_eq!(treasury.get_whitelist_entry(s("alice.near"), None).unwrap().limit, 0);

    // The allowance is exhausted.
    assert!(
        treasury.transfer(&s("spender-dao.near"), s("alice.near"), 1).is_err(),
        "Transfer over the limit should fail"
    );
}

#[test]
fn test_transfer_restrictions() {
    let mut treasury = spending_with_roles();
    let limit = near(10);
    let entries = vec![WhitelistEntry { account_id: s("alice.near"), token_id: None, limit }];
    treasury.add_to_whitelist(&s("admin-dao.near"), &s("treasury.near"), entries).unwrap();

    // Only the spender can transfer, not the admin or the receiver.
    for account in ["admin-dao.near", "alice.near"] {
        assert!(
            treasury.transfer(&s(account), s("alice.near"), near(1)).is_err(),
            "Transfer by non-spender should fail"
        );
    }

    // No transfers to non-whitelisted accounts.
    assert!(
        treasury.transfer(&s("spender-dao.near"), s("bob.near"), near(1)).is_err(),
        "Transfer to a non-whitelisted account should fail"
    );

    // No zero transfers, no transfers over the limit.
    assert!(treasury.transfer(&s("spender-dao.near"), s("alice.near"), 0).is_err(), "Zero transfer should fail");
    assert!(
        treasury.transfer(&s("spender-dao.near"), s("alice.near"), limit + 1).is_err(),
        "Transfer over the limit should fail"
    );
    assert_eq!(
        treasury.get_whitelist_entry(s("alice.near"), None).unwrap().limit,
        limit,
        "Failed transfers should not consume the allowance"
    );
}

#[test]
fn test_role_rotation() {
    let mut treasury = spending_with_roles();
    let entries = vec![WhitelistEntry { account_id: s("alice.near"), token_id: None, limit: near(10) }];
    treasury.add_to_whitelist(&s("admin-dao.near"), &s("treasury.near"), entries).unwrap();

    // Only the admin can rotate roles.
    assert!(
        treasury.set_spender(&s("spender-dao.near"), s("new-spender.near")).is_err(),
        "Role rotation by non-admin should fail"
    );
    treasury.set_spender(&s("admin-dao.near"), s("new-spender.near")).unwrap();

    // The old spender lost the role, the new one can transfer.
    assert!(
        treasury.transfer(&s("spender-dao.near"), s("alice.near"), near(1)).is_err(),
        "The old spender should be rejected"
    );
    treasury.transfer(&s("new-spender.near"), s("alice.near"), near(1)).unwrap();

    // The admin hands over its own role and loses control.
    treasury.set_admin(&s("admin-dao.near"), s("new-admin.near")).unwrap();
    assert!(
        treasury.set_manager(&s("admin-dao.near"), s("admin-dao.near")).is_err(),
        "The old admin should be rejected"
    );
    treasury.set_manager(&s("new-admin.near"), s("new-admin.near")).unwrap();
    let entries = vec![WhitelistEntry { account_id: s("bob.near"), token_id: None, limit: near(1) }];
    treasury.add_to_whitelist(&s("new-admin.near"), &s("treasury.near"), entries).unwrap();
}

#[test]
fn test_failed_transfer_rolls_back_allowance() {
    let mut treasury = spending_with_roles();
    let limit = near(10);
    let entries = vec![WhitelistEntry { account_id: s("ghost.test.near"), token_id: None, limit }];
    treasury.add_to_whitelist(&s("admin-dao.near"), &s("treasury.near"), entries).unwrap();

    let payout = treasury.transfer(&s("spender-dao.near"), s("ghost.test.near"), near(4)).unwrap();
    // The transfer receipt fails and the callback absorbs the failure.
    treasury.on_transfer(payout.receiver_id, payout.amount, Err(()));

    // The allowance is restored.
    assert_eq!(treasury.get_whitelist_entry(s("ghost.test.near"), None).unwrap().limit, limit);
}

#[test]
fn test_ft_whitelist_and_transfer() {
    let mut treasury = spending_with_roles();
    let limit = near(10);
    let entries = vec![WhitelistEntry { account_id: s("alice.near"), token_id: Some(s("token.near")), limit }];
    treasury.add_to_whitelist(&s("admin-dao.near"), &s("treasury.near"), entries).unwrap();
    assert!(treasury.get_whitelist_entry(s("alice.near"), Some(s("token.near"))).is_some());
    assert_eq!(treasury.get_num_whitelisted(), 1);
    // The token entry grants no native NEAR allowance.
    assert!(!is_whitelisted(&treasury, "alice.near"));

    let amount = near(4);
    let mut alice_tokens: u128 = 0;
    let mut treasury_tokens: u128 = near(20);
    let payout = treasury.transfer_ft(&s("spender-dao.near"), s("alice.near"), s("token.near"), amount).unwrap();
    alice_tokens += payout.amount;
    treasury_tokens -= payout.amount;
    assert_eq!(alice_tokens, amount);
    assert_eq!(treasury_tokens, near(20) - amount);
    let remaining = treasury.get_whitelist_entry(s("alice.near"), Some(s("token.near"))).unwrap().limit;
    assert_eq!(remaining, limit - amount);

    // Spending the exact remaining allowance is allowed.
    let payout = treasury.transfer_ft(&s("spender-dao.near"), s("alice.near"), s("token.near"), remaining).unwrap();
    alice_tokens += payout.amount;
    assert_eq!(alice_tokens, limit);
    assert_eq!(treasury.get_whitelist_entry(s("alice.near"), Some(s("token.near"))).unwrap().limit, 0);

    // The allowance is exhausted.
    assert!(
        treasury.transfer_ft(&s("spender-dao.near"), s("alice.near"), s("token.near"), 1).is_err(),
        "Transfer over the limit should fail"
    );
}

#[test]
fn test_ft_transfer_restrictions() {
    let mut treasury = spending_with_roles();
    let limit = near(10);
    let entries = vec![WhitelistEntry { account_id: s("alice.near"), token_id: Some(s("token.near")), limit }];
    treasury.add_to_whitelist(&s("admin-dao.near"), &s("treasury.near"), entries).unwrap();

    for account in ["admin-dao.near", "alice.near"] {
        assert!(
            treasury.transfer_ft(&s(account), s("alice.near"), s("token.near"), 1).is_err(),
            "Transfer by non-spender should fail"
        );
    }

    // No transfers to accounts not whitelisted for this token, even if they
    // are whitelisted for NEAR.
    let entries = vec![WhitelistEntry { account_id: s("bob.near"), token_id: None, limit: near(10) }];
    treasury.add_to_whitelist(&s("admin-dao.near"), &s("treasury.near"), entries).unwrap();
    assert!(
        treasury.transfer_ft(&s("spender-dao.near"), s("bob.near"), s("token.near"), 1).is_err(),
        "Transfer to a non-whitelisted pair should fail"
    );

    assert!(
        treasury.transfer_ft(&s("spender-dao.near"), s("alice.near"), s("token.near"), 0).is_err(),
        "Zero transfer should fail"
    );
    assert!(
        treasury.transfer_ft(&s("spender-dao.near"), s("alice.near"), s("token.near"), limit + 1).is_err(),
        "Transfer over the limit should fail"
    );
    assert_eq!(
        treasury.get_whitelist_entry(s("alice.near"), Some(s("token.near"))).unwrap().limit,
        limit,
        "Failed transfers should not consume the allowance"
    );
}

#[test]
fn test_ft_admin_management() {
    let mut treasury = spending_with_roles();
    let limit = near(10);
    let entry = || vec![WhitelistEntry { account_id: s("alice.near"), token_id: Some(s("token.near")), limit }];

    // Only the manager manages the FT whitelist.
    for account in ["spender-dao.near", "alice.near"] {
        assert!(
            treasury.add_to_whitelist(&s(account), &s("treasury.near"), entry()).is_err(),
            "Whitelisting by non-admin should fail"
        );
    }
    treasury.add_to_whitelist(&s("admin-dao.near"), &s("treasury.near"), entry()).unwrap();

    // No duplicates, no whitelisting the treasury itself.
    assert!(
        treasury.add_to_whitelist(&s("admin-dao.near"), &s("treasury.near"), entry()).is_err(),
        "Duplicate whitelisting should fail"
    );
    let own = vec![WhitelistEntry { account_id: s("treasury.near"), token_id: Some(s("token.near")), limit }];
    assert!(
        treasury.add_to_whitelist(&s("admin-dao.near"), &s("treasury.near"), own).is_err(),
        "Whitelisting the treasury itself should fail"
    );

    // `set_limit` overrides the remaining allowance.
    treasury.transfer_ft(&s("spender-dao.near"), s("alice.near"), s("token.near"), near(4)).unwrap();
    let three = vec![WhitelistEntry { account_id: s("alice.near"), token_id: Some(s("token.near")), limit: near(3) }];
    treasury.set_limit(&s("admin-dao.near"), three).unwrap();
    assert_eq!(treasury.get_whitelist_entry(s("alice.near"), Some(s("token.near"))).unwrap().limit, near(3));

    // Removal revokes the allowance entirely.
    let key = vec![WhitelistEntryKey { account_id: s("alice.near"), token_id: Some(s("token.near")) }];
    treasury.remove_from_whitelist(&s("admin-dao.near"), key).unwrap();
    assert!(treasury.get_whitelist_entry(s("alice.near"), Some(s("token.near"))).is_none());
    assert!(
        treasury.transfer_ft(&s("spender-dao.near"), s("alice.near"), s("token.near"), 1).is_err(),
        "Transfer to a removed pair should fail"
    );
}

#[test]
fn test_ft_failed_transfer_rolls_back_allowance() {
    let mut treasury = spending_with_roles();
    let limit = near(10);
    let entries = vec![WhitelistEntry { account_id: s("bob.near"), token_id: Some(s("token.near")), limit }];
    treasury.add_to_whitelist(&s("admin-dao.near"), &s("treasury.near"), entries).unwrap();
    let treasury_tokens_before = near(20);
    let mut treasury_tokens = treasury_tokens_before;

    let payout = treasury.transfer_ft(&s("spender-dao.near"), s("bob.near"), s("token.near"), near(4)).unwrap();
    // bob is not registered with the token: `ft_transfer` fails and the tokens stay.
    let delivered = false;
    if delivered {
        treasury_tokens -= payout.amount;
    }
    treasury.on_transfer_ft(payout.receiver_id, payout.token_id, payout.amount, Err(()));

    assert_eq!(treasury.get_whitelist_entry(s("bob.near"), Some(s("token.near"))).unwrap().limit, limit);
    assert_eq!(treasury_tokens, treasury_tokens_before);
}

// --- full topology ---

/// The policy DAO's timelock holds the admin role, the execution DAO's
/// timelock the manager role; the payment DAO is the spender.
struct Topology {
    treasury: spending_account::Contract,
    policy_timelock: timelock::Contract,
    execution_timelock: timelock::Contract,
}

fn topology() -> Topology {
    Topology {
        treasury: spending_account::Contract::new(
            s("policy-timelock.near"),
            s("execution-timelock.near"),
            s("payment-dao.near"),
        ),
        policy_timelock: new_timelock("policy-dao.near", "policy-timelock.near", "guardian.near"),
        execution_timelock: new_timelock("execution-dao.near", "policy-timelock.near", "guardian.near"),
    }
}

#[test]
fn test_dao_to_treasury_flow() {
    let mut w = topology();
    let limit = near(10);
    let entries = || vec![WhitelistEntry { account_id: s("alice.near"), token_id: None, limit }];

    // The execution DAO cannot touch the whitelist directly.
    assert!(
        w.treasury.add_to_whitelist(&s("execution-dao.near"), &s("treasury.near"), entries()).is_err(),
        "The execution DAO should not hold the manager role directly"
    );
    // The payment DAO holds the spender role, but alice is not whitelisted yet.
    assert!(
        w.treasury.transfer(&s("payment-dao.near"), s("alice.near"), near(1)).is_err(),
        "A transfer to a non-whitelisted account should fail"
    );

    // The execution DAO whitelists alice through its timelock.
    let action = function_call("add_to_whitelist", add_to_whitelist_args("alice.near", limit), 0, 30);
    let id = w
        .execution_timelock
        .schedule(&s("execution-dao.near"), START_TS, 0, s("treasury.near"), vec![action], None)
        .unwrap();
    let execution = w.execution_timelock.execute(START_TS + DELAY_NS, id).unwrap();
    deliver_all_to_treasury(&execution, &mut w.treasury, "treasury.near", "execution-timelock.near").unwrap();
    assert!(is_whitelisted(&w.treasury, "alice.near"));

    // The payment DAO pays alice directly, with no timelock and no delay.
    let amount = near(4);
    let payout = w.treasury.transfer(&s("payment-dao.near"), s("alice.near"), amount).unwrap();
    assert_eq!(payout.amount, amount, "The receiver should get the exact amount");
    assert_eq!(w.treasury.get_whitelist_entry(s("alice.near"), None).unwrap().limit, limit - amount);
}

#[test]
fn test_role_separation_between_roles() {
    let mut w = topology();
    let limit = near(10);
    let entries = vec![WhitelistEntry { account_id: s("alice.near"), token_id: None, limit }];

    // The spender cannot whitelist itself a recipient.
    assert!(
        w.treasury.add_to_whitelist(&s("payment-dao.near"), &s("treasury.near"), entries).is_err(),
        "Whitelisting by the payment DAO should fail"
    );
    assert!(!is_whitelisted(&w.treasury, "alice.near"));

    // The policy timelock cannot manage the whitelist either: the request
    // executes but the inner call is rejected by the spending account.
    let action = function_call("add_to_whitelist", add_to_whitelist_args("alice.near", limit), 0, 30);
    let id = w.policy_timelock.schedule(&s("policy-dao.near"), START_TS, 0, s("treasury.near"), vec![action], None).unwrap();
    let execution = w.policy_timelock.execute(START_TS + DELAY_NS, id).unwrap();
    assert!(
        deliver_all_to_treasury(&execution, &mut w.treasury, "treasury.near", "policy-timelock.near").is_err(),
        "Whitelisting through a non-execution timelock should fail"
    );
    assert!(!is_whitelisted(&w.treasury, "alice.near"));

    // Neither the policy nor the execution timelock can transfer funds.
    let transfer_args = format!(r#"{{"receiver_id":"alice.near","amount":"{}"}}"#, near(1));
    for (dao, timelock_id) in [("policy-dao.near", "policy-timelock.near"), ("execution-dao.near", "execution-timelock.near")] {
        let tl = if timelock_id == "policy-timelock.near" { &mut w.policy_timelock } else { &mut w.execution_timelock };
        let action = function_call("transfer", transfer_args.clone(), 0, 50);
        let id = tl.schedule(&s(dao), START_TS, 0, s("treasury.near"), vec![action], None).unwrap();
        let execution = tl.execute(START_TS + DELAY_NS, id).unwrap();
        assert!(
            deliver_all_to_treasury(&execution, &mut w.treasury, "treasury.near", timelock_id).is_err(),
            "Transfers by a non-spender should fail"
        );
    }

    // The execution timelock cannot rotate roles.
    let action = function_call("set_spender", s(r#"{"spender_id":"execution-dao.near"}"#), 0, 30);
    let id = w
        .execution_timelock
        .schedule(&s("execution-dao.near"), START_TS, 0, s("treasury.near"), vec![action], None)
        .unwrap();
    let execution = w.execution_timelock.execute(START_TS + DELAY_NS, id).unwrap();
    assert!(
        deliver_all_to_treasury(&execution, &mut w.treasury, "treasury.near", "execution-timelock.near").is_err(),
        "Role rotation through the execution timelock should fail"
    );
}

#[test]
fn test_guardian_cancels_malicious_whitelisting() {
    let mut w = topology();
    let limit = near(10);
    let action = function_call("add_to_whitelist", add_to_whitelist_args("alice.near", limit), 0, 30);
    let mut alice_balance: u128 = 0;
    let alice_before = alice_balance;
    let id = w
        .execution_timelock
        .schedule(&s("execution-dao.near"), START_TS, 0, s("treasury.near"), vec![action], None)
        .unwrap();

    assert!(w.execution_timelock.cancel(&s("guardian.near"), id).is_ok());

    // The cancelled request cannot be executed and alice stays unwhitelisted.
    assert!(
        w.execution_timelock.execute(START_TS + DELAY_NS, id).is_err(),
        "Executing a cancelled request should fail"
    );
    assert!(!is_whitelisted(&w.treasury, "alice.near"));

    // So the payment DAO cannot pay alice, even though it spends untimelocked.
    let res = w.treasury.transfer(&s("payment-dao.near"), s("alice.near"), limit);
    assert!(res.is_err(), "The spender should not be able to pay a cancelled whitelisting");
    if let Ok(payout) = res {
        alice_balance += payout.amount;
    }
    assert_eq!(alice_balance, alice_before, "No funds should have moved");
}
