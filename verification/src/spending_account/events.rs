//! Log lines of the payouts, under the standard `spending-account`. Amounts
//! and limits are written as decimal strings.

use vstd::prelude::*;
use vstd::string::*;

use crate::events::{event_log, event_text, push_decimal, push_json_string};
use crate::json::{decimal, json_string_text};

verus! {

/// Data of the `transfer` event; `limit` is what is left of the allowance.
pub open spec fn transfer_data(receiver_id: Seq<char>, amount: u128, limit: u128) -> Seq<char> {
    "{\"receiver_id\":"@ + json_string_text(receiver_id) + ",\"amount\":\""@ + decimal(amount as nat)
        + "\",\"limit\":\""@ + decimal(limit as nat) + "\"}"@
}

/// Data of the `transfer_failed` event.
pub open spec fn transfer_failed_data(receiver_id: Seq<char>, amount: u128) -> Seq<char> {
    "{\"receiver_id\":"@ + json_string_text(receiver_id) + ",\"amount\":\""@ + decimal(amount as nat) + "\"}"@
}

/// Data of the `ft_transfer` event; `limit` is what is left of the allowance.
pub open spec fn ft_transfer_data(receiver_id: Seq<char>, token_id: Seq<char>, amount: u128, limit: u128) -> Seq<
    char,
> {
    "{\"receiver_id\":"@ + json_string_text(receiver_id) + ",\"token_id\":"@ + json_string_text(token_id)
        + ",\"amount\":\""@ + decimal(amount as nat) + "\",\"limit\":\""@ + decimal(limit as nat) + "\"}"@
}

/// Data of the `ft_transfer_failed` event.
pub open spec fn ft_transfer_failed_data(receiver_id: Seq<char>, token_id: Seq<char>, amount: u128) -> Seq<char> {
    "{\"receiver_id\":"@ + json_string_text(receiver_id) + ",\"token_id\":"@ + json_string_text(token_id)
        + ",\"amount\":\""@ + decimal(amount as nat) + "\"}"@
}

/// Log line of a NEAR payout.
pub fn transfer_event(receiver_id: &str, amount: u128, limit: u128) -> (res: String)
    ensures
        res@ == event_text("spending-account"@, "transfer"@, transfer_data(receiver_id@, amount, limit)),
{
    let mut data = "{\"receiver_id\":".to_owned();
    push_json_string(&mut data, receiver_id);
    data.append(",\"amount\":\"");
    push_decimal(&mut data, amount);
    data.append("\",\"limit\":\"");
    push_decimal(&mut data, limit);
    data.append("\"}");
    event_log("spending-account", "transfer", data.as_str())
}

/// Log line of a NEAR payout that failed and was rolled back.
pub fn transfer_failed_event(receiver_id: &str, amount: u128) -> (res: String)
    ensures
        res@ == event_text("spending-account"@, "transfer_failed"@, transfer_failed_data(receiver_id@, amount)),
{
    let mut data = "{\"receiver_id\":".to_owned();
    push_json_string(&mut data, receiver_id);
    data.append(",\"amount\":\"");
    push_decimal(&mut data, amount);
    data.append("\"}");
    event_log("spending-account", "transfer_failed", data.as_str())
}

/// Log line of a token payout.
pub fn ft_transfer_event(receiver_id: &str, token_id: &str, amount: u128, limit: u128) -> (res: String)
    ensures
        res@ == event_text(
            "spending-account"@,
            "ft_transfer"@,
            ft_transfer_data(receiver_id@, token_id@, amount, limit),
        ),
{
    let mut data = "{\"receiver_id\":".to_owned();
    push_json_string(&mut data, receiver_id);
    data.append(",\"token_id\":");
    push_json_string(&mut data, token_id);
    data.append(",\"amount\":\"");
    push_decimal(&mut data, amount);
    data.append("\",\"limit\":\"");
    push_decimal(&mut data, limit);
    data.append("\"}");
    event_log("spending-account", "ft_transfer", data.as_str())
}

/// Log line of a token payout that failed and was rolled back.
pub fn ft_transfer_failed_event(receiver_id: &str, token_id: &str, amount: u128) -> (res: String)
    ensures
        res@ == event_text(
            "spending-account"@,
            "ft_transfer_failed"@,
            ft_transfer_failed_data(receiver_id@, token_id@, amount),
        ),
{
    let mut data = "{\"receiver_id\":".to_owned();
    push_json_string(&mut data, receiver_id);
    data.append(",\"token_id\":");
    push_json_string(&mut data, token_id);
    data.append(",\"amount\":\"");
    push_decimal(&mut data, amount);
    data.append("\"}");
    event_log("spending-account", "ft_transfer_failed", data.as_str())
}

} // verus!
