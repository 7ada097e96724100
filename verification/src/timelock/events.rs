//! Log lines of the request lifecycle, under the standard `dao-timelock`.

use vstd::prelude::*;
use vstd::string::*;

use crate::events::{event_log, event_text, push_decimal, push_json_string};
use crate::json::{decimal, json_string_text};

verus! {

/// Data of the two scheduling events. The times and amounts are written as
/// decimal strings, the request id as a number.
pub open spec fn scheduled_data(
    request_id: u64,
    receiver_id: Seq<char>,
    execute_after: u64,
    total_deposit: u128,
) -> Seq<char> {
    "{\"request_id\":"@ + decimal(request_id as nat) + ",\"receiver_id\":"@ + json_string_text(receiver_id)
        + ",\"execute_after\":\""@ + decimal(execute_after as nat) + "\",\"total_deposit\":\""@
        + decimal(total_deposit as nat) + "\"}"@
}

/// Data of the `execute` event.
pub open spec fn execute_data(request_id: u64, receiver_id: Seq<char>) -> Seq<char> {
    "{\"request_id\":"@ + decimal(request_id as nat) + ",\"receiver_id\":"@ + json_string_text(receiver_id)
        + "}"@
}

/// Data of the `approve_proposal` event.
pub open spec fn approve_proposal_data(request_id: u64, proposal_id: u64) -> Seq<char> {
    "{\"request_id\":"@ + decimal(request_id as nat) + ",\"proposal_id\":"@ + decimal(proposal_id as nat)
        + "}"@
}

/// Data of the `proposal_failed` event.
pub open spec fn proposal_failed_data(request_id: u64, funder_id: Seq<char>, refund: u128) -> Seq<char> {
    "{\"request_id\":"@ + decimal(request_id as nat) + ",\"funder_id\":"@ + json_string_text(funder_id)
        + ",\"refund\":\""@ + decimal(refund as nat) + "\"}"@
}

/// Data of the `cancel` event.
pub open spec fn cancel_data(request_id: u64, receiver_id: Seq<char>, cancelled_by: Seq<char>) -> Seq<char> {
    "{\"request_id\":"@ + decimal(request_id as nat) + ",\"receiver_id\":"@ + json_string_text(receiver_id)
        + ",\"cancelled_by\":"@ + json_string_text(cancelled_by) + "}"@
}

/// Log line of a scheduling event named `event`.
fn scheduled_event(event: &str, request_id: u64, receiver_id: &str, execute_after: u64, total_deposit: u128) -> (res:
    String)
    ensures
        res@ == event_text(
            "dao-timelock"@,
            event@,
            scheduled_data(request_id, receiver_id@, execute_after, total_deposit),
        ),
{
    let mut data = "{\"request_id\":".to_owned();
    push_decimal(&mut data, request_id as u128);
    data.append(",\"receiver_id\":");
    push_json_string(&mut data, receiver_id);
    data.append(",\"execute_after\":\"");
    push_decimal(&mut data, execute_after as u128);
    data.append("\",\"total_deposit\":\"");
    push_decimal(&mut data, total_deposit);
    data.append("\"}");
    event_log("dao-timelock", event, data.as_str())
}

/// Log line of a newly scheduled request.
pub fn schedule_event(request_id: u64, receiver_id: &str, execute_after: u64, total_deposit: u128) -> (res: String)
    ensures
        res@ == event_text(
            "dao-timelock"@,
            "schedule"@,
            scheduled_data(request_id, receiver_id@, execute_after, total_deposit),
        ),
{
    scheduled_event("schedule", request_id, receiver_id, execute_after, total_deposit)
}

/// Log line of a newly scheduled proposal request; `receiver_id` is the
/// target DAO and `total_deposit` the escrowed bond.
pub fn schedule_proposal_event(request_id: u64, receiver_id: &str, execute_after: u64, total_deposit: u128) -> (res:
    String)
    ensures
        res@ == event_text(
            "dao-timelock"@,
            "schedule_proposal"@,
            scheduled_data(request_id, receiver_id@, execute_after, total_deposit),
        ),
{
    scheduled_event("schedule_proposal", request_id, receiver_id, execute_after, total_deposit)
}

/// Log line of an executed request.
pub fn execute_event(request_id: u64, receiver_id: &str) -> (res: String)
    ensures
        res@ == event_text("dao-timelock"@, "execute"@, execute_data(request_id, receiver_id@)),
{
    let mut data = "{\"request_id\":".to_owned();
    push_decimal(&mut data, request_id as u128);
    data.append(",\"receiver_id\":");
    push_json_string(&mut data, receiver_id);
    data.append("}");
    event_log("dao-timelock", "execute", data.as_str())
}

/// Log line of the approving vote on the proposal a request added.
pub fn approve_proposal_event(request_id: u64, proposal_id: u64) -> (res: String)
    ensures
        res@ == event_text("dao-timelock"@, "approve_proposal"@, approve_proposal_data(request_id, proposal_id)),
{
    let mut data = "{\"request_id\":".to_owned();
    push_decimal(&mut data, request_id as u128);
    data.append(",\"proposal_id\":");
    push_decimal(&mut data, proposal_id as u128);
    data.append("}");
    event_log("dao-timelock", "approve_proposal", data.as_str())
}

/// Log line of a proposal request whose `add_proposal` call failed, with the
/// bond refunded to the funder.
pub fn proposal_failed_event(request_id: u64, funder_id: &str, refund: u128) -> (res: String)
    ensures
        res@ == event_text("dao-timelock"@, "proposal_failed"@, proposal_failed_data(request_id, funder_id@, refund)),
{
    let mut data = "{\"request_id\":".to_owned();
    push_decimal(&mut data, request_id as u128);
    data.append(",\"funder_id\":");
    push_json_string(&mut data, funder_id);
    data.append(",\"refund\":\"");
    push_decimal(&mut data, refund);
    data.append("\"}");
    event_log("dao-timelock", "proposal_failed", data.as_str())
}

/// Log line of a request cancelled by the guardian `cancelled_by`.
pub fn cancel_event(request_id: u64, receiver_id: &str, cancelled_by: &str) -> (res: String)
    ensures
        res@ == event_text("dao-timelock"@, "cancel"@, cancel_data(request_id, receiver_id@, cancelled_by@)),
{
    let mut data = "{\"request_id\":".to_owned();
    push_decimal(&mut data, request_id as u128);
    data.append(",\"receiver_id\":");
    push_json_string(&mut data, receiver_id);
    data.append(",\"cancelled_by\":");
    push_json_string(&mut data, cancelled_by);
    data.append("}");
    event_log("dao-timelock", "cancel", data.as_str())
}

} // verus!
