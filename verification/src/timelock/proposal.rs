//! Arguments of the two calls a proposal request makes on its target DAO.

use vstd::prelude::*;
use vstd::string::*;
use vstd::utf8::*;

use crate::json::{decimal, decimal_string, json_string, json_string_text};

verus! {

/// JSON arguments of `add_proposal`:
/// `{"proposal":{"description":<description>,"kind":<kind>}}`.
pub open spec fn add_proposal_args_text(description: Seq<char>, kind: Seq<char>) -> Seq<char> {
    "{\"proposal\":{\"description\":"@ + json_string_text(description) + ",\"kind\":"@ + kind
        + "}}"@
}

/// JSON arguments of the approving `act_proposal`:
/// `{"id":<proposal_id>,"action":"VoteApprove","proposal":<kind>}`.
pub open spec fn act_proposal_args_text(proposal_id: u64, kind: Seq<char>) -> Seq<char> {
    "{\"id\":"@ + decimal(proposal_id as nat) + ",\"action\":\"VoteApprove\",\"proposal\":"@ + kind
        + "}"@
}

/// UTF-8 bytes of `text`.
fn utf8_bytes(text: &String) -> (res: Vec<u8>)
    ensures
        res@ == encode_utf8(text@),
{
    vstd::slice::slice_to_vec(text.as_str().as_bytes())
}

/// Builds the `add_proposal` arguments; `kind` is the JSON text of the
/// proposal kind and is embedded as it stands.
pub fn add_proposal_args(description: &str, kind: &str) -> (res: Vec<u8>)
    ensures
        res@ == encode_utf8(add_proposal_args_text(description@, kind@)),
{
    let mut text = "{\"proposal\":{\"description\":".to_owned();
    let quoted = json_string(description);
    text.append(quoted.as_str());
    text.append(",\"kind\":");
    text.append(kind);
    text.append("}}");
    utf8_bytes(&text)
}

/// Builds the `act_proposal` arguments that approve `proposal_id`.
pub fn act_proposal_args(proposal_id: u64, kind: &str) -> (res: Vec<u8>)
    ensures
        res@ == encode_utf8(act_proposal_args_text(proposal_id, kind@)),
{
    let mut text = "{\"id\":".to_owned();
    let id = decimal_string(proposal_id as u128);
    text.append(id.as_str());
    text.append(",\"action\":\"VoteApprove\",\"proposal\":");
    text.append(kind);
    text.append("}");
    utf8_bytes(&text)
}

} // verus!
