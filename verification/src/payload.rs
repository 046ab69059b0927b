//! Submitting a command to the payload.

use vstd::prelude::*;
use vstd::string::*;

verus! {

/// The receipt for a submitted command.
pub open spec fn receipt(command: Seq<char>) -> Seq<char> {
    "Command '"@ + command + "' sent successfully"@
}

/// Submits a command to the payload. Nothing is dispatched: the command is
/// acknowledged, whatever it is, with a receipt that quotes it.
pub fn send_payload_command(command: &str) -> (outcome: Result<String, String>)
    ensures
        outcome matches Ok(text) && text@ == receipt(command@),
{
    let mut text = String::from_str("Command '");
    text.append(command);
    text.append("' sent successfully");
    Ok(text)
}

} // verus!
