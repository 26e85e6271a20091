//! The reply table of the device server, which answers each received
//! chunk of text with one line.
use vstd::prelude::*;
use vstd::string::*;
use vstd::utf8::{decode_utf8, valid_utf8};
use crate::text::{text_is, trim, trim_string};

verus! {

/// Decodes bytes as UTF-8 (`std::str::from_utf8`), keeping the text when the
/// bytes are valid. Claimed of it: it succeeds exactly on valid UTF-8, and then
/// the text is the decoding of the bytes.
#[verifier::external_body]
fn decode_strict(bytes: &[u8]) -> (r: Option<String>)
    ensures
        r is Some <==> valid_utf8(bytes@),
        r matches Some(s) ==> s@ == decode_utf8(bytes@),
{
    match std::str::from_utf8(bytes) {
        Ok(s) => Some(s.to_owned()),
        Err(_) => None,
    }
}

/// The line the device sends back for a (trimmed) command.
pub open spec fn device_reply_for(command: Seq<char>) -> Seq<char> {
    if command == "vers"@ {
        "Version is 1.11\n"@
    } else if command == "on"@ {
        "System turned ON\n"@
    } else if command == "off"@ {
        "System turned OFF\n"@
    } else {
        "Unknown command\n"@
    }
}

/// The device's answer to a received chunk: `None` when the chunk is not
/// valid UTF-8 (it is reported and ignored), else the reply to its text with
/// surrounding white space removed.
pub open spec fn device_answer(raw: Seq<u8>) -> Option<Seq<char>> {
    if valid_utf8(raw) {
        Some(device_reply_for(trim(decode_utf8(raw))))
    } else {
        None
    }
}

/// The line the device sends back for a command.
pub fn reply_for_command(command: &str) -> (reply: String)
    ensures
        reply@ == device_reply_for(command@),
{
    let c = command.to_owned();
    if text_is(&c, "vers") {
        String::from_str("Version is 1.11\n")
    } else if text_is(&c, "on") {
        String::from_str("System turned ON\n")
    } else if text_is(&c, "off") {
        String::from_str("System turned OFF\n")
    } else {
        String::from_str("Unknown command\n")
    }
}

/// The device's answer to a received chunk of bytes.
pub fn answer(raw: &[u8]) -> (r: Option<String>)
    ensures
        r matches Some(s) ==> device_answer(raw@) == Some(s@),
        r is None ==> device_answer(raw@) is None,
{
    match decode_strict(raw) {
        Some(text) => {
            let command = trim_string(text.as_str());
            Some(reply_for_command(command.as_str()))
        },
        None => None,
    }
}

/// Law of the device: the three command words get their replies (as the
/// device's README shows), every other text gets `Unknown command`, and a
/// chunk is answered exactly when it is valid UTF-8, by the reply to its
/// text without surrounding white space.
pub proof fn law_device_replies(command: Seq<char>, raw: Seq<u8>)
    ensures
        command == "vers"@ ==> device_reply_for(command) == "Version is 1.11\n"@,
        command == "on"@ ==> device_reply_for(command) == "System turned ON\n"@,
        command == "off"@ ==> device_reply_for(command) == "System turned OFF\n"@,
        command != "vers"@ && command != "on"@ && command != "off"@ ==> device_reply_for(command)
            == "Unknown command\n"@,
        device_answer(raw) is Some <==> valid_utf8(raw),
        valid_utf8(raw) ==> device_answer(raw) == Some(device_reply_for(trim(decode_utf8(raw)))),
{
    reveal_strlit("vers");
    reveal_strlit("on");
    reveal_strlit("off");
    assert("vers"@.len() == 4);
    assert("on"@.len() == 2);
    assert("off"@.len() == 3);
}

} // verus!
