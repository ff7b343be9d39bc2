//! The command line: its arguments, what to do once the payload is
//! resolved, and the lines that report the outcome.

use crate::error::{error_text, EmissaryError, ErrorView};
use crate::payload::Payload;
use crate::value::field_text;
use vstd::prelude::*;

verus! {

/// The configuration file, relative to the user's home directory.
pub const CONFIG_FILE: &'static str = ".config/emissary.ini";

/// The arguments of the command line. `txt` is accepted and has no effect:
/// the field that holds the message is the channel's `textField`.
#[derive(Clone, Debug, PartialEq, Eq)]
pub struct Args {
    /// Message to send
    pub msg: Option<String>,
    /// Specify the field that contains the message. Default is 'message'
    pub txt: Option<String>,
}

/// The message to send: the one given as an argument, or else the line
/// that was read.
pub open spec fn chosen_message(msg: Option<String>, line: Seq<char>) -> Seq<char> {
    match msg {
        Some(m) => m@,
        None => line,
    }
}

impl Args {
    /// Whether the message has to be read, since none was given.
    pub fn needs_input(&self) -> (r: bool)
        ensures
            r == (self.msg is None),
    {
        self.msg.is_none()
    }

    /// The message to send: the one given as an argument, or else `line`.
    pub fn message(self, line: &str) -> (r: String)
        ensures
            r@ == chosen_message(self.msg, line@),
    {
        match self.msg {
            Some(m) => m,
            None => line.to_owned(),
        }
    }
}

/// What follows once the payload has been resolved.
#[derive(Debug)]
pub enum Action {
    /// Post the payload to the address.
    Send { url: String, payload: Payload },
    /// Print the line and stop.
    Report(String),
}

/// The line that reports a payload without a `webhook` field.
pub open spec fn webhook_missing_line() -> Seq<char> {
    "[-] Webhook was not set..."@
}

/// The line that reports a failure.
pub open spec fn failure_line(e: ErrorView) -> Seq<char> {
    "[-] Error sending message: "@ + error_text(e)
}

/// The line that reports a delivery.
pub open spec fn sent_line() -> Seq<char> {
    "[+] Message Sent!"@
}

fn failure(e: &EmissaryError) -> (r: String)
    ensures
        r@ == failure_line(e@),
{
    let detail = e.message();
    "[-] Error sending message: ".to_owned().concat(detail.as_str())
}

/// Decides what follows the resolving of the payload: a payload is sent to
/// the text of its `webhook` field, and one without that field is reported;
/// an error is reported.
pub fn next_action(resolved: Result<Payload, EmissaryError>) -> (r: Action)
    ensures
        match resolved {
            Ok(payload) => if payload@.contains_key("webhook"@) {
                r matches Action::Send { url, payload: sent } && url@ == field_text(
                    payload@["webhook"@],
                ) && sent@ == payload@
            } else {
                r matches Action::Report(line) && line@ == webhook_missing_line()
            },
            Err(e) => r matches Action::Report(line) && line@ == failure_line(e@),
        },
{
    match resolved {
        Ok(payload) => {
            let url = match payload.get("webhook") {
                Some(value) => Some(value.to_string()),
                None => None,
            };
            match url {
                Some(url) => Action::Send { url, payload },
                None => Action::Report("[-] Webhook was not set...".to_owned()),
            }
        },
        Err(e) => Action::Report(failure(&e)),
    }
}

/// The line that reports how the sending ended: a request that completed
/// counts as sent, whatever status the answer carried.
pub fn report(sent: Result<(), EmissaryError>) -> (r: String)
    ensures
        match sent {
            Ok(_) => r@ == sent_line(),
            Err(e) => r@ == failure_line(e@),
        },
{
    match sent {
        Ok(_) => "[+] Message Sent!".to_owned(),
        Err(e) => failure(&e),
    }
}

} // verus!
