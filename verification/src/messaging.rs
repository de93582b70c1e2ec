//! The message store and the decision halves of its cross-contract calls.
//!
//! Asking another contract whether an account exists is asynchronous in the
//! hosting environment: the shell sends the call and later hands the outcome
//! to a callback. The sending and the outcome decoding live in the shell;
//! what the callbacks decide from each possible outcome lives here, where it
//! is verified for every outcome.

use vstd::prelude::*;

use vstd::string::StringExecFns;

verus! {

/// The message log. The hosting shell persists it under its storage key.
pub struct MessagingDb {
    pub messages: Vec<String>,
}

impl MessagingDb {
    /// A fresh, empty message store.
    pub fn new() -> (db: MessagingDb)
        ensures
            db.messages@.len() == 0,
    {
        MessagingDb { messages: Vec::new() }
    }

    /// The reply to an existence probe of another contract: `outcome` is
    /// `None` when the call failed, else whether the account exists.
    pub fn send_messages_cb(&self, outcome: Option<bool>) -> (r: String)
        ensures
            r@ == match outcome {
                Option::None => "oops"@,
                Option::Some(true) => "Account exist"@,
                Option::Some(false) => "Account does not exist"@,
            },
    {
        match outcome {
            Option::None => String::from_str("oops"),
            Option::Some(true) => String::from_str("Account exist"),
            Option::Some(false) => String::from_str("Account does not exist"),
        }
    }
}

/// The reply to a remote profile lookup made before posting: the poster's
/// name when the lookup succeeded (`None` means the call failed), echoed
/// with the content to be posted.
pub fn create_post_cb(author_name: Option<&String>, content: &String) -> (r: String)
    ensures
        r@ == match author_name {
            Option::Some(name) => "add = "@ + name@ + ", content = "@ + content@,
            Option::None => "Unable to connect to server, please try again"@,
        },
{
    match author_name {
        Option::Some(name) => {
            let mut s = String::from_str("add = ");
            s.append(name.as_str());
            s.append(", content = ");
            s.append(content.as_str());
            s
        },
        Option::None => String::from_str("Unable to connect to server, please try again"),
    }
}

} // verus!
