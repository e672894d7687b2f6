//! Unsolicited notifications from the module.

use vstd::prelude::*;

verus! {

use crate::at::{has_prefix, resp_chars};

/// The module signals a waiting message.
#[derive(Debug, Clone, Copy, PartialEq, Eq, Structural)]
pub struct MessageWaitingIndication;

/// The closed set of unsolicited notifications this device subscribes to.
#[derive(Debug, Clone, Copy, PartialEq, Eq, Structural)]
pub enum Urc {
    MessageWaitingIndication(MessageWaitingIndication),
}

impl Urc {
    /// Classifies an unsolicited line: a `+UMWI` head is a message-waiting
    /// indication; an unknown line is dropped, not an error.
    pub fn parse(v: &[u8]) -> (r: Option<Urc>)
        ensures
            match resp_chars(v@) {
                Option::Some(chars) => r == if has_prefix(chars, "+UMWI"@) {
                    Some(Urc::MessageWaitingIndication(MessageWaitingIndication))
                } else {
                    Option::<Urc>::None
                },
                Option::None => r is None,
            },
    {
        let chars = match crate::at::bytes_to_chars(v) {
            Ok(c) => c,
            Err(_) => {
                return None;
            },
        };
        match crate::at::strip_prefix_chars(chars.as_slice(), "+UMWI") {
            Option::Some(_) => Some(Urc::MessageWaitingIndication(MessageWaitingIndication)),
            Option::None => None,
        }
    }
}

} // verus!
