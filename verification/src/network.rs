//! The liveness and registration commands of the network bring-up.

use vstd::prelude::*;

verus! {

use crate::at::{resp_chars, trim_crlf, AtError};
use crate::text::string_of;

/// `ATE1`: enable command echo.
#[derive(Debug, Clone, Copy, PartialEq, Eq, Structural)]
pub struct ATE;

/// `AT`: the basic liveness probe.
#[derive(Debug, Clone, Copy, PartialEq, Eq, Structural)]
pub struct AT;

/// `AT+CGREG?`: query network registration.
#[derive(Debug, Clone, Copy, PartialEq, Eq, Structural)]
pub struct CGREG;

/// A reply that carries no values.
#[derive(Debug, Clone, Copy, PartialEq, Eq, Structural)]
pub struct NoResponse;

/// The registration reply, kept as its raw text.
#[derive(Debug, Clone, PartialEq, Eq)]
pub struct CGREGText {
    pub text: String,
}

/// Mathematical image of a registration reply.
pub ghost struct CGREGTextView {
    pub text: Seq<char>,
}

impl View for CGREGText {
    type V = CGREGTextView;

    open spec fn view(&self) -> CGREGTextView {
        CGREGTextView { text: self.text@ }
    }
}

impl ATE {
    /// The line sent for this command.
    pub fn write(&self) -> (r: String)
        ensures
            r@ == "ATE1\r\n"@,
    {
        string_of("ATE1\r\n")
    }
}

impl AT {
    /// The line sent for this command.
    pub fn write(&self) -> (r: String)
        ensures
            r@ == "AT\r\n"@,
    {
        string_of("AT\r\n")
    }

    /// This probe waits longer than the default for its reply.
    pub fn max_timeout_ms(&self) -> (r: u32)
        ensures
            r == 5000,
    {
        5000
    }
}

impl CGREG {
    /// The line sent for this command.
    pub fn write(&self) -> (r: String)
        ensures
            r@ == "AT+CGREG?\r\n"@,
    {
        string_of("AT+CGREG?\r\n")
    }

    /// Reads the registration reply: the line's text, without its ending.
    pub fn parse(&self, v: &[u8]) -> (r: Result<CGREGText, AtError>)
        ensures
            match resp_chars(v@) {
                Option::Some(chars) => r is Ok && r->Ok_0@.text == trim_crlf(chars),
                Option::None => r is Err,
            },
    {
        let chars = match crate::at::bytes_to_chars(v) {
            Ok(c) => c,
            Err(e) => {
                return Err(e);
            },
        };
        let trimmed = crate::at::trim_crlf_chars(chars.as_slice());
        Ok(CGREGText { text: crate::text::chars_to_string(trimmed.as_slice()) })
    }
}

} // verus!
