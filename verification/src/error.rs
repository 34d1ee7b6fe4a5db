//! The error the library reports: a `cart` error code and its message.

use vstd::prelude::*;
use crate::text::{decimal, decimal_chars, push_str};

verus! {

/// An error with a `cart` error code. The message starts with `E<code>: `.
#[derive(Debug)]
pub struct CartError {
    pub code: u32,
    pub message: String,
}

/// The message of an error with code `code` and text `text`.
pub open spec fn error_text(code: u32, text: Seq<char>) -> Seq<char> {
    "E"@ + decimal_chars(code as nat) + ": "@ + text
}

impl CartError {
    /// An error with code `code` whose message is `E<code>: <text>`.
    pub fn new(code: u32, text: &str) -> (r: Self)
        ensures
            r.code == code,
            r.message@ == error_text(code, text@),
    {
        let mut m = String::new();
        push_str(&mut m, "E");
        let c = decimal(code as u64);
        push_str(&mut m, c.as_str());
        push_str(&mut m, ": ");
        push_str(&mut m, text);
        CartError { code, message: m }
    }

    /// The message, for reporting.
    pub fn message(&self) -> (r: &str)
        ensures
            r@ == self.message@,
    {
        self.message.as_str()
    }
}

} // verus!
