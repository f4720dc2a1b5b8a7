//! The error type every API operation returns.

use vstd::prelude::*;

use crate::text::dec_chars;
use crate::text::u64_to_dec_string;

verus! {

/// An error surfaced to the caller: a human-readable message, and the HTTP
/// status code where one was received.
#[derive(Debug, Clone)]
pub struct GoogleAPIError {
    pub message: String,
    pub code: Option<u16>,
}

/// The textual rendering of an error: its code, then its message.
pub open spec fn error_display_chars(message: Seq<char>, code: Option<u16>) -> Seq<char> {
    "GoogleAPIError - code: "@ + (match code {
        Some(c) => "Some("@ + dec_chars(c as nat) + ")"@,
        None => "None"@,
    }) + " error: "@ + message
}

impl GoogleAPIError {
    /// Renders this error for humans.
    pub fn to_display_string(&self) -> (r: String)
        ensures
            r@ == error_display_chars(self.message@, self.code),
    {
        let mut r = String::new();
        r.append("GoogleAPIError - code: ");
        match self.code {
            Some(c) => {
                r.append("Some(");
                let d = u64_to_dec_string(c as u64);
                r.append(d.as_str());
                r.append(")");
            },
            None => {
                r.append("None");
            },
        }
        r.append(" error: ");
        r.append(self.message.as_str());
        proof {
            assert(r@ =~= error_display_chars(self.message@, self.code));
        }
        r
    }
}

} // verus!
