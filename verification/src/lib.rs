//! Client-side library for Google's Gemini generative-language REST API.
//!
//! The library builds request URLs for the public (API-key) and the private
//! (Vertex AI) addressing modes, renders typed request payloads to JSON,
//! decodes single-object and streamed JSON-array response bodies into typed
//! values, and maps HTTP failures to a small error type.  Network I/O, TLS
//! and credential exchange are left to the calling program.

pub mod gemini;
pub mod json;
pub mod text;
pub mod v1;

use vstd::prelude::*;

verus! {

/// The element-wise view of an optional value.
pub open spec fn opt_view<T: View>(o: Option<T>) -> Option<T::V> {
    match o {
        Some(x) => Some(x@),
        None => None,
    }
}

/// The element-wise view of a sequence of values.
pub open spec fn elems_view<T: View>(s: Seq<T>) -> Seq<T::V> {
    Seq::new(s.len(), |i: int| s[i]@)
}

} // verus!
