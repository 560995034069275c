//! Failure values of the library.  Every failure is a returned value; no
//! operation panics or aborts.

use vstd::prelude::*;

verus! {

/// What went wrong during configuration parsing or an address lookup.
#[derive(Debug, PartialEq)]
pub enum Error {
    /// The configuration table is malformed; `line` is the first offending
    /// line, counted from one.
    ConfigParse { line: usize },
    /// An HTTP body that should have held a JSON document did not parse as
    /// one.
    JsonParse,
    /// Every provider of the requested family failed; the causes stand in
    /// attempt order.
    AllProvidersFailed { errors: Vec<Error> },
    /// The transport could not fetch an answer from `url`.
    ConnectionFailed { url: String },
    /// No answer arrived from `url` within `timeout` milliseconds.
    Timeout { url: String, timeout: usize },
    /// The response did not contain a parseable address of the expected
    /// family; `addr` is the text that failed to parse.
    AddrParseFailed { addr: String },
    /// A DNS endpoint locator did not have the `query@resolver` shape.
    DnsParseFailed { url: String },
}

} // verus!
