//! Error taxonomy of the subsystem.  Every bus-level failure is caught at
//! a component boundary and converted to one of these kinds.

use vstd::prelude::*;

verus! {

/// The kinds of failure the subsystem distinguishes.
///
/// - `BusUnavailable`: no bus connection at all; fatal to the process.
/// - `NameRequestFailed`: the request for the well-known name failed;
///   ownership stays `Unowned` until a later owner-changed event.
/// - `LayoutFetchFailed`: a menu layout fetch failed; the previous good
///   layout is retained and the next layout-updated signal retries.
/// - `ClickDispatchFailed`: an outbound click event call failed; logged
///   only, never retried.
/// - `MalformedSignalArgs`: a signal or reply carried arguments of the
///   wrong shape; the event is dropped.
#[derive(Clone, Copy, Debug, PartialEq, Eq, Structural)]
pub enum Error {
    BusUnavailable,
    NameRequestFailed,
    LayoutFetchFailed,
    ClickDispatchFailed,
    MalformedSignalArgs,
}

impl Error {
    /// A short human-readable description, for logging by the caller.
    pub fn describe(&self) -> (r: &'static str)
        ensures
            r@.len() > 0,
    {
        proof {
            reveal_strlit("bus connection unavailable");
            reveal_strlit("request for well-known name failed");
            reveal_strlit("menu layout fetch failed");
            reveal_strlit("click event dispatch failed");
            reveal_strlit("malformed signal arguments");
        }
        match self {
            Error::BusUnavailable => "bus connection unavailable",
            Error::NameRequestFailed => "request for well-known name failed",
            Error::LayoutFetchFailed => "menu layout fetch failed",
            Error::ClickDispatchFailed => "click event dispatch failed",
            Error::MalformedSignalArgs => "malformed signal arguments",
        }
    }
}

} // verus!
