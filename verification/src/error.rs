//! The error that the control point reports.

use vstd::prelude::*;

verus! {

/// What went wrong.
#[derive(Debug, Clone, Copy, PartialEq, Eq, Structural)]
pub enum ErrorKind {
    /// A socket could not be read.
    Network,
    /// A description could not be fetched: the device answered with a
    /// failure status or with an empty body.
    Fetch,
    /// A document that should have been a device description or an action
    /// response is not well-formed or lacks a required part.
    Parse,
    /// The device refused an action.
    Action,
    /// The device refused a subscription or a renewal, or gave no identifier.
    Subscribe,
    /// The device refused to end a subscription.
    Unsubscribe,
    /// An event notification is not well-formed.
    EventParse,
    /// An address could not be resolved against its base.
    InvalidUrl,
}

/// An error of the control point: its kind, the HTTP status that came with
/// it (0 where there was none) and a text for diagnostics, which for an HTTP
/// failure is the body of the response.
#[derive(Debug, Clone, PartialEq)]
pub struct UpnpError {
    pub kind: ErrorKind,
    pub status: u16,
    pub detail: String,
}

/// The mathematical value of an [`UpnpError`].
pub ghost struct UpnpErrorView {
    pub kind: ErrorKind,
    pub status: u16,
    pub detail: Seq<char>,
}

impl View for UpnpError {
    type V = UpnpErrorView;

    open spec fn view(&self) -> UpnpErrorView {
        UpnpErrorView { kind: self.kind, status: self.status, detail: self.detail@ }
    }
}

impl UpnpError {
    /// An error of `kind` without a status.
    pub fn new(kind: ErrorKind, detail: String) -> (e: UpnpError)
        ensures
            e@ == (UpnpErrorView { kind, status: 0, detail: detail@ }),
    {
        UpnpError { kind, status: 0, detail }
    }

    /// An error of `kind` for a response with `status` and `body`.
    pub fn from_response(kind: ErrorKind, status: u16, body: &str) -> (e: UpnpError)
        ensures
            e@ == (UpnpErrorView { kind, status, detail: body@ }),
    {
        UpnpError { kind, status, detail: body.to_owned() }
    }
}

} // verus!
