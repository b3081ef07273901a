//! What can go wrong when a remote platform is asked something.

use vstd::prelude::*;

verus! {

/// A remote platform did not give what was asked for.
#[derive(Debug, PartialEq, Eq)]
pub enum RemoteApiError {
    /// The request could not be sent, or its answer could not be read; the
    /// text is the report of whoever sent it.
    Transport(String),
    /// The platform answered with a status other than success.
    Status(u16),
    /// The answer was well formed but carried no data.
    Missing,
    /// The platform holds nothing that matches the request.
    NotFound,
    /// What was reported does not answer what was asked for.
    Unexpected,
}

/// A failure of a remote platform, with its report taken as characters.
pub enum RemoteApiErrorView {
    Transport(Seq<char>),
    Status(u16),
    Missing,
    NotFound,
    Unexpected,
}

impl View for RemoteApiError {
    type V = RemoteApiErrorView;

    open spec fn view(&self) -> RemoteApiErrorView {
        match *self {
            RemoteApiError::Transport(report) => RemoteApiErrorView::Transport(report@),
            RemoteApiError::Status(status) => RemoteApiErrorView::Status(status),
            RemoteApiError::Missing => RemoteApiErrorView::Missing,
            RemoteApiError::NotFound => RemoteApiErrorView::NotFound,
            RemoteApiError::Unexpected => RemoteApiErrorView::Unexpected,
        }
    }
}

/// The HTTP status that counts as success.
pub const STATUS_OK: u16 = 200;

/// Nothing, where the status is success; the status as an error otherwise.
pub fn check_status(status: u16) -> (res: Result<(), RemoteApiError>)
    ensures
        status == STATUS_OK ==> res == Ok::<(), RemoteApiError>(()),
        status != STATUS_OK ==> res == Err::<(), RemoteApiError>(RemoteApiError::Status(status)),
{
    if status == STATUS_OK {
        Ok(())
    } else {
        Err(RemoteApiError::Status(status))
    }
}

} // verus!
