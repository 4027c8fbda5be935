//! Failure taxonomy and the classification of one HTTP exchange.

use vstd::prelude::*;

verus! {

/// The upstream a request was addressed to.
#[derive(Debug, Clone, Copy, PartialEq, Eq, Structural)]
pub enum Platform {
    /// The identity service that issues and renews credentials.
    Identity,
    /// The remote document store.
    Store,
    /// The video platform queried by video and channel id.
    YouTube,
    /// The social platform queried by user id.
    Bilibili,
}

/// Why an operation of this crate failed.
#[derive(Debug, Clone, Copy, PartialEq, Eq, Structural)]
pub enum Error {
    /// The request never produced a response (network, DNS or TLS failure).
    Transport,
    /// The named upstream answered outside the 2xx class, or with a body that
    /// does not have the expected shape.
    Upstream { platform: Platform, status: u16 },
    /// A sign-in or refresh exchange failed, or granted an unusable lifetime.
    Auth,
    /// An aggregate was asked for over zero observations.
    EmptyInput,
    /// The request text is not an absolute URL, or is longer than
    /// [`crate::request::MAX_REQUEST_BYTES`].
    InvalidUrl,
}

/// What came of one request: no response at all, or a status line together
/// with the decoded body (`None` where the body did not decode).
#[derive(Debug, PartialEq, Eq)]
pub enum Reply<T> {
    Unreachable,
    Answered { status: u16, body: Option<T> },
}

/// Whether `status` lies in the success class of HTTP status codes.
pub open spec fn is_success(status: u16) -> bool {
    200 <= status <= 299
}

/// Executable form of [`is_success`].
pub fn status_is_success(status: u16) -> (ok: bool)
    ensures
        ok == is_success(status),
{
    200 <= status && status <= 299
}

impl<T> Reply<T> {
    /// The result a reply stands for when `platform` sent it.
    pub open spec fn outcome(self, platform: Platform) -> Result<T, Error> {
        match self {
            Reply::Unreachable => Err(Error::Transport),
            Reply::Answered { status, body } => match body {
                Some(value) if is_success(status) => Ok(value),
                _ => Err(Error::Upstream { platform, status }),
            },
        }
    }

    /// The error a reply stands for, if it stands for one.
    pub open spec fn failure_of(self, platform: Platform) -> Option<Error> {
        match self.outcome(platform) {
            Ok(_) => None,
            Err(error) => Some(error),
        }
    }

    /// Why the reply counts as a failure, if it does; the reply is left with
    /// the caller.
    pub fn failure(&self, platform: Platform) -> (error: Option<Error>)
        ensures
            error == self.failure_of(platform),
    {
        match self {
            Reply::Unreachable => Some(Error::Transport),
            Reply::Answered { status, body } => {
                if status_is_success(*status) && body.is_some() {
                    None
                } else {
                    Some(Error::Upstream { platform, status: *status })
                }
            },
        }
    }

    /// The reply itself, unless the request got no response. A batch that
    /// must not outlive its first unanswered request stops on the error.
    pub fn reached(self) -> (result: Result<Reply<T>, Error>)
        ensures
            result == match self {
                Reply::Unreachable => Err::<Reply<T>, Error>(Error::Transport),
                Reply::Answered { status, body } => Ok::<Reply<T>, Error>(
                    Reply::Answered { status, body },
                ),
            },
    {
        match self {
            Reply::Unreachable => Err(Error::Transport),
            Reply::Answered { status, body } => Ok(Reply::Answered { status, body }),
        }
    }

    /// Classifies the reply: the decoded body when the upstream answered in
    /// the success class with a well-formed body, the matching error otherwise.
    pub fn accept(self, platform: Platform) -> (result: Result<T, Error>)
        ensures
            result == self.outcome(platform),
    {
        match self {
            Reply::Unreachable => Err(Error::Transport),
            Reply::Answered { status, body } => {
                if status_is_success(status) {
                    match body {
                        Some(value) => Ok(value),
                        None => Err(Error::Upstream { platform, status }),
                    }
                } else {
                    Err(Error::Upstream { platform, status })
                }
            },
        }
    }
}

} // verus!
