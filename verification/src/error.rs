use vstd::prelude::*;

verus! {

/// The errors the protocol client reports to its callers.
///
/// Every failure surfaces immediately: nothing in the client retries or
/// suppresses an error.
#[derive(Clone, Debug, PartialEq)]
pub enum Error {
    /// The backend rejected the requested protocol identifier; the payload is
    /// the language name the backend named, or `"<unknown>"` when its reply
    /// carried no recognizable name.
    LanguageNotFound(String),
    /// A non-success HTTP status came back from an endpoint, together with the
    /// status's canonical reason text when one is known.
    ApiError { status: u16, reason: Option<String> },
    /// A network failure, surfaced unchanged from the transport.
    RequestError(String),
    /// A failed or malformed compression stream.
    IoError(String),
}

impl Error {
    /// Builds the error for a non-success HTTP status from either endpoint.
    pub fn from_status(status: u16, reason: Option<String>) -> (r: Error)
        ensures
            r == (Error::ApiError { status, reason }),
    {
        Error::ApiError { status, reason }
    }
}

/// Decides whether an HTTP status from either endpoint counts as success:
/// any status outside the 2xx range fails at once with its api error, and no
/// retry is ever attempted.
pub fn classify_status(status: u16, reason: Option<String>) -> (r: Result<(), Error>)
    ensures
        200 <= status < 300 ==> r is Ok,
        !(200 <= status < 300) ==> r == Err::<(), Error>((Error::ApiError { status, reason })),
{
    if 200 <= status && status < 300 {
        Ok(())
    } else {
        Err(Error::from_status(status, reason))
    }
}

} // verus!
