use vstd::prelude::*;

verus! {

/// The failures of a run, one variant per cause.
///
/// Causes that originate in outside services carry their message as text.
#[derive(Debug, Clone, PartialEq, Eq)]
pub enum AppError {
    Io(String),
    Json(String),
    OAuth2(String),
    GmailApi(String),
    Http(String),
    /// The whole listing and fetching did not finish within this many seconds.
    Timeout(u64),
    DateParse(String),
    AuthFailed(String),
    CredentialsError(String),
    /// Nothing matched the query: a distinguished terminal state, not a failure.
    NoSpamMessages,
    MessageFetchError(String),
    Other(String),
}

impl AppError {
    /// Whether this value is the "nothing matched" outcome rather than a failure.
    pub fn is_no_matches(&self) -> (r: bool)
        ensures
            r == (*self is NoSpamMessages),
    {
        match self {
            AppError::NoSpamMessages => true,
            _ => false,
        }
    }
}

} // verus!
