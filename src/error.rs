//! Typed failures of login and of worker tasks.

use vstd::prelude::*;

verus! {

/// Why setting up the web API client failed.
#[derive(Debug, Clone, Copy, PartialEq, Eq, Structural)]
pub enum APILoginError {
    OAuth,
    Token,
    Credentials,
}

impl APILoginError {
    pub open spec fn message(&self) -> Seq<char> {
        match self {
            APILoginError::OAuth => "Failed to load OAuth data from .env file"@,
            APILoginError::Token => "Failed to parse response token"@,
            APILoginError::Credentials => "Failed to load credentials from .env file"@,
        }
    }

    /// The message shown to the user.
    pub fn to_string(&self) -> (r: String)
        ensures
            r@ == self.message(),
    {
        match self {
            APILoginError::OAuth => String::from_str("Failed to load OAuth data from .env file"),
            APILoginError::Token => String::from_str("Failed to parse response token"),
            APILoginError::Credentials => String::from_str(
                "Failed to load credentials from .env file",
            ),
        }
    }
}

/// A precondition of a task that was not met, or a malformed identifier.
#[derive(Debug, Clone, Copy, PartialEq, Eq, Structural)]
pub enum WorkerError {
    NoAPIClient,
    NoSpotifyPlayer,
    NoSpotifySession,
    BadSpotifyId,
}

impl WorkerError {
    pub open spec fn message(&self) -> Seq<char> {
        match self {
            WorkerError::NoAPIClient => "A Spotify API client wasn't created."@,
            WorkerError::NoSpotifyPlayer => "A Spotify player wasn't created."@,
            WorkerError::NoSpotifySession => "A Spotify session wasn't created."@,
            WorkerError::BadSpotifyId => "An invalid Spotify ID was provided."@,
        }
    }

    /// The message shown to the user.
    pub fn to_string(&self) -> (r: String)
        ensures
            r@ == self.message(),
    {
        match self {
            WorkerError::NoAPIClient => String::from_str("A Spotify API client wasn't created."),
            WorkerError::NoSpotifyPlayer => String::from_str("A Spotify player wasn't created."),
            WorkerError::NoSpotifySession => String::from_str(
                "A Spotify session wasn't created.",
            ),
            WorkerError::BadSpotifyId => String::from_str("An invalid Spotify ID was provided."),
        }
    }
}

} // verus!
