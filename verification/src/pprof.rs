//! The settings of a profile that is asked for over HTTP.

use vstd::prelude::*;

verus! {

/// What a request for a profile asks for.
#[derive(Debug, Clone, Copy, PartialEq, Eq, Structural)]
pub struct PProfRequest {
    /// For how many seconds the profile is taken.
    pub seconds: u64,
    /// How many samples are taken in a second.
    pub frequency: u16,
}

impl PProfRequest {
    /// For how many seconds a profile is taken where the request does not
    /// say.
    pub fn default_seconds() -> (r: u64)
        ensures
            r == 5,
    {
        5
    }

    /// How many samples are taken in a second where the request does not
    /// say.
    pub fn default_frequency() -> (r: u16)
        ensures
            r == 99,
    {
        99
    }
}

/// The settings of the profile for a request: what the request asks for,
/// or five seconds at ninety-nine samples a second where there is none.
pub fn profile_settings(req: Option<PProfRequest>) -> (r: (u64, i32))
    ensures
        r == (match req {
            Some(query) => (query.seconds, query.frequency as i32),
            None => (5u64, 99i32),
        }),
{
    match req {
        Some(query) => (query.seconds, query.frequency as i32),
        None => (PProfRequest::default_seconds(), PProfRequest::default_frequency() as i32),
    }
}

} // verus!
