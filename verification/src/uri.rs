//! Dataset locations that a connectivity probe has answered for.
//!
//! The probe itself opens a dataset and is the caller's business: the
//! functions here take its answer.

pub mod driver;

use vstd::prelude::*;

verus! {

/// Why a location was not accepted.
#[derive(Debug, Clone, Copy, PartialEq, Eq, Structural)]
pub enum UriError {
    /// The dataset could not be reached.
    ConnectionError,
}

/// The location of a dataset that data is read from.
#[derive(Debug, Clone, PartialEq, Eq)]
pub struct SourceURI {
    pub path: String,
}

/// The location of a dataset that data is written to.
#[derive(Debug, Clone, PartialEq, Eq)]
pub struct DestinationURI {
    pub path: String,
}

impl SourceURI {
    /// The source at `p`, where the probe has reached it; `ConnectionError`
    /// where it has not.
    pub fn from_str(p: &str, reachable: bool) -> (r: Result<SourceURI, UriError>)
        ensures
            match r {
                Ok(uri) => reachable && uri.path@ == p@,
                Err(e) => !reachable && e == UriError::ConnectionError,
            },
    {
        if reachable {
            Ok(SourceURI { path: p.to_owned() })
        } else {
            Err(UriError::ConnectionError)
        }
    }
}

impl DestinationURI {
    /// The destination at `p`, where the probe has reached it;
    /// `ConnectionError` where it has not.
    pub fn from_str(p: &str, reachable: bool) -> (r: Result<DestinationURI, UriError>)
        ensures
            match r {
                Ok(uri) => reachable && uri.path@ == p@,
                Err(e) => !reachable && e == UriError::ConnectionError,
            },
    {
        if reachable {
            Ok(DestinationURI { path: p.to_owned() })
        } else {
            Err(UriError::ConnectionError)
        }
    }
}

} // verus!
