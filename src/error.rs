use vstd::prelude::*;

verus! {

/// The ways an update attempt can fail.
#[derive(Debug)]
pub enum Error {
    /// The updater was set up without any metadata endpoint.
    Config(String),
    /// Every endpoint failed, or a transfer failed.
    Network(String),
    /// A metadata document does not describe a usable release.
    Release(String),
    /// A key or signature could not be decoded, or the signature does not match.
    Security(String),
    /// The downloaded archive could not be unpacked.
    Extract(String),
    /// Moving the new files into place failed.
    Install(String),
    /// A version string is not a semantic version.
    InvalidVersion(String),
}

/// The description an error carries.
pub open spec fn message_of(e: Error) -> Seq<char> {
    match e {
        Error::Config(m) => m@,
        Error::Network(m) => m@,
        Error::Release(m) => m@,
        Error::Security(m) => m@,
        Error::Extract(m) => m@,
        Error::Install(m) => m@,
        Error::InvalidVersion(m) => m@,
    }
}

impl Error {
    /// A human-readable description of the failure.
    pub fn message(&self) -> (r: String)
        ensures
            r@ == message_of(*self),
    {
        match self {
            Error::Config(m) => m.clone(),
            Error::Network(m) => m.clone(),
            Error::Release(m) => m.clone(),
            Error::Security(m) => m.clone(),
            Error::Extract(m) => m.clone(),
            Error::Install(m) => m.clone(),
            Error::InvalidVersion(m) => m.clone(),
        }
    }
}

} // verus!
