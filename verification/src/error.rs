use vstd::prelude::*;

verus! {

/// Why an operation of the relay did not go through.
#[derive(Clone, Copy, Debug, PartialEq, Eq, Structural)]
pub enum ServiceError {
    /// The service was never initialized, or no handler is bound.
    NotConnected,
    /// The service is held by an operation that has not finished.
    Busy,
    /// A channel could not be created, read or written.
    Io,
    /// The bytes are not a well-formed envelope.
    Decode,
}

impl ServiceError {
    /// A short description, as it would be printed to a diagnostic channel.
    pub fn message(&self) -> (text: &'static str)
        ensures
            text@ == match *self {
                ServiceError::NotConnected => "service was not initialized"@,
                ServiceError::Busy => "service is in use"@,
                ServiceError::Io => "channel failure"@,
                ServiceError::Decode => "malformed envelope"@,
            },
    {
        match self {
            ServiceError::NotConnected => "service was not initialized",
            ServiceError::Busy => "service is in use",
            ServiceError::Io => "channel failure",
            ServiceError::Decode => "malformed envelope",
        }
    }
}

} // verus!
