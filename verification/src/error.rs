use vstd::prelude::*;

verus! {

/// Everything that can go wrong while encoding, decoding or talking to the driver.
#[derive(Debug, Clone, Copy, PartialEq, Eq, Structural)]
pub enum Error {
    /// The buffer could not take a write.
    StdioError,
    /// A string payload was not well-formed UTF-16.
    Utf16Error,
    /// A string payload was not well-formed UTF-8.
    Utf8Error,
    /// The buffer ended early, or a framing marker did not match.
    DeserializationError,
    /// A discriminator named no known variant.
    BadEnumValue,
    /// The driver reported that the peer of the call in flight is gone.
    DeadReply,
    /// The driver reported that the call in flight failed.
    FailedReply,
    /// The driver reported an error number.
    DriverError(i32),
}

impl Error {
    /// The human-readable message of this error.
    pub fn message(&self) -> (text: &'static str)
        ensures
            text@ == self.message_spec()@,
    {
        match self {
            Error::StdioError => "stdio error",
            Error::Utf16Error => "utf error",
            Error::Utf8Error => "utf error",
            Error::DeserializationError => "deserialization error",
            Error::BadEnumValue => "bad enum value",
            Error::DeadReply => "dead reply",
            Error::FailedReply => "failed reply",
            Error::DriverError(_) => "driver error",
        }
    }

    /// The message that belongs to each variant.
    pub open spec fn message_spec(&self) -> &'static str {
        match self {
            Error::StdioError => "stdio error",
            Error::Utf16Error => "utf error",
            Error::Utf8Error => "utf error",
            Error::DeserializationError => "deserialization error",
            Error::BadEnumValue => "bad enum value",
            Error::DeadReply => "dead reply",
            Error::FailedReply => "failed reply",
            Error::DriverError(_) => "driver error",
        }
    }
}

} // verus!
