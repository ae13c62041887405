use vstd::prelude::*;

verus! {

/// Every way an invocation of the client can fail.
#[derive(Debug, Clone, Copy, PartialEq, Eq, Structural)]
pub enum ClientError {
    /// The URL cannot be parsed at all.
    InvalidUrl,
    /// The URL parses but has no usable host.
    InvalidHost,
    /// A content-format token is neither a number nor a known media type.
    UnsupportedContentFormatString,
    /// A numeric content-format token is not in the registry.
    UnknownContentFormatCode,
    /// POST or PUT was asked for without inline data or a data file.
    MissingPayloadSource,
    /// The data file is not a regular file or cannot be read.
    InvalidDataFile,
    /// Connecting, sending or receiving failed.
    TransportFailure,
}

impl ClientError {
    /// A one-line description of the error for the operator.
    pub fn message(&self) -> (r: &'static str)
        ensures
            r@ == match *self {
                ClientError::InvalidUrl => "url error"@,
                ClientError::InvalidHost => "host error"@,
                ClientError::UnsupportedContentFormatString => "unsupported content format string"@,
                ClientError::UnknownContentFormatCode => "invalid content format number"@,
                ClientError::MissingPayloadSource => "must specify either data string or file path"@,
                ClientError::InvalidDataFile => "path must be file"@,
                ClientError::TransportFailure => "transport failure"@,
            },
    {
        match self {
            ClientError::InvalidUrl => "url error",
            ClientError::InvalidHost => "host error",
            ClientError::UnsupportedContentFormatString => "unsupported content format string",
            ClientError::UnknownContentFormatCode => "invalid content format number",
            ClientError::MissingPayloadSource => "must specify either data string or file path",
            ClientError::InvalidDataFile => "path must be file",
            ClientError::TransportFailure => "transport failure",
        }
    }
}

} // verus!
