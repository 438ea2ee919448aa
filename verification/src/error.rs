//! Error types of the connection engine.

use vstd::prelude::*;

verus! {

/// A request or response that breaks the protocol.
#[derive(Clone, Copy, Debug, PartialEq, Eq, Structural)]
pub enum ProtoError {
    /// The request head is not well formed.
    BadRequest,
    /// The framing headers contradict each other.
    Framing,
    /// The protocol version is not HTTP/1.0 or HTTP/1.1.
    Version,
    /// A header value is not acceptable.
    Header,
    /// The request head does not fit in the read buffer.
    HeaderTooLarge,
    /// The response status cannot be sent by this layer.
    Status,
}

/// Malformed chunked framing met while decoding a body.
#[derive(Clone, Copy, Debug, PartialEq, Eq, Structural)]
pub enum ChunkError {
    /// A byte of the size line is neither a hexadecimal digit nor a delimiter.
    InvalidSize,
    /// The chunk size does not fit in 64 bits.
    SizeOverflow,
    /// Whitespace after the size is followed by something else than a delimiter.
    InvalidSizeLws,
    /// A chunk extension holds a line feed.
    ExtensionNewline,
    /// The size line does not end in a line feed.
    InvalidSizeLf,
    /// The chunk data is not followed by a carriage return.
    InvalidBodyCr,
    /// The chunk data is not followed by a line feed.
    InvalidBodyLf,
    /// A trailer line does not end in a line feed.
    InvalidTrailerLf,
    /// The final line does not end in a line feed.
    InvalidEndLf,
}

impl ChunkError {
    /// The text that describes the error.
    pub open spec fn text(self) -> Seq<char> {
        match self {
            ChunkError::InvalidSize => "Invalid chunk size line: Invalid Size"@,
            ChunkError::SizeOverflow => "Invalid chunk size line: Size is too big"@,
            ChunkError::InvalidSizeLws => "Invalid chunk size linear white space"@,
            ChunkError::ExtensionNewline => "Invalid chunk extension contains newline"@,
            ChunkError::InvalidSizeLf => "Invalid chunk size LF"@,
            ChunkError::InvalidBodyCr => "Invalid chunk body CR"@,
            ChunkError::InvalidBodyLf => "Invalid chunk body LF"@,
            ChunkError::InvalidTrailerLf => "Invalid trailer end LF"@,
            ChunkError::InvalidEndLf => "Invalid chunk end LF"@,
        }
    }

    /// The text that describes the error.
    pub fn message(&self) -> (s: &'static str)
        ensures
            s@ == self.text(),
    {
        match self {
            ChunkError::InvalidSize => "Invalid chunk size line: Invalid Size",
            ChunkError::SizeOverflow => "Invalid chunk size line: Size is too big",
            ChunkError::InvalidSizeLws => "Invalid chunk size linear white space",
            ChunkError::ExtensionNewline => "Invalid chunk extension contains newline",
            ChunkError::InvalidSizeLf => "Invalid chunk size LF",
            ChunkError::InvalidBodyCr => "Invalid chunk body CR",
            ChunkError::InvalidBodyLf => "Invalid chunk body LF",
            ChunkError::InvalidTrailerLf => "Invalid trailer end LF",
            ChunkError::InvalidEndLf => "Invalid chunk end LF",
        }
    }
}


/// Why a URI cannot be used to reach a server.
#[derive(Clone, Copy, Debug, PartialEq, Eq, Structural)]
pub enum InvalidUri {
    ReasonUnknown,
    MissingHost,
    MissingScheme,
    MissingAuthority,
    MissingPathQuery,
    UnknownScheme,
}

/// The step of a request that ran out of time.
#[derive(Clone, Copy, Debug, PartialEq, Eq, Structural)]
pub enum TimeoutError {
    Resolve,
    Connect,
    TlsHandshake,
    Request,
}

} // verus!
