use vstd::prelude::*;

verus! {

/// Everything that can abort a connection. Every decode, framing, sequencing
/// or lookup failure is fatal to its own connection and to nothing else.
#[derive(Clone, Copy, Debug, PartialEq, Eq, Structural)]
pub enum SlpError {
    /// A variable-length integer still had its continuation bit set after the
    /// last byte its width allows (5 bytes for 32-bit, 10 for 64-bit).
    MalformedVarInt,
    /// The raw byte source ended before a field's declared width was read.
    ShortRead,
    /// A read ran past the byte budget of the current packet frame.
    FrameExhausted,
    /// A length-prefixed string's bytes are not valid UTF-8.
    InvalidText,
    /// A packet kind or a state value that the protocol does not allow here.
    ProtocolViolation,
    /// The external profile store reported an error for a lookup.
    ConfigurationLookupFailed,
    /// A response payload grew past the frame length limit of the wire format.
    OversizedFrame,
}

} // verus!
