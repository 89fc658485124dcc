use vstd::prelude::*;

verus! {

/// Error returned when a buffer is shorter than an operation needs.
#[derive(Clone, Copy, Debug, PartialEq, Eq, Structural)]
pub struct BufferTooSmall {
    /// Length of the buffer.
    pub size: usize,
    /// Length the buffer would need to have.
    pub expected: usize,
}

/// Errors returned from Ws6in1 protocol processing.
#[allow(inconsistent_fields)]
#[derive(Clone, Copy, Debug, PartialEq, Eq, Structural)]
pub enum Error {
    /// The provided buffer is too small.
    BufferTooSmall(BufferTooSmall),
    /// The provided buffer contained unexpected trailing bytes and
    /// was not completely deserialized.
    BufferNotConsumed { trailing: usize },
    /// The magic value was incorrect.
    InvalidMagic { magic: u8 },
    /// The given frame type is unsupported.
    UnsupportedType { frame_type: u8 },
    /// The opcode of this message has an unsupported value.
    UnsupportedOpcode { opcode: u8 },
    /// The payload of a packet exceeds the maximum supported length.
    PayloadTooLarge { len: usize },
    /// The parser unexpectedly encountered end of input after this token number.
    UnexpectedEnd { tpos: usize },
    /// The message contained a non UTF8 character at this byte index.
    InvalidCharacter { idx: usize },
    /// Parsing a number from the token with the given number failed.
    InvalidToken { tpos: usize },
    /// The parser encountered "garbage" characters at the end of the message.
    GarbageEnd { char: u8 },
    /// A fragment was discarded during message assembly.
    FragmentDiscarded { idx: u8 },
    /// A message exceeded maximum length during assembly.
    MessageTooLarge { len: usize },
}

/// A specialized Result type for Ws6in1 operations.
pub type Result<T> = core::result::Result<T, Error>;

} // verus!
