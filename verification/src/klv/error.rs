//! The errors of the codec.

use vstd::prelude::*;

verus! {

/// Why a record or a packet could not be written.
#[derive(Clone, Copy, Debug, PartialEq, Eq, Structural)]
pub enum EncodeError {
    /// The destination is shorter than the packet.
    BufferTooSmall,
    /// A value is longer than the one-octet record length can say.
    ValueTooLong,
    /// The records together are longer than the envelope's length field can say.
    ContentTooLong,
}

/// Why a buffer is not a packet, or a packet not the expected dataset.
#[derive(Clone, Copy, Debug, PartialEq, Eq, Structural)]
pub enum ParseError {
    /// The buffer does not start with the envelope key.
    EnvelopeKeyMismatch,
    /// The buffer ends before the key, a length field or a value is complete.
    TruncatedRecord,
    /// The envelope's length field has a form that is not supported, or names
    /// more content than a packet may hold.
    InvalidLength,
    /// The buffer goes on after the content that the envelope announces.
    TrailingData,
    /// The tag is not part of the dataset.
    UnknownTag(u8),
    /// The value of the tag has not the width of the tag's type.
    WrongWidth(u8),
    /// The value of the tag is not UTF-8.
    InvalidUtf8(u8),
    /// No record carries the tag, which the dataset requires.
    MissingRequiredField(u8),
}

} // verus!
