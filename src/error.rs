//! The errors of building and encoding an archive.

use vstd::prelude::*;

verus! {

/// What can go wrong while an archive is built, finalized or encoded.
#[derive(Clone, Copy, Debug, PartialEq, Eq, Structural)]
pub enum ZipError {
    /// A file name has more bytes than its 16-bit length field can count.
    FileNameTooLong,
    /// One extra field's payload is longer than its size field can count.
    ExtraFieldTooLong,
    /// The extra fields of a header are longer than their 16-bit length field can count.
    ExtraFieldsTooLong,
    /// Both the structured and the raw extra fields of a header are set.
    DualExtraFields,
    /// A serialized size does not fit in a machine word.
    TooLarge,
    /// The compression method has no codec here.
    UnsupportedMethod(u16),
    /// The codec for a supported method reported a failure.
    CodecFailed(u16),
    /// An operation over a group of entries was given none.
    NoEntries,
    /// A hand-built layout did not come out with the sizes it relies on.
    LayoutMismatch,
}

} // verus!
