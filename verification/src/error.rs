use vstd::prelude::*;

verus! {

/// Errors raised while turning raw bytes into an in-memory archive.
///
/// Decoding is all-or-nothing: any of these aborts the whole decode and no
/// partial archive is ever returned.
#[derive(Debug, Clone, Copy, PartialEq, Eq, Structural)]
pub enum SpkError {
    /// A directory of split parts matched no part file at all.
    NoParts,
    /// A read ran past the end of the logical stream.
    Truncated,
    /// A chunk began with a different 4-byte tag than the grammar expects.
    BadMagic,
    /// The file-record terminator chunk declared a non-zero length.
    NonZeroTerminator,
    /// The package-type byte was none of the known variants.
    BadPackageType,
    /// A file-name offset pointed outside the string table stream, or the
    /// name was not NUL-terminated before the end of the stream.
    UnresolvableName,
    /// The package name was not valid UTF-8.
    InvalidUtf8,
    /// A declared chunk length placed the next chunk past `u64::MAX`.
    LengthOverflow,
}

} // verus!
