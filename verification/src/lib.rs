//! Decoder, verifier and extractor for Spike pinball-controller firmware
//! update archives.
//!
//! An archive is a chunk-based binary container, possibly split across
//! several numbered part files, holding named packages.  Each package
//! carries a manifest of files with offsets into a shared data section and
//! two integrity digests per file (MD5 and a keyed HMAC-SHA1).

pub mod cas;
pub mod codec;
pub mod digest;
pub mod error;
pub mod extract;
pub mod fs;
pub mod hexenc;
pub mod link;
pub mod model;
pub mod stream;
pub mod utf8;
pub mod verify;
