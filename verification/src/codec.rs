use vstd::prelude::*;

use crate::error::SpkError;
use crate::model::Archive;
use crate::model::ByteLen;
use crate::model::FileEntry;
use crate::model::FileEntryV;
use crate::model::Package;
use crate::model::PackageType;
use crate::model::PackageV;
use crate::model::SDAT;
use crate::model::SPK0;
use crate::model::entry_views;
use crate::model::package_views;
use crate::stream::SplitStream;
use crate::utf8::check_utf8;
use crate::utf8::is_valid_utf8;

verus! {

// ------------------------------------------------------------------
// Little-endian integer fields.
// ------------------------------------------------------------------

/// Value of a 2-byte little-endian field.
pub open spec fn le_u16(b: Seq<u8>) -> int {
    b[0] + 0x100 * b[1]
}

/// Value of a 4-byte little-endian field.
pub open spec fn le_u32(b: Seq<u8>) -> int {
    b[0] + 0x100 * b[1] + 0x10000 * b[2] + 0x1000000 * b[3]
}

/// Value of an 8-byte little-endian field.
pub open spec fn le_u64(b: Seq<u8>) -> int {
    b[0] + 0x100 * b[1] + 0x10000 * b[2] + 0x1000000 * b[3] + 0x1_0000_0000 * b[4]
        + 0x100_0000_0000 * b[5] + 0x1_0000_0000_0000 * b[6] + 0x100_0000_0000_0000 * b[7]
}

/// Reads a little-endian `u16` at the stream position.
pub fn read_u16(s: &mut SplitStream) -> (r: Result<u16, SpkError>)
    ensures
        final(s)@ == old(s)@,
        match r {
            Ok(v) => {
                &&& old(s).spec_pos() + 2 <= old(s)@.len()
                &&& v == le_u16(old(s)@.subrange(old(s).spec_pos() as int, old(s).spec_pos() + 2))
                &&& final(s).spec_pos() == old(s).spec_pos() + 2
            },
            Err(e) => {
                &&& e == SpkError::Truncated
                &&& old(s).spec_pos() + 2 > old(s)@.len()
                &&& final(s).spec_pos() == old(s).spec_pos()
            },
        },
{
    let b = match s.read_exact(2) {
        Ok(b) => b,
        Err(e) => {
            return Err(e);
        },
    };
    Ok(b[0] as u16 + b[1] as u16 * 0x100)
}

/// Reads a little-endian `u32` at the stream position.
pub fn read_u32(s: &mut SplitStream) -> (r: Result<u32, SpkError>)
    ensures
        final(s)@ == old(s)@,
        match r {
            Ok(v) => {
                &&& old(s).spec_pos() + 4 <= old(s)@.len()
                &&& v == le_u32(old(s)@.subrange(old(s).spec_pos() as int, old(s).spec_pos() + 4))
                &&& final(s).spec_pos() == old(s).spec_pos() + 4
            },
            Err(e) => {
                &&& e == SpkError::Truncated
                &&& old(s).spec_pos() + 4 > old(s)@.len()
                &&& final(s).spec_pos() == old(s).spec_pos()
            },
        },
{
    let b = match s.read_exact(4) {
        Ok(b) => b,
        Err(e) => {
            return Err(e);
        },
    };
    Ok(
        b[0] as u32 + b[1] as u32 * 0x100 + b[2] as u32 * 0x10000 + b[3] as u32
            * 0x1000000,
    )
}

/// Reads a little-endian `u64` at the stream position.
pub fn read_u64(s: &mut SplitStream) -> (r: Result<u64, SpkError>)
    ensures
        final(s)@ == old(s)@,
        match r {
            Ok(v) => {
                &&& old(s).spec_pos() + 8 <= old(s)@.len()
                &&& v == le_u64(old(s)@.subrange(old(s).spec_pos() as int, old(s).spec_pos() + 8))
                &&& final(s).spec_pos() == old(s).spec_pos() + 8
            },
            Err(e) => {
                &&& e == SpkError::Truncated
                &&& old(s).spec_pos() + 8 > old(s)@.len()
                &&& final(s).spec_pos() == old(s).spec_pos()
            },
        },
{
    let b = match s.read_exact(8) {
        Ok(b) => b,
        Err(e) => {
            return Err(e);
        },
    };
    Ok(
        b[0] as u64 + b[1] as u64 * 0x100 + b[2] as u64 * 0x10000 + b[3] as u64 * 0x1000000 + b[4]
            as u64 * 0x1_0000_0000 + b[5] as u64 * 0x100_0000_0000 + b[6] as u64
            * 0x1_0000_0000_0000 + b[7] as u64 * 0x100_0000_0000_0000,
    )
}

// ------------------------------------------------------------------
// Magic tags.
// ------------------------------------------------------------------

/// Tag of the top-level container chunk, `SPKS`.
pub open spec fn magic_spks() -> Seq<u8> {
    seq![0x53u8, 0x50u8, 0x4Bu8, 0x53u8]
}

/// Tag of a package container chunk, `SPK0`.
pub open spec fn magic_spk0() -> Seq<u8> {
    seq![0x53u8, 0x50u8, 0x4Bu8, 0x30u8]
}

/// Tag of a package index chunk, `SIDX`.
pub open spec fn magic_sidx() -> Seq<u8> {
    seq![0x53u8, 0x49u8, 0x44u8, 0x58u8]
}

/// Tag of the optional fixed-size chunk of unknown purpose, `SZ64`.
pub open spec fn magic_sz64() -> Seq<u8> {
    seq![0x53u8, 0x5Au8, 0x36u8, 0x34u8]
}

/// Tag of a string-table chunk, `STRS`.
pub open spec fn magic_strs() -> Seq<u8> {
    seq![0x53u8, 0x54u8, 0x52u8, 0x53u8]
}

/// Tag of a 32-bit file record, `FINF`.
pub open spec fn magic_finf() -> Seq<u8> {
    seq![0x46u8, 0x49u8, 0x4Eu8, 0x46u8]
}

/// Tag of a 64-bit file record, `FI64`.
pub open spec fn magic_fi64() -> Seq<u8> {
    seq![0x46u8, 0x49u8, 0x36u8, 0x34u8]
}

/// Tag of the file-record terminator chunk, `FEND`.
pub open spec fn magic_fend() -> Seq<u8> {
    seq![0x46u8, 0x45u8, 0x4Eu8, 0x44u8]
}

/// Tag of a data-section chunk, `SDAT`.
pub open spec fn magic_sdat() -> Seq<u8> {
    seq![0x53u8, 0x44u8, 0x41u8, 0x54u8]
}

/// Whether the four bytes at `p` are exactly the tag `m`.
pub open spec fn magic_at(v: Seq<u8>, p: int, m: Seq<u8>) -> bool {
    p + 4 <= v.len() && v.subrange(p, p + 4) == m
}

/// Compares a 4-byte tag that was read against an expected one.
fn tag_eq(t: &Vec<u8>, m0: u8, m1: u8, m2: u8, m3: u8) -> (r: bool)
    requires
        t@.len() == 4,
    ensures
        r == (t@ == seq![m0, m1, m2, m3]),
{
    let r = t[0] == m0 && t[1] == m1 && t[2] == m2 && t[3] == m3;
    proof {
        if r {
            assert(t@ =~= seq![m0, m1, m2, m3]);
        } else {
            assert(t@ != seq![m0, m1, m2, m3]);
        }
    }
    r
}

/// Reads a 4-byte chunk tag.
fn read_tag(s: &mut SplitStream) -> (r: Result<Vec<u8>, SpkError>)
    ensures
        final(s)@ == old(s)@,
        match r {
            Ok(t) => {
                &&& old(s).spec_pos() + 4 <= old(s)@.len()
                &&& t@ == old(s)@.subrange(old(s).spec_pos() as int, old(s).spec_pos() + 4)
                &&& t@.len() == 4
                &&& final(s).spec_pos() == old(s).spec_pos() + 4
            },
            Err(e) => {
                &&& e == SpkError::Truncated
                &&& old(s).spec_pos() + 4 > old(s)@.len()
                &&& final(s).spec_pos() == old(s).spec_pos()
            },
        },
{
    s.read_exact(4)
}

// ------------------------------------------------------------------
// Dual-encoded chunk lengths.
// ------------------------------------------------------------------

/// Parse of a length field in the dual encoding: a plain 32-bit value,
/// unless it equals the sentinel `0xFFFF_FFFF`, in which case an 8-byte
/// extended length follows.
pub open spec fn parse_byte_len(v: Seq<u8>, p: int) -> Result<(ByteLen, int), SpkError> {
    if p + 4 > v.len() {
        Err(SpkError::Truncated)
    } else if le_u32(v.subrange(p, p + 4)) == 0xFFFF_FFFF {
        if p + 12 > v.len() {
            Err(SpkError::Truncated)
        } else {
            Ok((ByteLen::New(le_u64(v.subrange(p + 4, p + 12)) as u64), p + 12))
        }
    } else {
        Ok((ByteLen::Old(le_u32(v.subrange(p, p + 4)) as u32), p + 4))
    }
}

/// Reads a dual-encoded chunk length.  On failure the position is left
/// where it was.
pub fn decode_byte_len(s: &mut SplitStream) -> (r: Result<ByteLen, SpkError>)
    ensures
        final(s)@ == old(s)@,
        match r {
            Ok(bl) => parse_byte_len(old(s)@, old(s).spec_pos() as int) == Ok::<_, SpkError>(
                (bl, final(s).spec_pos() as int),
            ),
            Err(e) => {
                &&& parse_byte_len(old(s)@, old(s).spec_pos() as int) == Err::<(ByteLen, int), _>(e)
                &&& final(s).spec_pos() == old(s).spec_pos()
            },
        },
{
    let p0 = s.position();
    let head = match read_u32(s) {
        Ok(v) => v,
        Err(e) => {
            return Err(e);
        },
    };
    if head == 0xFFFF_FFFF {
        match read_u64(s) {
            Ok(v) => Ok(ByteLen::New(v)),
            Err(e) => {
                s.seek(p0);
                Err(e)
            },
        }
    } else {
        Ok(ByteLen::Old(head))
    }
}

// ------------------------------------------------------------------
// NUL-terminated names.
// ------------------------------------------------------------------

/// Position of the first NUL byte at or after `q`, if there is one.
pub open spec fn find_nul(v: Seq<u8>, q: int) -> Option<int>
    decreases v.len() - q when 0 <= q <= v.len()
{
    if q < 0 || q >= v.len() {
        None
    } else if v[q] == 0 {
        Some(q)
    } else {
        find_nul(v, q + 1)
    }
}

proof fn lemma_find_nul_some(v: Seq<u8>, q: int, i: int)
    requires
        0 <= q <= i < v.len(),
        v[i] == 0,
        forall|j: int| q <= j < i ==> v[j] != 0,
    ensures
        find_nul(v, q) == Some(i),
    decreases i - q,
{
    if q < i {
        lemma_find_nul_some(v, q + 1, i);
    }
}

proof fn lemma_find_nul_none(v: Seq<u8>, q: int)
    requires
        0 <= q <= v.len(),
        forall|j: int| q <= j < v.len() ==> v[j] != 0,
    ensures
        find_nul(v, q) == None::<int>,
    decreases v.len() - q,
{
    if q < v.len() {
        lemma_find_nul_none(v, q + 1);
    }
}

/// The NUL-terminated byte string starting at offset `q` of the stream,
/// or an error where the offset lies outside the stream or no NUL follows.
pub open spec fn name_at(v: Seq<u8>, q: int) -> Result<Seq<u8>, SpkError> {
    if q > v.len() {
        Err(SpkError::UnresolvableName)
    } else {
        match find_nul(v, q) {
            Some(i) => Ok(v.subrange(q, i)),
            None => Err(SpkError::UnresolvableName),
        }
    }
}

/// Reads the NUL-terminated name at absolute offset `at`, without
/// touching the stream position: name resolution must not disturb the
/// sequential chunk decoding around it.
pub fn read_name_at(s: &SplitStream, at: u64) -> (r: Result<Vec<u8>, SpkError>)
    ensures
        match r {
            Ok(b) => name_at(s@, at as int) == Ok::<_, SpkError>(b@),
            Err(e) => name_at(s@, at as int) == Err::<Seq<u8>, _>(e),
        },
{
    let total = s.len();
    if at > total as u64 {
        return Err(SpkError::UnresolvableName);
    }
    let mut out: Vec<u8> = Vec::new();
    let mut i: usize = at as usize;
    while i < total
        invariant
            at <= i <= total,
            total == s@.len(),
            out@ == s@.subrange(at as int, i as int),
            forall|j: int| at <= j < i ==> s@[j] != 0,
        decreases total - i,
    {
        let b = match s.read_at(i as u64, 1) {
            Ok(b) => b,
            Err(_) => {
                proof {
                    assert(false);
                }
                return Err(SpkError::UnresolvableName);
            },
        };
        let c = b[0];
        proof {
            assert(b@[0] == s@.subrange(i as int, i + 1)[0]);
            assert(c == s@[i as int]);
        }
        if c == 0 {
            proof {
                lemma_find_nul_some(s@, at as int, i as int);
            }
            return Ok(out);
        }
        out.push(c);
        proof {
            assert(s@.subrange(at as int, i + 1) =~= s@.subrange(at as int, i as int).push(
                s@[i as int],
            ));
        }
        i = i + 1;
    }
    proof {
        lemma_find_nul_none(s@, at as int);
    }
    Err(SpkError::UnresolvableName)
}

/// The prefix of a fixed-width NUL-padded text up to its first NUL, or
/// the whole text where no byte is NUL.
pub open spec fn trim_nul(b: Seq<u8>) -> Seq<u8> {
    match find_nul(b, 0) {
        Some(i) => b.subrange(0, i),
        None => b,
    }
}

/// Trims a fixed-width NUL-padded text at its first NUL.
pub fn trim_at_nul(b: &Vec<u8>) -> (r: Vec<u8>)
    ensures
        r@ == trim_nul(b@),
{
    let n = b.len();
    let mut out: Vec<u8> = Vec::new();
    let mut i: usize = 0;
    while i < n
        invariant
            i <= n,
            n == b@.len(),
            out@ == b@.subrange(0, i as int),
            forall|j: int| 0 <= j < i ==> b@[j] != 0,
        decreases n - i,
    {
        let c = b[i];
        if c == 0 {
            proof {
                lemma_find_nul_some(b@, 0, i as int);
            }
            return out;
        }
        out.push(c);
        proof {
            assert(b@.subrange(0, i + 1) =~= b@.subrange(0, i as int).push(b@[i as int]));
        }
        i = i + 1;
    }
    proof {
        lemma_find_nul_none(b@, 0);
        assert(b@.subrange(0, n as int) =~= b@);
    }
    out
}


// ------------------------------------------------------------------
// Top-level container and package index chunks.
// ------------------------------------------------------------------

/// Parse of the top-level `SPKS` container header: tag, dual-encoded
/// byte length, then the number of package chunks that follow.
pub open spec fn parse_spks(v: Seq<u8>, p: int) -> Result<(u32, int), SpkError> {
    if p + 4 > v.len() {
        Err(SpkError::Truncated)
    } else if v.subrange(p, p + 4) != magic_spks() {
        Err(SpkError::BadMagic)
    } else {
        match parse_byte_len(v, p + 4) {
            Err(e) => Err(e),
            Ok((_bl, q)) => {
                if q + 4 > v.len() {
                    Err(SpkError::Truncated)
                } else {
                    Ok((le_u32(v.subrange(q, q + 4)) as u32, q + 4))
                }
            },
        }
    }
}

/// Decodes the top-level container header, returning the declared number
/// of packages.
pub fn decode_spks(s: &mut SplitStream) -> (r: Result<u32, SpkError>)
    ensures
        final(s)@ == old(s)@,
        match r {
            Ok(count) => parse_spks(old(s)@, old(s).spec_pos() as int) == Ok::<_, SpkError>(
                (count, final(s).spec_pos() as int),
            ),
            Err(e) => parse_spks(old(s)@, old(s).spec_pos() as int) == Err::<(u32, int), _>(e),
        },
{
    let tag = match read_tag(s) {
        Ok(t) => t,
        Err(e) => {
            return Err(e);
        },
    };
    if !tag_eq(&tag, 0x53, 0x50, 0x4B, 0x53) {
        return Err(SpkError::BadMagic);
    }
    let _bl = match decode_byte_len(s) {
        Ok(bl) => bl,
        Err(e) => {
            return Err(e);
        },
    };
    match read_u32(s) {
        Ok(count) => Ok(count),
        Err(e) => Err(e),
    }
}

/// Mathematical shape of a package-index chunk.
pub struct SidxV {
    pub name: Seq<u8>,
    pub major: u8,
    pub minor: u8,
    pub patch: u8,
    pub ptype: PackageType,
}

/// Parse of a package-index `SIDX` chunk: tag, dual-encoded length, a
/// 32-byte NUL-padded name, three version bytes, one package-type byte
/// and 12 reserved bytes.
pub open spec fn parse_sidx(v: Seq<u8>, p: int) -> Result<(SidxV, int), SpkError> {
    if p + 4 > v.len() {
        Err(SpkError::Truncated)
    } else if v.subrange(p, p + 4) != magic_sidx() {
        Err(SpkError::BadMagic)
    } else {
        match parse_byte_len(v, p + 4) {
            Err(e) => Err(e),
            Ok((_bl, q)) => {
                if q + 36 > v.len() {
                    Err(SpkError::Truncated)
                } else {
                    match PackageType::spec_from_code(v[q + 35]) {
                        None => Err(SpkError::BadPackageType),
                        Some(pt) => {
                            if q + 48 > v.len() {
                                Err(SpkError::Truncated)
                            } else {
                                Ok(
                                    (
                                        SidxV {
                                            name: v.subrange(q, q + 32),
                                            major: v[q + 32],
                                            minor: v[q + 33],
                                            patch: v[q + 34],
                                            ptype: pt,
                                        },
                                        q + 48,
                                    ),
                                )
                            }
                        },
                    }
                }
            },
        }
    }
}

/// Decodes a package-index chunk into its raw name and header fields.
pub fn decode_sidx(s: &mut SplitStream) -> (r: Result<
    (Vec<u8>, u8, u8, u8, PackageType),
    SpkError,
>)
    ensures
        final(s)@ == old(s)@,
        match r {
            Ok(t) => parse_sidx(old(s)@, old(s).spec_pos() as int) == Ok::<_, SpkError>(
                (
                    SidxV { name: t.0@, major: t.1, minor: t.2, patch: t.3, ptype: t.4 },
                    final(s).spec_pos() as int,
                ),
            ),
            Err(e) => parse_sidx(old(s)@, old(s).spec_pos() as int) == Err::<(SidxV, int), _>(e),
        },
{
    let tag = match read_tag(s) {
        Ok(t) => t,
        Err(e) => {
            return Err(e);
        },
    };
    if !tag_eq(&tag, 0x53, 0x49, 0x44, 0x58) {
        return Err(SpkError::BadMagic);
    }
    let _bl = match decode_byte_len(s) {
        Ok(bl) => bl,
        Err(e) => {
            return Err(e);
        },
    };
    let name = match s.read_exact(32) {
        Ok(b) => b,
        Err(e) => {
            return Err(e);
        },
    };
    let vers = match s.read_exact(3) {
        Ok(b) => b,
        Err(e) => {
            return Err(e);
        },
    };
    let tb = match s.read_exact(1) {
        Ok(b) => b,
        Err(e) => {
            return Err(e);
        },
    };
    let pt = match PackageType::from_code(tb[0]) {
        Some(pt) => pt,
        None => {
            return Err(SpkError::BadPackageType);
        },
    };
    let _reserved = match s.read_exact(12) {
        Ok(b) => b,
        Err(e) => {
            return Err(e);
        },
    };
    Ok((name, vers[0], vers[1], vers[2], pt))
}

/// Parse of a string-table `STRS` chunk: tag, a plain 4-byte length, then
/// that many bytes of NUL-terminated strings.  Yields the absolute offset
/// that file-name offsets are relative to, and the position after the
/// table.
pub open spec fn parse_strs(v: Seq<u8>, p: int) -> Result<(int, int), SpkError> {
    if p + 4 > v.len() {
        Err(SpkError::Truncated)
    } else if v.subrange(p, p + 4) != magic_strs() {
        Err(SpkError::BadMagic)
    } else if p + 8 > v.len() {
        Err(SpkError::Truncated)
    } else {
        let l = le_u32(v.subrange(p + 4, p + 8));
        if p + 8 + l > v.len() {
            Err(SpkError::Truncated)
        } else {
            Ok((p + 8, p + 8 + l))
        }
    }
}

/// Decodes a string-table chunk, skipping its contents.  File names are
/// resolved later, straight from the stream, relative to the returned
/// base offset.
pub fn decode_strs(s: &mut SplitStream) -> (r: Result<u64, SpkError>)
    ensures
        final(s)@ == old(s)@,
        match r {
            Ok(sbase) => {
                &&& parse_strs(old(s)@, old(s).spec_pos() as int) == Ok::<_, SpkError>(
                    (sbase as int, final(s).spec_pos() as int),
                )
                &&& final(s).spec_pos() <= old(s)@.len()
            },
            Err(e) => parse_strs(old(s)@, old(s).spec_pos() as int) == Err::<(int, int), _>(e),
        },
{
    let total = s.len();
    let p0 = s.position();
    let tag = match read_tag(s) {
        Ok(t) => t,
        Err(e) => {
            return Err(e);
        },
    };
    if !tag_eq(&tag, 0x53, 0x54, 0x52, 0x53) {
        return Err(SpkError::BadMagic);
    }
    let l = match read_u32(s) {
        Ok(l) => l,
        Err(e) => {
            return Err(e);
        },
    };
    let sbase = p0 + 8;
    if l as u64 > total as u64 - sbase {
        return Err(SpkError::Truncated);
    }
    s.seek(sbase + l as u64);
    Ok(sbase)
}

// ------------------------------------------------------------------
// File records.
// ------------------------------------------------------------------


/// Parse of a 32-bit `FINF` file record whose tag has already matched at
/// `p`.  The name offset is resolved against `sbase`, the string-table
/// base, before the remaining fields are read.
pub open spec fn parse_file_entry_32(v: Seq<u8>, p: int, sbase: int) -> Result<
    (FileEntryV, int),
    SpkError,
> {
    if p + 12 > v.len() {
        Err(SpkError::Truncated)
    } else {
        let name_off = le_u32(v.subrange(p + 8, p + 12));
        match name_at(v, sbase + name_off) {
            Err(e) => Err(e),
            Ok(nm) => {
                if p + 68 > v.len() {
                    Err(SpkError::Truncated)
                } else {
                    Ok(
                        (
                            FileEntryV {
                                name: nm,
                                file_size: le_u32(v.subrange(p + 12, p + 16)) as u64,
                                data_offset: le_u32(v.subrange(p + 16, p + 20)) as u64,
                                data_size: le_u32(v.subrange(p + 20, p + 24)) as u64,
                                mode: le_u16(v.subrange(p + 24, p + 26)) as u16,
                                reserved: v.subrange(p + 26, p + 29),
                                hmac: v.subrange(p + 29, p + 49),
                                md5: v.subrange(p + 49, p + 65),
                            },
                            p + 68,
                        ),
                    )
                }
            },
        }
    }
}

/// Parse of a 64-bit `FI64` file record whose tag has already matched at
/// `p`.
pub open spec fn parse_file_entry_64(v: Seq<u8>, p: int, sbase: int) -> Result<
    (FileEntryV, int),
    SpkError,
> {
    if p + 16 > v.len() {
        Err(SpkError::Truncated)
    } else {
        let name_off = le_u64(v.subrange(p + 8, p + 16));
        match name_at(v, sbase + name_off) {
            Err(e) => Err(e),
            Ok(nm) => {
                if p + 88 > v.len() {
                    Err(SpkError::Truncated)
                } else {
                    Ok(
                        (
                            FileEntryV {
                                name: nm,
                                file_size: le_u64(v.subrange(p + 16, p + 24)) as u64,
                                data_offset: le_u64(v.subrange(p + 24, p + 32)) as u64,
                                data_size: le_u64(v.subrange(p + 32, p + 40)) as u64,
                                mode: le_u16(v.subrange(p + 40, p + 42)) as u16,
                                reserved: v.subrange(p + 42, p + 45),
                                hmac: v.subrange(p + 45, p + 65),
                                md5: v.subrange(p + 65, p + 81),
                            },
                            p + 88,
                        ),
                    )
                }
            },
        }
    }
}

/// Decodes a 32-bit file record, normalizing it to the 64-bit in-memory
/// shape.
pub fn decode_file_entry_32(s: &mut SplitStream, sbase: u64) -> (r: Result<FileEntry, SpkError>)
    requires
        old(s).spec_pos() + 4 <= old(s)@.len(),
        old(s)@.subrange(old(s).spec_pos() as int, old(s).spec_pos() + 4) == magic_finf(),
    ensures
        final(s)@ == old(s)@,
        match r {
            Ok(e) => {
                &&& parse_file_entry_32(old(s)@, old(s).spec_pos() as int, sbase as int)
                    == Ok::<_, SpkError>((e@, final(s).spec_pos() as int))
                &&& e@.wf()
            },
            Err(err) => parse_file_entry_32(old(s)@, old(s).spec_pos() as int, sbase as int)
                == Err::<(FileEntryV, int), _>(err),
        },
{
    let total = s.len();
    let _tag = match read_tag(s) {
        Ok(t) => t,
        Err(e) => {
            return Err(e);
        },
    };
    let _bl = match read_u32(s) {
        Ok(x) => x,
        Err(e) => {
            return Err(e);
        },
    };
    let name_off = match read_u32(s) {
        Ok(x) => x,
        Err(e) => {
            return Err(e);
        },
    };
    if name_off as u64 > u64::MAX - sbase {
        proof {
            assert(old(s)@.len() <= usize::MAX);
        }
        return Err(SpkError::UnresolvableName);
    }
    let name = match read_name_at(s, sbase + name_off as u64) {
        Ok(b) => b,
        Err(e) => {
            return Err(e);
        },
    };
    let file_size = match read_u32(s) {
        Ok(x) => x,
        Err(e) => {
            return Err(e);
        },
    };
    let data_offset = match read_u32(s) {
        Ok(x) => x,
        Err(e) => {
            return Err(e);
        },
    };
    let data_size = match read_u32(s) {
        Ok(x) => x,
        Err(e) => {
            return Err(e);
        },
    };
    let mode = match read_u16(s) {
        Ok(x) => x,
        Err(e) => {
            return Err(e);
        },
    };
    let reserved = match s.read_exact(3) {
        Ok(b) => b,
        Err(e) => {
            return Err(e);
        },
    };
    let hmac = match s.read_exact(20) {
        Ok(b) => b,
        Err(e) => {
            return Err(e);
        },
    };
    let md5 = match s.read_exact(16) {
        Ok(b) => b,
        Err(e) => {
            return Err(e);
        },
    };
    let _pad = match s.read_exact(3) {
        Ok(b) => b,
        Err(e) => {
            return Err(e);
        },
    };
    Ok(
        FileEntry {
            name,
            file_size: file_size as u64,
            data_offset: data_offset as u64,
            data_size: data_size as u64,
            mode,
            reserved,
            hmac,
            md5,
        },
    )
}

/// Decodes a 64-bit file record.
pub fn decode_file_entry_64(s: &mut SplitStream, sbase: u64) -> (r: Result<FileEntry, SpkError>)
    requires
        old(s).spec_pos() + 4 <= old(s)@.len(),
        old(s)@.subrange(old(s).spec_pos() as int, old(s).spec_pos() + 4) == magic_fi64(),
    ensures
        final(s)@ == old(s)@,
        match r {
            Ok(e) => {
                &&& parse_file_entry_64(old(s)@, old(s).spec_pos() as int, sbase as int)
                    == Ok::<_, SpkError>((e@, final(s).spec_pos() as int))
                &&& e@.wf()
            },
            Err(err) => parse_file_entry_64(old(s)@, old(s).spec_pos() as int, sbase as int)
                == Err::<(FileEntryV, int), _>(err),
        },
{
    let total = s.len();
    let _tag = match read_tag(s) {
        Ok(t) => t,
        Err(e) => {
            return Err(e);
        },
    };
    let _bl = match read_u32(s) {
        Ok(x) => x,
        Err(e) => {
            return Err(e);
        },
    };
    let name_off = match read_u64(s) {
        Ok(x) => x,
        Err(e) => {
            return Err(e);
        },
    };
    if name_off > u64::MAX - sbase {
        proof {
            assert(old(s)@.len() <= usize::MAX);
        }
        return Err(SpkError::UnresolvableName);
    }
    let name = match read_name_at(s, sbase + name_off) {
        Ok(b) => b,
        Err(e) => {
            return Err(e);
        },
    };
    let file_size = match read_u64(s) {
        Ok(x) => x,
        Err(e) => {
            return Err(e);
        },
    };
    let data_offset = match read_u64(s) {
        Ok(x) => x,
        Err(e) => {
            return Err(e);
        },
    };
    let data_size = match read_u64(s) {
        Ok(x) => x,
        Err(e) => {
            return Err(e);
        },
    };
    let mode = match read_u16(s) {
        Ok(x) => x,
        Err(e) => {
            return Err(e);
        },
    };
    let reserved = match s.read_exact(3) {
        Ok(b) => b,
        Err(e) => {
            return Err(e);
        },
    };
    let hmac = match s.read_exact(20) {
        Ok(b) => b,
        Err(e) => {
            return Err(e);
        },
    };
    let md5 = match s.read_exact(16) {
        Ok(b) => b,
        Err(e) => {
            return Err(e);
        },
    };
    let _pad = match s.read_exact(7) {
        Ok(b) => b,
        Err(e) => {
            return Err(e);
        },
    };
    Ok(
        FileEntry {
            name,
            file_size,
            data_offset,
            data_size,
            mode,
            reserved,
            hmac,
            md5,
        },
    )
}


/// Parse of the run of file records after the string table: `FINF` or
/// `FI64` records in any mix, terminated by a `FEND` chunk whose declared
/// length must be exactly zero.
pub open spec fn parse_file_entries(v: Seq<u8>, p: int, sbase: int) -> Result<
    (Seq<FileEntryV>, int),
    SpkError,
>
    decreases v.len() - p when 0 <= p <= v.len()
{
    if p + 4 > v.len() {
        Err(SpkError::Truncated)
    } else {
        let tag = v.subrange(p, p + 4);
        if tag == magic_fend() {
            if p + 8 > v.len() {
                Err(SpkError::Truncated)
            } else if le_u32(v.subrange(p + 4, p + 8)) != 0 {
                Err(SpkError::NonZeroTerminator)
            } else {
                Ok((Seq::empty(), p + 8))
            }
        } else if tag == magic_finf() {
            match parse_file_entry_32(v, p, sbase) {
                Err(e) => Err(e),
                Ok((e0, q)) => match parse_file_entries(v, q, sbase) {
                    Err(e) => Err(e),
                    Ok((rest, f)) => Ok((seq![e0] + rest, f)),
                },
            }
        } else if tag == magic_fi64() {
            match parse_file_entry_64(v, p, sbase) {
                Err(e) => Err(e),
                Ok((e0, q)) => match parse_file_entries(v, q, sbase) {
                    Err(e) => Err(e),
                    Ok((rest, f)) => Ok((seq![e0] + rest, f)),
                },
            }
        } else {
            Err(SpkError::BadMagic)
        }
    }
}

/// Every entry of a record list is well-formed.
pub open spec fn entries_wf(es: Seq<FileEntryV>) -> bool {
    forall|i: int| 0 <= i < es.len() ==> (#[trigger] es[i]).wf()
}

/// Relation carried while decoding a record list: the parse of the whole
/// list equals the records already decoded followed by the parse of what
/// remains, and a failure of the remainder is a failure of the whole.
pub open spec fn entries_decode_inv(
    v: Seq<u8>,
    p_start: int,
    cur: int,
    done: Seq<FileEntryV>,
    sbase: int,
) -> bool {
    match parse_file_entries(v, cur, sbase) {
        Ok((rest, f)) => parse_file_entries(v, p_start, sbase) == Ok::<_, SpkError>(
            (done + rest, f),
        ),
        Err(e) => parse_file_entries(v, p_start, sbase) == Err::<(Seq<FileEntryV>, int), _>(e),
    }
}

proof fn lemma_entries_step(
    v: Seq<u8>,
    p_start: int,
    p: int,
    sbase: int,
    done: Seq<FileEntryV>,
    e: FileEntryV,
    q: int,
)
    requires
        0 <= p,
        p + 4 <= v.len(),
        v.subrange(p, p + 4) == magic_finf() || v.subrange(p, p + 4) == magic_fi64(),
        v.subrange(p, p + 4) == magic_finf() ==> parse_file_entry_32(v, p, sbase)
            == Ok::<_, SpkError>((e, q)),
        v.subrange(p, p + 4) == magic_fi64() ==> parse_file_entry_64(v, p, sbase)
            == Ok::<_, SpkError>((e, q)),
        entries_decode_inv(v, p_start, p, done, sbase),
    ensures
        entries_decode_inv(v, p_start, q, done.push(e), sbase),
{
    let tag = v.subrange(p, p + 4);
    assert(magic_finf()[2] != magic_fi64()[2]);
    assert(magic_finf()[1] != magic_fend()[1]);
    assert(magic_fi64()[1] != magic_fend()[1]);
    match parse_file_entries(v, q, sbase) {
        Ok((rest, f)) => {
            assert(parse_file_entries(v, p, sbase) == Ok::<_, SpkError>((seq![e] + rest, f)));
            assert(done.push(e) + rest =~= done + (seq![e] + rest));
        },
        Err(err) => {
            assert(parse_file_entries(v, p, sbase) == Err::<(Seq<FileEntryV>, int), _>(err));
        },
    }
}

proof fn lemma_entries_fend(v: Seq<u8>, p_start: int, p: int, sbase: int, done: Seq<FileEntryV>)
    requires
        0 <= p,
        p + 8 <= v.len(),
        v.subrange(p, p + 4) == magic_fend(),
        le_u32(v.subrange(p + 4, p + 8)) == 0,
        entries_decode_inv(v, p_start, p, done, sbase),
    ensures
        parse_file_entries(v, p_start, sbase) == Ok::<_, SpkError>((done, p + 8)),
{
    assert(parse_file_entries(v, p, sbase) == Ok::<_, SpkError>(
        (Seq::<FileEntryV>::empty(), p + 8),
    ));
    assert(done + Seq::<FileEntryV>::empty() =~= done);
}

/// Decodes the file records of one package up to and including the
/// terminator chunk.
pub fn decode_file_entries(s: &mut SplitStream, sbase: u64) -> (r: Result<
    Vec<FileEntry>,
    SpkError,
>)
    requires
        old(s).spec_pos() <= old(s)@.len(),
    ensures
        final(s)@ == old(s)@,
        match r {
            Ok(es) => {
                &&& parse_file_entries(old(s)@, old(s).spec_pos() as int, sbase as int)
                    == Ok::<_, SpkError>((entry_views(es@), final(s).spec_pos() as int))
                &&& entries_wf(entry_views(es@))
            },
            Err(e) => parse_file_entries(old(s)@, old(s).spec_pos() as int, sbase as int)
                == Err::<(Seq<FileEntryV>, int), _>(e),
        },
{
    let ghost v = s@;
    let ghost p_start = s.spec_pos() as int;
    let mut files: Vec<FileEntry> = Vec::new();
    proof {
        assert(entry_views(files@) =~= Seq::<FileEntryV>::empty());
    }
    loop
        invariant
            s@ == v,
            v == old(s)@,
            p_start == old(s).spec_pos() as int,
            s.spec_pos() <= v.len(),
            0 <= p_start <= v.len(),
            entries_wf(entry_views(files@)),
            entries_decode_inv(v, p_start, s.spec_pos() as int, entry_views(files@), sbase as int),
        decreases v.len() - s.spec_pos(),
    {
        let ghost p = s.spec_pos() as int;
        let pexec = s.position();
        let tag = match s.read_at(pexec, 4) {
            Ok(t) => t,
            Err(_) => {
                return Err(SpkError::Truncated);
            },
        };
        if tag_eq(&tag, 0x46, 0x45, 0x4E, 0x44) {
            proof {
                assert(v.subrange(p, p + 4) == magic_fend());
            }
            let _t = match read_tag(s) {
                Ok(t) => t,
                Err(e) => {
                    return Err(e);
                },
            };
            let l = match read_u32(s) {
                Ok(l) => l,
                Err(e) => {
                    return Err(e);
                },
            };
            if l != 0 {
                return Err(SpkError::NonZeroTerminator);
            }
            proof {
                lemma_entries_fend(v, p_start, p, sbase as int, entry_views(files@));
            }
            return Ok(files);
        } else if tag_eq(&tag, 0x46, 0x49, 0x4E, 0x46) {
            proof {
                assert(v.subrange(p, p + 4) == magic_finf());
            }
            let e = match decode_file_entry_32(s, sbase) {
                Ok(e) => e,
                Err(err) => {
                    return Err(err);
                },
            };
            proof {
                lemma_entries_step(
                    v,
                    p_start,
                    p,
                    sbase as int,
                    entry_views(files@),
                    e@,
                    s.spec_pos() as int,
                );
                assert(entry_views(files@.push(e)) =~= entry_views(files@).push(e@));
            }
            files.push(e);
        } else if tag_eq(&tag, 0x46, 0x49, 0x36, 0x34) {
            proof {
                assert(v.subrange(p, p + 4) == magic_fi64());
                assert(magic_fi64()[2] != magic_finf()[2]);
            }
            let e = match decode_file_entry_64(s, sbase) {
                Ok(e) => e,
                Err(err) => {
                    return Err(err);
                },
            };
            proof {
                lemma_entries_step(
                    v,
                    p_start,
                    p,
                    sbase as int,
                    entry_views(files@),
                    e@,
                    s.spec_pos() as int,
                );
                assert(entry_views(files@.push(e)) =~= entry_views(files@).push(e@));
            }
            files.push(e);
        } else {
            proof {
                assert(v.subrange(p, p + 4) != magic_fend());
                assert(v.subrange(p, p + 4) != magic_finf());
                assert(v.subrange(p, p + 4) != magic_fi64());
            }
            return Err(SpkError::BadMagic);
        }
    }
}


// ------------------------------------------------------------------
// Packages and the whole archive.
// ------------------------------------------------------------------


/// Parse of one whole package: its `SPK0` container marker, `SIDX` index,
/// an optional `SZ64` chunk (skipped only when wholly present), the
/// string table, the file records with their terminator, and the `SDAT`
/// data-section marker.  Yields the package and the position of the next
/// package container: the `SPK0` position plus its header size plus its
/// declared byte length, which skips the raw data section.
pub open spec fn parse_package(v: Seq<u8>, p: int) -> Result<(PackageV, int), SpkError> {
    if p + 4 > v.len() {
        Err(SpkError::Truncated)
    } else if v.subrange(p, p + 4) != magic_spk0() {
        Err(SpkError::BadMagic)
    } else {
        match parse_byte_len(v, p + 4) {
            Err(e) => Err(e),
            Ok((bl0, q1)) => match parse_sidx(v, q1) {
                Err(e) => Err(e),
                Ok((sidx, q3)) => {
                    let name = trim_nul(sidx.name);
                    if !is_valid_utf8(name) {
                        Err(SpkError::InvalidUtf8)
                    } else {
                        let q4 = if magic_at(v, q3, magic_sz64()) && q3 + 16 <= v.len() {
                            q3 + 16
                        } else {
                            q3
                        };
                        match parse_strs(v, q4) {
                            Err(e) => Err(e),
                            Ok((sbase, q5)) => match parse_file_entries(v, q5, sbase) {
                                Err(e) => Err(e),
                                Ok((files, q6)) => {
                                    if q6 + 4 > v.len() {
                                        Err(SpkError::Truncated)
                                    } else if v.subrange(q6, q6 + 4) != magic_sdat() {
                                        Err(SpkError::BadMagic)
                                    } else {
                                        match parse_byte_len(v, q6 + 4) {
                                            Err(e) => Err(e),
                                            Ok((bls, _q7)) => {
                                                let data_start = q6 + bls.spec_header_size();
                                                let next = p + bl0.spec_header_size()
                                                    + bl0.spec_byte_len();
                                                if next > u64::MAX {
                                                    Err(SpkError::LengthOverflow)
                                                } else {
                                                    Ok(
                                                        (
                                                            PackageV {
                                                                name,
                                                                major_version: sidx.major,
                                                                minor_version: sidx.minor,
                                                                patch_version: sidx.patch,
                                                                package_type: sidx.ptype,
                                                                files,
                                                                data_start: data_start as u64,
                                                                data_size: bls.spec_byte_len(),
                                                            },
                                                            next,
                                                        ),
                                                    )
                                                }
                                            },
                                        }
                                    }
                                },
                            },
                        }
                    }
                },
            },
        }
    }
}

/// Decodes one package and leaves the position at the next package
/// container.
#[verifier::rlimit(100)]
pub fn decode_package(s: &mut SplitStream) -> (r: Result<Package, SpkError>)
    ensures
        final(s)@ == old(s)@,
        match r {
            Ok(pkg) => {
                &&& parse_package(old(s)@, old(s).spec_pos() as int) == Ok::<_, SpkError>(
                    (pkg@, final(s).spec_pos() as int),
                )
                &&& pkg@.wf()
            },
            Err(e) => parse_package(old(s)@, old(s).spec_pos() as int) == Err::<
                (PackageV, int),
                _,
            >(e),
        },
{
    let total = s.len();
    let p0 = s.position();
    let tag = match read_tag(s) {
        Ok(t) => t,
        Err(e) => {
            return Err(e);
        },
    };
    if !tag_eq(&tag, 0x53, 0x50, 0x4B, 0x30) {
        return Err(SpkError::BadMagic);
    }
    let bl0 = match decode_byte_len(s) {
        Ok(b) => b,
        Err(e) => {
            return Err(e);
        },
    };
    let sidx = match decode_sidx(s) {
        Ok(x) => x,
        Err(e) => {
            return Err(e);
        },
    };
    let (raw_name, major, minor, patch, ptype) = sidx;
    let name = trim_at_nul(&raw_name);
    if !check_utf8(&name) {
        return Err(SpkError::InvalidUtf8);
    }
    let p3 = s.position();
    let skip_sz = match s.read_at(p3, 4) {
        Ok(t) => tag_eq(&t, 0x53, 0x5A, 0x36, 0x34),
        Err(_) => false,
    };
    if skip_sz && total as u64 - p3 >= 16 {
        s.seek(p3 + 16);
    }
    let sbase = match decode_strs(s) {
        Ok(x) => x,
        Err(e) => {
            return Err(e);
        },
    };
    let files = match decode_file_entries(s, sbase) {
        Ok(x) => x,
        Err(e) => {
            return Err(e);
        },
    };
    let q6 = s.position();
    let tag2 = match read_tag(s) {
        Ok(t) => t,
        Err(e) => {
            return Err(e);
        },
    };
    if !tag_eq(&tag2, 0x53, 0x44, 0x41, 0x54) {
        return Err(SpkError::BadMagic);
    }
    let bls = match decode_byte_len(s) {
        Ok(b) => b,
        Err(e) => {
            return Err(e);
        },
    };
    let sdat = SDAT { byte_len: bls };
    proof {
        assert(q6 + sdat.byte_len.spec_header_size() <= total);
    }
    let data_start = q6 + sdat.header_size();
    let spk0 = SPK0 { byte_len: bl0 };
    let hs0 = spk0.header_size();
    if hs0 > u64::MAX - p0 {
        return Err(SpkError::LengthOverflow);
    }
    let base = p0 + hs0;
    let blv = spk0.byte_len();
    if blv > u64::MAX - base {
        return Err(SpkError::LengthOverflow);
    }
    let next = base + blv;
    s.seek(next);
    Ok(
        Package {
            name,
            major_version: major,
            minor_version: minor,
            patch_version: patch,
            package_type: ptype,
            files,
            data_start,
            data_size: bls.byte_len(),
        },
    )
}

/// Parse of `n` consecutive packages starting at `p`.
pub open spec fn parse_packages(v: Seq<u8>, p: int, n: int) -> Result<
    (Seq<PackageV>, int),
    SpkError,
>
    decreases n when n >= 0
{
    if n <= 0 {
        Ok((Seq::empty(), p))
    } else {
        match parse_package(v, p) {
            Err(e) => Err(e),
            Ok((pkg, q)) => match parse_packages(v, q, n - 1) {
                Err(e) => Err(e),
                Ok((rest, f)) => Ok((seq![pkg] + rest, f)),
            },
        }
    }
}

/// Parse of a whole archive: the `SPKS` container header, then exactly as
/// many packages as it declares.  Decoding is all-or-nothing: any failure
/// anywhere loses every package.
pub open spec fn parse_archive(v: Seq<u8>) -> Result<Seq<PackageV>, SpkError> {
    match parse_spks(v, 0) {
        Err(e) => Err(e),
        Ok((count, q)) => match parse_packages(v, q, count as int) {
            Err(e) => Err(e),
            Ok((pkgs, _f)) => Ok(pkgs),
        },
    }
}

/// Every package of a list is well-formed.
pub open spec fn packages_wf(ps: Seq<PackageV>) -> bool {
    forall|i: int| 0 <= i < ps.len() ==> (#[trigger] ps[i]).wf()
}

/// Relation carried while decoding the package list, like
/// `entries_decode_inv`.
pub open spec fn packages_decode_inv(
    v: Seq<u8>,
    q0: int,
    cur: int,
    n_left: int,
    total: int,
    done: Seq<PackageV>,
) -> bool {
    match parse_packages(v, cur, n_left) {
        Ok((rest, f)) => parse_packages(v, q0, total) == Ok::<_, SpkError>((done + rest, f)),
        Err(e) => parse_packages(v, q0, total) == Err::<(Seq<PackageV>, int), _>(e),
    }
}

proof fn lemma_packages_step(
    v: Seq<u8>,
    q0: int,
    cur: int,
    n_left: int,
    total: int,
    done: Seq<PackageV>,
    pkg: PackageV,
    q: int,
)
    requires
        n_left >= 1,
        parse_package(v, cur) == Ok::<_, SpkError>((pkg, q)),
        packages_decode_inv(v, q0, cur, n_left, total, done),
    ensures
        packages_decode_inv(v, q0, q, n_left - 1, total, done.push(pkg)),
{
    match parse_packages(v, q, n_left - 1) {
        Ok((rest, f)) => {
            assert(parse_packages(v, cur, n_left) == Ok::<_, SpkError>((seq![pkg] + rest, f)));
            assert(done.push(pkg) + rest =~= done + (seq![pkg] + rest));
        },
        Err(err) => {
            assert(parse_packages(v, cur, n_left) == Err::<(Seq<PackageV>, int), _>(err));
        },
    }
}

/// Decodes a whole archive from its logical byte stream.  The decode is
/// all-or-nothing: on any error no partial archive is returned.
#[verifier::loop_isolation(false)]
#[verifier::rlimit(100)]
pub fn decode_archive(stream: SplitStream) -> (r: Result<Archive, SpkError>)
    ensures
        match r {
            Ok(a) => {
                &&& parse_archive(stream@) == Ok::<_, SpkError>(a.spec_packages())
                &&& a.spec_data() == stream@
                &&& a.wf()
            },
            Err(e) => parse_archive(stream@) == Err::<Seq<PackageV>, _>(e),
        },
{
    let mut s = stream;
    let ghost v = s@;
    s.seek(0);
    let count = match decode_spks(&mut s) {
        Ok(c) => c,
        Err(e) => {
            return Err(e);
        },
    };
    let ghost q0 = s.spec_pos() as int;
    let mut packages: Vec<Package> = Vec::new();
    let mut i: u32 = 0;
    proof {
        assert(package_views(packages@) =~= Seq::<PackageV>::empty());
    }
    while i < count
        invariant
            s@ == v,
            i <= count,
            packages_wf(package_views(packages@)),
            packages_decode_inv(
                v,
                q0,
                s.spec_pos() as int,
                count - i,
                count as int,
                package_views(packages@),
            ),
        decreases count - i,
    {
        let ghost cur = s.spec_pos() as int;
        let pkg = match decode_package(&mut s) {
            Ok(p) => p,
            Err(e) => {
                return Err(e);
            },
        };
        proof {
            lemma_packages_step(
                v,
                q0,
                cur,
                count - i,
                count as int,
                package_views(packages@),
                pkg@,
                s.spec_pos() as int,
            );
            assert(package_views(packages@.push(pkg)) =~= package_views(packages@).push(pkg@));
        }
        packages.push(pkg);
        i = i + 1;
    }
    proof {
        assert(package_views(packages@) + Seq::<PackageV>::empty() =~= package_views(
            packages@,
        ));
    }
    Ok(Archive { stream: s, packages })
}

} // verus!
