use vstd::prelude::*;

use crate::stream::SplitStream;

verus! {

/// The kind of a package, which picks the logical install-path prefix
/// shown when reporting its files: `/games/` for `Game`, `/` otherwise.
#[derive(Debug, Clone, Copy, PartialEq, Eq, Structural)]
pub enum PackageType {
    Spike1,
    Spike2,
    Game,
}

impl PackageType {
    /// The encoding of this package type as the one-byte on-disk code.
    pub open spec fn spec_code(self) -> u8 {
        match self {
            PackageType::Spike1 => 1,
            PackageType::Game => 2,
            PackageType::Spike2 => 3,
        }
    }

    /// The package type encoded by a code byte, if it is a known one.
    pub open spec fn spec_from_code(code: u8) -> Option<PackageType> {
        if code == 1 {
            Some(PackageType::Spike1)
        } else if code == 2 {
            Some(PackageType::Game)
        } else if code == 3 {
            Some(PackageType::Spike2)
        } else {
            None
        }
    }

    /// Decodes the on-disk package-type byte.
    pub fn from_code(code: u8) -> (r: Option<PackageType>)
        ensures
            r == Self::spec_from_code(code),
    {
        if code == 1 {
            Some(PackageType::Spike1)
        } else if code == 2 {
            Some(PackageType::Game)
        } else if code == 3 {
            Some(PackageType::Spike2)
        } else {
            None
        }
    }

    pub open spec fn spec_path_prefix(self) -> Seq<char> {
        if self == PackageType::Game {
            "/games/"@
        } else {
            "/"@
        }
    }

    /// The logical install-path prefix of files in a package of this type.
    /// It is used only for display, never for an output path on disk.
    pub fn path_prefix(&self) -> (r: &'static str)
        ensures
            r@ == self.spec_path_prefix(),
    {
        if *self == PackageType::Game {
            "/games/"
        } else {
            "/"
        }
    }
}

/// The package-type byte round-trips: decoding a type's own code gives
/// that type back.
pub proof fn lemma_package_type_code_round_trip(t: PackageType)
    ensures
        PackageType::spec_from_code(t.spec_code()) == Some(t),
{
}

/// A chunk length in the archive's dual encoding: an old 4-byte form
/// holding a 32-bit value, and a new form in which the 4-byte sentinel
/// `0xFFFF_FFFF` is followed by an 8-byte extended length.
#[derive(Debug, Clone, Copy, PartialEq, Eq, Structural)]
pub enum ByteLen {
    New(u64),
    Old(u32),
}

impl ByteLen {
    pub open spec fn spec_byte_len(self) -> u64 {
        match self {
            ByteLen::New(n) => n,
            ByteLen::Old(n) => n as u64,
        }
    }

    /// The declared length, widened to one 64-bit shape.
    pub fn byte_len(&self) -> (r: u64)
        ensures
            r == self.spec_byte_len(),
    {
        match self {
            ByteLen::New(n) => *n,
            ByteLen::Old(n) => *n as u64,
        }
    }

    pub open spec fn spec_header_size(self) -> u64 {
        match self {
            ByteLen::New(_) => 16,
            ByteLen::Old(_) => 4,
        }
    }

    /// The header size charged to a length-bearing chunk: the offset from
    /// the chunk's own position after which its declared length counts.
    pub fn header_size(&self) -> (r: u64)
        ensures
            r == self.spec_header_size(),
    {
        match self {
            ByteLen::New(_) => 16,
            ByteLen::Old(_) => 4,
        }
    }
}

/// The package-container chunk: its declared byte length tells the decoder
/// where the next package container begins.
#[derive(Debug, Clone, Copy, PartialEq, Eq, Structural)]
pub struct SPK0 {
    pub byte_len: ByteLen,
}

impl SPK0 {
    pub fn byte_len(&self) -> (r: u64)
        ensures
            r == self.byte_len.spec_byte_len(),
    {
        self.byte_len.byte_len()
    }

    pub fn header_size(&self) -> (r: u64)
        ensures
            r == self.byte_len.spec_header_size(),
    {
        self.byte_len.header_size()
    }
}

/// The data-section marker chunk.  File data offsets are relative to the
/// position right after this chunk's header.
#[derive(Debug, Clone, Copy, PartialEq, Eq, Structural)]
pub struct SDAT {
    pub byte_len: ByteLen,
}

impl SDAT {
    pub fn byte_len(&self) -> (r: u64)
        ensures
            r == self.byte_len.spec_byte_len(),
    {
        self.byte_len.byte_len()
    }

    pub fn header_size(&self) -> (r: u64)
        ensures
            r == self.byte_len.spec_header_size(),
    {
        self.byte_len.header_size()
    }
}

/// Mathematical shape of a file entry: every field as a plain value.
pub struct FileEntryV {
    pub name: Seq<u8>,
    pub file_size: u64,
    pub data_offset: u64,
    pub data_size: u64,
    pub mode: u16,
    pub reserved: Seq<u8>,
    pub hmac: Seq<u8>,
    pub md5: Seq<u8>,
}

/// One file of a package's manifest, normalized from either on-disk record
/// width (32-bit or 64-bit) to a single 64-bit shape.
#[derive(Debug, Clone, PartialEq, Eq)]
pub struct FileEntry {
    /// Logical file name, resolved from the package's string table.
    pub name: Vec<u8>,
    pub file_size: u64,
    /// Offset of the file's bytes, relative to the package data section.
    pub data_offset: u64,
    pub data_size: u64,
    /// POSIX permission mode bits.
    pub mode: u16,
    /// Reserved bytes of the on-disk record, preserved verbatim; nothing
    /// interprets them.
    pub reserved: Vec<u8>,
    /// Keyed HMAC-SHA1 digest of the file's bytes.
    pub hmac: Vec<u8>,
    /// MD5 digest of the file's bytes.
    pub md5: Vec<u8>,
}

impl View for FileEntry {
    type V = FileEntryV;

    open spec fn view(&self) -> FileEntryV {
        FileEntryV {
            name: self.name@,
            file_size: self.file_size,
            data_offset: self.data_offset,
            data_size: self.data_size,
            mode: self.mode,
            reserved: self.reserved@,
            hmac: self.hmac@,
            md5: self.md5@,
        }
    }
}

impl FileEntryV {
    pub open spec fn wf(self) -> bool {
        &&& self.reserved.len() == 3
        &&& self.hmac.len() == 20
        &&& self.md5.len() == 16
    }
}

/// Mathematical shape of a package.
pub struct PackageV {
    pub name: Seq<u8>,
    pub major_version: u8,
    pub minor_version: u8,
    pub patch_version: u8,
    pub package_type: PackageType,
    pub files: Seq<FileEntryV>,
    pub data_start: u64,
    pub data_size: u64,
}

impl PackageV {
    pub open spec fn wf(self) -> bool {
        forall|i: int| 0 <= i < self.files.len() ==> (#[trigger] self.files[i]).wf()
    }
}

/// One named, versioned unit of an archive, with its own file manifest and
/// its own data section.  Constructed once during decode, immutable after.
#[derive(Debug, Clone, PartialEq, Eq)]
pub struct Package {
    /// Package name: the NUL-padded on-disk text up to its first NUL,
    /// checked to be valid UTF-8 during decode.
    pub name: Vec<u8>,
    pub major_version: u8,
    pub minor_version: u8,
    pub patch_version: u8,
    pub package_type: PackageType,
    pub files: Vec<FileEntry>,
    /// Absolute stream offset of the package's data section.
    pub data_start: u64,
    /// Declared size of the data section.
    pub data_size: u64,
}

pub open spec fn entry_views(es: Seq<FileEntry>) -> Seq<FileEntryV> {
    es.map_values(|e: FileEntry| e@)
}

impl View for Package {
    type V = PackageV;

    open spec fn view(&self) -> PackageV {
        PackageV {
            name: self.name@,
            major_version: self.major_version,
            minor_version: self.minor_version,
            patch_version: self.patch_version,
            package_type: self.package_type,
            files: entry_views(self.files@),
            data_start: self.data_start,
            data_size: self.data_size,
        }
    }
}

pub open spec fn package_views(ps: Seq<Package>) -> Seq<PackageV> {
    ps.map_values(|p: Package| p@)
}

/// A fully decoded archive: the logical byte stream it came from together
/// with its packages, in stream order.
pub struct Archive {
    pub stream: SplitStream,
    pub packages: Vec<Package>,
}

impl Archive {
    /// The bytes of the whole logical stream.
    pub open spec fn spec_data(&self) -> Seq<u8> {
        self.stream@
    }

    /// The packages as mathematical values.
    pub open spec fn spec_packages(&self) -> Seq<PackageV> {
        package_views(self.packages@)
    }

    pub open spec fn wf(&self) -> bool {
        forall|i: int|
            0 <= i < self.spec_packages().len() ==> (#[trigger] self.spec_packages()[i]).wf()
    }

    /// The bytes of one file entry: `data_size` bytes starting at
    /// `data_offset` within the package's data section.
    pub open spec fn spec_entry_data(data: Seq<u8>, p: PackageV, e: FileEntryV) -> Seq<u8> {
        data.subrange(
            p.data_start + e.data_offset,
            p.data_start + e.data_offset + e.data_size,
        )
    }

    /// Whether a file entry's declared byte range lies inside the stream.
    pub open spec fn spec_entry_in_bounds(data: Seq<u8>, p: PackageV, e: FileEntryV) -> bool {
        p.data_start + e.data_offset + e.data_size <= data.len()
    }

    /// Reads the bytes of the file entry `fi` of package `pi`.  A range
    /// that runs past the end of the stream is a truncated read.
    pub fn read_entry(&self, pi: usize, fi: usize) -> (r: Result<Vec<u8>, crate::error::SpkError>)
        requires
            pi < self.spec_packages().len(),
            fi < self.spec_packages()[pi as int].files.len(),
        ensures
            ({
                let p = self.spec_packages()[pi as int];
                let e = p.files[fi as int];
                match r {
                    Ok(b) => {
                        &&& Self::spec_entry_in_bounds(self.spec_data(), p, e)
                        &&& b@ == Self::spec_entry_data(self.spec_data(), p, e)
                    },
                    Err(err) => {
                        &&& err == crate::error::SpkError::Truncated
                        &&& !Self::spec_entry_in_bounds(self.spec_data(), p, e)
                    },
                }
            }),
    {
        let p = &self.packages[pi];
        let e = &p.files[fi];
        proof {
            assert(self.spec_packages()[pi as int] == self.packages@[pi as int]@);
            assert(self.spec_packages()[pi as int].files[fi as int]
                == self.packages@[pi as int].files@[fi as int]@);
        }
        let total = self.stream.len();
        if e.data_offset > u64::MAX - p.data_start {
            return Err(crate::error::SpkError::Truncated);
        }
        let at = p.data_start + e.data_offset;
        let n = e.data_size;
        if n > total as u64 {
            return Err(crate::error::SpkError::Truncated);
        }
        self.stream.read_at(at, n as usize)
    }
}

} // verus!
