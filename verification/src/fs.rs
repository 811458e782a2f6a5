use vstd::prelude::*;

use crate::cas::ContentAddressableStore;
use crate::cas::spec_store;
use crate::hexenc::hex_encode;
use crate::hexenc::hex_of;
use crate::link::LinkCapabilities;
use crate::link::LinkError;
use crate::link::LinkResult;
use crate::link::LinkStrategy;
use crate::link::spec_link_outcome;

verus! {

/// How a sink wrote one file: directly, or through the object store,
/// noting whether the content was already stored and which link method
/// materialized it.
#[derive(Debug, Clone, Copy, PartialEq, Eq, Structural)]
pub enum WriteResult {
    Direct,
    Cas { cached: bool, method: LinkResult },
}

/// Mathematical shape of one written file.
pub struct WriteRecordV {
    pub path: Seq<u8>,
    pub data: Seq<u8>,
    pub mode: u16,
}

/// One file as a sink wrote it: destination path, bytes and permission
/// mode.
#[derive(Debug, Clone, PartialEq, Eq)]
pub struct WriteRecord {
    pub path: Vec<u8>,
    pub data: Vec<u8>,
    pub mode: u16,
}

impl View for WriteRecord {
    type V = WriteRecordV;

    open spec fn view(&self) -> WriteRecordV {
        WriteRecordV { path: self.path@, data: self.data@, mode: self.mode }
    }
}

pub open spec fn record_views(rs: Seq<WriteRecord>) -> Seq<WriteRecordV> {
    rs.map_values(|r: WriteRecord| r@)
}

/// A sink's error.  A disk-backed sink reports its I/O failures as `Io`.
#[derive(Debug, Clone, Copy, PartialEq, Eq, Structural)]
pub enum FsError {
    Link(LinkError),
    Io,
}

/// The file-sink abstraction that extraction writes through: "write these
/// bytes to this path with this mode, given this content hash", plus
/// directory creation.  Any conforming sink is substitutable; the ghost
/// write log is what a successful write is held to.
pub trait FileSystem {
    /// The files written through this sink so far, in order.  A sink
    /// that wants its writes reasoned about overrides this log and
    /// maintains it in `write_file`.
    open spec fn writes(&self) -> Seq<WriteRecordV> {
        Seq::empty()
    }

    /// Writes one file.  `hmac` is the file's already-verified HMAC-SHA1
    /// digest, which a content-addressed sink uses as the content hash.
    /// The log records completed writes only: a successful call appends
    /// exactly its record, a failed one appends nothing.
    fn write_file(
        &mut self,
        path: &Vec<u8>,
        data: &Vec<u8>,
        mode: u16,
        hmac: &Vec<u8>,
    ) -> (r: Result<WriteResult, FsError>)
        requires
            hmac@.len() == 20,
        ensures
            r is Ok ==> final(self).writes() == old(self).writes().push(
                WriteRecordV { path: path@, data: data@, mode },
            ),
            r is Err ==> final(self).writes() == old(self).writes(),
    ;

    /// Ensures a directory tree exists.
    fn create_dir_all(&mut self, path: &Vec<u8>) -> (r: Result<(), FsError>);
}

/// The direct sink: writes each file as it is.  This is the in-memory
/// realization; a disk-backed one writes the same records under the same
/// contract.
#[derive(Debug)]
pub struct DirectFileSystem {
    pub files: Vec<WriteRecord>,
}

impl DirectFileSystem {
    /// An empty direct sink.
    pub fn new() -> (r: DirectFileSystem)
        ensures
            r.files@.len() == 0,
    {
        DirectFileSystem { files: Vec::new() }
    }
}

impl FileSystem for DirectFileSystem {
    open spec fn writes(&self) -> Seq<WriteRecordV> {
        record_views(self.files@)
    }

    fn write_file(
        &mut self,
        path: &Vec<u8>,
        data: &Vec<u8>,
        mode: u16,
        _hmac: &Vec<u8>,
    ) -> (r: Result<WriteResult, FsError>)
        ensures
            r == Ok::<WriteResult, FsError>(WriteResult::Direct),
    {
        let rec = WriteRecord { path: path.clone(), data: data.clone(), mode };
        proof {
            assert(record_views(self.files@.push(rec)) =~= record_views(self.files@).push(
                rec@,
            ));
        }
        self.files.push(rec);
        Ok(WriteResult::Direct)
    }

    fn create_dir_all(&mut self, _path: &Vec<u8>) -> (r: Result<(), FsError>)
        ensures
            r is Ok,
            *final(self) == *old(self),
    {
        Ok(())
    }
}

/// The content-addressed sink: stores each file's bytes in the object
/// store under its HMAC hash, then materializes the object at the
/// destination by the link policy.  Permission bits belong to the
/// destination, not the shared object, so each written record carries its
/// own mode even when content is deduplicated.
#[derive(Debug)]
pub struct CasFileSystem {
    pub cas: ContentAddressableStore,
    pub link_strategy: LinkStrategy,
    /// What the destination filesystem supports, which decides how far
    /// down the fallback chain a link gets.
    pub capabilities: LinkCapabilities,
    pub files: Vec<WriteRecord>,
}

impl CasFileSystem {
    /// A sink over the given store and link policy, on a filesystem where
    /// every link method works.
    pub fn new(cas: ContentAddressableStore, link_strategy: LinkStrategy) -> (r: CasFileSystem)
        ensures
            r.cas == cas,
            r.link_strategy == link_strategy,
            r.capabilities == (LinkCapabilities { reflink: true, hardlink: true, copy: true }),
            r.files@.len() == 0,
    {
        CasFileSystem {
            cas,
            link_strategy,
            capabilities: LinkCapabilities { reflink: true, hardlink: true, copy: true },
            files: Vec::new(),
        }
    }

    /// The same sink on a filesystem with the given capabilities.
    pub fn with_capabilities(
        cas: ContentAddressableStore,
        link_strategy: LinkStrategy,
        capabilities: LinkCapabilities,
    ) -> (r: CasFileSystem)
        ensures
            r.cas == cas,
            r.link_strategy == link_strategy,
            r.capabilities == capabilities,
            r.files@.len() == 0,
    {
        CasFileSystem { cas, link_strategy, capabilities, files: Vec::new() }
    }
}

impl FileSystem for CasFileSystem {
    open spec fn writes(&self) -> Seq<WriteRecordV> {
        record_views(self.files@)
    }

    fn write_file(
        &mut self,
        path: &Vec<u8>,
        data: &Vec<u8>,
        mode: u16,
        hmac: &Vec<u8>,
    ) -> (r: Result<WriteResult, FsError>)
        ensures
            final(self).cas.spec_objects() == spec_store(
                old(self).cas.spec_objects(),
                hex_of(hmac@),
                data@,
            ),
            final(self).cas.spec_root() == old(self).cas.spec_root(),
            final(self).link_strategy == old(self).link_strategy,
            final(self).capabilities == old(self).capabilities,
            r is Ok <==> spec_link_outcome(old(self).link_strategy, old(self).capabilities)
                is Ok,
            r is Ok ==> r == Ok::<WriteResult, FsError>(
                WriteResult::Cas {
                    cached: old(self).cas.spec_objects().dom().contains(hex_of(hmac@)),
                    method: spec_link_outcome(
                        old(self).link_strategy,
                        old(self).capabilities,
                    )->Ok_0,
                },
            ),
            r is Err ==> final(self).writes() == old(self).writes(),
    {
        let hash = hex_encode(hmac);
        let cached = self.cas.contains(&hash);
        let _object_path = self.cas.ensure_stored(&hash, data);
        let method = match self.link_strategy.link(&self.capabilities) {
            Ok(m) => m,
            Err(e) => {
                return Err(FsError::Link(e));
            },
        };
        let rec = WriteRecord { path: path.clone(), data: data.clone(), mode };
        proof {
            assert(record_views(self.files@.push(rec)) =~= record_views(self.files@).push(
                rec@,
            ));
        }
        self.files.push(rec);
        Ok(WriteResult::Cas { cached, method })
    }

    fn create_dir_all(&mut self, _path: &Vec<u8>) -> (r: Result<(), FsError>)
        ensures
            r is Ok,
            *final(self) == *old(self),
    {
        Ok(())
    }
}

} // verus!
