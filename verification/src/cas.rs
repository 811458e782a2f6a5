use vstd::prelude::*;

use crate::verify::bytes_eq;

verus! {

/// One stored object: a content hash and the bytes it addresses.
#[derive(Debug, Clone, PartialEq, Eq)]
pub struct CasObject {
    pub hash: Vec<u8>,
    pub data: Vec<u8>,
}

/// The store's contents as a map from hash to bytes.
pub open spec fn objects_map(os: Seq<CasObject>) -> Map<Seq<u8>, Seq<u8>>
    decreases os.len(),
{
    if os.len() == 0 {
        Map::empty()
    } else {
        objects_map(os.drop_last()).insert(os.last().hash@, os.last().data@)
    }
}

proof fn lemma_objects_dom(os: Seq<CasObject>, h: Seq<u8>)
    ensures
        objects_map(os).dom().contains(h) <==> exists|i: int|
            0 <= i < os.len() && (#[trigger] os[i]).hash@ == h,
    decreases os.len(),
{
    if os.len() > 0 {
        lemma_objects_dom(os.drop_last(), h);
        if os.last().hash@ == h {
            assert(os[os.len() - 1].hash@ == h);
        } else if exists|i: int| 0 <= i < os.len() && (#[trigger] os[i]).hash@ == h {
            let i = choose|i: int| 0 <= i < os.len() && (#[trigger] os[i]).hash@ == h;
            assert(os.drop_last()[i] == os[i]);
        }
    }
}

/// What a store publish does to the contents: nothing where the hash is
/// already present (content is hash-addressed, so the bytes are the same
/// either way), an insert where it is not.
pub open spec fn spec_store(m: Map<Seq<u8>, Seq<u8>>, h: Seq<u8>, d: Seq<u8>) -> Map<
    Seq<u8>,
    Seq<u8>,
> {
    if m.dom().contains(h) {
        m
    } else {
        m.insert(h, d)
    }
}

/// The infix `/objects/` of every object path.
pub open spec fn objects_infix() -> Seq<u8> {
    seq![0x2Fu8, 0x6Fu8, 0x62u8, 0x6Au8, 0x65u8, 0x63u8, 0x74u8, 0x73u8, 0x2Fu8]
}

/// The sharded path of the object addressed by `hash` under `root`:
/// `<root>/objects/<first-2-hex>/<next-2-hex>/<full-hash>`.  A pure
/// function of root and hash; the store's contents play no part.
pub open spec fn spec_object_path(root: Seq<u8>, hash: Seq<u8>) -> Seq<u8> {
    root + objects_infix() + hash.subrange(0, 2) + seq![0x2Fu8] + hash.subrange(2, 4)
        + seq![0x2Fu8] + hash
}

/// A sharded, hash-keyed object store with idempotent publish.  The
/// contents are modeled in memory as the set of published objects; a
/// disk-backed mirror keeps one file per object at `spec_object_path` and
/// needs no separate index: a file's presence at that path is what
/// "stored" means.
#[derive(Debug)]
pub struct ContentAddressableStore {
    root: Vec<u8>,
    objects: Vec<CasObject>,
}

impl ContentAddressableStore {
    /// The root directory path of the store.
    pub closed spec fn spec_root(&self) -> Seq<u8> {
        self.root@
    }

    /// The stored contents, hash to bytes.
    pub closed spec fn spec_objects(&self) -> Map<Seq<u8>, Seq<u8>> {
        objects_map(self.objects@)
    }

    /// Opens an empty store rooted at `root`.
    pub fn new(root: Vec<u8>) -> (r: ContentAddressableStore)
        ensures
            r.spec_root() == root@,
            r.spec_objects() == Map::<Seq<u8>, Seq<u8>>::empty(),
    {
        ContentAddressableStore { root, objects: Vec::new() }
    }

    /// The path of the object addressed by `hash`: two 2-character shard
    /// levels, then the full hash as the file name.  Never touches the
    /// contents.
    pub fn get_path(&self, hash: &Vec<u8>) -> (r: Vec<u8>)
        requires
            hash@.len() >= 4,
        ensures
            r@ == spec_object_path(self.spec_root(), hash@),
    {
        let mut out: Vec<u8> = Vec::new();
        out.extend_from_slice(self.root.as_slice());
        out.push(0x2F);
        out.push(0x6F);
        out.push(0x62);
        out.push(0x6A);
        out.push(0x65);
        out.push(0x63);
        out.push(0x74);
        out.push(0x73);
        out.push(0x2F);
        out.push(hash[0]);
        out.push(hash[1]);
        out.push(0x2F);
        out.push(hash[2]);
        out.push(hash[3]);
        out.push(0x2F);
        out.extend_from_slice(hash.as_slice());
        proof {
            assert(hash@.subrange(0, 2) =~= seq![hash@[0], hash@[1]]);
            assert(hash@.subrange(2, 4) =~= seq![hash@[2], hash@[3]]);
            assert(out@ =~= spec_object_path(self.spec_root(), hash@));
        }
        out
    }

    /// Whether content addressed by `hash` is already stored.
    pub fn contains(&self, hash: &Vec<u8>) -> (r: bool)
        ensures
            r == self.spec_objects().dom().contains(hash@),
    {
        let n = self.objects.len();
        let mut i: usize = 0;
        while i < n
            invariant
                i <= n,
                n == self.objects@.len(),
                forall|j: int| 0 <= j < i ==> (#[trigger] self.objects@[j]).hash@ != hash@,
            decreases n - i,
        {
            if bytes_eq(&self.objects[i].hash, hash) {
                proof {
                    lemma_objects_dom(self.objects@, hash@);
                }
                return true;
            }
            i = i + 1;
        }
        proof {
            lemma_objects_dom(self.objects@, hash@);
        }
        false
    }

    /// Publishes the content addressed by `hash`, storing it only where
    /// it is absent, and returns the object's path.  Idempotent: a second
    /// publish of the same pair finds the hash present and changes
    /// nothing.
    pub fn ensure_stored(&mut self, hash: &Vec<u8>, data: &Vec<u8>) -> (r: Vec<u8>)
        requires
            hash@.len() >= 4,
        ensures
            final(self).spec_root() == old(self).spec_root(),
            r@ == spec_object_path(old(self).spec_root(), hash@),
            final(self).spec_objects() == spec_store(old(self).spec_objects(), hash@, data@),
    {
        if !self.contains(hash) {
            let obj = CasObject { hash: hash.clone(), data: data.clone() };
            proof {
                let os = self.objects@;
                assert(os.push(obj).drop_last() =~= os);
                assert(os.push(obj).last() == obj);
            }
            self.objects.push(obj);
        }
        self.get_path(hash)
    }
}

impl ContentAddressableStore {
    /// The name of the version marker file that a disk-backed mirror of
    /// the store writes once under its root: `.cas-version`.
    pub fn version_marker_name() -> (r: Vec<u8>)
        ensures
            r@ == seq![
                0x2Eu8,
                0x63u8,
                0x61u8,
                0x73u8,
                0x2Du8,
                0x76u8,
                0x65u8,
                0x72u8,
                0x73u8,
                0x69u8,
                0x6Fu8,
                0x6Eu8,
            ],
    {
        let mut out: Vec<u8> = Vec::new();
        out.push(0x2E);
        out.push(0x63);
        out.push(0x61);
        out.push(0x73);
        out.push(0x2D);
        out.push(0x76);
        out.push(0x65);
        out.push(0x72);
        out.push(0x73);
        out.push(0x69);
        out.push(0x6F);
        out.push(0x6E);
        proof {
            assert(out@ =~= seq![
                0x2Eu8,
                0x63u8,
                0x61u8,
                0x73u8,
                0x2Du8,
                0x76u8,
                0x65u8,
                0x72u8,
                0x73u8,
                0x69u8,
                0x6Fu8,
                0x6Eu8,
            ]);
        }
        out
    }

    /// What the version marker declares: object-layout version `1`.
    pub fn version_marker_contents() -> (r: Vec<u8>)
        ensures
            r@ == seq![0x31u8],
    {
        let mut out: Vec<u8> = Vec::new();
        out.push(0x31);
        proof {
            assert(out@ =~= seq![0x31u8]);
        }
        out
    }
}

/// Publishing the same hash and bytes twice leaves the store exactly as
/// one publish does, and both calls name the same path: `ensure_stored`
/// is idempotent and the store holds no duplicate.
pub proof fn lemma_ensure_stored_idempotent(m: Map<Seq<u8>, Seq<u8>>, h: Seq<u8>, d: Seq<u8>)
    ensures
        spec_store(spec_store(m, h, d), h, d) == spec_store(m, h, d),
{
    if !m.dom().contains(h) {
        assert(spec_store(m, h, d).dom().contains(h));
    }
}

/// The object path is a pure function: two stores with the same root give
/// the same hash the same path, whatever either store holds.
pub proof fn lemma_get_path_pure(
    a: &ContentAddressableStore,
    b: &ContentAddressableStore,
    h: Seq<u8>,
)
    requires
        a.spec_root() == b.spec_root(),
    ensures
        spec_object_path(a.spec_root(), h) == spec_object_path(b.spec_root(), h),
{
}

} // verus!
