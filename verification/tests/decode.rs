use hmac::Mac;
use md5::Digest;

use spike_spk::codec::decode_archive;
use spike_spk::error::SpkError;
use spike_spk::model::Archive;
use spike_spk::model::ByteLen;
use spike_spk::model::PackageType;
use spike_spk::model::SDAT;
use spike_spk::model::SPK0;
use spike_spk::stream::SplitStream;
use spike_spk::utf8::check_utf8;
use spike_spk::verify::verify_all;

const HMAC_KEY: [u8; 16] = [
    0x8e, 0x1f, 0x55, 0x43, 0xc2, 0xf5, 0x4a, 0x11, 0x67, 0x3a, 0x28, 0x2a, 0x2f, 0x87, 0xc0, 0x06,
];

fn md5_of(data: &[u8]) -> [u8; 16] {
    md5::Md5::digest(data).into()
}

fn hmac_of(data: &[u8]) -> [u8; 20] {
    let mut mac = hmac::Hmac::<sha1::Sha1>::new_from_slice(&HMAC_KEY).unwrap();
    mac.update(data);
    mac.finalize().into_bytes().into()
}

struct FileSpec {
    name: &'static str,
    data: Vec<u8>,
    mode: u16,
    wide: bool,
    md5: Option<[u8; 16]>,
    hmac: Option<[u8; 20]>,
    terminator_len: u32,
}

impl FileSpec {
    fn new(name: &'static str, data: &[u8], mode: u16) -> FileSpec {
        FileSpec {
            name,
            data: data.to_vec(),
            mode,
            wide: false,
            md5: None,
            hmac: None,
            terminator_len: 0,
        }
    }

    fn wide(mut self) -> FileSpec {
        self.wide = true;
        self
    }
}

/// Builds one package: SPK0, SIDX, STRS, file records, FEND, SDAT and the
/// raw data section.
fn build_package(name: &str, ptype: u8, files: &[FileSpec]) -> Vec<u8> {
    let mut strtab: Vec<u8> = Vec::new();
    let mut offsets: Vec<u32> = Vec::new();
    for f in files {
        offsets.push(strtab.len() as u32);
        strtab.extend_from_slice(f.name.as_bytes());
        strtab.push(0);
    }
    let mut blob: Vec<u8> = Vec::new();
    let mut records: Vec<u8> = Vec::new();
    let mut terminator_len = 0u32;
    for (i, f) in files.iter().enumerate() {
        let data_offset = blob.len() as u64;
        blob.extend_from_slice(&f.data);
        let md5 = f.md5.unwrap_or_else(|| md5_of(&f.data));
        let hmac = f.hmac.unwrap_or_else(|| hmac_of(&f.data));
        if f.wide {
            records.extend_from_slice(b"FI64");
            records.extend_from_slice(&84u32.to_le_bytes());
            records.extend_from_slice(&(offsets[i] as u64).to_le_bytes());
            records.extend_from_slice(&(f.data.len() as u64).to_le_bytes());
            records.extend_from_slice(&data_offset.to_le_bytes());
            records.extend_from_slice(&(f.data.len() as u64).to_le_bytes());
            records.extend_from_slice(&f.mode.to_le_bytes());
            records.extend_from_slice(&[0; 3]);
            records.extend_from_slice(&hmac);
            records.extend_from_slice(&md5);
            records.extend_from_slice(&[0; 7]);
        } else {
            records.extend_from_slice(b"FINF");
            records.extend_from_slice(&64u32.to_le_bytes());
            records.extend_from_slice(&offsets[i].to_le_bytes());
            records.extend_from_slice(&(f.data.len() as u32).to_le_bytes());
            records.extend_from_slice(&(data_offset as u32).to_le_bytes());
            records.extend_from_slice(&(f.data.len() as u32).to_le_bytes());
            records.extend_from_slice(&f.mode.to_le_bytes());
            records.extend_from_slice(&[0; 3]);
            records.extend_from_slice(&hmac);
            records.extend_from_slice(&md5);
            records.extend_from_slice(&[0; 3]);
        }
        terminator_len = f.terminator_len;
    }
    let mut body: Vec<u8> = Vec::new();
    // SIDX: name padded to 32, versions 1.2.3, type byte, 12 reserved.
    body.extend_from_slice(b"SIDX");
    body.extend_from_slice(&48u32.to_le_bytes());
    let mut name32 = name.as_bytes().to_vec();
    name32.resize(32, 0);
    body.extend_from_slice(&name32);
    body.extend_from_slice(&[1, 2, 3]);
    body.push(ptype);
    body.extend_from_slice(&[0; 12]);
    // STRS
    body.extend_from_slice(b"STRS");
    body.extend_from_slice(&(strtab.len() as u32).to_le_bytes());
    body.extend_from_slice(&strtab);
    // records + FEND
    body.extend_from_slice(&records);
    body.extend_from_slice(b"FEND");
    body.extend_from_slice(&terminator_len.to_le_bytes());
    // SDAT in the extended encoding: data begins right after its header.
    body.extend_from_slice(b"SDAT");
    body.extend_from_slice(&0xFFFF_FFFFu32.to_le_bytes());
    body.extend_from_slice(&(blob.len() as u64).to_le_bytes());
    body.extend_from_slice(&blob);

    // SPK0: the next package starts at spk0_pos + 4 + byte_len.
    let mut pkg: Vec<u8> = Vec::new();
    pkg.extend_from_slice(b"SPK0");
    pkg.extend_from_slice(&((body.len() + 4) as u32).to_le_bytes());
    pkg.extend_from_slice(&body);
    pkg
}

fn build_archive(packages: &[Vec<u8>]) -> Vec<u8> {
    let mut out: Vec<u8> = Vec::new();
    out.extend_from_slice(b"SPKS");
    out.extend_from_slice(&0u32.to_le_bytes());
    out.extend_from_slice(&(packages.len() as u32).to_le_bytes());
    for p in packages {
        out.extend_from_slice(p);
    }
    out
}

fn decode(bytes: Vec<u8>) -> Result<Archive, SpkError> {
    decode_archive(SplitStream::from_vec(bytes))
}

#[test]
fn minimal_archive_decodes_and_verifies() {
    let pkg = build_package("main", 2, &[FileSpec::new("boot.bin", b"hello world", 0o644)]);
    let bytes = build_archive(&[pkg]);
    let a = decode(bytes).unwrap();
    assert_eq!(a.packages.len(), 1);
    let p = &a.packages[0];
    assert_eq!(p.name, b"main".to_vec());
    assert_eq!(p.major_version, 1);
    assert_eq!(p.minor_version, 2);
    assert_eq!(p.patch_version, 3);
    assert_eq!(p.package_type, PackageType::Game);
    assert_eq!(p.files.len(), 1);
    let f = &p.files[0];
    assert_eq!(f.name, b"boot.bin".to_vec());
    assert_eq!(f.file_size, 11);
    assert_eq!(f.data_offset, 0);
    assert_eq!(f.data_size, 11);
    assert_eq!(f.mode, 0o644);
    assert_eq!(f.md5, md5_of(b"hello world").to_vec());
    assert_eq!(f.hmac, hmac_of(b"hello world").to_vec());
    assert!(verify_all(&a).is_ok());
    let data = a.read_entry(0, 0).unwrap();
    assert_eq!(data, b"hello world".to_vec());
}

#[test]
fn flipped_data_byte_names_exactly_that_file() {
    let pkg = build_package(
        "main",
        1,
        &[
            FileSpec::new("ok.bin", b"good data", 0o644),
            FileSpec::new("bad.bin", b"other data", 0o644),
        ],
    );
    let mut bytes = build_archive(&[pkg]);
    // Flip one byte of the second file's data, which sits at the end.
    let n = bytes.len();
    bytes[n - 1] ^= 0xFF;
    let a = decode(bytes).unwrap();
    let failures = verify_all(&a).unwrap_err();
    assert_eq!(failures.len(), 1);
    assert_eq!(failures[0].package, b"main".to_vec());
    assert_eq!(failures[0].file, b"bad.bin".to_vec());
}

#[test]
fn narrow_and_wide_records_normalize_equally() {
    let narrow = build_package("pkg", 1, &[FileSpec::new("a.bin", b"payload", 0o755)]);
    let wide = build_package("pkg", 1, &[FileSpec::new("a.bin", b"payload", 0o755).wide()]);
    let a = decode(build_archive(&[narrow])).unwrap();
    let b = decode(build_archive(&[wide])).unwrap();
    assert_eq!(a.packages[0].files[0], b.packages[0].files[0]);
}

#[test]
fn nonzero_terminator_is_a_format_error() {
    let mut spec = FileSpec::new("a.bin", b"x", 0o644);
    spec.terminator_len = 1;
    let pkg = build_package("main", 1, &[spec]);
    let r = decode(build_archive(&[pkg]));
    assert_eq!(r.err(), Some(SpkError::NonZeroTerminator));
}

#[test]
fn split_parts_decode_like_the_single_file() {
    let pkg = build_package("main", 3, &[FileSpec::new("boot.bin", b"split me apart", 0o600)]);
    let bytes = build_archive(&[pkg]);
    let whole = decode(bytes.clone()).unwrap();
    // Split in the middle of a chunk; the reader must hide the boundary.
    let cut = bytes.len() / 2;
    let parts = vec![bytes[..cut].to_vec(), bytes[cut..].to_vec()];
    let split = decode_archive(SplitStream::from_parts(parts).unwrap()).unwrap();
    assert_eq!(whole.packages, split.packages);
    assert_eq!(
        whole.read_entry(0, 0).unwrap(),
        split.read_entry(0, 0).unwrap()
    );
}

#[test]
fn zero_parts_are_refused() {
    assert_eq!(SplitStream::from_parts(vec![]).err(), Some(SpkError::NoParts));
}

#[test]
fn two_packages_decode_in_stream_order() {
    let p1 = build_package("first", 1, &[FileSpec::new("a.bin", b"aaa", 0o644)]);
    let p2 = build_package("second", 2, &[FileSpec::new("b.bin", b"bbbb", 0o644)]);
    let a = decode(build_archive(&[p1, p2])).unwrap();
    assert_eq!(a.packages.len(), 2);
    assert_eq!(a.packages[0].name, b"first".to_vec());
    assert_eq!(a.packages[1].name, b"second".to_vec());
    assert_eq!(a.read_entry(1, 0).unwrap(), b"bbbb".to_vec());
    assert!(verify_all(&a).is_ok());
}

#[test]
fn sz64_chunk_is_skipped() {
    let pkg = build_package("main", 1, &[FileSpec::new("a.bin", b"data", 0o644)]);
    // Splice an SZ64 chunk right after the SIDX chunk: SPK0 header is 8
    // bytes, SIDX is 4 + 4 + 48 = 56 bytes.
    let mut with_sz = pkg.clone();
    let at = 8 + 56;
    let mut chunk = b"SZ64".to_vec();
    chunk.extend_from_slice(&4u32.to_le_bytes());
    chunk.extend_from_slice(&0xDEAD_BEEF_DEAD_BEEFu64.to_le_bytes());
    for (i, b) in chunk.into_iter().enumerate() {
        with_sz.insert(at + i, b);
    }
    // Keep the SPK0 byte length consistent with the longer body.
    let bl = (with_sz.len() - 8 + 4) as u32;
    with_sz[4..8].copy_from_slice(&bl.to_le_bytes());
    let a = decode(build_archive(&[with_sz])).unwrap();
    assert_eq!(a.packages[0].files[0].name, b"a.bin".to_vec());
    assert_eq!(a.read_entry(0, 0).unwrap(), b"data".to_vec());
}

#[test]
fn wrong_top_magic_is_rejected() {
    let pkg = build_package("main", 1, &[FileSpec::new("a.bin", b"x", 0o644)]);
    let mut bytes = build_archive(&[pkg]);
    bytes[0] = b'X';
    assert_eq!(decode(bytes).err(), Some(SpkError::BadMagic));
}

#[test]
fn truncated_archive_is_rejected() {
    let pkg = build_package("main", 1, &[FileSpec::new("a.bin", b"x", 0o644)]);
    let mut bytes = build_archive(&[pkg]);
    bytes.truncate(bytes.len() - 30);
    assert_eq!(decode(bytes).err(), Some(SpkError::Truncated));
}

#[test]
fn unknown_package_type_is_rejected() {
    let pkg = build_package("main", 9, &[FileSpec::new("a.bin", b"x", 0o644)]);
    assert_eq!(decode(build_archive(&[pkg])).err(), Some(SpkError::BadPackageType));
}

#[test]
fn invalid_utf8_package_name_is_rejected() {
    let pkg = build_package("bad\u{0001}", 1, &[FileSpec::new("a.bin", b"x", 0o644)]);
    let mut bytes = build_archive(&[pkg]);
    // Overwrite the first name byte inside SIDX with a lone continuation
    // byte.  SIDX's name begins at SPKS(12) + SPK0(8) + SIDX tag+len(8).
    bytes[12 + 8 + 8] = 0xFF;
    assert_eq!(decode(bytes).err(), Some(SpkError::InvalidUtf8));
}

#[test]
fn name_offset_outside_string_table_is_rejected() {
    let pkg = build_package("main", 1, &[FileSpec::new("a.bin", b"x", 0o644)]);
    let mut bytes = build_archive(&[pkg]);
    // The FINF name offset sits 8 bytes into the record; the record run
    // begins after SPKS(12) + SPK0(8) + SIDX(56) + STRS(8 + 6).
    let record_at = 12 + 8 + 56 + 8 + 6;
    assert_eq!(&bytes[record_at..record_at + 4], b"FINF");
    bytes[record_at + 8..record_at + 12].copy_from_slice(&0xFFFF_FFF0u32.to_le_bytes());
    assert_eq!(decode(bytes).err(), Some(SpkError::UnresolvableName));
}

#[test]
fn path_prefix_depends_on_package_type() {
    assert_eq!(PackageType::Game.path_prefix(), "/games/");
    assert_eq!(PackageType::Spike1.path_prefix(), "/");
    assert_eq!(PackageType::Spike2.path_prefix(), "/");
}

#[test]
fn byte_len_normalizes_both_encodings() {
    assert_eq!(ByteLen::Old(7).byte_len(), 7);
    assert_eq!(ByteLen::Old(7).header_size(), 4);
    assert_eq!(ByteLen::New(7).byte_len(), 7);
    assert_eq!(ByteLen::New(7).header_size(), 16);
    let spk0 = SPK0 { byte_len: ByteLen::Old(100) };
    assert_eq!(spk0.byte_len(), 100);
    assert_eq!(spk0.header_size(), 4);
    let sdat = SDAT { byte_len: ByteLen::New(5) };
    assert_eq!(sdat.byte_len(), 5);
    assert_eq!(sdat.header_size(), 16);
}

#[test]
fn utf8_checker_agrees_with_std() {
    let cases: Vec<Vec<u8>> = vec![
        b"plain ascii".to_vec(),
        "päckage".as_bytes().to_vec(),
        "✔ unicode".as_bytes().to_vec(),
        vec![0xFF, 0x41],
        vec![0xC2],
        vec![0xC2, 0x20],
        vec![0xE0, 0x9F, 0x80],
        vec![0xED, 0xA0, 0x80],
        vec![0xF4, 0x90, 0x80, 0x80],
        vec![],
        vec![0x00],
    ];
    for c in cases {
        assert_eq!(check_utf8(&c), std::str::from_utf8(&c).is_ok(), "case {:?}", c);
    }
}

#[test]
fn stream_reads_cross_part_boundaries() {
    let parts = vec![b"abc".to_vec(), b"defg".to_vec(), b"h".to_vec()];
    let mut s = SplitStream::from_parts(parts).unwrap();
    assert_eq!(s.len(), 8);
    s.seek(2);
    assert_eq!(s.read_exact(4).unwrap(), b"cdef".to_vec());
    assert_eq!(s.position(), 6);
    assert_eq!(s.read_at(0, 8).unwrap(), b"abcdefgh".to_vec());
    assert!(s.read_at(5, 4).is_err());
    assert_eq!(s.read_exact(2).unwrap(), b"gh".to_vec());
    assert!(s.read_exact(1).is_err());
}

#[test]
fn declared_length_skips_trailing_bytes() {
    // Unknown trailing bytes inside a package container are skipped by
    // seeking to its declared end: the forward-compatibility seam.
    let mut p1 = build_package("first", 1, &[FileSpec::new("a.bin", b"aaa", 0o644)]);
    p1.extend_from_slice(&[0xEE; 37]);
    let bl = (p1.len() - 4) as u32;
    p1[4..8].copy_from_slice(&bl.to_le_bytes());
    let p2 = build_package("second", 1, &[FileSpec::new("b.bin", b"bb", 0o644)]);
    let a = decode(build_archive(&[p1, p2])).unwrap();
    assert_eq!(a.packages.len(), 2);
    assert_eq!(a.packages[1].name, b"second".to_vec());
    assert!(verify_all(&a).is_ok());
}

#[test]
fn wide_container_length_is_honored() {
    // The same package with its SPK0 length in the extended encoding:
    // the next container then begins 16 bytes past the marker plus the
    // declared length.
    let p1 = build_package("first", 1, &[FileSpec::new("a.bin", b"aaa", 0o644)]);
    let body = &p1[8..];
    let mut wide = Vec::new();
    wide.extend_from_slice(b"SPK0");
    wide.extend_from_slice(&0xFFFF_FFFFu32.to_le_bytes());
    wide.extend_from_slice(&(body.len() as u64).to_le_bytes());
    wide.extend_from_slice(body);
    let p2 = build_package("second", 1, &[FileSpec::new("b.bin", b"bb", 0o644)]);
    let a = decode(build_archive(&[wide, p2])).unwrap();
    assert_eq!(a.packages.len(), 2);
    assert_eq!(a.packages[0].name, b"first".to_vec());
    assert_eq!(a.packages[1].name, b"second".to_vec());
    assert!(verify_all(&a).is_ok());
}
