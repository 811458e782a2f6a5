use hmac::Mac;
use md5::Digest;

use spike_spk::cas::ContentAddressableStore;
use spike_spk::codec::decode_archive;
use spike_spk::digest::hmac_key;
use spike_spk::digest::hmac_sha1;
use spike_spk::digest::md5_digest;
use spike_spk::extract::ExtractError;
use spike_spk::extract::extract;
use spike_spk::fs::CasFileSystem;
use spike_spk::fs::DirectFileSystem;
use spike_spk::fs::FileSystem;
use spike_spk::fs::WriteResult;
use spike_spk::hexenc::hex_encode;
use spike_spk::link::LinkCapabilities;
use spike_spk::link::LinkError;
use spike_spk::link::LinkResult;
use spike_spk::link::LinkStrategy;
use spike_spk::model::Archive;
use spike_spk::stream::SplitStream;
use spike_spk::verify::verify;

const HMAC_KEY: [u8; 16] = [
    0x8e, 0x1f, 0x55, 0x43, 0xc2, 0xf5, 0x4a, 0x11, 0x67, 0x3a, 0x28, 0x2a, 0x2f, 0x87, 0xc0, 0x06,
];

fn md5_of(data: &[u8]) -> [u8; 16] {
    md5::Md5::digest(data).into()
}

fn hmac_of(data: &[u8]) -> [u8; 20] {
    let mut mac = hmac::Hmac::<sha1::Sha1>::new_from_slice(&HMAC_KEY).unwrap();
    mac.update(data);
    mac.finalize().into_bytes().into()
}

/// Builds a one-package archive whose files all use the narrow record
/// form and correct digests.
fn build_archive(pname: &str, ptype: u8, files: &[(&str, &[u8], u16)]) -> Vec<u8> {
    let mut strtab: Vec<u8> = Vec::new();
    let mut records: Vec<u8> = Vec::new();
    let mut blob: Vec<u8> = Vec::new();
    for (name, data, mode) in files {
        let name_off = strtab.len() as u32;
        strtab.extend_from_slice(name.as_bytes());
        strtab.push(0);
        let data_off = blob.len() as u32;
        blob.extend_from_slice(data);
        records.extend_from_slice(b"FINF");
        records.extend_from_slice(&64u32.to_le_bytes());
        records.extend_from_slice(&name_off.to_le_bytes());
        records.extend_from_slice(&(data.len() as u32).to_le_bytes());
        records.extend_from_slice(&data_off.to_le_bytes());
        records.extend_from_slice(&(data.len() as u32).to_le_bytes());
        records.extend_from_slice(&mode.to_le_bytes());
        records.extend_from_slice(&[0; 3]);
        records.extend_from_slice(&hmac_of(data));
        records.extend_from_slice(&md5_of(data));
        records.extend_from_slice(&[0; 3]);
    }
    let mut body: Vec<u8> = Vec::new();
    body.extend_from_slice(b"SIDX");
    body.extend_from_slice(&48u32.to_le_bytes());
    let mut name32 = pname.as_bytes().to_vec();
    name32.resize(32, 0);
    body.extend_from_slice(&name32);
    body.extend_from_slice(&[0, 9, 1]);
    body.push(ptype);
    body.extend_from_slice(&[0; 12]);
    body.extend_from_slice(b"STRS");
    body.extend_from_slice(&(strtab.len() as u32).to_le_bytes());
    body.extend_from_slice(&strtab);
    body.extend_from_slice(&records);
    body.extend_from_slice(b"FEND");
    body.extend_from_slice(&0u32.to_le_bytes());
    body.extend_from_slice(b"SDAT");
    body.extend_from_slice(&0xFFFF_FFFFu32.to_le_bytes());
    body.extend_from_slice(&(blob.len() as u64).to_le_bytes());
    body.extend_from_slice(&blob);

    let mut out: Vec<u8> = Vec::new();
    out.extend_from_slice(b"SPKS");
    out.extend_from_slice(&0u32.to_le_bytes());
    out.extend_from_slice(&1u32.to_le_bytes());
    out.extend_from_slice(b"SPK0");
    out.extend_from_slice(&((body.len() + 4) as u32).to_le_bytes());
    out.extend_from_slice(&body);
    out
}

fn decode(bytes: Vec<u8>) -> Archive {
    decode_archive(SplitStream::from_vec(bytes)).unwrap()
}

#[test]
fn hex_encoding_is_lowercase_and_exact() {
    assert_eq!(hex_encode(&vec![0x00, 0xAB, 0xFF, 0x1a]), b"00abff1a".to_vec());
    assert_eq!(hex_encode(&vec![]), Vec::<u8>::new());
    let sample = vec![0xDE, 0xAD, 0xBE, 0xEF, 0x07];
    assert_eq!(hex_encode(&sample), hex::encode(&sample).into_bytes());
}

#[test]
fn digest_wrappers_match_known_vectors() {
    // MD5 of "abc", RFC 1321.
    let m = md5_digest(&b"abc".to_vec());
    assert_eq!(hex::encode(&m), "900150983cd24fb0d6963f7d28e17f72");
    // HMAC-SHA1, RFC 2202 test case 1.
    let key = vec![0x0b; 20];
    let h = hmac_sha1(&key, &b"Hi There".to_vec());
    assert_eq!(hex::encode(&h), "b617318655057264e28bc0b6fb378c8ef146be00");
    // The compiled-in key is the one the fixtures use.
    assert_eq!(hmac_key(), HMAC_KEY.to_vec());
}

#[test]
fn object_paths_are_sharded_and_pure() {
    let store = ContentAddressableStore::new(b"/var/cas".to_vec());
    let hash = b"00abcdef".to_vec();
    let p = store.get_path(&hash);
    assert_eq!(p, b"/var/cas/objects/00/ab/00abcdef".to_vec());
    // Same root, different contents: the path depends on the hash alone.
    let mut other = ContentAddressableStore::new(b"/var/cas".to_vec());
    other.ensure_stored(&b"1234beef".to_vec(), &b"occupied".to_vec());
    assert_eq!(other.get_path(&hash), p);
    assert_eq!(store.get_path(&hash), store.get_path(&hash.clone()));
}

#[test]
fn ensure_stored_is_idempotent() {
    let mut store = ContentAddressableStore::new(b"cas".to_vec());
    let hash = b"feedc0de".to_vec();
    let data = b"the content".to_vec();
    assert!(!store.contains(&hash));
    let p1 = store.ensure_stored(&hash, &data);
    assert!(store.contains(&hash));
    let p2 = store.ensure_stored(&hash, &data);
    assert_eq!(p1, p2);
    assert_eq!(p1, b"cas/objects/fe/ed/feedc0de".to_vec());
    assert!(store.contains(&hash));
}

#[test]
fn reflink_failure_falls_back_to_hardlink_not_copy() {
    let caps = LinkCapabilities { reflink: false, hardlink: true, copy: true };
    assert_eq!(LinkStrategy::ReflinkOrCopy.link(&caps), Ok(LinkResult::Hardlink));
    assert_eq!(LinkStrategy::ReflinkOrHardlink.link(&caps), Ok(LinkResult::Hardlink));
    assert_eq!(
        LinkStrategy::ReflinkOnly.link(&caps),
        Err(LinkError::ReflinkFailedNoFallback)
    );
}

#[test]
fn link_fallback_chain_degrades_in_order() {
    let all = LinkCapabilities { reflink: true, hardlink: true, copy: true };
    assert_eq!(LinkStrategy::ReflinkOrCopy.link(&all), Ok(LinkResult::Reflink));
    let none = LinkCapabilities { reflink: false, hardlink: false, copy: false };
    assert_eq!(LinkStrategy::ReflinkOrCopy.link(&none), Err(LinkError::CopyFailed));
    let copy_only = LinkCapabilities { reflink: false, hardlink: false, copy: true };
    assert_eq!(LinkStrategy::ReflinkOrCopy.link(&copy_only), Ok(LinkResult::Copy));
    assert_eq!(
        LinkStrategy::ReflinkOrHardlink.link(&copy_only),
        Err(LinkError::HardlinkFailedNoCopy)
    );
}

#[test]
fn next_attempt_walks_the_chain() {
    let st = LinkStrategy::ReflinkOrCopy;
    assert_eq!(st.first_attempt(), LinkResult::Reflink);
    assert_eq!(st.next_attempt(LinkResult::Reflink), Ok(LinkResult::Hardlink));
    assert_eq!(st.next_attempt(LinkResult::Hardlink), Ok(LinkResult::Copy));
    assert_eq!(st.next_attempt(LinkResult::Copy), Err(LinkError::CopyFailed));
    assert_eq!(
        LinkStrategy::ReflinkOnly.next_attempt(LinkResult::Reflink),
        Err(LinkError::ReflinkFailedNoFallback)
    );
    assert_eq!(
        LinkStrategy::ReflinkOrHardlink.next_attempt(LinkResult::Hardlink),
        Err(LinkError::HardlinkFailedNoCopy)
    );
}

#[test]
fn extraction_writes_through_the_direct_sink() {
    let a = decode(build_archive(
        "main",
        2,
        &[("boot.bin", b"boot bytes", 0o755), ("etc/conf", b"config", 0o644)],
    ));
    let mut sink = DirectFileSystem::new();
    let outs = extract(&a, &b"out".to_vec(), &mut sink).unwrap();
    assert_eq!(outs.len(), 2);
    assert_eq!(outs[0].file, b"boot.bin".to_vec());
    assert_eq!(outs[0].result, WriteResult::Direct);
    assert_eq!(sink.files.len(), 2);
    assert_eq!(sink.files[0].path, b"out/main/boot.bin".to_vec());
    assert_eq!(sink.files[0].data, b"boot bytes".to_vec());
    assert_eq!(sink.files[0].mode, 0o755);
    assert_eq!(sink.files[1].path, b"out/main/etc/conf".to_vec());
}

#[test]
fn extraction_rejects_absolute_names_before_writing() {
    let a = decode(build_archive(
        "main",
        1,
        &[("ok.bin", b"fine", 0o644), ("/etc/passwd", b"evil", 0o644)],
    ));
    let mut sink = DirectFileSystem::new();
    match extract(&a, &b"out".to_vec(), &mut sink) {
        Err(ExtractError::AbsolutePath(package, file)) => {
            assert_eq!(package, b"main".to_vec());
            assert_eq!(file, b"/etc/passwd".to_vec());
        },
        _ => panic!("absolute path accepted"),
    }
    assert_eq!(sink.files.len(), 0);
}

#[test]
fn extraction_never_writes_a_corrupt_archive() {
    let mut bytes = build_archive("main", 1, &[("a.bin", b"content", 0o644)]);
    let n = bytes.len();
    bytes[n - 1] ^= 1;
    let a = decode(bytes);
    let mut sink = DirectFileSystem::new();
    match extract(&a, &b"out".to_vec(), &mut sink) {
        Err(ExtractError::Verification(fails)) => {
            assert_eq!(fails.len(), 1);
            assert_eq!(fails[0].file, b"a.bin".to_vec());
        },
        _ => panic!("corrupt archive extracted"),
    }
    assert_eq!(sink.files.len(), 0);
}

#[test]
fn cas_sink_deduplicates_identical_content() {
    let a = decode(build_archive(
        "main",
        1,
        &[("one.bin", b"same bytes", 0o644), ("two.bin", b"same bytes", 0o600)],
    ));
    let store = ContentAddressableStore::new(b"cas".to_vec());
    let mut sink = CasFileSystem::new(store, LinkStrategy::ReflinkOrCopy);
    let outs = extract(&a, &b"out".to_vec(), &mut sink).unwrap();
    assert_eq!(
        outs[0].result,
        WriteResult::Cas { cached: false, method: LinkResult::Reflink }
    );
    assert_eq!(
        outs[1].result,
        WriteResult::Cas { cached: true, method: LinkResult::Reflink }
    );
    let hash = hex_encode(&hmac_of(b"same bytes").to_vec());
    assert!(sink.cas.contains(&hash));
    // Permissions are a property of each destination, not the object.
    assert_eq!(sink.files[0].mode, 0o644);
    assert_eq!(sink.files[1].mode, 0o600);
}

#[test]
fn cas_sink_on_hardlink_only_filesystem_reports_hardlink() {
    let a = decode(build_archive("main", 1, &[("a.bin", b"x", 0o644)]));
    let store = ContentAddressableStore::new(b"cas".to_vec());
    let caps = LinkCapabilities { reflink: false, hardlink: true, copy: true };
    let mut sink = CasFileSystem::with_capabilities(store, LinkStrategy::ReflinkOrCopy, caps);
    let outs = extract(&a, &b"out".to_vec(), &mut sink).unwrap();
    assert_eq!(
        outs[0].result,
        WriteResult::Cas { cached: false, method: LinkResult::Hardlink }
    );
}

#[test]
fn report_rows_come_sorted_by_name() {
    let a = decode(build_archive(
        "main",
        2,
        &[("zeta.bin", b"z", 0o644), ("alpha.bin", b"a", 0o644), ("mid.bin", b"m", 0o644)],
    ));
    let reports = verify(&a);
    assert_eq!(reports.len(), 1);
    let r = &reports[0];
    assert_eq!(r.name, b"main".to_vec());
    assert_eq!(r.major_version, 0);
    assert_eq!(r.minor_version, 9);
    assert_eq!(r.patch_version, 1);
    let names: Vec<&[u8]> = r.rows.iter().map(|row| row.name.as_slice()).collect();
    assert_eq!(names, vec![b"alpha.bin".as_slice(), b"mid.bin", b"zeta.bin"]);
    assert!(r.rows.iter().all(|row| row.readable && row.md5_ok && row.hmac_ok));
}

#[test]
fn report_marks_a_corrupt_file() {
    let mut bytes = build_archive("main", 1, &[("a.bin", b"payload", 0o644)]);
    let n = bytes.len();
    bytes[n - 1] ^= 1;
    let a = decode(bytes);
    let reports = verify(&a);
    let row = &reports[0].rows[0];
    assert!(row.readable);
    assert!(!row.md5_ok);
    assert!(!row.hmac_ok);
}

#[test]
fn cas_version_marker_is_fixed() {
    assert_eq!(
        ContentAddressableStore::version_marker_name(),
        b".cas-version".to_vec()
    );
    assert_eq!(ContentAddressableStore::version_marker_contents(), b"1".to_vec());
}

#[test]
fn link_policy_failure_surfaces_as_a_sink_error() {
    let a = decode(build_archive("main", 1, &[("a.bin", b"x", 0o644)]));
    let store = ContentAddressableStore::new(b"cas".to_vec());
    let caps = LinkCapabilities { reflink: false, hardlink: false, copy: false };
    let mut sink = CasFileSystem::with_capabilities(store, LinkStrategy::ReflinkOnly, caps);
    match extract(&a, &b"out".to_vec(), &mut sink) {
        Err(ExtractError::Sink(spike_spk::fs::FsError::Link(e))) => {
            assert_eq!(e, spike_spk::link::LinkError::ReflinkFailedNoFallback);
        },
        _ => panic!("link failure not surfaced"),
    }
}
