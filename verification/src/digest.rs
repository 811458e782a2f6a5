use vstd::prelude::*;

use hmac::Mac;
use md5::Digest;

verus! {

/// The fixed 16-byte HMAC key the controller vendor compiled into its
/// firmware.  It is a reverse-engineered constant, not a rotatable
/// secret, so it lives here as part of the format's definition.
pub open spec fn spec_hmac_key() -> Seq<u8> {
    seq![
        0x8eu8,
        0x1fu8,
        0x55u8,
        0x43u8,
        0xc2u8,
        0xf5u8,
        0x4au8,
        0x11u8,
        0x67u8,
        0x3au8,
        0x28u8,
        0x2au8,
        0x2fu8,
        0x87u8,
        0xc0u8,
        0x06u8,
    ]
}

/// The fixed HMAC key as bytes.
pub fn hmac_key() -> (r: Vec<u8>)
    ensures
        r@ == spec_hmac_key(),
{
    let mut k: Vec<u8> = Vec::new();
    k.push(0x8e);
    k.push(0x1f);
    k.push(0x55);
    k.push(0x43);
    k.push(0xc2);
    k.push(0xf5);
    k.push(0x4a);
    k.push(0x11);
    k.push(0x67);
    k.push(0x3a);
    k.push(0x28);
    k.push(0x2a);
    k.push(0x2f);
    k.push(0x87);
    k.push(0xc0);
    k.push(0x06);
    proof {
        assert(k@ =~= spec_hmac_key());
    }
    k
}

/// The MD5 digest of a byte sequence.
pub uninterp spec fn md5_of(data: Seq<u8>) -> Seq<u8>;

/// The HMAC-SHA1 digest of a message under a key.
pub uninterp spec fn hmac_sha1_of(key: Seq<u8>, data: Seq<u8>) -> Seq<u8>;

/// Relies on md5's `Md5::digest`: the digest is a function of the input
/// bytes alone, and is always 16 bytes long.
#[verifier::external_body]
pub fn md5_digest(data: &Vec<u8>) -> (r: Vec<u8>)
    ensures
        r@ == md5_of(data@),
        r@.len() == 16,
{
    md5::Md5::digest(data.as_slice()).to_vec()
}

/// Relies on hmac's `Hmac::<Sha1>::new_from_slice`, `update` and
/// `finalize`: the digest is a function of key and message alone, is
/// always 20 bytes long, and a key of any length is accepted.
#[verifier::external_body]
pub fn hmac_sha1(key: &Vec<u8>, data: &Vec<u8>) -> (r: Vec<u8>)
    ensures
        r@ == hmac_sha1_of(key@, data@),
        r@.len() == 20,
{
    let mut mac = hmac::Hmac::<sha1::Sha1>::new_from_slice(key.as_slice()).expect(
        "HMAC accepts a key of any length",
    );
    mac.update(data.as_slice());
    mac.finalize().into_bytes().to_vec()
}

} // verus!
