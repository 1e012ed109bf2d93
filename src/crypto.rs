//! Keyed hashes from the RustCrypto crates: HMAC-SHA256 for stored digests
//! and HMAC-SHA1 for the time-window codes of RFC 6238.
use vstd::prelude::*;
use hmac::Mac;

verus! {

/// HMAC-SHA256 keyed by the eight big-endian bytes of `key` over the UTF-8
/// bytes of `msg`: the whole 32-byte tag.
pub uninterp spec fn mac_of(key: u64, msg: Seq<char>) -> Seq<u8>;

/// HMAC-SHA1 keyed by the eight big-endian bytes of `key` over the eight
/// big-endian bytes of `counter`.
pub uninterp spec fn hmac_sha1_of(key: u64, counter: u64) -> Seq<u8>;

/// Relies on hmac::Hmac<sha2::Sha256> (`new_from_slice`, `update`,
/// `finalize`): the tag depends on key and message alone, any key length is
/// accepted, and the tag has 32 bytes, SHA-256's output size.
#[verifier::external_body]
fn hmac_sha256(key: u64, msg: &str) -> (r: [u8; 32])
    ensures
        r@ == mac_of(key, msg@),
{
    let mut m = hmac::Hmac::<sha2::Sha256>::new_from_slice(&key.to_be_bytes()).expect("HMAC takes keys of any size");
    m.update(msg.as_bytes());
    m.finalize().into_bytes().into()
}

/// The 32-byte array whose bytes are `s`, where `s` has 32 bytes.
pub open spec fn tag_of(s: Seq<u8>) -> [u8; 32] {
    choose|a: [u8; 32]| a@ == s
}

/// A sequence of 32 bytes is the view of the array `tag_of` gives.
pub proof fn lemma_tag_of(s: Seq<u8>)
    requires
        s.len() == 32,
    ensures
        tag_of(s)@ == s,
{
    let a: [u8; 32] = [s[0], s[1], s[2], s[3], s[4], s[5], s[6], s[7], s[8], s[9], s[10], s[11], s[12], s[13], s[14], s[15], s[16], s[17], s[18], s[19], s[20], s[21], s[22], s[23], s[24], s[25], s[26], s[27], s[28], s[29], s[30], s[31]];
    assert(a@ =~= s);
}

/// The HMAC-SHA256 tag of `msg` under `key`.
pub fn keyed_tag(key: u64, msg: &str) -> (r: [u8; 32])
    ensures
        r@ == mac_of(key, msg@),
        r == tag_of(mac_of(key, msg@)),
        mac_of(key, msg@).len() == 32,
{
    let r = hmac_sha256(key, msg);
    proof {
        let t = tag_of(mac_of(key, msg@));
        assert(t@ == mac_of(key, msg@));
        assert(r =~= t);
    }
    r
}

/// Whether two tags agree on all 32 bytes. Every byte is compared, whatever
/// the earlier ones gave.
pub fn tags_equal(a: &[u8; 32], b: &[u8; 32]) -> (r: bool)
    ensures
        r == (a@ == b@),
{
    let mut same = true;
    let mut i: usize = 0;
    while i < 32
        invariant
            i <= 32,
            a@.len() == 32,
            b@.len() == 32,
            same == (forall|j: int| 0 <= j < i ==> a@[j] == b@[j]),
        decreases 32 - i,
    {
        let byte_equal = a[i] == b[i];
        if !byte_equal {
            same = false;
        }
        i = i + 1;
    }
    if same {
        assert(a@ =~= b@);
    }
    same
}

/// Relies on hmac::Hmac<sha1::Sha1> (`new_from_slice`, `update`,
/// `finalize`): the tag depends on key and message alone and is twenty bytes
/// long, SHA-1's output size.
#[verifier::external_body]
pub(crate) fn hmac_sha1(key: u64, counter: u64) -> (r: Vec<u8>)
    ensures
        r@ == hmac_sha1_of(key, counter),
        r@.len() == 20,
{
    let mut m = hmac::Hmac::<sha1::Sha1>::new_from_slice(&key.to_be_bytes()).expect("HMAC takes keys of any size");
    m.update(&counter.to_be_bytes());
    m.finalize().into_bytes().to_vec()
}

} // verus!
