//! The short content hash of a bundle, and what is published under it.
//!
//! A published bundle carries the first eight hexadecimal digits of the MD5 digest of its
//! content in its file name, so that a changed bundle gets a new name.

use vstd::prelude::*;
use crate::layout::{HASHED_BUNDLE_PREFIX, HASHED_MAIN_PREFIX, HASHED_SUFFIX};

verus! {

/// The hexadecimal digits, by value.
pub const HEX_DIGITS: &'static str = "0123456789abcdef";

/// The number of characters in a short hash.
pub const SHORT_HASH_LEN: usize = 8;

/// The MD5 digest of `data`, as the `md5` crate computes it.
pub uninterp spec fn md5_digest(data: Seq<u8>) -> Seq<u8>;

/// `md5::compute`: the sixteen bytes of the returned digest are `md5_digest` of the data.
/// The digest depends on the bytes alone.
#[verifier::external_body]
fn md5_compute(data: &[u8]) -> (digest: [u8; 16])
    ensures
        digest@ == md5_digest(data@),
{
    md5::compute(data).0
}

/// The lowercase hexadecimal digit of a value below sixteen.
pub open spec fn hex_digit(value: int) -> char {
    HEX_DIGITS@[value]
}

/// The lowercase hexadecimal form of `bytes`: two digits for each byte, the high half
/// first.
pub open spec fn lower_hex(bytes: Seq<u8>) -> Seq<char> {
    Seq::new(
        2 * bytes.len(),
        |i: int|
            if i % 2 == 0 {
                hex_digit(bytes[i / 2] as int / 16)
            } else {
                hex_digit(bytes[i / 2] as int % 16)
            },
    )
}

/// The short hash that belongs to a digest: the first eight characters of its
/// hexadecimal form.
pub open spec fn short_hash_of(digest: Seq<u8>) -> Seq<char> {
    lower_hex(digest).take(SHORT_HASH_LEN as int)
}

/// The short hash of a bundle with the given content.
pub open spec fn content_hash(content: Seq<u8>) -> Seq<char> {
    short_hash_of(md5_digest(content))
}

/// The name of the copy of the bundle that is published under `hash`.
pub open spec fn hashed_bundle_name(hash: Seq<char>) -> Seq<char> {
    HASHED_BUNDLE_PREFIX@ + hash + HASHED_SUFFIX@
}

/// The name of the copy of the legacy entry file that is published under `hash`.
pub open spec fn hashed_main_name(hash: Seq<char>) -> Seq<char> {
    HASHED_MAIN_PREFIX@ + hash + HASHED_SUFFIX@
}

/// The content of the marker file that records `hash`: the hash on a line of its own.
pub open spec fn marker_text(hash: Seq<char>) -> Seq<char> {
    hash.push('\n')
}

/// What publishing a bundle writes: the two copies to make and the marker to leave.
#[derive(Debug)]
pub struct Publication {
    pub hash: String,
    pub bundle_copy: String,
    pub main_copy: String,
    pub marker: String,
}

/// The short hash of a digest of at least four bytes has eight characters, each of them a
/// lowercase hexadecimal digit.
pub proof fn lemma_short_hash_shape(digest: Seq<u8>)
    requires
        digest.len() >= 4,
    ensures
        short_hash_of(digest).len() == SHORT_HASH_LEN,
        forall|i: int|
            0 <= i < SHORT_HASH_LEN ==> HEX_DIGITS@.contains(#[trigger] short_hash_of(digest)[i]),
{
    reveal_strlit("0123456789abcdef");
    assert forall|i: int| 0 <= i < SHORT_HASH_LEN implies HEX_DIGITS@.contains(
        #[trigger] short_hash_of(digest)[i],
    ) by {
        let byte = digest[i / 2] as int;
        let value = if i % 2 == 0 {
            byte / 16
        } else {
            byte % 16
        };
        assert(0 <= value < 16);
        assert(short_hash_of(digest)[i] == HEX_DIGITS@[value]);
    }
}

/// Contents that are equal byte for byte have the same short hash.
pub proof fn lemma_content_hash_deterministic(first: Seq<u8>, second: Seq<u8>)
    requires
        first == second,
    ensures
        content_hash(first) == content_hash(second),
{
}

/// The hexadecimal digit of `value`.
fn hex_char(value: u8) -> (digit: char)
    requires
        value < 16,
    ensures
        digit == hex_digit(value as int),
{
    proof {
        reveal_strlit("0123456789abcdef");
    }
    HEX_DIGITS.get_char(value as usize)
}

/// The short hash that belongs to `digest`.
pub fn short_hash_of_digest(digest: &[u8; 16]) -> (hash: String)
    ensures
        hash@ == short_hash_of(digest@),
        hash@.len() == SHORT_HASH_LEN,
{
    let mut hash = String::new();
    let mut i: usize = 0;
    while i < SHORT_HASH_LEN / 2
        invariant
            i <= SHORT_HASH_LEN / 2,
            hash@ == lower_hex(digest@).take(2 * i),
        decreases SHORT_HASH_LEN / 2 - i,
    {
        let byte = digest[i];
        hash.push(hex_char(byte / 16));
        hash.push(hex_char(byte % 16));
        assert(hash@ =~= lower_hex(digest@).take(2 * (i + 1)));
        i += 1;
    }
    hash
}

/// The short hash of a bundle with the given content.
pub fn short_hash(content: &[u8]) -> (hash: String)
    ensures
        hash@ == content_hash(content@),
        hash@.len() == SHORT_HASH_LEN,
{
    let digest = md5_compute(content);
    short_hash_of_digest(&digest)
}

/// The name of the copy of the bundle that is published under `hash`.
pub fn hashed_bundle_file(hash: &str) -> (name: String)
    ensures
        name@ == hashed_bundle_name(hash@),
{
    let mut name = String::from_str(HASHED_BUNDLE_PREFIX);
    name.append(hash);
    name.append(HASHED_SUFFIX);
    name
}

/// The name of the copy of the legacy entry file that is published under `hash`.
pub fn hashed_main_file(hash: &str) -> (name: String)
    ensures
        name@ == hashed_main_name(hash@),
{
    let mut name = String::from_str(HASHED_MAIN_PREFIX);
    name.append(hash);
    name.append(HASHED_SUFFIX);
    name
}

/// The content of the marker file that records `hash`.
pub fn hash_marker(hash: &str) -> (marker: String)
    ensures
        marker@ == marker_text(hash@),
{
    let mut marker = String::from_str(hash);
    marker.push('\n');
    marker
}

/// What to publish for a bundle with the given content.
pub fn plan_publication(content: &[u8]) -> (plan: Publication)
    ensures
        plan.hash@ == content_hash(content@),
        plan.bundle_copy@ == hashed_bundle_name(content_hash(content@)),
        plan.main_copy@ == hashed_main_name(content_hash(content@)),
        plan.marker@ == marker_text(content_hash(content@)),
{
    let hash = short_hash(content);
    let bundle_copy = hashed_bundle_file(hash.as_str());
    let main_copy = hashed_main_file(hash.as_str());
    let marker = hash_marker(hash.as_str());
    Publication { hash, bundle_copy, main_copy, marker }
}

} // verus!
