//! SHA-256 digests in lowercase hexadecimal, and the proof-of-work target on them.

use vstd::prelude::*;
use vstd::string::StrSliceExecFns;
use crate::base16::{hex_encode, hex_string};

verus! {

/// The SHA-256 digest of `data`.
pub uninterp spec fn sha256(data: Seq<u8>) -> Seq<u8>;

/// Calls `sha2::Sha256::digest`. The result is the SHA-256 digest of `data`,
/// which is 32 bytes long.
#[verifier::external_body]
pub(crate) fn sha256_digest(data: &[u8]) -> (digest: Vec<u8>)
    ensures
        digest@ == sha256(data@),
        digest@.len() == 32,
{
    <sha2::Sha256 as sha2::Digest>::digest(data).to_vec()
}

/// The digest of `content` as it is stored in a block: SHA-256, in lowercase hex.
pub open spec fn digest_hex(content: Seq<u8>) -> Seq<char> {
    hex_string(sha256(content))
}

/// Hashes `content` to its 64-character lowercase hexadecimal SHA-256 digest.
pub fn calculate_hash(content: &[u8]) -> (hash: String)
    ensures
        hash@ == digest_hex(content@),
        hash@.len() == 64,
{
    let digest = sha256_digest(content);
    hex_encode(digest.as_slice())
}

/// Whether `hash` begins with at least `difficulty` characters `'0'`.
pub open spec fn has_leading_zeros(hash: Seq<char>, difficulty: nat) -> bool {
    &&& difficulty <= hash.len()
    &&& forall|i: int| 0 <= i < difficulty ==> hash[i] == '0'
}

/// Tests the proof-of-work target: at least `difficulty` leading zero digits.
pub fn meets_difficulty(hash: &str, difficulty: usize) -> (met: bool)
    ensures
        met == has_leading_zeros(hash@, difficulty as nat),
{
    let len = hash.unicode_len();
    if difficulty > len {
        return false;
    }
    let mut i: usize = 0;
    while i < difficulty
        invariant
            i <= difficulty <= len,
            len == hash@.len(),
            forall|j: int| 0 <= j < i ==> hash@[j] == '0',
        decreases difficulty - i,
    {
        if hash.get_char(i) != '0' {
            return false;
        }
        i += 1;
    }
    true
}

} // verus!
