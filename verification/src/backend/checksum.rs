use crate::backend::error::BackendError;
use crate::backend::traits::ChecksumAlgorithm;
use crate::text::{hex_digit, push_hex_digit};
use digest::Digest;
use vstd::prelude::*;
use vstd::string::*;

verus! {

/// The MD5 digest of `data`, as `md5::compute` gives it.
pub uninterp spec fn md5_digest(data: Seq<u8>) -> Seq<u8>;

/// The SHA-1 digest of `data`, as `sha1::Sha1` gives it.
pub uninterp spec fn sha1_digest(data: Seq<u8>) -> Seq<u8>;

/// The SHA-256 digest of `data`, as `sha2::Sha256` gives it.
pub uninterp spec fn sha256_digest(data: Seq<u8>) -> Seq<u8>;

/// Calls `md5::compute`. Trusted: the bytes are the MD5 digest of `data`,
/// which the crate holds in an array of 16 bytes.
#[verifier::external_body]
fn md5_of(data: &[u8]) -> (digest: Vec<u8>)
    ensures
        digest@ == md5_digest(data@),
        digest@.len() == 16,
{
    md5::compute(data).0.to_vec()
}

/// Calls `Digest::digest` of `sha1::Sha1`. Trusted: the bytes are the SHA-1
/// digest of `data`, whose output size the crate fixes at 20 bytes.
#[verifier::external_body]
fn sha1_of(data: &[u8]) -> (digest: Vec<u8>)
    ensures
        digest@ == sha1_digest(data@),
        digest@.len() == 20,
{
    sha1::Sha1::digest(data).to_vec()
}

/// Calls `Digest::digest` of `sha2::Sha256`. Trusted: the bytes are the
/// SHA-256 digest of `data`, whose output size the crate fixes at 32 bytes.
#[verifier::external_body]
fn sha256_of(data: &[u8]) -> (digest: Vec<u8>)
    ensures
        digest@ == sha256_digest(data@),
        digest@.len() == 32,
{
    sha2::Sha256::digest(data).to_vec()
}

/// The digest of `data` under `algorithm`.
pub open spec fn digest_of(algorithm: ChecksumAlgorithm, data: Seq<u8>) -> Seq<u8> {
    match algorithm {
        ChecksumAlgorithm::Md5 => md5_digest(data),
        ChecksumAlgorithm::Sha1 => sha1_digest(data),
        ChecksumAlgorithm::Sha256 => sha256_digest(data),
    }
}

/// Number of characters of a digest of `algorithm` written in hexadecimal.
pub open spec fn hex_length(algorithm: ChecksumAlgorithm) -> nat {
    match algorithm {
        ChecksumAlgorithm::Md5 => 32,
        ChecksumAlgorithm::Sha1 => 40,
        ChecksumAlgorithm::Sha256 => 64,
    }
}

/// `bytes` in lower-case hexadecimal: two digits for each byte, the high half
/// first.
pub open spec fn hex_lower(bytes: Seq<u8>) -> Seq<char>
    decreases bytes.len(),
{
    if bytes.len() == 0 {
        Seq::empty()
    } else {
        hex_lower(bytes.drop_last()).push(hex_digit(bytes.last() / 16)).push(
            hex_digit(bytes.last() % 16),
        )
    }
}

/// Hexadecimal takes two characters for each byte.
pub proof fn lemma_hex_lower_len(bytes: Seq<u8>)
    ensures
        hex_lower(bytes).len() == 2 * bytes.len(),
    decreases bytes.len(),
{
    if bytes.len() > 0 {
        lemma_hex_lower_len(bytes.drop_last());
    }
}

/// Writes `bytes` in lower-case hexadecimal.
pub fn to_hex(bytes: &[u8]) -> (text: String)
    ensures
        text@ == hex_lower(bytes@),
        text@.len() == 2 * bytes@.len(),
{
    let mut text = String::new();
    let mut i: usize = 0;
    while i < bytes.len()
        invariant
            i <= bytes@.len(),
            text@ == hex_lower(bytes@.take(i as int)),
        decreases bytes@.len() - i,
    {
        let byte = bytes[i];
        assert(bytes@.take(i + 1).drop_last() == bytes@.take(i as int));
        assert(bytes@.take(i + 1).last() == byte);
        push_hex_digit(&mut text, byte / 16);
        push_hex_digit(&mut text, byte % 16);
        i += 1;
    }
    proof {
        assert(bytes@.take(bytes@.len() as int) == bytes@);
        lemma_hex_lower_len(bytes@);
    }
    text
}

/// The digest of `data` under `algorithm`, in lower-case hexadecimal. Its
/// length depends on the algorithm alone: 32 characters for MD5, 40 for
/// SHA-1, 64 for SHA-256.
pub fn checksum_hex(data: &[u8], algorithm: ChecksumAlgorithm) -> (text: String)
    ensures
        text@ == hex_lower(digest_of(algorithm, data@)),
        text@.len() == hex_length(algorithm),
{
    let digest = match algorithm {
        ChecksumAlgorithm::Md5 => md5_of(data),
        ChecksumAlgorithm::Sha1 => sha1_of(data),
        ChecksumAlgorithm::Sha256 => sha256_of(data),
    };
    to_hex(digest.as_slice())
}

/// Holds the digest of a copy against that of its source. Digests that
/// differ are a failure that carries both.
pub fn compare_digests(expected: String, actual: String) -> (same: Result<(), BackendError>)
    ensures
        same is Ok <==> expected@ == actual@,
        same matches Err(e) ==> (e matches BackendError::ChecksumMismatch {
            expected: shown_expected,
            actual: shown_actual,
        } && shown_expected@ == expected@ && shown_actual@ == actual@),
{
    if expected == actual {
        Ok(())
    } else {
        Err(BackendError::ChecksumMismatch { expected, actual })
    }
}

} // verus!
