//! Checksums that verify converted output.
use vstd::prelude::*;
use crate::text::str_eq;
use sha2::Digest;

verus! {

/// The lowercase hexadecimal Blake3 digest of a byte string.
pub uninterp spec fn blake3_hex(data: Seq<u8>) -> Seq<char>;

/// The lowercase hexadecimal SHA-256 digest of a byte string.
pub uninterp spec fn sha256_hex(data: Seq<u8>) -> Seq<char>;

/// Every character is a lowercase hexadecimal digit.
pub open spec fn is_lower_hex(s: Seq<char>) -> bool {
    forall|i: int| 0 <= i < s.len() ==> ('0' <= #[trigger] s[i] <= '9' || 'a' <= s[i] <= 'f')
}

/// Trusted: `blake3::hash` followed by `Hash::to_hex`. The text is a function of
/// the bytes alone; `to_hex` writes the 32-byte digest as 64 lowercase hex digits.
#[verifier::external_body]
fn blake3_hash_hex(data: &[u8]) -> (r: String)
    ensures
        r@ == blake3_hex(data@),
        r@.len() == 64,
        is_lower_hex(r@),
{
    blake3::hash(data).to_hex().to_string()
}

/// Trusted: `sha2::Sha256::digest`, written with `{:x}` (lowercase hex). The text is a
/// function of the bytes alone; the 32-byte digest gives 64 hex digits.
#[verifier::external_body]
fn sha256_digest_hex(data: &[u8]) -> (r: String)
    ensures
        r@ == sha256_hex(data@),
        r@.len() == 64,
        is_lower_hex(r@),
{
    format!("{:x}", sha2::Sha256::digest(data))
}

/// Integrity checker for converted files, using Blake3 checksums.
pub struct IntegrityChecker {
    verify_output: bool,
}

impl IntegrityChecker {
    pub fn new(verify_output: bool) -> (r: Self)
        ensures
            r.verifies() == verify_output,
    {
        IntegrityChecker { verify_output }
    }

    /// Whether output is checked at all.
    pub closed spec fn verifies(&self) -> bool {
        self.verify_output
    }

    /// Whether output is checked at all.
    pub fn verify_output(&self) -> (r: bool)
        ensures
            r == self.verifies(),
    {
        self.verify_output
    }

    /// The Blake3 checksum of a byte slice, in lowercase hex.
    pub fn checksum_bytes(&self, data: &[u8]) -> (r: String)
        ensures
            r@ == blake3_hex(data@),
            r@.len() == 64,
            is_lower_hex(r@),
    {
        blake3_hash_hex(data)
    }

    /// Whether a byte slice has the expected checksum; always true when output
    /// is not verified.
    pub fn verify_bytes(&self, data: &[u8], expected: &str) -> (r: bool)
        ensures
            r == (!self.verifies() || blake3_hex(data@) == expected@),
    {
        if !self.verify_output {
            return true;
        }
        let actual = self.checksum_bytes(data);
        str_eq(actual.as_str(), expected)
    }

    /// The SHA-256 checksum of a byte slice, in lowercase hex (for formats that use SHA-256).
    pub fn sha256_bytes(&self, data: &[u8]) -> (r: String)
        ensures
            r@ == sha256_hex(data@),
            r@.len() == 64,
            is_lower_hex(r@),
    {
        sha256_digest_hex(data)
    }

    /// Compare two byte strings, looking at every byte whatever the first difference
    /// (the comparison takes the same time for equal-length inputs).
    pub fn bytes_equal(&self, a: &[u8], b: &[u8]) -> (r: bool)
        ensures
            r == (a@ == b@),
    {
        if a.len() != b.len() {
            return false;
        }
        let mut acc: u8 = 0;
        let mut i: usize = 0;
        while i < a.len()
            invariant
                a@.len() == b@.len(),
                i <= a@.len(),
                (acc == 0) == (forall|j: int| 0 <= j < i ==> a@[j] == b@[j]),
            decreases a@.len() - i,
        {
            let x = a[i];
            let y = b[i];
            let next = acc | (x ^ y);
            assert((next == 0) == (acc == 0 && x == y)) by (bit_vector)
                requires
                    next == acc | (x ^ y),
            ;
            acc = next;
            i = i + 1;
        }
        proof {
            if acc == 0 {
                assert(a@ =~= b@);
            }
        }
        acc == 0
    }
}

impl Default for IntegrityChecker {
    fn default() -> (r: Self)
        ensures
            r.verifies(),
    {
        Self::new(true)
    }
}

} // verus!
