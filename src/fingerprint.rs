//! Credential fingerprints: the SHA-256 digest of a blob, stored as
//! lowercase hex.

use sha2::Digest;
use vstd::prelude::*;

verus! {

/// The SHA-256 digest of a byte sequence.
pub uninterp spec fn sha256_of(data: Seq<u8>) -> Seq<u8>;

/// Relies on sha2::Sha256::digest: the 32-byte SHA-256 digest of `data`.
#[verifier::external_body]
fn sha256_digest(data: &[u8]) -> (r: Vec<u8>)
    ensures
        r@ == sha256_of(data@),
        r@.len() == 32,
{
    sha2::Sha256::digest(data).to_vec()
}

/// The fingerprint of a credential blob: its SHA-256 digest.
pub fn fingerprint(blob: &Vec<u8>) -> (r: Vec<u8>)
    ensures
        r@ == sha256_of(blob@),
        r@.len() == 32,
{
    sha256_digest(blob.as_slice())
}

/// The lowercase hex digit for a value below sixteen.
pub open spec fn hex_digit(v: nat) -> char {
    if v == 0 { '0' } else if v == 1 { '1' } else if v == 2 { '2' } else if v == 3 { '3' }
    else if v == 4 { '4' } else if v == 5 { '5' } else if v == 6 { '6' } else if v == 7 { '7' }
    else if v == 8 { '8' } else if v == 9 { '9' } else if v == 10 { 'a' } else if v == 11 { 'b' }
    else if v == 12 { 'c' } else if v == 13 { 'd' } else if v == 14 { 'e' } else { 'f' }
}

/// Lowercase hex text of a byte sequence, two digits per byte.
pub open spec fn hex_lower(data: Seq<u8>) -> Seq<char>
    decreases data.len(),
{
    if data.len() == 0 {
        seq![]
    } else {
        hex_lower(data.drop_last()) + seq![hex_digit((data.last() / 16) as nat), hex_digit((data.last() % 16) as nat)]
    }
}

/// The value of a hex digit character of either case.
pub open spec fn hex_value(c: char) -> Option<nat> {
    if '0' <= c && c <= '9' {
        Some((c as nat - '0' as nat) as nat)
    } else if 'a' <= c && c <= 'f' {
        Some((c as nat - 'a' as nat + 10) as nat)
    } else if 'A' <= c && c <= 'F' {
        Some((c as nat - 'A' as nat + 10) as nat)
    } else {
        None
    }
}

/// The bytes that a hex text denotes: an even number of hex digits of
/// either case, two per byte; any other text denotes nothing.
pub open spec fn hex_bytes(s: Seq<char>) -> Option<Seq<u8>>
    decreases s.len(),
{
    if s.len() == 0 {
        Some(seq![])
    } else if s.len() == 1 {
        None
    } else {
        let hi = hex_value(s[s.len() - 2]);
        let lo = hex_value(s[s.len() - 1]);
        match (hex_bytes(s.subrange(0, s.len() - 2)), hi, lo) {
            (Some(prefix), Some(h), Some(l)) => Some(prefix.push((h * 16 + l) as u8)),
            _ => None,
        }
    }
}

/// Relies on hex::encode: two lowercase hex digits per byte.
#[verifier::external_body]
fn hex_encode(data: &[u8]) -> (r: String)
    ensures
        r@ == hex_lower(data@),
{
    hex::encode(data)
}

/// Relies on hex::decode: the bytes of an even-length text of hex digits of
/// either case; an error for any other text.
#[verifier::external_body]
fn hex_decode(s: &str) -> (r: Option<Vec<u8>>)
    ensures
        r matches Some(b) ==> hex_bytes(s@) == Some(b@),
        r is None ==> hex_bytes(s@) is None,
{
    hex::decode(s).ok()
}

/// The stored text of a fingerprint.
pub fn fingerprint_text(digest: &Vec<u8>) -> (r: String)
    ensures
        r@ == hex_lower(digest@),
{
    hex_encode(digest.as_slice())
}

/// The fingerprint that a stored text records, if it is valid hex.
pub fn stored_fingerprint(text: &str) -> (r: Option<Vec<u8>>)
    ensures
        r matches Some(b) ==> hex_bytes(text@) == Some(b@),
        r is None ==> hex_bytes(text@) is None,
{
    hex_decode(text)
}

/// Byte-wise equality of two sequences.
pub fn bytes_equal(a: &Vec<u8>, b: &Vec<u8>) -> (r: bool)
    ensures
        r == (a@ == b@),
{
    if a.len() != b.len() {
        return false;
    }
    let mut i: usize = 0;
    while i < a.len()
        invariant
            a@.len() == b@.len(),
            i <= a@.len(),
            forall|j: int| 0 <= j < i ==> a@[j] == b@[j],
        decreases a.len() - i,
    {
        if a[i] != b[i] {
            return false;
        }
        i = i + 1;
    }
    assert(a@ =~= b@);
    true
}

proof fn lemma_hex_digit_value(v: nat)
    requires
        v < 16,
    ensures
        hex_value(hex_digit(v)) == Some(v),
{
}

/// Reading back the hex text of a byte sequence gives the sequence.
pub proof fn lemma_hex_round_trip(data: Seq<u8>)
    ensures
        hex_bytes(hex_lower(data)) == Some(data),
    decreases data.len(),
{
    if data.len() > 0 {
        let prefix = data.drop_last();
        lemma_hex_round_trip(prefix);
        let b = data.last();
        let t = hex_lower(data);
        lemma_hex_digit_value((b / 16) as nat);
        lemma_hex_digit_value((b % 16) as nat);
        assert(t.subrange(0, t.len() - 2) =~= hex_lower(prefix));
        assert(((b / 16) * 16 + b % 16) as u8 == b);
        assert(prefix.push(b) =~= data);
    }
}

} // verus!
