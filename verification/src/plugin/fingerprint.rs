//! Fingerprints of plugin content, by which a change under the same version is seen.
use sha2::Digest;
use vstd::prelude::*;

verus! {

/// SHA-256 digest of bytes.
pub uninterp spec fn sha256_digest(bytes: Seq<u8>) -> Seq<u8>;

/// Lower-case hexadecimal digit.
pub open spec fn hex_digit(n: int) -> char {
    if n < 10 {
        ('0' as int + n) as char
    } else {
        ('a' as int + (n - 10)) as char
    }
}

/// Two hexadecimal digits for each byte, the high half first.
pub open spec fn hex_text(bytes: Seq<u8>) -> Seq<char> {
    Seq::new(
        2 * bytes.len(),
        |i: int|
            if i % 2 == 0 {
                hex_digit(bytes[i / 2] as int / 16)
            } else {
                hex_digit(bytes[i / 2] as int % 16)
            },
    )
}

/// `sha2::Sha256::digest`: the SHA-256 digest of the bytes, 32 bytes long. The digest is named,
/// not spelled out.
#[verifier::external_body]
fn sha256(bytes: &[u8]) -> (r: Vec<u8>)
    ensures
        r@ == sha256_digest(bytes@),
        r@.len() == 32,
{
    sha2::Sha256::digest(bytes).to_vec()
}

/// `hex::encode`: two lower-case hexadecimal digits for each byte, the high half first. The
/// text must fit in memory.
#[verifier::external_body]
pub(crate) fn hex_encode(bytes: &[u8]) -> (r: String)
    requires
        2 * bytes@.len() <= isize::MAX,
    ensures
        r@ == hex_text(bytes@),
{
    hex::encode(bytes)
}

/// Fingerprint of a digest.
pub open spec fn fingerprint_of(digest: Seq<u8>) -> Seq<char> {
    "sha256:"@ + hex_text(digest)
}

/// The fingerprint of a digest: its kind and its hexadecimal digits.
pub fn fingerprint_text(digest: &[u8]) -> (r: String)
    requires
        2 * digest@.len() <= isize::MAX,
    ensures
        r@ == fingerprint_of(digest@),
{
    let mut out = "sha256:".to_owned();
    out.append(hex_encode(digest).as_str());
    out
}

/// The fingerprint of content.
pub fn content_fingerprint_bytes(bytes: &[u8]) -> (r: String)
    ensures
        r@ == fingerprint_of(sha256_digest(bytes@)),
        r@.len() == "sha256:"@.len() + 64,
{
    let digest = sha256(bytes);
    fingerprint_text(digest.as_slice())
}

proof fn lemma_hex_digits_differ(a: int, b: int)
    requires
        0 <= a < 16,
        0 <= b < 16,
        hex_digit(a) == hex_digit(b),
    ensures
        a == b,
{
}

/// Digests differ exactly where their fingerprints do.
pub proof fn law_fingerprints_tell_digests_apart(a: Seq<u8>, b: Seq<u8>)
    ensures
        fingerprint_of(a) == fingerprint_of(b) <==> a == b,
{
    if fingerprint_of(a) == fingerprint_of(b) {
        let head = "sha256:"@;
        let x = hex_text(a);
        let y = hex_text(b);
        assert(x =~= (head + x).skip(head.len() as int));
        assert(y =~= (head + y).skip(head.len() as int));
        assert(x == y);
        assert(x.len() == 2 * a.len());
        assert(y.len() == 2 * b.len());
        assert forall|i: int| 0 <= i < a.len() implies a[i] == b[i] by {
            assert(x[2 * i] == y[2 * i]);
            assert(x[2 * i + 1] == y[2 * i + 1]);
            assert((2 * i) / 2 == i && (2 * i) % 2 == 0);
            assert((2 * i + 1) / 2 == i && (2 * i + 1) % 2 == 1);
            lemma_hex_digits_differ(a[i] as int / 16, b[i] as int / 16);
            lemma_hex_digits_differ(a[i] as int % 16, b[i] as int % 16);
        }
        assert(a =~= b);
    }
}

} // verus!
