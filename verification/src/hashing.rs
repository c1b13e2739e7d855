//! Content identity: a fixed-length lowercase-hex digest of a file's
//! bytes.  The digest itself comes from an outside hash implementation;
//! the hex rendering and everything downstream of it is verified.

use vstd::prelude::*;

verus! {

/// The 256-bit digest of a byte sequence, as 32 bytes.  The value is a
/// function of the input bytes alone.
pub uninterp spec fn sha256_of(data: Seq<u8>) -> Seq<u8>;

/// Relies on sha2::Sha256::digest: a 32-byte digest that depends on the
/// input bytes alone.
#[verifier::external_body]
fn sha256_bytes(data: &Vec<u8>) -> (digest: Vec<u8>)
    ensures
        digest@ == sha256_of(data@),
        digest@.len() == 32,
{
    let d = <sha2::Sha256 as sha2::Digest>::digest(data.as_slice());
    d.to_vec()
}

/// True of the bytes that lowercase hexadecimal rendering produces.
pub open spec fn is_hex_digit_byte(b: u8) -> bool {
    (48 <= b <= 57) || (97 <= b <= 102)
}

/// True iff every byte of `s` is a lowercase hexadecimal digit.
pub open spec fn is_hex(s: Seq<u8>) -> bool {
    forall|k: int| 0 <= k < s.len() ==> is_hex_digit_byte(#[trigger] s[k])
}

/// The ASCII byte for the hex digit of a value below 16.
pub open spec fn hex_digit(n: u8) -> u8
    recommends
        n < 16,
{
    if n < 10 {
        (48 + n) as u8
    } else {
        (87 + n) as u8
    }
}

/// Lowercase hexadecimal rendering: two digits for each input byte.
pub open spec fn hex_of(bytes: Seq<u8>) -> Seq<u8> {
    Seq::new(
        2 * bytes.len(),
        |i: int|
            if i % 2 == 0 {
                hex_digit(bytes[i / 2] / 16)
            } else {
                hex_digit(bytes[i / 2] % 16)
            },
    )
}

/// Renders bytes as lowercase hex.
pub fn to_hex(bytes: &Vec<u8>) -> (r: Vec<u8>)
    ensures
        r@ == hex_of(bytes@),
        r@.len() == 2 * bytes@.len(),
        is_hex(r@),
{
    let n = bytes.len();
    let mut out: Vec<u8> = Vec::new();
    let mut i: usize = 0;
    while i < n
        invariant
            n == bytes@.len(),
            0 <= i <= n,
            out@ == hex_of(bytes@.subrange(0, i as int)),
            out@.len() == 2 * i,
        decreases n - i,
    {
        let b = bytes[i];
        let hi = b / 16;
        let lo = b % 16;
        let hc: u8 = if hi < 10 {
            48 + hi
        } else {
            87 + hi
        };
        let lc: u8 = if lo < 10 {
            48 + lo
        } else {
            87 + lo
        };
        out.push(hc);
        out.push(lc);
        i = i + 1;
        proof {
            assert(out@ =~= hex_of(bytes@.subrange(0, i as int)));
        }
    }
    proof {
        assert(bytes@.subrange(0, n as int) =~= bytes@);
        assert forall|k: int| 0 <= k < hex_of(bytes@).len() implies is_hex_digit_byte(
            #[trigger] hex_of(bytes@)[k],
        ) by {}
    }
    out
}

/// The content identity of a byte sequence: the lowercase-hex form of
/// its 256-bit digest.
pub open spec fn spec_identity(data: Seq<u8>) -> Seq<u8> {
    hex_of(sha256_of(data))
}

/// Computes the content identity of `data`: 64 lowercase hex digits.
pub fn identity_of(data: &Vec<u8>) -> (id: Vec<u8>)
    ensures
        id@ == spec_identity(data@),
        id@.len() == 64,
        is_hex(id@),
{
    let digest = sha256_bytes(data);
    to_hex(&digest)
}

/// Determinism: the content identity is a function of the bytes alone,
/// so equal byte sequences always receive equal identities.
pub proof fn lemma_identity_deterministic(a: Seq<u8>, b: Seq<u8>)
    requires
        a == b,
    ensures
        spec_identity(a) == spec_identity(b),
{
}

} // verus!
