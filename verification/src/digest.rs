//! SHA-256 through the `sha2` crate, and the lower-case hexadecimal rendering of a digest.
use vstd::prelude::*;
use sha2::Digest;
use crate::text::hex_digit;

verus! {

/// The SHA-256 digest of a byte sequence, as `sha2` computes it.
pub uninterp spec fn sha256(data: Seq<u8>) -> Seq<u8>;

/// Calls `<sha2::Sha256 as sha2::Digest>::digest`.
/// Trusted: the result is the digest that `sha256` names for these bytes, and it is
/// 32 bytes long, as the type `Output<Sha256>` (a `GenericArray` of length `U32`) fixes.
#[verifier::external_body]
pub(crate) fn sha256_digest(data: &[u8]) -> (res: Vec<u8>)
    ensures
        res@ == sha256(data@),
        res@.len() == 32,
{
    sha2::Sha256::digest(data).to_vec()
}

/// Two lower-case hexadecimal digits per byte, high nibble first; this is what
/// `{:x}` prints for a digest.
pub open spec fn hex_lower(bytes: Seq<u8>) -> Seq<char>
    decreases bytes.len(),
{
    if bytes.len() == 0 {
        Seq::empty()
    } else {
        hex_lower(bytes.drop_last()) + seq![
            hex_digit((bytes.last() / 16) as nat),
            hex_digit((bytes.last() % 16) as nat),
        ]
    }
}

/// A lower-case hexadecimal digit: `0`-`9` or `a`-`f`.
pub open spec fn is_lower_hex_digit(c: char) -> bool {
    ('0' <= c && c <= '9') || ('a' <= c && c <= 'f')
}

/// Every character of `s` is a lower-case hexadecimal digit.
pub open spec fn is_lower_hex(s: Seq<char>) -> bool {
    forall|i: int| 0 <= i < s.len() ==> is_lower_hex_digit(#[trigger] s[i])
}

proof fn lemma_hex_digit_is_lower_hex(d: nat)
    requires
        d < 16,
    ensures
        is_lower_hex_digit(hex_digit(d)),
{
    if d < 10 {
        assert(hex_digit(d) == (48 + d) as char);
    }
}

/// Renders bytes as lower-case hexadecimal: two digits per byte.
pub fn to_hex_lower(bytes: &[u8]) -> (s: String)
    ensures
        s@ == hex_lower(bytes@),
        s@.len() == 2 * bytes@.len(),
        is_lower_hex(s@),
{
    let mut s = String::new();
    let n = bytes.len();
    for i in 0..n
        invariant
            n == bytes@.len(),
            s@ == hex_lower(bytes@.take(i as int)),
            s@.len() == 2 * i,
            is_lower_hex(s@),
    {
        let b = bytes[i];
        let ghost before = s@;
        let hi = crate::text::digit_str((b / 16) as u64);
        let lo = crate::text::digit_str((b % 16) as u64);
        proof {
            lemma_hex_digit_is_lower_hex((b / 16) as nat);
            lemma_hex_digit_is_lower_hex((b % 16) as nat);
        }
        s.append(hi);
        s.append(lo);
        assert forall|j: int| 0 <= j < s@.len() implies is_lower_hex_digit(#[trigger] s@[j]) by {
            if j < before.len() {
                assert(s@[j] == before[j]);
            } else if j == before.len() {
                assert(s@[j] == hi@[0]);
            } else {
                assert(s@[j] == lo@[0]);
            }
        }
        assert(bytes@.take(i + 1).drop_last() == bytes@.take(i as int));
    }
    assert(bytes@.take(n as int) == bytes@);
    s
}

} // verus!
