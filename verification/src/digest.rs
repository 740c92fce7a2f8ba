//! Hexadecimal text and SHA-256 digests.
use sha2::Digest;
use vstd::prelude::*;

verus! {

/// The lower-case hexadecimal digit for `d`.
pub open spec fn hex_digit(d: nat) -> char
    recommends
        d < 16,
{
    if d < 10 {
        (48 + d) as char
    } else {
        (87 + d) as char
    }
}

/// Two hexadecimal digits for each byte, the high half first.
pub open spec fn hex_of(bytes: Seq<u8>) -> Seq<char> {
    Seq::new(
        2 * bytes.len(),
        |i: int|
            hex_digit(
                if i % 2 == 0 {
                    (bytes[i / 2] as nat) / 16
                } else {
                    (bytes[i / 2] as nat) % 16
                },
            ),
    )
}

/// `hex::encode` writes each byte as two lower-case hexadecimal digits.
#[verifier::external_body]
pub(crate) fn hex_text(bytes: &[u8]) -> (s: String)
    ensures
        s@ == hex_of(bytes@),
{
    hex::encode(bytes)
}

/// The SHA-256 digest of a byte string, as `sha2::Sha256` computes it.
pub uninterp spec fn sha256(data: Seq<u8>) -> Seq<u8>;

/// `sha2::Sha256::digest` hashes a byte string to 32 bytes.
#[verifier::external_body]
pub(crate) fn sha256_digest(data: &[u8]) -> (d: Vec<u8>)
    ensures
        d@ == sha256(data@),
        d@.len() == 32,
{
    sha2::Sha256::digest(data).to_vec()
}

/// The SHA-256 digest of a byte string in hexadecimal.
pub fn sha256_hex(data: &[u8]) -> (s: String)
    ensures
        s@ == hex_of(sha256(data@)),
        s@.len() == 64,
{
    let digest = sha256_digest(data);
    hex_text(digest.as_slice())
}

/// Different byte strings have different hexadecimal forms.
pub proof fn law_hex_injective(a: Seq<u8>, b: Seq<u8>)
    requires
        hex_of(a) == hex_of(b),
    ensures
        a == b,
{
    assert(hex_of(a).len() == 2 * a.len());
    assert(hex_of(b).len() == 2 * b.len());
    assert forall|i: int| 0 <= i < a.len() implies a[i] == b[i] by {
        let x = hex_of(a);
        let y = hex_of(b);
        assert(x[2 * i] == y[2 * i]);
        assert(x[2 * i + 1] == y[2 * i + 1]);
        assert((2 * i) / 2 == i && (2 * i) % 2 == 0);
        assert((2 * i + 1) / 2 == i && (2 * i + 1) % 2 == 1);
        lemma_hex_digit_injective((a[i] as nat) / 16, (b[i] as nat) / 16);
        lemma_hex_digit_injective((a[i] as nat) % 16, (b[i] as nat) % 16);
    }
    assert(a =~= b);
}

proof fn lemma_hex_digit_injective(a: nat, b: nat)
    requires
        a < 16,
        b < 16,
        hex_digit(a) == hex_digit(b),
    ensures
        a == b,
{
    assert(hex_digit(a) as int == if a < 10 {
        48 + a
    } else {
        87 + a
    });
    assert(hex_digit(b) as int == if b < 10 {
        48 + b
    } else {
        87 + b
    });
}

/// The number that a lower-case hexadecimal digit stands for.
pub open spec fn hex_value(c: char) -> Option<nat> {
    if '0' <= c <= '9' {
        Some((c as int - '0' as int) as nat)
    } else if 'a' <= c <= 'f' {
        Some((c as int - 'a' as int + 10) as nat)
    } else {
        None
    }
}

/// A byte is read back from its two digits, the high half first, and there are no
/// other digits.
pub proof fn law_hex_reads_back(bytes: Seq<u8>, i: int)
    requires
        0 <= i < bytes.len(),
    ensures
        hex_of(bytes).len() == 2 * bytes.len(),
        hex_value(hex_of(bytes)[2 * i]) is Some,
        hex_value(hex_of(bytes)[2 * i + 1]) is Some,
        bytes[i] == 16 * hex_value(hex_of(bytes)[2 * i])->0 + hex_value(
            hex_of(bytes)[2 * i + 1],
        )->0,
{
    assert((2 * i) / 2 == i && (2 * i) % 2 == 0);
    assert((2 * i + 1) / 2 == i && (2 * i + 1) % 2 == 1);
    let high = (bytes[i] as nat) / 16;
    let low = (bytes[i] as nat) % 16;
    assert(hex_digit(high) as int == if high < 10 {
        48 + high
    } else {
        87 + high
    });
    assert(hex_digit(low) as int == if low < 10 {
        48 + low
    } else {
        87 + low
    });
}

/// A digest is printed as two lower-case digits for each of its 32 bytes, and reads back
/// as them.
pub proof fn law_digest_is_printed_in_full(data: &[u8], s: String, i: int)
    requires
        call_ensures(sha256_hex, (data,), s),
        0 <= i < 32,
    ensures
        s@.len() == 64,
        hex_value(s@[2 * i]) is Some,
        hex_value(s@[2 * i + 1]) is Some,
        16 * hex_value(s@[2 * i])->0 + hex_value(s@[2 * i + 1])->0 == sha256(data@)[i],
{
    assert(hex_of(sha256(data@)).len() == 2 * sha256(data@).len());
    law_hex_reads_back(sha256(data@), i);
}

} // verus!
