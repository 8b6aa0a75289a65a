//! Digests and their text forms.
use crate::ids;
use vstd::prelude::*;

verus! {

/// The SHA-256 digest of a byte string.
pub uninterp spec fn sha256_of(bytes: Seq<u8>) -> Seq<u8>;

/// `sha2::Sha256::digest`: a function of the bytes alone, always 32 bytes long.
#[verifier::external_body]
fn sha256(bytes: &[u8]) -> (digest: Vec<u8>)
    ensures
        digest@ == sha256_of(bytes@),
        digest@.len() == 32,
{
    <sha2::Sha256 as sha2::Digest>::digest(bytes).to_vec()
}

/// The digest of some bytes.
pub fn digest(bytes: &[u8]) -> (found: Vec<u8>)
    ensures
        found@ == sha256_of(bytes@),
        found@.len() == 32,
{
    sha256(bytes)
}

/// The two lower-case hexadecimal digits of every byte.
pub open spec fn hex_of(bytes: Seq<u8>) -> Seq<char> {
    Seq::new(
        2 * bytes.len(),
        |i: int|
            if i % 2 == 0 {
                ids::hex_char(bytes[i / 2] as int / 16)
            } else {
                ids::hex_char(bytes[i / 2] as int % 16)
            },
    )
}

fn hex_digit(value: u8) -> (digit: char)
    requires
        value < 16,
    ensures
        digit == ids::hex_char(value as int),
{
    if value < 10 {
        (48u8 + value) as char
    } else {
        (87u8 + value) as char
    }
}

/// Writes bytes in lower-case hexadecimal.
pub fn hex(bytes: &[u8]) -> (text: String)
    ensures
        text@ == hex_of(bytes@),
{
    let mut text = String::new();
    let mut at: usize = 0;
    while at < bytes.len()
        invariant
            at <= bytes@.len(),
            text@ == hex_of(bytes@.take(at as int)),
        decreases bytes@.len() - at,
    {
        let byte: u8 = bytes[at];
        text.push(hex_digit(byte / 16));
        text.push(hex_digit(byte % 16));
        assert(text@ =~= hex_of(bytes@.take(at + 1)));
        at = at + 1;
    }
    assert(bytes@.take(at as int) =~= bytes@);
    text
}

/// Different bytes have different hexadecimal forms.
pub proof fn hex_is_injective(left: Seq<u8>, right: Seq<u8>)
    requires
        hex_of(left) == hex_of(right),
    ensures
        left == right,
{
    assert(left.len() == right.len()) by {
        assert(hex_of(left).len() == 2 * left.len());
        assert(hex_of(right).len() == 2 * right.len());
    }
    assert forall|i: int| 0 <= i < left.len() implies left[i] == right[i] by {
        let (l, r) = (left[i] as int, right[i] as int);
        assert(hex_of(left)[2 * i] == ids::hex_char(l / 16));
        assert(hex_of(right)[2 * i] == ids::hex_char(r / 16));
        assert(hex_of(left)[2 * i + 1] == ids::hex_char(l % 16));
        assert(hex_of(right)[2 * i + 1] == ids::hex_char(r % 16));
        hex_chars_differ(l / 16, r / 16);
        hex_chars_differ(l % 16, r % 16);
    }
    assert(left =~= right);
}

proof fn hex_chars_differ(left: int, right: int)
    requires
        0 <= left < 16,
        0 <= right < 16,
        ids::hex_char(left) == ids::hex_char(right),
    ensures
        left == right,
{
}

/// Every character of a hexadecimal form is a decimal digit or one of `a` to `f`.
pub proof fn hex_is_lower_case(bytes: Seq<u8>, at: int)
    requires
        0 <= at < hex_of(bytes).len(),
    ensures
        '0' <= hex_of(bytes)[at] <= '9' || 'a' <= hex_of(bytes)[at] <= 'f',
{
}

/// The stored form of a secret: the hexadecimal SHA-256 digest of its UTF-8 bytes.
pub open spec fn token_hash_of(token: Seq<char>) -> Seq<char> {
    hex_of(sha256_of(vstd::utf8::encode_utf8(token)))
}

/// The stored form of a secret.
pub fn token_hash(token: &str) -> (hash: String)
    ensures
        hash@ == token_hash_of(token@),
        hash@.len() == 64,
{
    let digest = sha256(token.as_bytes());
    hex(digest.as_slice())
}

/// `rand_core::OsRng.try_fill_bytes`: as many bytes as were asked for, or nothing where the
/// operating system has none to give. Which bytes they are is left open.
#[verifier::external_body]
fn random_bytes(count: usize) -> (bytes: Option<Vec<u8>>)
    requires
        count <= isize::MAX,
    ensures
        bytes matches Some(bytes) ==> bytes@.len() == count,
{
    let mut bytes = vec![0u8; count];
    rand_core::RngCore::try_fill_bytes(&mut rand_core::OsRng, &mut bytes).ok()?;
    Some(bytes)
}

/// Fresh random bytes, where the operating system has them to give.
pub fn fresh_bytes(count: usize) -> (bytes: Option<Vec<u8>>)
    requires
        count <= isize::MAX,
    ensures
        bytes matches Some(bytes) ==> bytes@.len() == count,
{
    random_bytes(count)
}

} // verus!
