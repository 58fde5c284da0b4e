//! Hashing of service secrets, and the hexadecimal text of digests.
use vstd::prelude::*;

use std::collections::hash_map::DefaultHasher;
use std::hash::Hasher;
use sha2::Digest;

use crate::text::string_from_chars;
use vstd::std_specs::hash::DefaultHasherAdditionalSpecFns;
use vstd::string::StringSliceAdditionalSpecFns;

verus! {

/// The lower-case hexadecimal digit of a value below 16.
pub open spec fn hex_char(d: int) -> char {
    if d < 10 {
        ((d + 48) as u8) as char
    } else {
        ((d - 10 + 97) as u8) as char
    }
}

/// Two lower-case hexadecimal digits per byte, high nibble first.
pub open spec fn hex_lower(data: Seq<u8>) -> Seq<char>
    decreases data.len(),
{
    if data.len() == 0 {
        Seq::empty()
    } else {
        let b = data.last();
        hex_lower(data.drop_last()) + seq![hex_char((b / 16) as int), hex_char((b % 16) as int)]
    }
}

/// The last `n` hexadecimal digits of `x`, most significant first.
pub open spec fn hex_digits(x: nat, n: nat) -> Seq<char>
    decreases n,
{
    if n == 0 {
        Seq::empty()
    } else {
        hex_digits(x / 16, (n - 1) as nat).push(hex_char((x % 16) as int))
    }
}

/// `x` as sixteen zero-padded lower-case hexadecimal digits (`{:016x}`).
pub open spec fn hex16(x: u64) -> Seq<char> {
    hex_digits(x as nat, 16)
}

/// The hex text of data has two characters per byte.
pub proof fn lemma_hex_lower_len(data: Seq<u8>)
    ensures
        hex_lower(data).len() == 2 * data.len(),
    decreases data.len(),
{
    if data.len() > 0 {
        lemma_hex_lower_len(data.drop_last());
    }
}

proof fn lemma_hex_digits_len(x: nat, n: nat)
    ensures
        hex_digits(x, n).len() == n,
    decreases n,
{
    if n > 0 {
        lemma_hex_digits_len(x / 16, (n - 1) as nat);
    }
}

/// The SHA-256 digest of a byte sequence.
pub uninterp spec fn sha256_of(data: Seq<u8>) -> Seq<u8>;

/// `sha2::Sha256::digest`: the contract names the digest and states that it
/// is 32 bytes long, as SHA-256's output size is.
#[verifier::external_body]
fn sha256_digest(data: &[u8]) -> (r: Vec<u8>)
    ensures
        r@ == sha256_of(data@),
        r@.len() == 32,
{
    sha2::Sha256::digest(data).to_vec()
}

/// `hex::encode`: lower-case hexadecimal text, two digits per byte, high
/// nibble first, as the crate's documentation and source show.
#[verifier::external_body]
fn hex_encode(data: &[u8]) -> (r: String)
    ensures
        r@ == hex_lower(data@),
{
    hex::encode(data)
}

/// The SHA-256 form of a text: the lower-case hex of the digest of its
/// UTF-8 bytes.
pub open spec fn sha256_hex_of(text: Seq<char>) -> Seq<char> {
    hex_lower(sha256_of(vstd::utf8::encode_utf8(text)))
}

/// The stored form of a service secret: the lower-case hex text of the
/// SHA-256 digest of its UTF-8 bytes (64 characters).
pub fn hash_secret(secret: &str) -> (r: String)
    ensures
        r@ == hex_lower(sha256_of(secret.spec_bytes())),
        r@.len() == 64,
{
    let digest = sha256_digest(secret.as_bytes());
    let r = hex_encode(digest.as_slice());
    proof {
        lemma_hex_lower_len(digest@);
    }
    r
}

fn push_hex_digits(x: u64, n: usize, out: &mut Vec<char>)
    ensures
        final(out)@ == old(out)@ + hex_digits(x as nat, n as nat),
    decreases n,
{
    if n > 0 {
        push_hex_digits(x / 16, n - 1, out);
        let d = x % 16;
        let c: char = if d < 10 {
            ((d as u8) + 48) as char
        } else {
            ((d as u8) - 10 + 97) as char
        };
        out.push(c);
        assert(hex_digits(x as nat, n as nat) == hex_digits((x / 16) as nat, (n - 1) as nat).push(
            hex_char((x % 16) as int),
        ));
    } else {
        assert(old(out)@ + hex_digits(x as nat, 0) =~= old(out)@);
    }
}

/// `format!("{:016x}", x)`: sixteen zero-padded lower-case hex digits.
pub fn u64_to_hex16(x: u64) -> (r: String)
    ensures
        r@ == hex16(x),
        r@.len() == 16,
{
    let mut cs: Vec<char> = Vec::new();
    push_hex_digits(x, 16, &mut cs);
    assert(cs@ =~= hex16(x));
    proof {
        lemma_hex_digits_len(x as nat, 16);
    }
    string_from_chars(&cs)
}

/// The byte writes with which `<str as Hash>::hash` feeds a hasher: the
/// string's bytes, then the terminating byte `0xff`.
pub open spec fn str_hash_writes(s: Seq<u8>) -> Seq<Seq<u8>> {
    seq![s, seq![0xffu8]]
}

/// The short fingerprint of a text: std's default hash of its UTF-8 bytes
/// (then `0xff`) as sixteen lower-case hex digits.
pub open spec fn simple_hash_of(text: Seq<char>) -> Seq<char> {
    hex16(DefaultHasher::spec_finish(str_hash_writes(vstd::utf8::encode_utf8(text))))
}

/// The short fingerprint of a secret: std's default hash of the string (its
/// bytes, then `0xff`, into a fresh `DefaultHasher`) as sixteen lower-case
/// hex digits.
pub fn simple_hash(input: &str) -> (r: String)
    ensures
        r@ == hex16(DefaultHasher::spec_finish(str_hash_writes(input.spec_bytes()))),
        r@.len() == 16,
{
    let mut hasher = DefaultHasher::new();
    let bytes = input.as_bytes();
    hasher.write(bytes);
    let mut end: Vec<u8> = Vec::new();
    end.push(0xffu8);
    hasher.write(end.as_slice());
    assert(end@ =~= seq![0xffu8]);
    assert(hasher@ =~= str_hash_writes(input.spec_bytes()));
    let h = hasher.finish();
    u64_to_hex16(h)
}

} // verus!
