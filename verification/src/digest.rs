//! SHA-256 digests in hexadecimal, computed by `rust-crypto`.
use crypto::digest::Digest;
use vstd::prelude::*;

verus! {

#[verifier::external_type_specification]
#[verifier::external_body]
pub struct ExSha256(crypto::sha2::Sha256);

/// What a `crypto::sha2::Sha256` hasher holds: the bytes fed to it, and whether its result
/// has been taken (after which it takes no more input until reset).
pub uninterp spec fn sha256_state(h: crypto::sha2::Sha256) -> (Seq<u8>, bool);

/// The SHA-256 digest of `data`, as `Digest::result_str` writes it.
pub uninterp spec fn sha256_hex(data: Seq<u8>) -> Seq<char>;

/// A lowercase hexadecimal digit.
pub open spec fn is_hex_digit(c: char) -> bool {
    ('0' <= c <= '9') || ('a' <= c <= 'f')
}

/// `crypto::sha2::Sha256::new()`. Trusted: a new hasher has been fed nothing.
#[verifier::external_body]
pub(crate) fn sha256_new() -> (h: crypto::sha2::Sha256)
    ensures
        sha256_state(h) == (Seq::<u8>::empty(), false),
{
    crypto::sha2::Sha256::new()
}

/// `Digest::input_str(h, s)`, which feeds the UTF-8 bytes of `s`. It asserts that the result
/// has not been taken, hence the precondition. Trusted: the bytes are appended.
#[verifier::external_body]
pub(crate) fn sha256_input_str(h: &mut crypto::sha2::Sha256, s: &str)
    requires
        !sha256_state(*old(h)).1,
    ensures
        sha256_state(*final(h)) == (sha256_state(*old(h)).0 + vstd::utf8::encode_utf8(s@), false),
{
    h.input_str(s)
}

/// `Digest::result_str(h)`. Trusted: the result is `sha256_hex` of the bytes fed, written as
/// 64 lowercase hexadecimal digits (32 bytes, two digits each, by `ToHex`); the hasher is
/// then finished.
#[verifier::external_body]
pub(crate) fn sha256_result_str(h: &mut crypto::sha2::Sha256) -> (hex: String)
    ensures
        hex@ == sha256_hex(sha256_state(*old(h)).0),
        hex@.len() == 64,
        forall|i: int| 0 <= i < hex@.len() ==> is_hex_digit(#[trigger] hex@[i]),
        sha256_state(*final(h)) == (sha256_state(*old(h)).0, true),
{
    h.result_str()
}

} // verus!
