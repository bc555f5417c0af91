//! Digests, signatures, base64 and HTTP dates, from the crates that make them.

use base64::Engine;
use rsa::pkcs1::DecodeRsaPrivateKey;
use rsa::pkcs8::DecodePrivateKey;
use rsa::signature::{SignatureEncoding, Signer};
use sha2::Digest;
use vstd::prelude::*;

verus! {

/// The base64 character for six bits.
pub open spec fn base64_char(v: int) -> char {
    if v < 26 {
        (65 + v) as char
    } else if v < 52 {
        (71 + v) as char
    } else if v < 62 {
        (v - 4) as char
    } else if v == 62 {
        '+'
    } else {
        '/'
    }
}

/// The byte at `i`, or zero behind the end.
pub open spec fn byte_or_zero(bytes: Seq<u8>, i: int) -> int {
    if 0 <= i < bytes.len() {
        bytes[i] as int
    } else {
        0
    }
}

/// The `i`th group of six bits of `bytes`.
pub open spec fn six_bits(bytes: Seq<u8>, i: int) -> int {
    let at = 3 * (i / 4);
    let word = 65536 * byte_or_zero(bytes, at) + 256 * byte_or_zero(bytes, at + 1) + byte_or_zero(
        bytes,
        at + 2,
    );
    if i % 4 == 0 {
        word / 262144
    } else if i % 4 == 1 {
        (word / 4096) % 64
    } else if i % 4 == 2 {
        (word / 64) % 64
    } else {
        word % 64
    }
}

/// `bytes` in base64 with the standard alphabet, padded with `=` to a multiple
/// of four characters.
pub open spec fn base64_text(bytes: Seq<u8>) -> Seq<char> {
    Seq::new(
        (4 * ((bytes.len() + 2) / 3)) as nat,
        |i: int|
            if 6 * i < 8 * bytes.len() {
                base64_char(six_bits(bytes, i))
            } else {
                '='
            },
    )
}

/// `base64::engine::general_purpose::STANDARD.encode` writes bytes in base64
/// with the standard alphabet and padding.
#[verifier::external_body]
pub(crate) fn to_base64(bytes: &[u8]) -> (text: String)
    ensures
        text@ == base64_text(bytes@),
{
    base64::engine::general_purpose::STANDARD.encode(bytes)
}

/// The SHA-256 digest of some bytes.
pub uninterp spec fn sha256(bytes: Seq<u8>) -> Seq<u8>;

/// `sha2::Sha256::digest` gives the SHA-256 digest.
#[verifier::external_body]
pub(crate) fn sha256_digest(bytes: &[u8]) -> (digest: Vec<u8>)
    ensures
        digest@ == sha256(bytes@),
{
    sha2::Sha256::digest(bytes).to_vec()
}

/// An RSA private key as the RSA library holds it.
#[verifier::external_type_specification]
#[verifier::external_body]
pub struct ExRsaPrivateKey(rsa::RsaPrivateKey);

/// The key that `RsaPrivateKey::from_pkcs8_pem` reads from a text.
pub uninterp spec fn pkcs8_key(pem: Seq<char>) -> Option<rsa::RsaPrivateKey>;

/// The key that `RsaPrivateKey::from_pkcs1_pem` reads from a text, or the text
/// of its error.
pub uninterp spec fn pkcs1_key(pem: Seq<char>) -> Result<rsa::RsaPrivateKey, Seq<char>>;

/// The PKCS#1 v1.5 signature over the SHA-256 digest of a message, or the text
/// of the error where the key is too short for one.
pub uninterp spec fn rsa_signature(key: rsa::RsaPrivateKey, message: Seq<u8>) -> Result<
    Seq<u8>,
    Seq<char>,
>;

/// `RsaPrivateKey::from_pkcs8_pem` reads a private key in PKCS#8 form; which
/// key depends on nothing but the text.
#[verifier::external_body]
pub(crate) fn read_pkcs8(pem: &str) -> (key: Option<rsa::RsaPrivateKey>)
    ensures
        key == pkcs8_key(pem@),
{
    rsa::RsaPrivateKey::from_pkcs8_pem(pem).ok()
}

/// `RsaPrivateKey::from_pkcs1_pem` reads a private key in PKCS#1 form; which
/// key, or which error, depends on nothing but the text.
#[verifier::external_body]
pub(crate) fn read_pkcs1(pem: &str) -> (key: Result<rsa::RsaPrivateKey, String>)
    ensures
        key matches Ok(k) ==> pkcs1_key(pem@) is Ok && pkcs1_key(pem@)->Ok_0 == k,
        key matches Err(e) ==> pkcs1_key(pem@) is Err && pkcs1_key(pem@)->Err_0 == e@,
{
    match rsa::RsaPrivateKey::from_pkcs1_pem(pem) {
        Ok(k) => Ok(k),
        Err(e) => Err(e.to_string()),
    }
}

/// `rsa::pkcs1v15::SigningKey::<Sha256>::try_sign` signs without blinding, so
/// that the signature depends on nothing but the key and the message.
#[verifier::external_body]
pub(crate) fn sign_sha256(key: &rsa::RsaPrivateKey, message: &[u8]) -> (signature: Result<
    Vec<u8>,
    String,
>)
    ensures
        signature matches Ok(s) ==> rsa_signature(*key, message@) is Ok && rsa_signature(
            *key,
            message@,
        )->Ok_0 == s@,
        signature matches Err(e) ==> rsa_signature(*key, message@) is Err && rsa_signature(
            *key,
            message@,
        )->Err_0 == e@,
{
    match rsa::pkcs1v15::SigningKey::<sha2::Sha256>::new(key.clone()).try_sign(message) {
        Ok(s) => Ok(s.to_vec()),
        Err(e) => Err(e.to_string()),
    }
}

/// The first second that no HTTP date can name: the start of the year 10000.
pub const HTTP_DATE_END: u64 = 253402300800;

/// A time, in seconds since 1970, in the date format of HTTP headers.
pub uninterp spec fn http_date(seconds: u64) -> Seq<char>;

/// `httpdate::fmt_http_date` writes a time as an IMF-fixdate, such as
/// `Fri, 15 May 2015 15:34:21 GMT`. It panics from the year 10000 on.
#[verifier::external_body]
pub(crate) fn format_http_date(seconds: u64) -> (date: String)
    requires
        seconds < HTTP_DATE_END,
    ensures
        date@ == http_date(seconds),
{
    httpdate::fmt_http_date(std::time::UNIX_EPOCH + std::time::Duration::from_secs(seconds))
}

} // verus!
