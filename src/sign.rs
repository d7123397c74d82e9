//! The signature of a canonical string and the `Authorization` header value.
use vstd::prelude::*;
use vstd::string::StringSliceAdditionalSpecFns;
use vstd::utf8::encode_utf8;

use base64::engine::general_purpose::STANDARD;
use base64::Engine;
use hmac::{Hmac, Mac};
use sha1::Sha1;

verus! {

/// The HMAC-SHA1 tag of a message under a key.
pub uninterp spec fn hmac_sha1_of(key: Seq<u8>, msg: Seq<u8>) -> Seq<u8>;

/// The standard, padded base64 text of some bytes.
pub uninterp spec fn base64_of(bytes: Seq<u8>) -> Seq<char>;

/// Relies on hmac's `Hmac<Sha1>` (`Mac::new_from_slice`, `update`,
/// `finalize`): `HmacCore::new_from_slice` returns `Ok` for a key of any
/// length, and the tag depends on the key and the message alone.
#[verifier::external_body]
fn hmac_sha1(key: &[u8], msg: &[u8]) -> (r: Option<Vec<u8>>)
    ensures
        r is Some,
        r is Some ==> r->Some_0@ == hmac_sha1_of(key@, msg@),
{
    let mut mac = <Hmac<Sha1> as Mac>::new_from_slice(key).ok()?;
    mac.update(msg);
    Some(mac.finalize().into_bytes().to_vec())
}

/// Relies on base64's `STANDARD.encode`: the padded standard base64 text of
/// the bytes, which depends on them alone.
#[verifier::external_body]
fn base64_encode(bytes: &[u8]) -> (r: String)
    ensures
        r@ == base64_of(bytes@),
{
    STANDARD.encode(bytes)
}

/// The signature of a canonical string under a secret.
pub open spec fn signature_of(canonical: Seq<char>, secret: Seq<char>) -> Seq<char> {
    base64_of(hmac_sha1_of(encode_utf8(secret), encode_utf8(canonical)))
}

/// The value of the `Authorization` header: `OSS id:signature`.
pub open spec fn authorization_value(access_key_id: Seq<char>, signature: Seq<char>) -> Seq<char> {
    "OSS "@ + access_key_id + ":"@ + signature
}

/// Signs a canonical string with the secret: base64 of its HMAC-SHA1 tag.
pub fn sign(canonical: &String, secret: &String) -> (r: String)
    ensures
        r@ == signature_of(canonical@, secret@),
{
    match hmac_sha1(secret.as_str().as_bytes(), canonical.as_str().as_bytes()) {
        Some(tag) => base64_encode(tag.as_slice()),
        None => String::new(),
    }
}

/// The `Authorization` header value for a key id and a signature.
pub fn authorization_header(access_key_id: &String, signature: &String) -> (r: String)
    ensures
        r@ == authorization_value(access_key_id@, signature@),
{
    let mut out = "OSS ".to_owned();
    out.append(access_key_id.as_str());
    out.append(":");
    out.append(signature.as_str());
    out
}

} // verus!
