//! How the object operations read the status and body that the transport
//! hands back.
use vstd::prelude::*;
use vstd::utf8::{decode_utf8, valid_utf8};

use crate::error::{ObjectError, OssError};
use crate::object::ListObjects;
use crate::xml::{grant_of_document, listing_of_document, parse_grant, parse_list_objects};

verus! {

/// Whether an HTTP status is a success (2xx).
pub open spec fn is_success(status: u16) -> bool {
    200 <= status && status <= 299
}

/// Whether an HTTP status is a success (2xx).
pub fn success_status(status: u16) -> (r: bool)
    ensures
        r == is_success(status),
{
    200 <= status && status <= 299
}

/// The result of a fetch: the body, byte for byte, on success.
pub fn get_outcome(status: u16, body: Vec<u8>) -> (r: Result<Vec<u8>, OssError>)
    ensures
        is_success(status) ==> r is Ok && r->Ok_0@ == body@,
        !is_success(status) ==> r == Err::<Vec<u8>, OssError>(
            OssError::Object(ObjectError::GetError { status }),
        ),
{
    if success_status(status) {
        Ok(body)
    } else {
        Err(OssError::Object(ObjectError::GetError { status }))
    }
}

/// The result of an upload.
pub fn put_outcome(status: u16) -> (r: Result<(), OssError>)
    ensures
        is_success(status) ==> r is Ok,
        !is_success(status) ==> r == Err::<(), OssError>(
            OssError::Object(ObjectError::PutError { status }),
        ),
{
    if success_status(status) {
        Ok(())
    } else {
        Err(OssError::Object(ObjectError::PutError { status }))
    }
}

/// The result of a server-side copy.
pub fn copy_outcome(status: u16) -> (r: Result<(), OssError>)
    ensures
        is_success(status) ==> r is Ok,
        !is_success(status) ==> r == Err::<(), OssError>(
            OssError::Object(ObjectError::CopyError { status }),
        ),
{
    if success_status(status) {
        Ok(())
    } else {
        Err(OssError::Object(ObjectError::CopyError { status }))
    }
}

/// The result of a deletion.
pub fn delete_outcome(status: u16) -> (r: Result<(), OssError>)
    ensures
        is_success(status) ==> r is Ok,
        !is_success(status) ==> r == Err::<(), OssError>(
            OssError::Object(ObjectError::DeleteError { status }),
        ),
{
    if success_status(status) {
        Ok(())
    } else {
        Err(OssError::Object(ObjectError::DeleteError { status }))
    }
}

/// The result of a listing: the status is checked before the body is decoded.
pub fn list_outcome(status: u16, body: &str) -> (r: Result<ListObjects, OssError>)
    ensures
        !is_success(status) ==> r == Err::<ListObjects, OssError>(
            OssError::Object(ObjectError::ListError { status }),
        ),
        is_success(status) ==> match listing_of_document(body@) {
            Some(l) => r is Ok && r->Ok_0@ == l,
            None => r == Err::<ListObjects, OssError>(OssError::MalformedListing),
        },
{
    if success_status(status) {
        parse_list_objects(body)
    } else {
        Err(OssError::Object(ObjectError::ListError { status }))
    }
}

/// Relies on `String::from_utf8`: the text that valid UTF-8 bytes encode.
#[verifier::external_body]
fn utf8_text(bytes: Vec<u8>) -> (r: Option<String>)
    ensures
        r is Some <==> valid_utf8(bytes@),
        r is Some ==> r->Some_0@ == decode_utf8(bytes@),
{
    String::from_utf8(bytes).ok()
}

/// The result of reading an object's access control: the `Grant` text of
/// the fetched document.
pub fn acl_outcome(status: u16, body: Vec<u8>) -> (r: Result<String, OssError>)
    ensures
        !is_success(status) ==> r == Err::<String, OssError>(
            OssError::Object(ObjectError::GetError { status }),
        ),
        is_success(status) && !valid_utf8(body@) ==> r == Err::<String, OssError>(
            OssError::EncodingError,
        ),
        is_success(status) && valid_utf8(body@) ==> match grant_of_document(decode_utf8(body@)) {
            Some(g) => r is Ok && r->Ok_0@ == g,
            None => r == Err::<String, OssError>(OssError::MalformedListing),
        },
{
    let body = get_outcome(status, body)?;
    match utf8_text(body) {
        Some(text) => parse_grant(text.as_str()),
        None => Err(OssError::EncodingError),
    }
}

} // verus!
