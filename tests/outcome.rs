use oss_sdk::error::{ObjectError, OssError};
use oss_sdk::outcome::{
    acl_outcome, copy_outcome, delete_outcome, get_outcome, list_outcome, put_outcome,
};

#[test]
fn get_404_is_get_error() {
    let r = get_outcome(404, b"nope".to_vec());
    assert_eq!(r, Err(OssError::Object(ObjectError::GetError { status: 404 })));
}

#[test]
fn get_200_returns_body_unchanged() {
    let body = vec![0u8, 159, 146, 150, 255, 10];
    assert_eq!(get_outcome(200, body.clone()), Ok(body));
}

#[test]
fn put_outcomes() {
    assert_eq!(put_outcome(200), Ok(()));
    assert_eq!(put_outcome(299), Ok(()));
    assert_eq!(put_outcome(403), Err(OssError::Object(ObjectError::PutError { status: 403 })));
}

#[test]
fn copy_outcomes() {
    assert_eq!(copy_outcome(204), Ok(()));
    assert_eq!(copy_outcome(500), Err(OssError::Object(ObjectError::CopyError { status: 500 })));
}

#[test]
fn delete_outcomes() {
    assert_eq!(delete_outcome(204), Ok(()));
    assert_eq!(delete_outcome(300), Err(OssError::Object(ObjectError::DeleteError { status: 300 })));
    assert_eq!(delete_outcome(199), Err(OssError::Object(ObjectError::DeleteError { status: 199 })));
}

#[test]
fn list_status_checked_before_parsing() {
    let r = list_outcome(403, "<Error><Code>AccessDenied</Code></Error>");
    assert!(matches!(r, Err(OssError::Object(ObjectError::ListError { status: 403 }))));
    let l = list_outcome(200, "<R><Name>b</Name></R>").unwrap();
    assert_eq!(l.bucket_name(), "b");
}

#[test]
fn acl_outcomes() {
    let doc = b"<AccessControlPolicy><Grant>public-read</Grant></AccessControlPolicy>".to_vec();
    assert_eq!(acl_outcome(200, doc.clone()).unwrap(), "public-read");
    assert_eq!(acl_outcome(404, doc), Err(OssError::Object(ObjectError::GetError { status: 404 })));
    assert_eq!(acl_outcome(200, vec![0xff, 0xfe]), Err(OssError::EncodingError));
}

#[test]
fn list_malformed_body_is_error() {
    let r = list_outcome(200, "<ListBucketResult><Name>b</Wrong>");
    assert!(matches!(r, Err(OssError::MalformedListing)));
}

#[test]
fn acl_malformed_body_is_error() {
    let doc = b"<AccessControlPolicy><Other>x</Wrong>".to_vec();
    assert_eq!(acl_outcome(200, doc), Err(OssError::MalformedListing));
}

#[test]
fn acl_without_grant_is_empty() {
    let doc = b"<AccessControlPolicy></AccessControlPolicy>".to_vec();
    assert_eq!(acl_outcome(200, doc).unwrap(), "");
}
