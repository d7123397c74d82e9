use oss_sdk::error::OssError;
use oss_sdk::listing::{decode_events, ListingDecoder, ListingEvent};
use oss_sdk::xml::{parse_grant, parse_list_objects};

fn listing_doc(truncated: &str, size_a: &str) -> String {
    format!(
        "<?xml version=\"1.0\" encoding=\"UTF-8\"?>\
<ListBucketResult>\
<Name>b1</Name><Prefix>p/</Prefix><Marker>m0</Marker><MaxKeys>100</MaxKeys>\
<Delimiter>/</Delimiter><IsTruncated>{}</IsTruncated>\
<Contents><Key>a.txt</Key><LastModified>2020-01-01T00:00:00.000Z</LastModified>\
<ETag>\"e1\"</ETag><Type>Normal</Type><Size>{}</Size><StorageClass>Standard</StorageClass>\
<Owner><ID>42</ID><DisplayName>alice</DisplayName></Owner></Contents>\
<Contents><Key>b.txt</Key><Size>20</Size></Contents>\
</ListBucketResult>",
        truncated, size_a
    )
}

#[test]
fn listing_round_trip() {
    let l = parse_list_objects(&listing_doc("true", "10")).unwrap();
    assert_eq!(l.bucket_name(), "b1");
    assert_eq!(l.prefix(), "p/");
    assert_eq!(l.marker(), "m0");
    assert_eq!(l.max_keys(), "100");
    assert_eq!(l.delimiter(), "/");
    assert!(l.is_truncated());
    let objs = l.objects();
    assert_eq!(objs.len(), 2);
    assert_eq!(objs[0].key(), "a.txt");
    assert_eq!(objs[0].size(), 10);
    assert_eq!(objs[0].last_modified(), "2020-01-01T00:00:00.000Z");
    assert_eq!(objs[0].etag(), "\"e1\"");
    assert_eq!(objs[0].object_type(), "Normal");
    assert_eq!(objs[0].storage_class(), "Standard");
    assert_eq!(objs[0].owner_id(), "42");
    assert_eq!(objs[0].owner_display_name(), "alice");
    assert_eq!(objs[1].key(), "b.txt");
    assert_eq!(objs[1].size(), 20);
}

#[test]
fn scratch_fields_reset_per_object() {
    let l = parse_list_objects(&listing_doc("true", "10")).unwrap();
    let b = &l.objects()[1];
    assert_eq!(b.storage_class(), "");
    assert_eq!(b.owner_id(), "");
    assert_eq!(b.etag(), "");
}

#[test]
fn malformed_size_is_an_error() {
    let r = parse_list_objects(&listing_doc("true", "abc"));
    assert!(matches!(r, Err(OssError::MalformedListing)));
}

#[test]
fn is_truncated_upper_case_is_false() {
    let l = parse_list_objects(&listing_doc("TRUE", "10")).unwrap();
    assert!(!l.is_truncated());
}

#[test]
fn is_truncated_one_is_false() {
    let l = parse_list_objects(&listing_doc("1", "10")).unwrap();
    assert!(!l.is_truncated());
}

#[test]
fn is_truncated_false_is_false() {
    let l = parse_list_objects(&listing_doc("false", "10")).unwrap();
    assert!(!l.is_truncated());
}

#[test]
fn empty_listing() {
    let l = parse_list_objects("<ListBucketResult><Name>b</Name></ListBucketResult>").unwrap();
    assert_eq!(l.bucket_name(), "b");
    assert!(l.objects().is_empty());
    assert!(!l.is_truncated());
}

#[test]
fn mismatched_tags_are_malformed() {
    let r = parse_list_objects("<ListBucketResult><Name>b</Name></Wrong>");
    assert!(matches!(r, Err(OssError::MalformedListing)));
}

#[test]
fn unclosed_field_is_malformed() {
    let r = parse_list_objects("<ListBucketResult><Name>b");
    assert!(matches!(r, Err(OssError::MalformedListing)));
}

#[test]
fn size_with_plus_sign_parses() {
    let l = parse_list_objects(&listing_doc("true", "+7")).unwrap();
    assert_eq!(l.objects()[0].size(), 7);
}

#[test]
fn size_too_large_is_malformed() {
    let r = parse_list_objects(&listing_doc("true", "99999999999999999999999"));
    assert!(matches!(r, Err(OssError::MalformedListing)));
}

#[test]
fn bucket_fields_inside_contents_are_ignored() {
    let doc = "<R><Name>b</Name><Contents><Name>x</Name><Key>k</Key></Contents></R>";
    let l = parse_list_objects(doc).unwrap();
    assert_eq!(l.bucket_name(), "b");
    assert_eq!(l.objects()[0].key(), "k");
}

#[test]
fn owner_fields_outside_owner_are_ignored() {
    let doc = "<R><Contents><ID>x</ID><Owner><ID>y</ID></Owner></Contents></R>";
    let l = parse_list_objects(doc).unwrap();
    assert_eq!(l.objects()[0].owner_id(), "y");
}

fn name(s: &str) -> Vec<u8> {
    s.as_bytes().to_vec()
}

#[test]
fn decode_events_in_order() {
    let evs = vec![
        ListingEvent::Field(name("Name"), "b1".to_string()),
        ListingEvent::Field(name("IsTruncated"), "true".to_string()),
        ListingEvent::Open(name("Contents")),
        ListingEvent::Field(name("Key"), "a.txt".to_string()),
        ListingEvent::Field(name("Size"), "10".to_string()),
        ListingEvent::Close(name("Contents")),
        ListingEvent::Open(name("Contents")),
        ListingEvent::Field(name("Key"), "b.txt".to_string()),
        ListingEvent::Field(name("Size"), "20".to_string()),
        ListingEvent::Close(name("Contents")),
    ];
    let l = decode_events(&evs).unwrap();
    assert_eq!(l.bucket_name(), "b1");
    assert!(l.is_truncated());
    assert_eq!(l.objects().len(), 2);
    assert_eq!(l.objects()[0].key(), "a.txt");
    assert_eq!(l.objects()[1].size(), 20);
}

#[test]
fn decoder_rejects_bad_size() {
    let mut d = ListingDecoder::new();
    assert!(d.feed(&ListingEvent::Open(name("Contents"))).is_ok());
    let r = d.feed(&ListingEvent::Field(name("Size"), "abc".to_string()));
    assert_eq!(r, Err(OssError::MalformedListing));
}

#[test]
fn grant_first_occurrence() {
    let doc = "<AccessControlPolicy><AccessControlList><Grant>private</Grant>\
<Grant>public-read</Grant></AccessControlList></AccessControlPolicy>";
    assert_eq!(parse_grant(doc).unwrap(), "private");
}

#[test]
fn grant_absent_is_empty() {
    assert_eq!(parse_grant("<AccessControlPolicy></AccessControlPolicy>").unwrap(), "");
}
