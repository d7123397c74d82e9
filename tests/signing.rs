use oss_sdk::canonical::{canonicalize, canonicalize_headers, canonicalize_resource, RequestType};
use oss_sdk::error::OssError;
use oss_sdk::request::OssConfig;
use oss_sdk::sign::{authorization_header, sign};
use oss_sdk::url::build_url;

fn s(x: &str) -> String {
    x.to_string()
}

fn hs(pairs: &[(&str, &str)]) -> Vec<(String, String)> {
    pairs.iter().map(|(a, b)| (s(a), s(b))).collect()
}

fn config() -> OssConfig {
    OssConfig::new(s("https"), s("oss-cn-hangzhou.aliyuncs.com"), s("b1"), s("id1"), s("secret1"))
}

#[test]
fn canonical_string_is_deterministic() {
    let h = hs(&[("Date", "Mon, 01 Jan 2024 00:00:00 GMT"), ("X-OSS-Meta-A", "1")]);
    let r: Vec<(String, Option<String>)> = vec![(s("acl"), None)];
    let a = canonicalize(RequestType::Get, &s("b1"), &s("k"), &h, &r);
    let b = canonicalize(RequestType::Get, &s("b1"), &s("k"), &h, &r);
    assert_eq!(a, b);
    assert_eq!(sign(&a, &s("secret")), sign(&b, &s("secret")));
}

#[test]
fn canonical_string_exact() {
    let h = hs(&[
        ("Content-Type", "text/plain"),
        ("Content-MD5", "abc=="),
        ("Date", "D1"),
        ("x-oss-meta-b", "2"),
        ("X-OSS-Meta-A", "1"),
        ("Host", "ignored"),
    ]);
    let r: Vec<(String, Option<String>)> = vec![(s("uploadId"), Some(s("u1"))), (s("acl"), None)];
    let c = canonicalize(RequestType::Put, &s("b1"), &s("dir/k.txt"), &h, &r);
    assert_eq!(
        c,
        "PUT\nabc==\ntext/plain\nD1\nx-oss-meta-a:1\nx-oss-meta-b:2\n/b1/dir/k.txt?acl&uploadId=u1"
    );
}

#[test]
fn empty_inputs_canonicalize() {
    let c = canonicalize(RequestType::Delete, &s("b1"), &s(""), &vec![], &vec![]);
    assert_eq!(c, "DELETE\n\n\n\n/b1/");
}

#[test]
fn header_names_are_case_insensitive() {
    let a = canonicalize_headers(&hs(&[("X-OSS-Meta-Foo", "a")]));
    let b = canonicalize_headers(&hs(&[("x-oss-meta-foo", "a")]));
    assert_eq!(a, b);
    assert_eq!(a, "x-oss-meta-foo:a\n");
}

#[test]
fn repeated_header_names_are_comma_joined() {
    let a = canonicalize_headers(&hs(&[("X-Oss-Z", "1"), ("x-oss-a", "0"), ("x-oss-z", "2")]));
    assert_eq!(a, "x-oss-a:0\nx-oss-z:1,2\n");
}

#[test]
fn sub_resources_filtered_in_signature() {
    let r: Vec<(String, Option<String>)> = vec![(s("acl"), None), (s("unrelated"), Some(s("x")))];
    assert_eq!(canonicalize_resource(&s("b1"), &s("k"), &r), "/b1/k?acl");
    let url = build_url(&s("https"), &s("b1"), &s("host.example"), &s("k"), &r);
    assert_eq!(url, "https://b1.host.example/k?acl&unrelated=x");
}

#[test]
fn url_percent_encodes_key_and_values() {
    let r: Vec<(String, Option<String>)> = vec![(s("prefix"), Some(s("a b/é")))];
    let url = build_url(&s("https"), &s("b1"), &s("h"), &s("dir/a b+c.txt"), &r);
    assert_eq!(url, "https://b1.h/dir/a%20b%2Bc.txt?prefix=a%20b%2F%C3%A9");
}

#[test]
fn signature_known_value() {
    // HMAC-SHA1("key", "The quick brown fox jumps over the lazy dog"), base64
    let sig = sign(&s("The quick brown fox jumps over the lazy dog"), &s("key"));
    assert_eq!(sig, "3nybhbi3iqa8ino29wqQcBydtNk=");
}

#[test]
fn authorization_header_format() {
    assert_eq!(authorization_header(&s("id1"), &s("sig")), "OSS id1:sig");
}

#[test]
fn build_request_adds_date_and_authorization() {
    let cfg = config();
    let h = hs(&[("x-oss-meta-a", "1")]);
    let (url, out) = cfg
        .build_request(RequestType::Put, &s("k"), &h, &vec![], &s("D1"), true)
        .unwrap();
    assert_eq!(url, "https://b1.oss-cn-hangzhou.aliyuncs.com/k");
    assert_eq!(out[0], (s("x-oss-meta-a"), s("1")));
    assert_eq!(out[1], (s("date"), s("D1")));
    assert_eq!(out[2], (s("Content-Type"), s("application/octet-stream")));
    let canonical = "PUT\n\napplication/octet-stream\nD1\nx-oss-meta-a:1\n/b1/k";
    let expected = format!("OSS id1:{}", sign(&s(canonical), &s("secret1")));
    assert_eq!(out[3], (s("Authorization"), expected));
    assert_eq!(out.len(), 4);
}

#[test]
fn build_request_keeps_given_date() {
    let cfg = config();
    let h = hs(&[("Date", "given")]);
    let (_, out) = cfg
        .build_request(RequestType::Get, &s("k"), &h, &vec![], &s("D1"), false)
        .unwrap();
    assert_eq!(out.len(), 2);
    assert_eq!(out[0], (s("Date"), s("given")));
}

#[test]
fn build_request_rejects_control_characters() {
    let cfg = config();
    let h = hs(&[("x-oss-meta-a", "bad\nvalue")]);
    let r = cfg.build_request(RequestType::Get, &s("k"), &h, &vec![], &s("D1"), false);
    assert_eq!(r, Err(OssError::InvalidHeaderValue));
}

#[test]
fn two_dates_change_only_date_and_authorization() {
    let cfg = config();
    let h = hs(&[("x-oss-meta-a", "1")]);
    let r: Vec<(String, Option<String>)> = vec![(s("acl"), None)];
    let (u1, h1) = cfg.build_request(RequestType::Get, &s("k"), &h, &r, &s("D1"), false).unwrap();
    let (u2, h2) = cfg.build_request(RequestType::Get, &s("k"), &h, &r, &s("D2"), false).unwrap();
    assert_eq!(u1, u2);
    assert_eq!(h1.len(), h2.len());
    assert_eq!(h1[0], h2[0]);
    assert_ne!(h1[1], h2[1]);
    assert_eq!(h1[2].0, "Authorization");
    assert_ne!(h1[2].1, h2[2].1);
}

#[test]
fn url_query_sorted_by_name() {
    let r: Vec<(String, Option<String>)> =
        vec![(s("unrelated"), Some(s("x"))), (s("max-keys"), Some(s("5"))), (s("acl"), None)];
    let url = build_url(&s("https"), &s("b1"), &s("h"), &s("k"), &r);
    assert_eq!(url, "https://b1.h/k?acl&max-keys=5&unrelated=x");
}

#[test]
fn build_case_insensitive_authorization() {
    let cfg = config();
    let (_, a) = cfg
        .build_request(RequestType::Get, &s("k"), &hs(&[("X-OSS-Meta-Foo", "a")]), &vec![], &s("d"), false)
        .unwrap();
    let (_, b) = cfg
        .build_request(RequestType::Get, &s("k"), &hs(&[("x-oss-meta-foo", "a")]), &vec![], &s("d"), false)
        .unwrap();
    let expected = format!("OSS id1:{}", sign(&s("GET\n\n\nd\nx-oss-meta-foo:a\n/b1/k"), &s("secret1")));
    assert_eq!(a[2], (s("Authorization"), expected.clone()));
    assert_eq!(b[2], (s("Authorization"), expected));
}

#[test]
fn build_signs_only_recognized_resources() {
    let cfg = config();
    let r: Vec<(String, Option<String>)> = vec![(s("acl"), None), (s("unrelated"), Some(s("x")))];
    let (url, h) = cfg.build_request(RequestType::Get, &s("k"), &vec![], &r, &s("d"), false).unwrap();
    assert_eq!(url, "https://b1.oss-cn-hangzhou.aliyuncs.com/k?acl&unrelated=x");
    let expected = format!("OSS id1:{}", sign(&s("GET\n\n\nd\n/b1/k?acl"), &s("secret1")));
    assert_eq!(h[1], (s("Authorization"), expected));
}
