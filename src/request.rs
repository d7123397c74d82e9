//! The request builder: from a client configuration and the caller's
//! verb, key, headers and resources to a URL and a signed header set.
use vstd::prelude::*;

use crate::canonical::{
    ascii_lower, canonical_headers, canonical_resource, canonical_string, canonicalize, has_prefix,
    header_value, lemma_header_case_insensitive, lemma_header_value_congruent,
    lemma_oss_entries_congruent, lemma_unsigned_resources_ignored, lower_char, pairs_view,
    resources_view, sub_resource, verb_text, RequestType, SUB_RESOURCE_COUNT,
};
use crate::error::OssError;
use crate::sign::{authorization_header, authorization_value, sign, signature_of};
use crate::url::{build_url, request_url};

verus! {

/// The mathematical value of an [`OssConfig`].
pub struct OssConfigView {
    pub scheme: Seq<char>,
    pub endpoint: Seq<char>,
    pub bucket: Seq<char>,
    pub access_key_id: Seq<char>,
    pub access_key_secret: Seq<char>,
}

/// Endpoint, bucket and credential of a client; fixed once built.
pub struct OssConfig {
    scheme: String,
    endpoint: String,
    bucket: String,
    access_key_id: String,
    access_key_secret: String,
}

impl View for OssConfig {
    type V = OssConfigView;

    closed spec fn view(&self) -> OssConfigView {
        OssConfigView {
            scheme: self.scheme@,
            endpoint: self.endpoint@,
            bucket: self.bucket@,
            access_key_id: self.access_key_id@,
            access_key_secret: self.access_key_secret@,
        }
    }
}

/// Whether a header value can travel on the wire: tabs and visible ASCII only.
pub open spec fn is_wire_safe(v: Seq<char>) -> bool {
    forall|i: int| 0 <= i < v.len() ==> #[trigger] v[i] == '\t' || (' ' <= v[i] && v[i] <= '~')
}

/// Whether every value of a header set can travel on the wire.
pub open spec fn all_wire_safe(hv: Seq<(Seq<char>, Seq<char>)>) -> bool {
    forall|i: int| 0 <= i < hv.len() ==> is_wire_safe(#[trigger] hv[i].1)
}

/// Whether a header set holds a header whose lower-cased name is `lname`.
pub open spec fn has_header(hv: Seq<(Seq<char>, Seq<char>)>, lname: Seq<char>) -> bool {
    exists|i: int| 0 <= i < hv.len() && ascii_lower(#[trigger] hv[i].0) == lname
}

/// The caller's headers with a `Date` where none is given, and a default
/// `Content-Type` where a body is sent without one.
pub open spec fn finalized_headers(
    hv: Seq<(Seq<char>, Seq<char>)>,
    date: Seq<char>,
    has_body: bool,
) -> Seq<(Seq<char>, Seq<char>)> {
    let h1 = if has_header(hv, "date"@) {
        hv
    } else {
        hv.push(("date"@, date))
    };
    if has_body && !has_header(h1, "content-type"@) {
        h1.push(("Content-Type"@, "application/octet-stream"@))
    } else {
        h1
    }
}

/// The header set that is sent: the finalized headers and the `Authorization`
/// header signed over them.
pub open spec fn signed_headers(
    c: OssConfigView,
    verb: RequestType,
    key: Seq<char>,
    hv: Seq<(Seq<char>, Seq<char>)>,
    rv: Seq<(Seq<char>, Option<Seq<char>>)>,
    date: Seq<char>,
    has_body: bool,
) -> Seq<(Seq<char>, Seq<char>)> {
    let f = finalized_headers(hv, date, has_body);
    f.push(
        (
            "Authorization"@,
            authorization_value(
                c.access_key_id,
                signature_of(canonical_string(verb, c.bucket, key, f, rv), c.access_key_secret),
            ),
        ),
    )
}

/// Whether a value can travel on the wire.
fn wire_safe(v: &String) -> (r: bool)
    ensures
        r == is_wire_safe(v@),
{
    let n = v.as_str().unicode_len();
    let mut i: usize = 0;
    while i < n
        invariant
            n == v@.len(),
            i <= n,
            forall|j: int| 0 <= j < i ==> #[trigger] v@[j] == '\t' || (' ' <= v@[j] && v@[j] <= '~'),
        decreases n - i,
    {
        let c = v.as_str().get_char(i);
        if !(c == '\t' || (' ' <= c && c <= '~')) {
            return false;
        }
        i = i + 1;
    }
    true
}

/// Whether a header set holds a header whose lower-cased name is `lname`.
fn contains_header(headers: &Vec<(String, String)>, lname: &str) -> (r: bool)
    ensures
        r == has_header(pairs_view(headers@), lname@),
{
    let ghost hv = pairs_view(headers@);
    let wanted = lname.to_owned();
    let mut j: usize = 0;
    while j < headers.len()
        invariant
            hv == pairs_view(headers@),
            j <= headers@.len(),
            wanted@ == lname@,
            forall|k: int| 0 <= k < j ==> ascii_lower(#[trigger] hv[k].0) != lname@,
        decreases headers@.len() - j,
    {
        let low = crate::canonical::lower_text(headers[j].0.as_str());
        if low == wanted {
            assert(ascii_lower(hv[j as int].0) == lname@);
            return true;
        }
        j = j + 1;
    }
    false
}

impl OssConfig {
    pub fn new(
        scheme: String,
        endpoint: String,
        bucket: String,
        access_key_id: String,
        access_key_secret: String,
    ) -> (r: Self)
        ensures
            r@ == (OssConfigView {
                scheme: scheme@,
                endpoint: endpoint@,
                bucket: bucket@,
                access_key_id: access_key_id@,
                access_key_secret: access_key_secret@,
            }),
    {
        OssConfig { scheme, endpoint, bucket, access_key_id, access_key_secret }
    }

    pub fn bucket(&self) -> (r: &str)
        ensures
            r@ == self@.bucket,
    {
        self.bucket.as_str()
    }

    /// Builds a request: its URL and its finalized, signed header set. Fails
    /// where a supplied header value cannot travel on the wire.
    pub fn build_request(
        &self,
        verb: RequestType,
        object_key: &String,
        headers: &Vec<(String, String)>,
        resources: &Vec<(String, Option<String>)>,
        date: &String,
        has_body: bool,
    ) -> (r: Result<(String, Vec<(String, String)>), OssError>)
        ensures
            !all_wire_safe(pairs_view(headers@)) ==> r == Err::<
                (String, Vec<(String, String)>),
                OssError,
            >(OssError::InvalidHeaderValue),
            all_wire_safe(pairs_view(headers@)) ==> r is Ok,
            r is Ok ==> r->Ok_0.0@ == request_url(
                self@.scheme,
                self@.bucket,
                self@.endpoint,
                object_key@,
                resources_view(resources@),
            ),
            r is Ok ==> pairs_view(r->Ok_0.1@) == signed_headers(
                self@,
                verb,
                object_key@,
                pairs_view(headers@),
                resources_view(resources@),
                date@,
                has_body,
            ),
    {
        let ghost hv = pairs_view(headers@);
        let mut out: Vec<(String, String)> = Vec::new();
        let mut j: usize = 0;
        while j < headers.len()
            invariant
                hv == pairs_view(headers@),
                j <= headers@.len(),
                pairs_view(out@) == hv.take(j as int),
                forall|k: int| 0 <= k < j ==> is_wire_safe(#[trigger] hv[k].1),
            decreases headers@.len() - j,
        {
            if !wire_safe(&headers[j].1) {
                proof {
                    assert(hv[j as int].1 == headers@[j as int].1@);
                    assert(!is_wire_safe(hv[j as int].1));
                }
                return Err(OssError::InvalidHeaderValue);
            }
            let p = (headers[j].0.clone(), headers[j].1.clone());
            let ghost before = out@;
            out.push(p);
            proof {
                assert(pairs_view(out@) =~= pairs_view(before).push(hv[j as int]));
                assert(hv.take(j + 1) =~= hv.take(j as int).push(hv[j as int]));
            }
            j = j + 1;
        }
        proof {
            assert(hv.take(headers@.len() as int) =~= hv);
        }
        if !contains_header(&out, "date") {
            let ghost before = out@;
            out.push(("date".to_owned(), date.clone()));
            proof {
                assert(pairs_view(out@) =~= pairs_view(before).push(("date"@, date@)));
            }
        }
        if has_body && !contains_header(&out, "content-type") {
            let ghost before = out@;
            out.push(("Content-Type".to_owned(), "application/octet-stream".to_owned()));
            proof {
                assert(pairs_view(out@) =~= pairs_view(before).push(
                    ("Content-Type"@, "application/octet-stream"@),
                ));
            }
        }
        let canonical = canonicalize(verb, &self.bucket, object_key, &out, resources);
        let signature = sign(&canonical, &self.access_key_secret);
        let auth = authorization_header(&self.access_key_id, &signature);
        let ghost before = out@;
        out.push(("Authorization".to_owned(), auth));
        proof {
            assert(pairs_view(out@) =~= pairs_view(before).push(("Authorization"@, auth@)));
        }
        let url = build_url(&self.scheme, &self.bucket, &self.endpoint, object_key, resources);
        Ok((url, out))
    }
}

/// Where a header set holds no header named `n`, the value of `n` is looked
/// up in what follows it.
proof fn lemma_header_value_skip(
    hv: Seq<(Seq<char>, Seq<char>)>,
    rest: Seq<(Seq<char>, Seq<char>)>,
    n: Seq<char>,
)
    requires
        !has_header(hv, n),
    ensures
        header_value(hv + rest, n) == header_value(rest, n),
    decreases hv.len(),
{
    if hv.len() > 0 {
        assert((hv + rest)[0] == hv[0]);
        assert((hv + rest).drop_first() =~= hv.drop_first() + rest);
        assert forall|i: int| 0 <= i < hv.drop_first().len() implies ascii_lower(
            #[trigger] hv.drop_first()[i].0,
        ) != n by {
            assert(hv.drop_first()[i] == hv[i + 1]);
        }
        lemma_header_value_skip(hv.drop_first(), rest, n);
    } else {
        assert(hv + rest =~= rest);
    }
}

/// Building one request at two dates, where the caller gave no date header:
/// the two header sets name the same headers in the same order and agree on
/// every header but the date and the authorization; the date header holds
/// each build's date; and the canonical strings that are signed differ as
/// soon as the dates do. (The URL takes no date at all.)
pub proof fn lemma_build_differs_only_by_date(
    c: OssConfigView,
    verb: RequestType,
    key: Seq<char>,
    hv: Seq<(Seq<char>, Seq<char>)>,
    rv: Seq<(Seq<char>, Option<Seq<char>>)>,
    d1: Seq<char>,
    d2: Seq<char>,
    has_body: bool,
)
    requires
        !has_header(hv, "date"@),
    ensures
        ({
            let s1 = signed_headers(c, verb, key, hv, rv, d1, has_body);
            let s2 = signed_headers(c, verb, key, hv, rv, d2, has_body);
            &&& s1.len() == s2.len()
            &&& forall|i: int| 0 <= i < s1.len() ==> (#[trigger] s1[i]).0 == s2[i].0
            &&& forall|i: int|
                0 <= i < s1.len() && i != hv.len() && i != s1.len() - 1 ==> #[trigger] s1[i]
                    == s2[i]
            &&& s1[hv.len() as int] == ("date"@, d1)
            &&& s2[hv.len() as int] == ("date"@, d2)
        }),
        d1 != d2 ==> canonical_string(
            verb,
            c.bucket,
            key,
            finalized_headers(hv, d1, has_body),
            rv,
        ) != canonical_string(verb, c.bucket, key, finalized_headers(hv, d2, has_body), rv),
{
    reveal_strlit("date");
    reveal_strlit("content-md5");
    reveal_strlit("content-type");
    reveal_strlit("x-oss-");
    let h1 = hv.push(("date"@, d1));
    let h2 = hv.push(("date"@, d2));
    assert(ascii_lower("date"@) =~= "date"@) by {
        assert forall|i: int| 0 <= i < 4 implies lower_char(#[trigger] "date"@[i]) == "date"@[i] by {}
    }
    let ct = "content-type"@;
    assert(has_header(h1, ct) == has_header(h2, ct)) by {
        if has_header(h1, ct) {
            let i = choose|i: int| 0 <= i < h1.len() && ascii_lower(#[trigger] h1[i].0) == ct;
            assert(h2[i].0 == h1[i].0);
        }
        if has_header(h2, ct) {
            let i = choose|i: int| 0 <= i < h2.len() && ascii_lower(#[trigger] h2[i].0) == ct;
            assert(h1[i].0 == h2[i].0);
        }
    }
    let f1 = finalized_headers(hv, d1, has_body);
    let f2 = finalized_headers(hv, d2, has_body);
    let tail1 = f1.subrange(hv.len() as int, f1.len() as int);
    let tail2 = f2.subrange(hv.len() as int, f2.len() as int);
    assert(f1 =~= hv + tail1);
    assert(f2 =~= hv + tail2);
    assert(f1.len() == f2.len());
    assert forall|i: int| 0 <= i < f1.len() implies ascii_lower(#[trigger] f1[i].0) == ascii_lower(
        f2[i].0,
    ) by {
        assert(f1[i].0 == f2[i].0);
    }
    assert forall|i: int|
        0 <= i < f1.len() && has_prefix(ascii_lower(#[trigger] f1[i].0), "x-oss-"@) implies f1[i].1
            == f2[i].1 by {
        if i == hv.len() {
            assert(ascii_lower(f1[i].0).len() == 4);
        }
    }
    lemma_oss_entries_congruent(f1, f2);
    assert forall|i: int|
        0 <= i < f1.len() && ascii_lower(#[trigger] f1[i].0) == "content-md5"@ implies f1[i].1
            == f2[i].1 by {
        if i == hv.len() {
            assert(ascii_lower(f1[i].0).len() == 4);
        }
    }
    lemma_header_value_congruent(f1, f2, "content-md5"@);
    assert forall|i: int|
        0 <= i < f1.len() && ascii_lower(#[trigger] f1[i].0) == "content-type"@ implies f1[i].1
            == f2[i].1 by {
        if i == hv.len() {
            assert(ascii_lower(f1[i].0).len() == 4);
        }
    }
    lemma_header_value_congruent(f1, f2, "content-type"@);
    lemma_header_value_skip(hv, tail1, "date"@);
    lemma_header_value_skip(hv, tail2, "date"@);
    assert(tail1[0] == ("date"@, d1));
    assert(tail2[0] == ("date"@, d2));
    assert(header_value(f1, "date"@) == d1);
    assert(header_value(f2, "date"@) == d2);
    if d1 != d2 {
        let pre = verb_text(verb) + "\n"@ + header_value(f1, "content-md5"@) + "\n"@ + header_value(
            f1,
            "content-type"@,
        ) + "\n"@;
        let post = "\n"@ + canonical_headers(f1) + canonical_resource(c.bucket, key, rv);
        let a1 = canonical_string(verb, c.bucket, key, f1, rv);
        let a2 = canonical_string(verb, c.bucket, key, f2, rv);
        assert(a1 =~= pre + d1 + post);
        assert(a2 =~= pre + d2 + post);
        if a1 == a2 {
            assert(d1.len() == d2.len());
            assert(d1 =~= a1.subrange(pre.len() as int, pre.len() + d1.len() as int));
            assert(d2 =~= a2.subrange(pre.len() as int, pre.len() + d2.len() as int));
        }
    }
}

/// Whether a header is present depends on the lower-cased names alone.
proof fn lemma_has_header_congruent(
    h1: Seq<(Seq<char>, Seq<char>)>,
    h2: Seq<(Seq<char>, Seq<char>)>,
    n: Seq<char>,
)
    requires
        h1.len() == h2.len(),
        forall|i: int|
            0 <= i < h1.len() ==> ascii_lower(#[trigger] h1[i].0) == ascii_lower(h2[i].0),
    ensures
        has_header(h1, n) == has_header(h2, n),
{
    if has_header(h1, n) {
        let i = choose|i: int| 0 <= i < h1.len() && ascii_lower(#[trigger] h1[i].0) == n;
        assert(ascii_lower(h2[i].0) == n);
    }
    if has_header(h2, n) {
        let i = choose|i: int| 0 <= i < h2.len() && ascii_lower(#[trigger] h2[i].0) == n;
        assert(ascii_lower(h1[i].0) == n);
    }
}

/// Header names are matched without regard to ASCII case: building one
/// request from two header sets that differ only in the case of their names
/// signs the same canonical string and sends the same `Authorization` value.
pub proof fn lemma_build_case_insensitive(
    c: OssConfigView,
    verb: RequestType,
    key: Seq<char>,
    h1: Seq<(Seq<char>, Seq<char>)>,
    h2: Seq<(Seq<char>, Seq<char>)>,
    rv: Seq<(Seq<char>, Option<Seq<char>>)>,
    date: Seq<char>,
    has_body: bool,
)
    requires
        h1.len() == h2.len(),
        forall|i: int|
            0 <= i < h1.len() ==> ascii_lower(#[trigger] h1[i].0) == ascii_lower(h2[i].0) && h1[i].1
                == h2[i].1,
    ensures
        canonical_string(verb, c.bucket, key, finalized_headers(h1, date, has_body), rv)
            == canonical_string(verb, c.bucket, key, finalized_headers(h2, date, has_body), rv),
        signed_headers(c, verb, key, h1, rv, date, has_body).last() == signed_headers(
            c,
            verb,
            key,
            h2,
            rv,
            date,
            has_body,
        ).last(),
{
    lemma_has_header_congruent(h1, h2, "date"@);
    let g1 = if has_header(h1, "date"@) { h1 } else { h1.push(("date"@, date)) };
    let g2 = if has_header(h2, "date"@) { h2 } else { h2.push(("date"@, date)) };
    assert forall|i: int| 0 <= i < g1.len() implies ascii_lower(#[trigger] g1[i].0) == ascii_lower(
        g2[i].0,
    ) && g1[i].1 == g2[i].1 by {
        if i < h1.len() {
            assert(g1[i] == h1[i] && g2[i] == h2[i]);
        }
    }
    lemma_has_header_congruent(g1, g2, "content-type"@);
    let f1 = finalized_headers(h1, date, has_body);
    let f2 = finalized_headers(h2, date, has_body);
    let ct = ("Content-Type"@, "application/octet-stream"@);
    assert(g1.len() == g2.len());
    assert(f1 == if has_body && !has_header(g1, "content-type"@) { g1.push(ct) } else { g1 });
    assert(f2 == if has_body && !has_header(g2, "content-type"@) { g2.push(ct) } else { g2 });
    assert forall|i: int| 0 <= i < f1.len() implies ascii_lower(#[trigger] f1[i].0) == ascii_lower(
        f2[i].0,
    ) && f1[i].1 == f2[i].1 by {
        if i < g1.len() {
            assert(f1[i] == g1[i] && f2[i] == g2[i]);
            if i < h1.len() {
                assert(g1[i] == h1[i] && g2[i] == h2[i]);
            } else {
                assert(g1[i] == ("date"@, date) && g2[i] == ("date"@, date));
            }
        } else {
            assert(f1[i] == ct && f2[i] == ct);
        }
    }
    lemma_header_case_insensitive(verb, c.bucket, key, f1, f2, rv);
}

/// Only the recognized query names are signed: adding resources whose names
/// are outside that set changes neither the canonical string nor any header
/// that is sent, `Authorization` included.
pub proof fn lemma_build_ignores_unsigned_resources(
    c: OssConfigView,
    verb: RequestType,
    key: Seq<char>,
    hv: Seq<(Seq<char>, Seq<char>)>,
    rv: Seq<(Seq<char>, Option<Seq<char>>)>,
    extra: Seq<(Seq<char>, Option<Seq<char>>)>,
    date: Seq<char>,
    has_body: bool,
)
    requires
        forall|i: int, k: int|
            0 <= i < extra.len() && 0 <= k < SUB_RESOURCE_COUNT ==> (#[trigger] extra[i]).0
                != #[trigger] sub_resource(k),
    ensures
        signed_headers(c, verb, key, hv, rv + extra, date, has_body) == signed_headers(
            c,
            verb,
            key,
            hv,
            rv,
            date,
            has_body,
        ),
{
    lemma_unsigned_resources_ignored(c.bucket, key, rv, extra);
}

} // verus!
