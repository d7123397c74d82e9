//! The canonical string that a request's signature is computed over.
use vstd::prelude::*;

verus! {

/// A header set or resource set as plain text pairs.
pub open spec fn pairs_view(h: Seq<(String, String)>) -> Seq<(Seq<char>, Seq<char>)> {
    h.map_values(|p: (String, String)| (p.0@, p.1@))
}

/// ASCII lower case of one character; every other character is kept.
pub open spec fn lower_char(c: char) -> char {
    if 'A' <= c && c <= 'Z' {
        ((c as u32) + 32) as char
    } else {
        c
    }
}

/// ASCII lower case of a text.
pub open spec fn ascii_lower(s: Seq<char>) -> Seq<char> {
    s.map_values(|c: char| lower_char(c))
}

/// Whether `p` starts `s`.
pub open spec fn has_prefix(s: Seq<char>, p: Seq<char>) -> bool {
    p.len() <= s.len() && s.subrange(0, p.len() as int) == p
}

/// Byte-wise (code point) lexicographic order.
pub open spec fn lex_lt(a: Seq<char>, b: Seq<char>) -> bool
    decreases a.len(),
{
    if a.len() == 0 {
        b.len() > 0
    } else if b.len() == 0 {
        false
    } else if a[0] != b[0] {
        a[0] < b[0]
    } else {
        lex_lt(a.drop_first(), b.drop_first())
    }
}

/// The vendor-prefixed headers, names lower-cased, in input order.
pub open spec fn oss_entries(h: Seq<(Seq<char>, Seq<char>)>) -> Seq<(Seq<char>, Seq<char>)>
    decreases h.len(),
{
    if h.len() == 0 {
        Seq::empty()
    } else {
        let prev = oss_entries(h.drop_last());
        let n = ascii_lower(h.last().0);
        if has_prefix(n, "x-oss-"@) {
            prev.push((n, h.last().1))
        } else {
            prev
        }
    }
}

/// The least name of a non-empty entry list (the first of equals).
pub open spec fn min_name(e: Seq<(Seq<char>, Seq<char>)>) -> Seq<char>
    decreases e.len(),
{
    if e.len() <= 1 {
        e[0].0
    } else {
        let m = min_name(e.drop_last());
        if lex_lt(e.last().0, m) {
            e.last().0
        } else {
            m
        }
    }
}

/// The values of the entries named `m`, in input order.
pub open spec fn values_named(e: Seq<(Seq<char>, Seq<char>)>, m: Seq<char>) -> Seq<Seq<char>>
    decreases e.len(),
{
    if e.len() == 0 {
        Seq::empty()
    } else {
        let prev = values_named(e.drop_last(), m);
        if e.last().0 == m {
            prev.push(e.last().1)
        } else {
            prev
        }
    }
}

/// The entries not named `m`, in input order.
pub open spec fn without_name(e: Seq<(Seq<char>, Seq<char>)>, m: Seq<char>) -> Seq<
    (Seq<char>, Seq<char>),
>
    decreases e.len(),
{
    if e.len() == 0 {
        Seq::empty()
    } else {
        let prev = without_name(e.drop_last(), m);
        if e.last().0 == m {
            prev
        } else {
            prev.push(e.last())
        }
    }
}

/// Texts joined by a separator.
pub open spec fn join(l: Seq<Seq<char>>, sep: Seq<char>) -> Seq<char>
    decreases l.len(),
{
    if l.len() == 0 {
        Seq::empty()
    } else if l.len() == 1 {
        l[0]
    } else {
        join(l.drop_last(), sep) + sep + l.last()
    }
}

/// At most `k` header lines `name:values\n`, by increasing name, each name
/// once with its values comma-joined.
pub open spec fn header_lines(e: Seq<(Seq<char>, Seq<char>)>, k: nat) -> Seq<char>
    decreases k,
{
    if k == 0 || e.len() == 0 {
        Seq::empty()
    } else {
        let m = min_name(e);
        m + ":"@ + join(values_named(e, m), ","@) + "\n"@ + header_lines(without_name(e, m), (k - 1) as nat)
    }
}

/// The canonicalized vendor headers of a header set.
pub open spec fn canonical_headers(h: Seq<(Seq<char>, Seq<char>)>) -> Seq<char> {
    let e = oss_entries(h);
    header_lines(e, e.len())
}

/// Relies on `str::to_ascii_lowercase`: ASCII upper-case letters are mapped
/// to lower case, every other character is kept.
#[verifier::external_body]
pub(crate) fn lower_text(s: &str) -> (r: String)
    ensures
        r@ == ascii_lower(s@),
{
    s.to_ascii_lowercase()
}

/// Whether `p` starts `s`.
pub fn starts_with(s: &String, p: &str) -> (r: bool)
    ensures
        r == has_prefix(s@, p@),
{
    let pl = p.unicode_len();
    let sl = s.as_str().unicode_len();
    if pl > sl {
        return false;
    }
    let mut i: usize = 0;
    while i < pl
        invariant
            pl == p@.len(),
            sl == s@.len(),
            pl <= sl,
            i <= pl,
            forall|j: int| 0 <= j < i ==> s@[j] == p@[j],
        decreases pl - i,
    {
        if s.as_str().get_char(i) != p.get_char(i) {
            return false;
        }
        i = i + 1;
    }
    proof {
        assert(s@.subrange(0, pl as int) =~= p@);
    }
    true
}

/// Whether `a` comes before `b` in lexicographic order.
pub fn lex_less(a: &String, b: &String) -> (r: bool)
    ensures
        r == lex_lt(a@, b@),
{
    let al = a.as_str().unicode_len();
    let bl = b.as_str().unicode_len();
    let mut i: usize = 0;
    proof {
        assert(a@.skip(0) =~= a@);
        assert(b@.skip(0) =~= b@);
    }
    while i < al && i < bl
        invariant
            al == a@.len(),
            bl == b@.len(),
            i <= al,
            i <= bl,
            lex_lt(a@, b@) == lex_lt(a@.skip(i as int), b@.skip(i as int)),
        decreases al - i,
    {
        let ca = a.as_str().get_char(i);
        let cb = b.as_str().get_char(i);
        proof {
            assert(a@.skip(i as int)[0] == ca);
            assert(b@.skip(i as int)[0] == cb);
            assert(a@.skip(i as int).drop_first() =~= a@.skip(i + 1));
            assert(b@.skip(i as int).drop_first() =~= b@.skip(i + 1));
        }
        if ca != cb {
            return ca < cb;
        }
        i = i + 1;
    }
    i == al && i < bl
}

/// The vendor-prefixed headers of a header set, names lower-cased.
fn collect_oss_entries(headers: &Vec<(String, String)>) -> (r: Vec<(String, String)>)
    ensures
        pairs_view(r@) == oss_entries(pairs_view(headers@)),
{
    let ghost hv = pairs_view(headers@);
    let mut out: Vec<(String, String)> = Vec::new();
    let mut j: usize = 0;
    while j < headers.len()
        invariant
            hv == pairs_view(headers@),
            j <= headers@.len(),
            pairs_view(out@) == oss_entries(hv.take(j as int)),
        decreases headers@.len() - j,
    {
        proof {
            assert(hv.take(j + 1).drop_last() =~= hv.take(j as int));
        }
        let n = lower_text(headers[j].0.as_str());
        if starts_with(&n, "x-oss-") {
            let v = headers[j].1.clone();
            let ghost before = out@;
            out.push((n, v));
            proof {
                assert(pairs_view(out@) =~= pairs_view(before).push((n@, v@)));
            }
        }
        j = j + 1;
    }
    proof {
        assert(hv.take(headers@.len() as int) =~= hv);
    }
    out
}

/// The position of the first entry with the least name.
fn min_entry(e: &Vec<(String, String)>) -> (r: usize)
    requires
        e@.len() > 0,
    ensures
        r < e@.len(),
        e@[r as int].0@ == min_name(pairs_view(e@)),
{
    let ghost ev = pairs_view(e@);
    let mut best: usize = 0;
    let mut j: usize = 1;
    proof {
        assert(ev.take(1).len() == 1);
    }
    while j < e.len()
        invariant
            ev == pairs_view(e@),
            1 <= j <= e@.len(),
            best < j,
            e@[best as int].0@ == min_name(ev.take(j as int)),
        decreases e@.len() - j,
    {
        proof {
            assert(ev.take(j + 1).drop_last() =~= ev.take(j as int));
        }
        if lex_less(&e[j].0, &e[best].0) {
            best = j;
        }
        j = j + 1;
    }
    proof {
        assert(ev.take(e@.len() as int) =~= ev);
    }
    best
}

/// The values of the entries named `m`, comma-joined in input order.
fn joined_values(e: &Vec<(String, String)>, m: &String) -> (r: String)
    ensures
        r@ == join(values_named(pairs_view(e@), m@), ","@),
{
    let ghost ev = pairs_view(e@);
    let mut out = String::new();
    let mut count: usize = 0;
    let mut j: usize = 0;
    while j < e.len()
        invariant
            ev == pairs_view(e@),
            j <= e@.len(),
            count <= j,
            count == values_named(ev.take(j as int), m@).len(),
            out@ == join(values_named(ev.take(j as int), m@), ","@),
        decreases e@.len() - j,
    {
        proof {
            assert(ev.take(j + 1).drop_last() =~= ev.take(j as int));
        }
        if e[j].0 == *m {
            if count > 0 {
                out.append(",");
            }
            out.append(e[j].1.as_str());
            count = count + 1;
            proof {
                let l = values_named(ev.take(j as int), m@);
                assert(l.push(e@[j as int].1@).drop_last() =~= l);
            }
        }
        j = j + 1;
    }
    proof {
        assert(ev.take(e@.len() as int) =~= ev);
    }
    out
}

/// The entries not named `m`; shorter than `e` where entry `at` is named `m`.
fn entries_without(e: &Vec<(String, String)>, m: &String, at: usize) -> (r: Vec<(String, String)>)
    requires
        at < e@.len(),
        e@[at as int].0@ == m@,
    ensures
        pairs_view(r@) == without_name(pairs_view(e@), m@),
        r@.len() < e@.len(),
{
    let ghost ev = pairs_view(e@);
    let mut out: Vec<(String, String)> = Vec::new();
    let mut j: usize = 0;
    while j < e.len()
        invariant
            ev == pairs_view(e@),
            at < e@.len(),
            e@[at as int].0@ == m@,
            j <= e@.len(),
            out@.len() <= j,
            j > at ==> out@.len() < j,
            pairs_view(out@) == without_name(ev.take(j as int), m@),
        decreases e@.len() - j,
    {
        proof {
            assert(ev.take(j + 1).drop_last() =~= ev.take(j as int));
        }
        if e[j].0 != *m {
            let p = (e[j].0.clone(), e[j].1.clone());
            let ghost before = out@;
            out.push(p);
            proof {
                assert(pairs_view(out@) =~= pairs_view(before).push(ev[j as int]));
            }
        }
        j = j + 1;
    }
    proof {
        assert(ev.take(e@.len() as int) =~= ev);
    }
    out
}

/// The canonicalized vendor headers: lower-cased names in increasing order,
/// one line `name:values` each.
pub fn canonicalize_headers(headers: &Vec<(String, String)>) -> (r: String)
    ensures
        r@ == canonical_headers(pairs_view(headers@)),
{
    let mut rest = collect_oss_entries(headers);
    let ghost total = pairs_view(rest@);
    let ghost mut fuel: nat = total.len();
    let mut out = String::new();
    while rest.len() > 0
        invariant
            rest@.len() <= fuel,
            out@ + header_lines(pairs_view(rest@), fuel) == header_lines(total, total.len()),
        decreases rest@.len(),
    {
        let at = min_entry(&rest);
        let m = rest[at].0.clone();
        let vals = joined_values(&rest, &m);
        let next = entries_without(&rest, &m, at);
        let ghost line = m@ + ":"@ + vals@ + "\n"@;
        proof {
            assert(header_lines(pairs_view(rest@), fuel) == line + header_lines(
                pairs_view(next@),
                (fuel - 1) as nat,
            ));
        }
        let ghost prev = out@;
        out.append(m.as_str());
        out.append(":");
        out.append(vals.as_str());
        out.append("\n");
        proof {
            assert(out@ =~= prev + line);
            assert(out@ + header_lines(pairs_view(next@), (fuel - 1) as nat) =~= prev + (line
                + header_lines(pairs_view(next@), (fuel - 1) as nat)));
        }
        rest = next;
        proof {
            fuel = (fuel - 1) as nat;
        }
    }
    proof {
        assert(out@ + header_lines(pairs_view(rest@), fuel) =~= out@);
    }
    out
}

/// The HTTP verb of a request.
#[derive(Clone, Copy, Debug, PartialEq, Eq, Structural)]
pub enum RequestType {
    Get,
    Put,
    Delete,
    Head,
    Post,
}

/// The verb as it is written on the wire.
pub open spec fn verb_text(v: RequestType) -> Seq<char> {
    match v {
        RequestType::Get => "GET"@,
        RequestType::Put => "PUT"@,
        RequestType::Delete => "DELETE"@,
        RequestType::Head => "HEAD"@,
        RequestType::Post => "POST"@,
    }
}

impl RequestType {
    /// The verb as it is written on the wire.
    pub fn as_str(&self) -> (r: &'static str)
        ensures
            r@ == verb_text(*self),
    {
        match self {
            RequestType::Get => "GET",
            RequestType::Put => "PUT",
            RequestType::Delete => "DELETE",
            RequestType::Head => "HEAD",
            RequestType::Post => "POST",
        }
    }
}

/// How many query names take part in the signature.
pub const SUB_RESOURCE_COUNT: usize = 24;

/// The query names that take part in the signature, in increasing order.
pub open spec fn sub_resource(i: int) -> Seq<char> {
    if i == 0 {
        "acl"@
    } else if i == 1 {
        "append"@
    } else if i == 2 {
        "bucketInfo"@
    } else if i == 3 {
        "cors"@
    } else if i == 4 {
        "delete"@
    } else if i == 5 {
        "lifecycle"@
    } else if i == 6 {
        "location"@
    } else if i == 7 {
        "logging"@
    } else if i == 8 {
        "objectMeta"@
    } else if i == 9 {
        "partNumber"@
    } else if i == 10 {
        "position"@
    } else if i == 11 {
        "referer"@
    } else if i == 12 {
        "response-cache-control"@
    } else if i == 13 {
        "response-content-disposition"@
    } else if i == 14 {
        "response-content-encoding"@
    } else if i == 15 {
        "response-content-language"@
    } else if i == 16 {
        "response-content-type"@
    } else if i == 17 {
        "response-expires"@
    } else if i == 18 {
        "security-token"@
    } else if i == 19 {
        "symlink"@
    } else if i == 20 {
        "tagging"@
    } else if i == 21 {
        "uploadId"@
    } else if i == 22 {
        "uploads"@
    } else {
        "website"@
    }
}

/// The `i`-th query name that takes part in the signature.
pub fn sub_resource_name(i: usize) -> (r: &'static str)
    requires
        i < SUB_RESOURCE_COUNT,
    ensures
        r@ == sub_resource(i as int),
{
    match i {
        0 => "acl",
        1 => "append",
        2 => "bucketInfo",
        3 => "cors",
        4 => "delete",
        5 => "lifecycle",
        6 => "location",
        7 => "logging",
        8 => "objectMeta",
        9 => "partNumber",
        10 => "position",
        11 => "referer",
        12 => "response-cache-control",
        13 => "response-content-disposition",
        14 => "response-content-encoding",
        15 => "response-content-language",
        16 => "response-content-type",
        17 => "response-expires",
        18 => "security-token",
        19 => "symlink",
        20 => "tagging",
        21 => "uploadId",
        22 => "uploads",
        _ => "website",
    }
}

/// The text of an optional text.
pub open spec fn opt_view(o: Option<String>) -> Option<Seq<char>> {
    match o {
        Some(v) => Some(v@),
        None => None,
    }
}

/// A resource set as plain text pairs.
pub open spec fn resources_view(r: Seq<(String, Option<String>)>) -> Seq<(Seq<char>, Option<Seq<char>>)> {
    r.map_values(|p: (String, Option<String>)| (p.0@, opt_view(p.1)))
}

/// The value given to the first resource named `n`, if any.
pub open spec fn lookup_resource(rv: Seq<(Seq<char>, Option<Seq<char>>)>, n: Seq<char>) -> Option<Option<Seq<char>>>
    decreases rv.len(),
{
    if rv.len() == 0 {
        None
    } else if rv[0].0 == n {
        Some(rv[0].1)
    } else {
        lookup_resource(rv.drop_first(), n)
    }
}

/// A query parameter: its bare name, or `name=value`.
pub open spec fn render_param(n: Seq<char>, v: Option<Seq<char>>) -> Seq<char> {
    match v {
        Some(x) => n + "="@ + x,
        None => n,
    }
}

/// The signed parameters among the first `k` recognized names, `&`-joined.
pub open spec fn signed_params(rv: Seq<(Seq<char>, Option<Seq<char>>)>, k: nat) -> Seq<char>
    decreases k,
{
    if k == 0 {
        Seq::empty()
    } else {
        let prev = signed_params(rv, (k - 1) as nat);
        match lookup_resource(rv, sub_resource(k - 1)) {
            None => prev,
            Some(v) => if prev.len() == 0 {
                render_param(sub_resource(k - 1), v)
            } else {
                prev + "&"@ + render_param(sub_resource(k - 1), v)
            },
        }
    }
}

/// The canonicalized resource: `/bucket/key`, then `?` and the signed
/// parameters where there are any.
pub open spec fn canonical_resource(
    bucket: Seq<char>,
    key: Seq<char>,
    rv: Seq<(Seq<char>, Option<Seq<char>>)>,
) -> Seq<char> {
    let p = signed_params(rv, SUB_RESOURCE_COUNT as nat);
    "/"@ + bucket + "/"@ + key + if p.len() == 0 {
        Seq::empty()
    } else {
        "?"@ + p
    }
}

/// The value of the first header whose lower-cased name is `lname`, or an empty text.
pub open spec fn header_value(hv: Seq<(Seq<char>, Seq<char>)>, lname: Seq<char>) -> Seq<char>
    decreases hv.len(),
{
    if hv.len() == 0 {
        Seq::empty()
    } else if ascii_lower(hv[0].0) == lname {
        hv[0].1
    } else {
        header_value(hv.drop_first(), lname)
    }
}

/// The canonical string of a request.
pub open spec fn canonical_string(
    verb: RequestType,
    bucket: Seq<char>,
    key: Seq<char>,
    hv: Seq<(Seq<char>, Seq<char>)>,
    rv: Seq<(Seq<char>, Option<Seq<char>>)>,
) -> Seq<char> {
    verb_text(verb) + "\n"@ + header_value(hv, "content-md5"@) + "\n"@ + header_value(hv, "content-type"@)
        + "\n"@ + header_value(hv, "date"@) + "\n"@ + canonical_headers(hv) + canonical_resource(
        bucket,
        key,
        rv,
    )
}

/// The value given to the first resource named `n`.
fn find_resource(resources: &Vec<(String, Option<String>)>, n: &String) -> (r: Option<usize>)
    ensures
        match lookup_resource(resources_view(resources@), n@) {
            None => r is None,
            Some(v) => r is Some && r->Some_0 < resources@.len() && opt_view(resources@[r->Some_0 as int].1) == v,
        },
{
    let ghost rv = resources_view(resources@);
    let mut j: usize = 0;
    proof {
        assert(rv.skip(0) =~= rv);
    }
    while j < resources.len()
        invariant
            rv == resources_view(resources@),
            j <= resources@.len(),
            lookup_resource(rv, n@) == lookup_resource(rv.skip(j as int), n@),
        decreases resources@.len() - j,
    {
        proof {
            assert(rv.skip(j as int).drop_first() =~= rv.skip(j + 1));
        }
        if resources[j].0 == *n {
            return Some(j);
        }
        j = j + 1;
    }
    None
}

/// The signed parameters of a resource set, `&`-joined in increasing name order.
pub fn canonicalize_params(resources: &Vec<(String, Option<String>)>) -> (r: String)
    ensures
        r@ == signed_params(resources_view(resources@), SUB_RESOURCE_COUNT as nat),
{
    let ghost rv = resources_view(resources@);
    let mut out = String::new();
    let mut k: usize = 0;
    while k < SUB_RESOURCE_COUNT
        invariant
            rv == resources_view(resources@),
            k <= SUB_RESOURCE_COUNT,
            out@ == signed_params(rv, k as nat),
        decreases SUB_RESOURCE_COUNT - k,
    {
        let name = sub_resource_name(k);
        let n = name.to_owned();
        match find_resource(resources, &n) {
            Some(at) => {
                if out.as_str().unicode_len() > 0 {
                    out.append("&");
                }
                out.append(name);
                match &resources[at].1 {
                    Some(v) => {
                        out.append("=");
                        out.append(v.as_str());
                    },
                    None => {},
                }
            },
            None => {},
        }
        k = k + 1;
    }
    out
}

/// The canonicalized resource: `/bucket/key`, then `?` and the signed parameters.
pub fn canonicalize_resource(
    bucket: &String,
    object_key: &String,
    resources: &Vec<(String, Option<String>)>,
) -> (r: String)
    ensures
        r@ == canonical_resource(bucket@, object_key@, resources_view(resources@)),
{
    let params = canonicalize_params(resources);
    let mut out = "/".to_owned();
    out.append(bucket.as_str());
    out.append("/");
    out.append(object_key.as_str());
    if params.as_str().unicode_len() > 0 {
        out.append("?");
        out.append(params.as_str());
    }
    proof {
        if params@.len() == 0 {
            assert(out@ =~= out@ + Seq::<char>::empty());
        }
    }
    out
}

/// The value of the first header whose lower-cased name is `lname`, or an empty text.
pub fn find_header(headers: &Vec<(String, String)>, lname: &str) -> (r: String)
    ensures
        r@ == header_value(pairs_view(headers@), lname@),
{
    let ghost hv = pairs_view(headers@);
    let wanted = lname.to_owned();
    let mut j: usize = 0;
    proof {
        assert(hv.skip(0) =~= hv);
    }
    while j < headers.len()
        invariant
            hv == pairs_view(headers@),
            j <= headers@.len(),
            wanted@ == lname@,
            header_value(hv, lname@) == header_value(hv.skip(j as int), lname@),
        decreases headers@.len() - j,
    {
        proof {
            assert(hv.skip(j as int).drop_first() =~= hv.skip(j + 1));
        }
        if lower_text(headers[j].0.as_str()) == wanted {
            return headers[j].1.clone();
        }
        j = j + 1;
    }
    String::new()
}

/// The canonical string that the signature of a request covers.
pub fn canonicalize(
    verb: RequestType,
    bucket: &String,
    object_key: &String,
    headers: &Vec<(String, String)>,
    resources: &Vec<(String, Option<String>)>,
) -> (r: String)
    ensures
        r@ == canonical_string(
            verb,
            bucket@,
            object_key@,
            pairs_view(headers@),
            resources_view(resources@),
        ),
{
    let mut out = verb.as_str().to_owned();
    out.append("\n");
    out.append(find_header(headers, "content-md5").as_str());
    out.append("\n");
    out.append(find_header(headers, "content-type").as_str());
    out.append("\n");
    out.append(find_header(headers, "date").as_str());
    out.append("\n");
    out.append(canonicalize_headers(headers).as_str());
    out.append(canonicalize_resource(bucket, object_key, resources).as_str());
    out
}

/// Two header sets that agree, position by position, on lower-cased names
/// and on the values of vendor headers have the same vendor entries.
pub proof fn lemma_oss_entries_congruent(h1: Seq<(Seq<char>, Seq<char>)>, h2: Seq<(Seq<char>, Seq<char>)>)
    requires
        h1.len() == h2.len(),
        forall|i: int|
            0 <= i < h1.len() ==> ascii_lower(#[trigger] h1[i].0) == ascii_lower(h2[i].0),
        forall|i: int|
            0 <= i < h1.len() && has_prefix(ascii_lower(#[trigger] h1[i].0), "x-oss-"@) ==> h1[i].1
                == h2[i].1,
    ensures
        oss_entries(h1) == oss_entries(h2),
    decreases h1.len(),
{
    if h1.len() > 0 {
        let a = h1.drop_last();
        let b = h2.drop_last();
        assert forall|i: int| 0 <= i < a.len() implies ascii_lower(#[trigger] a[i].0) == ascii_lower(
            b[i].0,
        ) by {
            assert(a[i] == h1[i] && b[i] == h2[i]);
        }
        assert forall|i: int|
            0 <= i < a.len() && has_prefix(ascii_lower(#[trigger] a[i].0), "x-oss-"@) implies a[i].1
                == b[i].1 by {
            assert(a[i] == h1[i] && b[i] == h2[i]);
        }
        lemma_oss_entries_congruent(a, b);
        assert(h1.last() == h1[h1.len() - 1]);
        assert(h2.last() == h2[h2.len() - 1]);
    }
}

/// Two header sets that agree, position by position, on lower-cased names
/// and on the values of headers named `lname` give `lname` the same value.
pub proof fn lemma_header_value_congruent(
    h1: Seq<(Seq<char>, Seq<char>)>,
    h2: Seq<(Seq<char>, Seq<char>)>,
    lname: Seq<char>,
)
    requires
        h1.len() == h2.len(),
        forall|i: int|
            0 <= i < h1.len() ==> ascii_lower(#[trigger] h1[i].0) == ascii_lower(h2[i].0),
        forall|i: int|
            0 <= i < h1.len() && ascii_lower(#[trigger] h1[i].0) == lname ==> h1[i].1 == h2[i].1,
    ensures
        header_value(h1, lname) == header_value(h2, lname),
    decreases h1.len(),
{
    if h1.len() > 0 {
        let a = h1.drop_first();
        let b = h2.drop_first();
        assert forall|i: int| 0 <= i < a.len() implies ascii_lower(#[trigger] a[i].0) == ascii_lower(
            b[i].0,
        ) by {
            assert(a[i] == h1[i + 1] && b[i] == h2[i + 1]);
        }
        assert forall|i: int| 0 <= i < a.len() && ascii_lower(#[trigger] a[i].0) == lname implies a[i].1
            == b[i].1 by {
            assert(a[i] == h1[i + 1] && b[i] == h2[i + 1]);
        }
        lemma_header_value_congruent(a, b, lname);
    }
}

/// Header names are matched without regard to ASCII case: two header sets
/// that differ only in the case of their names have the same canonicalized
/// vendor headers and the same canonical string.
pub proof fn lemma_header_case_insensitive(
    verb: RequestType,
    bucket: Seq<char>,
    key: Seq<char>,
    h1: Seq<(Seq<char>, Seq<char>)>,
    h2: Seq<(Seq<char>, Seq<char>)>,
    rv: Seq<(Seq<char>, Option<Seq<char>>)>,
)
    requires
        h1.len() == h2.len(),
        forall|i: int|
            0 <= i < h1.len() ==> ascii_lower(#[trigger] h1[i].0) == ascii_lower(h2[i].0) && h1[i].1
                == h2[i].1,
    ensures
        canonical_headers(h1) == canonical_headers(h2),
        canonical_string(verb, bucket, key, h1, rv) == canonical_string(verb, bucket, key, h2, rv),
{
    lemma_oss_entries_congruent(h1, h2);
    lemma_header_value_congruent(h1, h2, "content-md5"@);
    lemma_header_value_congruent(h1, h2, "content-type"@);
    lemma_header_value_congruent(h1, h2, "date"@);
}

/// A resource set in which no resource is named `n` gives `n` no value.
proof fn lemma_lookup_absent(rv: Seq<(Seq<char>, Option<Seq<char>>)>, n: Seq<char>)
    requires
        forall|i: int| 0 <= i < rv.len() ==> (#[trigger] rv[i]).0 != n,
    ensures
        lookup_resource(rv, n) is None,
    decreases rv.len(),
{
    if rv.len() > 0 {
        assert forall|i: int| 0 <= i < rv.drop_first().len() implies (
        #[trigger] rv.drop_first()[i]).0 != n by {
            assert(rv.drop_first()[i] == rv[i + 1]);
        }
        lemma_lookup_absent(rv.drop_first(), n);
    }
}

/// Appending resources not named `n` leaves the value of `n` as it was.
proof fn lemma_lookup_append(
    rv: Seq<(Seq<char>, Option<Seq<char>>)>,
    extra: Seq<(Seq<char>, Option<Seq<char>>)>,
    n: Seq<char>,
)
    requires
        forall|i: int| 0 <= i < extra.len() ==> (#[trigger] extra[i]).0 != n,
    ensures
        lookup_resource(rv + extra, n) == lookup_resource(rv, n),
    decreases rv.len(),
{
    if rv.len() > 0 {
        assert((rv + extra)[0] == rv[0]);
        assert((rv + extra).drop_first() =~= rv.drop_first() + extra);
        lemma_lookup_append(rv.drop_first(), extra, n);
    } else {
        assert(rv + extra =~= extra);
        lemma_lookup_absent(extra, n);
    }
}

/// Only the recognized query names are signed: appending resources whose
/// names are outside that set leaves the canonicalized resource unchanged.
pub proof fn lemma_unsigned_resources_ignored(
    bucket: Seq<char>,
    key: Seq<char>,
    rv: Seq<(Seq<char>, Option<Seq<char>>)>,
    extra: Seq<(Seq<char>, Option<Seq<char>>)>,
)
    requires
        forall|i: int, k: int|
            0 <= i < extra.len() && 0 <= k < SUB_RESOURCE_COUNT ==> (#[trigger] extra[i]).0
                != #[trigger] sub_resource(k),
    ensures
        canonical_resource(bucket, key, rv + extra) == canonical_resource(bucket, key, rv),
{
    lemma_signed_params_append(rv, extra, SUB_RESOURCE_COUNT as nat);
}

proof fn lemma_signed_params_append(
    rv: Seq<(Seq<char>, Option<Seq<char>>)>,
    extra: Seq<(Seq<char>, Option<Seq<char>>)>,
    k: nat,
)
    requires
        k <= SUB_RESOURCE_COUNT,
        forall|i: int, j: int|
            0 <= i < extra.len() && 0 <= j < SUB_RESOURCE_COUNT ==> (#[trigger] extra[i]).0
                != #[trigger] sub_resource(j),
    ensures
        signed_params(rv + extra, k) == signed_params(rv, k),
    decreases k,
{
    if k > 0 {
        lemma_signed_params_append(rv, extra, (k - 1) as nat);
        let n = sub_resource(k - 1);
        assert forall|i: int| 0 <= i < extra.len() implies (#[trigger] extra[i]).0 != n by {
            assert(extra[i].0 != sub_resource(k - 1));
        }
        lemma_lookup_append(rv, extra, n);
    }
}

} // verus!
