//! The request URL: the bucket's host, the percent-encoded object key and
//! the query string of every resource.
use vstd::prelude::*;
use vstd::string::StringSliceAdditionalSpecFns;
use vstd::utf8::encode_utf8;

use crate::canonical::{lex_less, lex_lt, opt_view, resources_view};

verus! {

/// Characters that stand for themselves in a URL.
pub open spec fn is_unreserved(c: char) -> bool {
    ('A' <= c && c <= 'Z') || ('a' <= c && c <= 'z') || ('0' <= c && c <= '9') || c == '-' || c
        == '_' || c == '.' || c == '~'
}

/// The upper-case hexadecimal digit of a value below sixteen.
pub open spec fn hex_digit(n: int) -> Seq<char> {
    if n == 0 {
        "0"@
    } else if n == 1 {
        "1"@
    } else if n == 2 {
        "2"@
    } else if n == 3 {
        "3"@
    } else if n == 4 {
        "4"@
    } else if n == 5 {
        "5"@
    } else if n == 6 {
        "6"@
    } else if n == 7 {
        "7"@
    } else if n == 8 {
        "8"@
    } else if n == 9 {
        "9"@
    } else if n == 10 {
        "A"@
    } else if n == 11 {
        "B"@
    } else if n == 12 {
        "C"@
    } else if n == 13 {
        "D"@
    } else if n == 14 {
        "E"@
    } else {
        "F"@
    }
}

/// Each byte written as `%` and two hexadecimal digits.
pub open spec fn pct_bytes(b: Seq<u8>) -> Seq<char>
    decreases b.len(),
{
    if b.len() == 0 {
        Seq::empty()
    } else {
        pct_bytes(b.drop_last()) + "%"@ + hex_digit(b.last() as int / 16) + hex_digit(
            b.last() as int % 16,
        )
    }
}

/// One character of a URL component: kept where unreserved (or a kept
/// slash), else its UTF-8 bytes percent-encoded.
pub open spec fn encode_char(c: char, keep_slash: bool) -> Seq<char> {
    if is_unreserved(c) || (keep_slash && c == '/') {
        seq![c]
    } else {
        pct_bytes(encode_utf8(seq![c]))
    }
}

/// A percent-encoded URL component.
pub open spec fn pct_encode(s: Seq<char>, keep_slash: bool) -> Seq<char>
    decreases s.len(),
{
    if s.len() == 0 {
        Seq::empty()
    } else {
        pct_encode(s.drop_last(), keep_slash) + encode_char(s.last(), keep_slash)
    }
}

/// One query parameter of the URL.
pub open spec fn query_param(n: Seq<char>, v: Option<Seq<char>>) -> Seq<char> {
    match v {
        Some(x) => pct_encode(n, false) + "="@ + pct_encode(x, false),
        None => pct_encode(n, false),
    }
}

/// The position of the first resource with the least name.
pub open spec fn min_param(rv: Seq<(Seq<char>, Option<Seq<char>>)>) -> int
    decreases rv.len(),
{
    if rv.len() <= 1 {
        0
    } else {
        let m = min_param(rv.drop_last());
        if lex_lt(rv.last().0, rv[m].0) {
            rv.len() - 1
        } else {
            m
        }
    }
}

/// At most `k` resources taken by increasing name (the first of equal names first).
pub open spec fn sorted_params(rv: Seq<(Seq<char>, Option<Seq<char>>)>, k: nat) -> Seq<
    (Seq<char>, Option<Seq<char>>),
>
    decreases k,
{
    if k == 0 || rv.len() == 0 {
        Seq::empty()
    } else {
        let m = min_param(rv);
        seq![rv[m]] + sorted_params(rv.remove(m), (k - 1) as nat)
    }
}

/// The resources ordered by name.
pub open spec fn by_name(rv: Seq<(Seq<char>, Option<Seq<char>>)>) -> Seq<(Seq<char>, Option<Seq<char>>)> {
    sorted_params(rv, rv.len())
}

/// The query string: the resources in the given order, `&`-joined.
pub open spec fn query_string(rv: Seq<(Seq<char>, Option<Seq<char>>)>) -> Seq<char>
    decreases rv.len(),
{
    if rv.len() == 0 {
        Seq::empty()
    } else if rv.len() == 1 {
        query_param(rv[0].0, rv[0].1)
    } else {
        query_string(rv.drop_last()) + "&"@ + query_param(rv.last().0, rv.last().1)
    }
}

/// The URL of a request.
pub open spec fn request_url(
    scheme: Seq<char>,
    bucket: Seq<char>,
    endpoint: Seq<char>,
    key: Seq<char>,
    rv: Seq<(Seq<char>, Option<Seq<char>>)>,
) -> Seq<char> {
    scheme + "://"@ + bucket + "."@ + endpoint + "/"@ + pct_encode(key, true) + if rv.len() == 0 {
        Seq::empty()
    } else {
        "?"@ + query_string(by_name(rv))
    }
}

fn hex_digit_str(n: u8) -> (r: &'static str)
    requires
        n < 16,
    ensures
        r@ == hex_digit(n as int),
{
    if n == 0 {
        "0"
    } else if n == 1 {
        "1"
    } else if n == 2 {
        "2"
    } else if n == 3 {
        "3"
    } else if n == 4 {
        "4"
    } else if n == 5 {
        "5"
    } else if n == 6 {
        "6"
    } else if n == 7 {
        "7"
    } else if n == 8 {
        "8"
    } else if n == 9 {
        "9"
    } else if n == 10 {
        "A"
    } else if n == 11 {
        "B"
    } else if n == 12 {
        "C"
    } else if n == 13 {
        "D"
    } else if n == 14 {
        "E"
    } else {
        "F"
    }
}

fn char_unreserved(c: char) -> (r: bool)
    ensures
        r == is_unreserved(c),
{
    ('A' <= c && c <= 'Z') || ('a' <= c && c <= 'z') || ('0' <= c && c <= '9') || c == '-' || c
        == '_' || c == '.' || c == '~'
}

/// Appends the percent-encoding of `s` to `out`.
pub fn push_encoded(out: &mut String, s: &str, keep_slash: bool)
    ensures
        final(out)@ == old(out)@ + pct_encode(s@, keep_slash),
{
    let n = s.unicode_len();
    let ghost start = out@;
    let mut i: usize = 0;
    while i < n
        invariant
            n == s@.len(),
            i <= n,
            out@ == start + pct_encode(s@.take(i as int), keep_slash),
        decreases n - i,
    {
        let c = s.get_char(i);
        let piece = s.substring_char(i, i + 1);
        proof {
            assert(s@.take(i + 1).drop_last() =~= s@.take(i as int));
            assert(piece@ =~= seq![c]);
        }
        let ghost before = out@;
        if char_unreserved(c) || (keep_slash && c == '/') {
            out.append(piece);
        } else {
            let bytes = piece.as_bytes();
            let mut j: usize = 0;
            while j < bytes.len()
                invariant
                    bytes@ == encode_utf8(seq![c]),
                    j <= bytes@.len(),
                    out@ == before + pct_bytes(bytes@.take(j as int)),
                decreases bytes@.len() - j,
            {
                proof {
                    assert(bytes@.take(j + 1).drop_last() =~= bytes@.take(j as int));
                }
                let b = bytes[j];
                out.append("%");
                out.append(hex_digit_str(b / 16));
                out.append(hex_digit_str(b % 16));
                j = j + 1;
            }
            proof {
                assert(bytes@.take(bytes@.len() as int) =~= bytes@);
            }
        }
        proof {
            assert(out@ =~= start + pct_encode(s@.take(i + 1), keep_slash));
        }
        i = i + 1;
    }
    proof {
        assert(s@.take(n as int) =~= s@);
    }
}

/// The position of the first resource with the least name.
fn min_resource(rs: &Vec<(String, Option<String>)>) -> (r: usize)
    requires
        rs@.len() > 0,
    ensures
        r as int == min_param(resources_view(rs@)),
        r < rs@.len(),
{
    let ghost rv = resources_view(rs@);
    let mut best: usize = 0;
    let mut j: usize = 1;
    while j < rs.len()
        invariant
            rv == resources_view(rs@),
            1 <= j <= rs@.len(),
            best < j,
            best as int == min_param(rv.take(j as int)),
        decreases rs@.len() - j,
    {
        proof {
            assert(rv.take(j + 1).drop_last() =~= rv.take(j as int));
        }
        if lex_less(&rs[j].0, &rs[best].0) {
            best = j;
        }
        j = j + 1;
    }
    proof {
        assert(rv.take(rs@.len() as int) =~= rv);
    }
    best
}

/// The resources ordered by name.
pub fn sort_resources(resources: &Vec<(String, Option<String>)>) -> (r: Vec<(String, Option<String>)>)
    ensures
        resources_view(r@) == by_name(resources_view(resources@)),
{
    let ghost rv = resources_view(resources@);
    let mut rest: Vec<(String, Option<String>)> = Vec::new();
    let mut j: usize = 0;
    while j < resources.len()
        invariant
            rv == resources_view(resources@),
            j <= resources@.len(),
            resources_view(rest@) == rv.take(j as int),
        decreases resources@.len() - j,
    {
        let p = (resources[j].0.clone(), resources[j].1.clone());
        let ghost before = rest@;
        rest.push(p);
        proof {
            assert(opt_view(p.1) == opt_view(resources@[j as int].1));
            assert(resources_view(rest@) =~= resources_view(before).push(rv[j as int]));
            assert(rv.take(j + 1) =~= rv.take(j as int).push(rv[j as int]));
        }
        j = j + 1;
    }
    proof {
        assert(rv.take(resources@.len() as int) =~= rv);
    }
    let mut out: Vec<(String, Option<String>)> = Vec::new();
    let ghost mut fuel: nat = rv.len();
    proof {
        assert(resources_view(out@) + sorted_params(resources_view(rest@), fuel) =~= by_name(rv));
    }
    while rest.len() > 0
        invariant
            rest@.len() <= fuel,
            resources_view(out@) + sorted_params(resources_view(rest@), fuel) == by_name(rv),
        decreases rest@.len(),
    {
        let ghost rest0 = resources_view(rest@);
        let ghost out0 = resources_view(out@);
        let m = min_resource(&rest);
        let p = rest.remove(m);
        out.push(p);
        proof {
            assert(resources_view(rest@) =~= rest0.remove(m as int));
            assert(resources_view(out@) =~= out0.push(rest0[m as int]));
            assert(sorted_params(rest0, fuel) == seq![rest0[m as int]] + sorted_params(
                rest0.remove(m as int),
                (fuel - 1) as nat,
            ));
            assert(resources_view(out@) + sorted_params(resources_view(rest@), (fuel - 1) as nat)
                =~= out0 + sorted_params(rest0, fuel));
            fuel = (fuel - 1) as nat;
        }
    }
    proof {
        assert(resources_view(out@) + sorted_params(resources_view(rest@), fuel) =~= resources_view(out@));
    }
    out
}

/// The query string of a resource set, in the given order.
pub fn build_query(resources: &Vec<(String, Option<String>)>) -> (r: String)
    ensures
        r@ == query_string(resources_view(resources@)),
{
    let ghost rv = resources_view(resources@);
    let mut out = String::new();
    let mut j: usize = 0;
    while j < resources.len()
        invariant
            rv == resources_view(resources@),
            j <= resources@.len(),
            out@ == query_string(rv.take(j as int)),
        decreases resources@.len() - j,
    {
        proof {
            assert(rv.take(j + 1).drop_last() =~= rv.take(j as int));
        }
        let ghost before = out@;
        if j > 0 {
            out.append("&");
        }
        push_encoded(&mut out, resources[j].0.as_str(), false);
        match &resources[j].1 {
            Some(v) => {
                out.append("=");
                push_encoded(&mut out, v.as_str(), false);
            },
            None => {},
        }
        proof {
            if j == 0 {
                assert(out@ =~= query_param(rv[0].0, rv[0].1));
            } else {
                assert(out@ =~= before + "&"@ + query_param(rv[j as int].0, rv[j as int].1));
            }
        }
        j = j + 1;
    }
    proof {
        assert(rv.take(resources@.len() as int) =~= rv);
    }
    out
}

/// The URL of a request to an object of a bucket.
pub fn build_url(
    scheme: &String,
    bucket: &String,
    endpoint: &String,
    object_key: &String,
    resources: &Vec<(String, Option<String>)>,
) -> (r: String)
    ensures
        r@ == request_url(scheme@, bucket@, endpoint@, object_key@, resources_view(resources@)),
{
    let mut out = scheme.clone();
    out.append("://");
    out.append(bucket.as_str());
    out.append(".");
    out.append(endpoint.as_str());
    out.append("/");
    push_encoded(&mut out, object_key.as_str(), true);
    let ghost base = out@;
    if resources.len() > 0 {
        out.append("?");
        let sorted = sort_resources(resources);
        let q = build_query(&sorted);
        out.append(q.as_str());
    } else {
        proof {
            assert(out@ =~= base + Seq::<char>::empty());
        }
    }
    out
}

} // verus!
