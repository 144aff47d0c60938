//! The forwarder: rewrites an inbound proxied request into the outbound
//! upstream request, and the upstream response into the client's response.

use vstd::prelude::*;
use vstd::string::StrSliceExecFns;
use vstd::string::StringExecFns;
use crate::config::ProxyConfig;
use crate::text;

verus! {

/// The `application/x-www-form-urlencoded` rendering of key/value pairs.
/// It depends on the pairs alone; every pair appears, duplicates included.
pub uninterp spec fn urlencoded_of(pairs: Seq<(Seq<char>, Seq<char>)>) -> Seq<char>;

/// Relies on `serde_urlencoded::to_string`: the urlencoded rendering of
/// key/value pairs is a function of the pairs alone, and serializing a
/// sequence of string pairs cannot reach the serializer's error paths.
#[verifier::external_body]
fn encode_query(pairs: &Vec<(String, String)>) -> (r: String)
    ensures
        r@ == urlencoded_of(pairs.deep_view()),
{
    serde_urlencoded::to_string(pairs).unwrap_or_default()
}

/// The inbound path with the routing mount point removed: what the
/// upstream sees in place of `/api/...`.
pub open spec fn stripped_path(path: Seq<char>) -> Seq<char> {
    text::strip_prefix_spec(path, "/api"@)
}

/// The full upstream URL: base, then the stripped path, then the
/// re-encoded query when there is one.
pub open spec fn target_url_of(
    base: Seq<char>,
    path: Seq<char>,
    query: Seq<(Seq<char>, Seq<char>)>,
) -> Seq<char> {
    base + stripped_path(path) + if query.len() == 0 {
        Seq::<char>::empty()
    } else {
        seq!['?'] + urlencoded_of(query)
    }
}

/// Build the URL the outbound request is issued against: the routing
/// prefix is stripped from the inbound path, and the query parameters are
/// re-encoded with every pair kept, repeated keys included.
pub fn build_target_url(base_url: &str, path: &str, query: &Vec<(String, String)>) -> (r: String)
    ensures
        r@ == target_url_of(base_url@, path@, query.deep_view()),
{
    let mut r = String::from_str(base_url);
    r.append(text::str_strip_prefix(path, "/api"));
    if query.len() > 0 {
        let encoded = encode_query(query);
        r.append("?");
        r.append(encoded.as_str());
        proof {
            reveal_strlit("?");
            assert("?"@ =~= seq!['?']);
        }
    }
    assert(r@ =~= target_url_of(base_url@, path@, query.deep_view()));
    r
}

/// Header names the proxy never forwards: the host header (it must name
/// the upstream, not the caller) and the caller's authorization header
/// (the proxy credential must never reach the upstream).
pub open spec fn excluded_name(name: Seq<char>) -> bool {
    text::str_eq_nocase(name, "host"@) || text::str_eq_nocase(name, "authorization"@)
}

/// The inbound headers that survive the exclusion set, in order.
pub open spec fn kept_headers(hs: Seq<(Seq<char>, Seq<char>)>) -> Seq<(Seq<char>, Seq<char>)>
    decreases hs.len(),
{
    if hs.len() == 0 {
        Seq::empty()
    } else {
        let rest = kept_headers(hs.drop_last());
        if excluded_name(hs.last().0) {
            rest
        } else {
            rest.push(hs.last())
        }
    }
}

/// The authorization header the proxy itself sets: a bearer credential
/// built from the configured upstream key, or nothing when none is
/// configured.
pub open spec fn upstream_auth_header(api_key: Option<Seq<char>>) -> Seq<(Seq<char>, Seq<char>)> {
    match api_key {
        Some(k) => seq![("authorization"@, "Bearer "@ + k)],
        None => Seq::<(Seq<char>, Seq<char>)>::empty(),
    }
}

/// Every header of the outbound request: the kept inbound headers followed
/// by the proxy's own authorization header, if any.
pub open spec fn outbound_headers_of(
    hs: Seq<(Seq<char>, Seq<char>)>,
    api_key: Option<Seq<char>>,
) -> Seq<(Seq<char>, Seq<char>)> {
    kept_headers(hs) + upstream_auth_header(api_key)
}

/// Assemble the outbound header list from the inbound one: drop the host
/// and authorization headers, keep everything else in order, and append
/// the upstream bearer credential when one is configured.
pub fn outbound_headers(headers: &Vec<(String, String)>, api_key: &Option<String>) -> (r: Vec<
    (String, String),
>)
    ensures
        r.deep_view() == outbound_headers_of(headers.deep_view(), api_key.deep_view()),
{
    let ghost all = headers.deep_view();
    let mut r: Vec<(String, String)> = Vec::new();
    let mut i: usize = 0;
    while i < headers.len()
        invariant
            0 <= i <= headers.len(),
            all == headers.deep_view(),
            r.deep_view() == kept_headers(all.take(i as int)),
        decreases headers.len() - i,
    {
        let name = &headers[i].0;
        let excluded = text::str_eq_ignore_case(name.as_str(), "host")
            || text::str_eq_ignore_case(name.as_str(), "authorization");
        proof {
            assert(all.take(i as int + 1).drop_last() =~= all.take(i as int));
            assert(all.take(i as int + 1).last() == all[i as int]);
        }
        if !excluded {
            let pair = (headers[i].0.clone(), headers[i].1.clone());
            r.push(pair);
            assert(r.deep_view() =~= kept_headers(all.take(i as int + 1)));
        } else {
            assert(r.deep_view() =~= kept_headers(all.take(i as int + 1)));
        }
        i += 1;
    }
    proof {
        assert(all.take(headers.len() as int) =~= all);
    }
    match api_key {
        Some(k) => {
            let name = String::from_str("authorization");
            let mut value = String::from_str("Bearer ");
            value.append(k.as_str());
            r.push((name, value));
            assert(r.deep_view() =~= outbound_headers_of(
                headers.deep_view(),
                api_key.deep_view(),
            ));
        },
        None => {
            assert(r.deep_view() =~= outbound_headers_of(
                headers.deep_view(),
                api_key.deep_view(),
            ));
        },
    }
    r
}

proof fn lemma_kept_headers_not_excluded(hs: Seq<(Seq<char>, Seq<char>)>, i: int)
    requires
        0 <= i < kept_headers(hs).len(),
    ensures
        !excluded_name(kept_headers(hs)[i].0),
    decreases hs.len(),
{
    if hs.len() > 0 {
        let rest = kept_headers(hs.drop_last());
        if excluded_name(hs.last().0) {
            lemma_kept_headers_not_excluded(hs.drop_last(), i);
        } else {
            if i < rest.len() {
                lemma_kept_headers_not_excluded(hs.drop_last(), i);
            }
        }
    }
}

/// Law: forwarding never leaks the caller's credential. Among the outbound
/// headers, any header named `authorization` (compared without regard to
/// ASCII case) is the proxy's own — its value is `Bearer ` followed by the
/// configured upstream key — and none is present at all when no upstream
/// key is configured.
pub proof fn lemma_no_credential_leak(
    hs: Seq<(Seq<char>, Seq<char>)>,
    api_key: Option<Seq<char>>,
)
    ensures
        ({
            let out = outbound_headers_of(hs, api_key);
            forall|i: int|
                0 <= i < out.len() && text::str_eq_nocase(#[trigger] out[i].0, "authorization"@)
                    ==> (api_key matches Some(k) && out[i].1 == "Bearer "@ + k)
        }),
{
    let out = outbound_headers_of(hs, api_key);
    let kept = kept_headers(hs);
    assert forall|i: int|
        0 <= i < out.len() && text::str_eq_nocase(#[trigger] out[i].0, "authorization"@)
        implies (api_key matches Some(k) && out[i].1 == "Bearer "@ + k) by {
        if i < kept.len() {
            lemma_kept_headers_not_excluded(hs, i);
        }
    }
}

/// What came back from the upstream call: status, headers and body as the
/// upstream sent them. Header values are raw bytes.
pub struct UpstreamResponse {
    pub status: u16,
    pub headers: Vec<(String, Vec<u8>)>,
    pub body: Vec<u8>,
}

/// What the proxy answers the client with.
pub struct ProxyResponse {
    pub status: u16,
    pub headers: Vec<(String, Vec<u8>)>,
    pub body: Vec<u8>,
}

/// Translate the upstream response into the client's response verbatim:
/// same status, every header kept as it came, the body byte for byte.
pub fn client_response(upstream: UpstreamResponse) -> (r: ProxyResponse)
    ensures
        r.status == upstream.status,
        r.headers.deep_view() == upstream.headers.deep_view(),
        r.body@ == upstream.body@,
{
    ProxyResponse { status: upstream.status, headers: upstream.headers, body: upstream.body }
}

/// The outbound request the forwarder decides on: everything the HTTP
/// client needs to issue the upstream call.
pub struct UpstreamPlan {
    /// The inbound HTTP method, preserved exactly.
    pub method: String,
    /// The full upstream URL.
    pub url: String,
    /// Every header to send.
    pub headers: Vec<(String, String)>,
    /// The inbound body; `None` when it was empty, so that no body is
    /// attached to the outbound request.
    pub body: Option<Vec<u8>>,
}

/// Plan the outbound upstream request for an inbound proxied request: the
/// method is preserved, the URL is rebuilt against the configured base,
/// the headers follow the exclusion policy, and an empty inbound body
/// attaches no body.
pub fn plan_upstream_request(
    config: &ProxyConfig,
    method: String,
    path: &str,
    query: &Vec<(String, String)>,
    headers: &Vec<(String, String)>,
    body: Vec<u8>,
) -> (p: UpstreamPlan)
    ensures
        p.method@ == method@,
        p.url@ == target_url_of(config.target_base_url@, path@, query.deep_view()),
        p.headers.deep_view() == outbound_headers_of(
            headers.deep_view(),
            config.api_key.deep_view(),
        ),
        body@.len() == 0 ==> p.body is None,
        body@.len() > 0 ==> (p.body matches Some(b) && b@ == body@),
{
    let url = build_target_url(config.target_base_url.as_str(), path, query);
    let out_headers = outbound_headers(headers, &config.api_key);
    let out_body = if body.len() > 0 {
        Some(body)
    } else {
        None
    };
    UpstreamPlan { method, url, headers: out_headers, body: out_body }
}

} // verus!
