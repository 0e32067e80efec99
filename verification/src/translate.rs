//! Message translator: maps an inbound request to an outbound request
//! descriptor and an upstream response back to the outbound response.
//!
//! Translation is representation-transparent: the method is mapped by the
//! identity relation, the body is copied byte for byte, and headers are
//! copied verbatim except hop-by-hop fields, with `Content-Length` corrected
//! to the actual body size.  Response reconstruction copies status, headers
//! and body verbatim and never touches the content codec.
use vstd::prelude::*;

use crate::ascii::{lower_bytes, bytes_eq_nocase, dec_of, render_decimal};
use crate::codec::views_of;
use crate::message::{
    Header,
    HeaderView,
    headers_view,
    copy_bytes,
    clone_header,
    clone_headers,
    Method,
    MethodToken,
    MethodTokenView,
    InboundRequest,
    InboundRequestView,
    OutboundRequestDescriptor,
    OutboundRequestView,
    UpstreamResponseDescriptor,
    UpstreamResponseView,
    OutboundResponse,
    OutboundResponseView,
};

verus! {

/// Why an inbound request cannot cross into the outbound representation.
#[derive(Clone, Copy, PartialEq, Eq, Structural, Debug)]
pub enum TranslationError {
    /// The method token is outside the standard set.
    UnsupportedMethod,
    /// The target is not an absolute URL, so no upstream authority is known.
    UnresolvableTarget,
}

/// The byte string `"connection"`.
pub open spec fn hop_connection() -> Seq<u8> {
    seq![99u8, 111u8, 110u8, 110u8, 101u8, 99u8, 116u8, 105u8, 111u8, 110u8]
}

/// The byte string `"proxy-connection"`.
pub open spec fn hop_proxy_connection() -> Seq<u8> {
    seq![
        112u8,
        114u8,
        111u8,
        120u8,
        121u8,
        45u8,
        99u8,
        111u8,
        110u8,
        110u8,
        101u8,
        99u8,
        116u8,
        105u8,
        111u8,
        110u8,
    ]
}

/// The byte string `"keep-alive"`.
pub open spec fn hop_keep_alive() -> Seq<u8> {
    seq![107u8, 101u8, 101u8, 112u8, 45u8, 97u8, 108u8, 105u8, 118u8, 101u8]
}

/// The byte string `"transfer-encoding"`.
pub open spec fn hop_transfer_encoding() -> Seq<u8> {
    seq![
        116u8,
        114u8,
        97u8,
        110u8,
        115u8,
        102u8,
        101u8,
        114u8,
        45u8,
        101u8,
        110u8,
        99u8,
        111u8,
        100u8,
        105u8,
        110u8,
        103u8,
    ]
}

/// The byte string `"content-length"`.
pub open spec fn content_length_name() -> Seq<u8> {
    seq![
        99u8,
        111u8,
        110u8,
        116u8,
        101u8,
        110u8,
        116u8,
        45u8,
        108u8,
        101u8,
        110u8,
        103u8,
        116u8,
        104u8,
    ]
}

/// The default hop-by-hop header names: `Connection`, `Proxy-Connection`,
/// `Keep-Alive`, and `Transfer-Encoding` (the body is always fully buffered
/// here, so the latter never survives the proxy boundary).
pub open spec fn default_hop_names() -> Seq<Seq<u8>> {
    seq![hop_connection(), hop_proxy_connection(), hop_keep_alive(), hop_transfer_encoding()]
}

/// Builds the default hop-by-hop name set.
pub fn default_hop_headers() -> (r: Vec<Vec<u8>>)
    ensures
        views_of(r@) == default_hop_names(),
{
    let c: Vec<u8> = vec![99u8, 111u8, 110u8, 110u8, 101u8, 99u8, 116u8, 105u8, 111u8, 110u8];
    let p: Vec<u8> = vec![
        112u8, 114u8, 111u8, 120u8, 121u8, 45u8, 99u8, 111u8, 110u8, 110u8, 101u8, 99u8, 116u8,
        105u8, 111u8, 110u8,
    ];
    let k: Vec<u8> = vec![107u8, 101u8, 101u8, 112u8, 45u8, 97u8, 108u8, 105u8, 118u8, 101u8];
    let t: Vec<u8> = vec![
        116u8, 114u8, 97u8, 110u8, 115u8, 102u8, 101u8, 114u8, 45u8, 101u8, 110u8, 99u8, 111u8,
        100u8, 105u8, 110u8, 103u8,
    ];
    proof {
        assert(c@ =~= hop_connection());
        assert(p@ =~= hop_proxy_connection());
        assert(k@ =~= hop_keep_alive());
        assert(t@ =~= hop_transfer_encoding());
    }
    let mut out: Vec<Vec<u8>> = Vec::new();
    out.push(c);
    out.push(p);
    out.push(k);
    out.push(t);
    proof {
        assert(views_of(out@) =~= default_hop_names());
    }
    out
}

fn content_length_name_exec() -> (r: Vec<u8>)
    ensures
        r@ == content_length_name(),
{
    let r: Vec<u8> = vec![
        99u8, 111u8, 110u8, 116u8, 101u8, 110u8, 116u8, 45u8, 108u8, 101u8, 110u8, 103u8, 116u8,
        104u8,
    ];
    proof {
        assert(r@ =~= content_length_name());
    }
    r
}

/// The configuration surface the core consumes.
#[derive(Debug)]
pub struct ProxyConfig {
    /// Whether a decoded view of the response body is produced for logging.
    pub inspection_enabled: bool,
    /// Bound on the whole outbound dispatch, in milliseconds.
    pub timeout_ms: u64,
    /// Header names never forwarded across the proxy boundary.
    pub hop_headers: Vec<Vec<u8>>,
}

impl Default for ProxyConfig {
    /// Inspection off, a 30-second dispatch bound, and the standard
    /// hop-by-hop set.
    fn default() -> (r: Self)
        ensures
            r.inspection_enabled == false,
            r.timeout_ms == 30000,
            views_of(r.hop_headers@) == default_hop_names(),
    {
        ProxyConfig { inspection_enabled: false, timeout_ms: 30000, hop_headers: default_hop_headers() }
    }
}

/// Identity method mapping: a standard token maps to itself, an extension
/// token to nothing.
pub open spec fn method_of(t: MethodTokenView) -> Option<Method> {
    match t {
        MethodTokenView::Standard(m) => Some(m),
        MethodTokenView::Extension(_) => None,
    }
}

/// Maps a method token across the proxy boundary: the identity on the
/// standard set, an error outside it.  No token is ever substituted for a
/// different verb.
pub fn translate_method(t: &MethodToken) -> (r: Result<Method, TranslationError>)
    ensures
        match r {
            Ok(m) => method_of(t@) == Some(m),
            Err(e) => method_of(t@) is None && e == TranslationError::UnsupportedMethod,
        },
{
    match t {
        MethodToken::Standard(m) => Ok(*m),
        MethodToken::Extension(_) => Err(TranslationError::UnsupportedMethod),
    }
}

/// Whether the target byte string parses as an absolute URL.
pub uninterp spec fn url_parses(s: Seq<u8>) -> bool;

/// Relies on reqwest's `Url::parse` (the url crate): it accepts exactly the
/// absolute URLs, and rejects origin-form or malformed targets; the answer
/// depends on the target bytes alone.
#[verifier::external_body]
fn target_is_absolute_url(target: &Vec<u8>) -> (r: bool)
    ensures
        r == url_parses(target@),
{
    match std::str::from_utf8(target.as_slice()) {
        Ok(s) => reqwest::Url::parse(s).is_ok(),
        Err(_) => false,
    }
}

/// Whether a header name is in the hop-by-hop set, up to ASCII case.
pub open spec fn is_hop_name(name: Seq<u8>, hops: Seq<Seq<u8>>) -> bool {
    exists|k: int|
        0 <= k < hops.len() && lower_bytes(name) == lower_bytes(#[trigger] hops[k])
}

fn is_hop_name_exec(name: &Vec<u8>, hops: &Vec<Vec<u8>>) -> (r: bool)
    ensures
        r == is_hop_name(name@, views_of(hops@)),
{
    let mut k: usize = 0;
    while k < hops.len()
        invariant
            k <= hops@.len(),
            forall|j: int|
                0 <= j < k ==> lower_bytes(name@) != lower_bytes(#[trigger] views_of(hops@)[j]),
        decreases hops.len() - k,
    {
        if bytes_eq_nocase(name, &hops[k]) {
            proof {
                assert(views_of(hops@)[k as int] == hops@[k as int]@);
            }
            return true;
        }
        k = k + 1;
    }
    false
}

/// The forwarded header multi-map: hop-by-hop fields dropped, every
/// `Content-Length` value corrected to the actual body size, everything else
/// copied verbatim in order.
pub open spec fn forward_headers(hs: Seq<HeaderView>, hops: Seq<Seq<u8>>, body_len: nat) -> Seq<
    HeaderView,
>
    decreases hs.len(),
{
    if hs.len() == 0 {
        Seq::<HeaderView>::empty()
    } else {
        let rest = forward_headers(hs.drop_first(), hops, body_len);
        let h = hs[0];
        if is_hop_name(h.name, hops) {
            rest
        } else if lower_bytes(h.name) == content_length_name() {
            seq![HeaderView { name: h.name, value: dec_of(body_len) }] + rest
        } else {
            seq![h] + rest
        }
    }
}

proof fn lemma_headers_view_cons(s: Seq<Header>, h: Header)
    ensures
        headers_view(seq![h] + s) =~= seq![h@] + headers_view(s),
{
    assert forall|k: int| 0 <= k < s.len() + 1 implies headers_view(seq![h] + s)[k] == (seq![h@]
        + headers_view(s))[k] by {
        if k > 0 {
            assert((seq![h] + s)[k] == s[k - 1]);
            assert(headers_view(s)[k - 1] == s[k - 1]@);
        }
    }
}

fn build_forward_headers(hs: &Vec<Header>, hops: &Vec<Vec<u8>>, body_len: usize) -> (r: Vec<
    Header,
>)
    ensures
        headers_view(r@) == forward_headers(headers_view(hs@), views_of(hops@), body_len as nat),
{
    let cl = content_length_name_exec();
    let mut out: Vec<Header> = Vec::new();
    let mut i: usize = hs.len();
    proof {
        assert(headers_view(hs@).skip(hs@.len() as int) =~= Seq::<HeaderView>::empty());
        assert(headers_view(out@) =~= forward_headers(
            headers_view(hs@).skip(i as int),
            views_of(hops@),
            body_len as nat,
        ));
    }
    while i > 0
        invariant
            i <= hs@.len(),
            cl@ == content_length_name(),
            headers_view(out@) == forward_headers(
                headers_view(hs@).skip(i as int),
                views_of(hops@),
                body_len as nat,
            ),
        decreases i,
    {
        i = i - 1;
        let ghost old_out = out@;
        proof {
            assert(headers_view(hs@).skip(i as int)[0] == hs@[i as int]@);
            assert(headers_view(hs@).skip(i as int).drop_first() =~= headers_view(hs@).skip(i + 1));
        }
        let h = &hs[i];
        if is_hop_name_exec(&h.name, hops) {
            // dropped: hop-by-hop
        } else if bytes_eq_nocase(&h.name, &cl) {
            proof {
                assert(lower_bytes(content_length_name()) =~= content_length_name());
            }
            let nh = Header { name: copy_bytes(&h.name), value: render_decimal(body_len) };
            let ghost nhv = nh@;
            out.insert(0, nh);
            proof {
                assert(out@ =~= seq![out@[0]] + old_out);
                lemma_headers_view_cons(old_out, out@[0]);
                assert(headers_view(out@) =~= seq![nhv] + headers_view(old_out));
            }
        } else {
            proof {
                assert(lower_bytes(content_length_name()) =~= content_length_name());
            }
            let nh = clone_header(h);
            let ghost nhv = nh@;
            out.insert(0, nh);
            proof {
                assert(out@ =~= seq![out@[0]] + old_out);
                lemma_headers_view_cons(old_out, out@[0]);
                assert(headers_view(out@) =~= seq![nhv] + headers_view(old_out));
            }
        }
    }
    proof {
        assert(headers_view(hs@).skip(0) =~= headers_view(hs@));
    }
    out
}

/// What `to_outbound` produces: the method checked first, then the target,
/// then the verbatim data copy with hop-by-hop fields stripped and
/// `Content-Length` corrected.
pub open spec fn to_outbound_spec(r: InboundRequestView, hops: Seq<Seq<u8>>) -> Result<
    OutboundRequestView,
    TranslationError,
> {
    match method_of(r.method) {
        None => Err(TranslationError::UnsupportedMethod),
        Some(m) => if !url_parses(r.target) {
            Err(TranslationError::UnresolvableTarget)
        } else {
            Ok(
                OutboundRequestView {
                    url: r.target,
                    method: m,
                    headers: forward_headers(r.headers, hops, r.body.len()),
                    body: r.body,
                },
            )
        },
    }
}

/// Translates an inbound request into an outbound request descriptor.
///
/// The method is mapped by the identity relation over the standard token
/// set; an out-of-set token fails with `UnsupportedMethod` and an origin-form
/// or malformed target with `UnresolvableTarget`.  On success the body is
/// byte-for-byte the inbound body and the headers are copied verbatim minus
/// the hop-by-hop set, with `Content-Length` corrected to the consumed byte
/// count.
pub fn to_outbound(r: &InboundRequest, config: &ProxyConfig) -> (res: Result<
    OutboundRequestDescriptor,
    TranslationError,
>)
    ensures
        match res {
            Ok(d) => to_outbound_spec(r@, views_of(config.hop_headers@)) == Ok::<
                OutboundRequestView,
                TranslationError,
            >(d@),
            Err(e) => to_outbound_spec(r@, views_of(config.hop_headers@)) == Err::<
                OutboundRequestView,
                TranslationError,
            >(e),
        },
{
    let method = match translate_method(&r.method) {
        Ok(m) => m,
        Err(e) => {
            return Err(e);
        },
    };
    if !target_is_absolute_url(&r.target) {
        return Err(TranslationError::UnresolvableTarget);
    }
    let headers = build_forward_headers(&r.headers, &config.hop_headers, r.body.len());
    Ok(
        OutboundRequestDescriptor {
            url: copy_bytes(&r.target),
            method,
            headers,
            body: copy_bytes(&r.body),
        },
    )
}

/// Law: the pipeline is representation-transparent.  Whenever an inbound
/// request translates successfully, the dispatched body is byte-for-byte the
/// inbound body and the target URL is carried verbatim; and for every
/// upstream response, reconstruction emits the origin's status, headers, and
/// body bytes exactly.  Composed over one exchange, the emitted body equals
/// the origin's actual response bytes — no decode/re-encode drift.
pub proof fn lemma_forwarding_transparency(
    r: InboundRequestView,
    hops: Seq<Seq<u8>>,
    u: UpstreamResponseView,
)
    requires
        to_outbound_spec(r, hops) is Ok,
    ensures
        to_outbound_spec(r, hops)->Ok_0.body == r.body,
        to_outbound_spec(r, hops)->Ok_0.url == r.target,
        from_upstream_spec(u).body == u.body,
        from_upstream_spec(u).status == u.status,
        from_upstream_spec(u).headers == u.headers,
{
}

/// Law: method translation is the identity relation.  Every standard method
/// token crosses the boundary unchanged, and an out-of-set token fails the
/// translation with `UnsupportedMethod` — so nothing is ever dispatched for
/// it, and no token is ever substituted for a different verb.
pub proof fn lemma_method_identity(r: InboundRequestView, hops: Seq<Seq<u8>>)
    ensures
        forall|m: Method| #[trigger] method_of(MethodTokenView::Standard(m)) == Some(m),
        to_outbound_spec(r, hops) matches Ok(d) ==> method_of(r.method) == Some(d.method),
        method_of(r.method) is None ==> to_outbound_spec(r, hops) == Err::<
            OutboundRequestView,
            TranslationError,
        >(TranslationError::UnsupportedMethod),
{
}

/// What `from_upstream` produces: the upstream response verbatim.
pub open spec fn from_upstream_spec(u: UpstreamResponseView) -> OutboundResponseView {
    OutboundResponseView { status: u.status, headers: u.headers, body: u.body }
}

/// Reconstructs the outbound response from the upstream response: status,
/// headers, and body bytes copied verbatim.  This function never invokes the
/// content codec; inspection works on a separate copy of the body.
pub fn from_upstream(u: &UpstreamResponseDescriptor) -> (r: OutboundResponse)
    ensures
        r@ == from_upstream_spec(u@),
{
    OutboundResponse {
        status: u.status,
        headers: clone_headers(&u.headers),
        body: copy_bytes(&u.body),
    }
}

} // verus!
