//! End-to-end behaviour of the translation and inspection pipeline.
use std::io::Write;

use proxy_core::ascii::render_decimal;
use proxy_core::codec::{decode, inspect_body, parse_encoding_tokens, WarningKind};
use proxy_core::exchange::{
    DispatchCause, DispatchError, DispatchOutcome, Exchange, ExchangePhase, FailureReason,
    failure_status,
};
use proxy_core::message::{
    find_header_value, Header, InboundRequest, Method, MethodToken, OutboundResponse,
    UpstreamResponseDescriptor, Version,
};
use proxy_core::translate::{
    default_hop_headers, from_upstream, to_outbound, translate_method, ProxyConfig,
    TranslationError,
};

fn header(name: &str, value: &str) -> Header {
    Header { name: name.as_bytes().to_vec(), value: value.as_bytes().to_vec() }
}

fn gzip_bytes(data: &[u8]) -> Vec<u8> {
    let mut enc = flate2::write::GzEncoder::new(Vec::new(), flate2::Compression::default());
    enc.write_all(data).unwrap();
    enc.finish().unwrap()
}

fn request(method: MethodToken, target: &str, headers: Vec<Header>, body: &[u8]) -> InboundRequest {
    InboundRequest {
        method,
        target: target.as_bytes().to_vec(),
        version: Version::Http11,
        headers,
        body: body.to_vec(),
    }
}

fn inspection_config() -> ProxyConfig {
    ProxyConfig { inspection_enabled: true, timeout_ms: 1000, hop_headers: default_hop_headers() }
}

#[test]
fn standard_methods_translate_to_themselves() {
    let methods = vec![
        Method::Get,
        Method::Post,
        Method::Put,
        Method::Delete,
        Method::Head,
        Method::Options,
        Method::Connect,
        Method::Patch,
        Method::Trace,
    ];
    for m in methods {
        let out = translate_method(&MethodToken::Standard(m)).unwrap();
        assert_eq!(out, m);
        let r = request(MethodToken::Standard(m), "http://example.test/", Vec::new(), b"");
        let d = to_outbound(&r, &ProxyConfig::default()).unwrap();
        assert_eq!(d.method, m);
    }
}

#[test]
fn extension_method_is_unsupported_and_never_dispatched() {
    let r = request(
        MethodToken::Extension(b"BREW".to_vec()),
        "http://example.test/",
        Vec::new(),
        b"",
    );
    let e = to_outbound(&r, &ProxyConfig::default()).unwrap_err();
    assert_eq!(e, TranslationError::UnsupportedMethod);
}

#[test]
fn origin_form_target_is_unresolvable() {
    let r = request(MethodToken::Standard(Method::Get), "/x?q=1", Vec::new(), b"");
    let e = to_outbound(&r, &ProxyConfig::default()).unwrap_err();
    assert_eq!(e, TranslationError::UnresolvableTarget);
}

#[test]
fn malformed_target_is_unresolvable() {
    let r = request(MethodToken::Standard(Method::Get), "not a url", Vec::new(), b"");
    let e = to_outbound(&r, &ProxyConfig::default()).unwrap_err();
    assert_eq!(e, TranslationError::UnresolvableTarget);
}

#[test]
fn hop_by_hop_headers_are_dropped_case_insensitively() {
    let r = request(
        MethodToken::Standard(Method::Get),
        "http://example.test/",
        vec![
            header("CONNECTION", "keep-alive"),
            header("Proxy-Connection", "keep-alive"),
            header("Keep-Alive", "timeout=5"),
            header("Transfer-Encoding", "chunked"),
            header("Accept", "text/html"),
        ],
        b"",
    );
    let d = to_outbound(&r, &ProxyConfig::default()).unwrap();
    assert_eq!(d.headers.len(), 1);
    assert_eq!(d.headers[0].name, b"Accept".to_vec());
    assert_eq!(d.headers[0].value, b"text/html".to_vec());
}

#[test]
fn content_length_is_corrected_to_actual_body_size() {
    let r = request(
        MethodToken::Standard(Method::Post),
        "http://example.test/",
        vec![header("Content-Length", "999"), header("X-Keep", "1")],
        b"abc",
    );
    let d = to_outbound(&r, &ProxyConfig::default()).unwrap();
    assert_eq!(d.body, b"abc".to_vec());
    assert_eq!(d.headers.len(), 2);
    assert_eq!(d.headers[0].name, b"Content-Length".to_vec());
    assert_eq!(d.headers[0].value, b"3".to_vec());
    assert_eq!(d.headers[1].name, b"X-Keep".to_vec());
}

#[test]
fn body_and_target_cross_byte_for_byte() {
    let body = vec![0u8, 255u8, 7u8, 13u8];
    let r = request(
        MethodToken::Standard(Method::Put),
        "http://example.test/path?q=2",
        Vec::new(),
        &body,
    );
    let d = to_outbound(&r, &ProxyConfig::default()).unwrap();
    assert_eq!(d.body, body);
    assert_eq!(d.url, b"http://example.test/path?q=2".to_vec());
}

#[test]
fn from_upstream_copies_everything_verbatim() {
    let u = UpstreamResponseDescriptor {
        status: 503,
        headers: vec![header("Content-Encoding", "gzip"), header("Server", "origin")],
        body: vec![1u8, 2u8, 3u8],
    };
    let r: OutboundResponse = from_upstream(&u);
    assert_eq!(r.status, 503);
    assert_eq!(r.headers.len(), 2);
    assert_eq!(r.headers[0].name, b"Content-Encoding".to_vec());
    assert_eq!(r.headers[0].value, b"gzip".to_vec());
    assert_eq!(r.body, vec![1u8, 2u8, 3u8]);
}

#[test]
fn render_decimal_gives_exact_digits() {
    assert_eq!(render_decimal(0), b"0".to_vec());
    assert_eq!(render_decimal(3), b"3".to_vec());
    assert_eq!(render_decimal(40961), b"40961".to_vec());
}

#[test]
fn encoding_tokens_are_split_and_trimmed() {
    let toks = parse_encoding_tokens(&b" gzip ,\tidentity , ".to_vec());
    assert_eq!(toks.len(), 2);
    assert_eq!(toks[0], b"gzip".to_vec());
    assert_eq!(toks[1], b"identity".to_vec());
}

#[test]
fn decode_with_empty_encoding_is_a_noop() {
    let body = b"plain".to_vec();
    let (out, warnings) = decode(&body, &b"".to_vec());
    assert_eq!(out, body);
    assert!(warnings.is_empty());
}

#[test]
fn decode_identity_is_a_noop() {
    let body = b"plain".to_vec();
    let (out, warnings) = decode(&body, &b"identity".to_vec());
    assert_eq!(out, body);
    assert!(warnings.is_empty());
}

#[test]
fn decode_gzip_recovers_plaintext() {
    let body = gzip_bytes(b"hello world");
    let (out, warnings) = decode(&body, &b"gzip".to_vec());
    assert_eq!(out, b"hello world".to_vec());
    assert!(warnings.is_empty());
}

#[test]
fn decode_deflate_recovers_plaintext() {
    let mut enc = flate2::write::ZlibEncoder::new(Vec::new(), flate2::Compression::default());
    enc.write_all(b"deflated").unwrap();
    let body = enc.finish().unwrap();
    let (out, warnings) = decode(&body, &b"deflate".to_vec());
    assert_eq!(out, b"deflated".to_vec());
    assert!(warnings.is_empty());
}

#[test]
fn chained_gzip_identity_decodes_identity_first() {
    let body = gzip_bytes(b"hello");
    let (out, warnings) = decode(&body, &b"gzip, identity".to_vec());
    assert_eq!(out, b"hello".to_vec());
    assert!(warnings.is_empty());
}

#[test]
fn unknown_token_passes_bytes_through_with_warning() {
    let body = b"opaque".to_vec();
    let (out, warnings) = decode(&body, &b"br".to_vec());
    assert_eq!(out, body);
    assert_eq!(warnings.len(), 1);
    assert_eq!(warnings[0].kind, WarningKind::Unknown);
    assert_eq!(warnings[0].token, b"br".to_vec());
}

#[test]
fn compress_token_passes_through_with_unsupported_warning() {
    let body = b"opaque".to_vec();
    let (out, warnings) = decode(&body, &b"compress".to_vec());
    assert_eq!(out, body);
    assert_eq!(warnings.len(), 1);
    assert_eq!(warnings[0].kind, WarningKind::Unsupported);
    assert_eq!(warnings[0].token, b"compress".to_vec());
}

#[test]
fn corrupt_gzip_payload_yields_corrupt_warning() {
    let body = b"certainly not gzip".to_vec();
    let (out, warnings) = decode(&body, &b"gzip".to_vec());
    assert_eq!(out, body);
    assert_eq!(warnings.len(), 1);
    assert_eq!(warnings[0].kind, WarningKind::Corrupt);
    assert_eq!(warnings[0].token, b"gzip".to_vec());
}

#[test]
fn warnings_accumulate_in_undo_order() {
    let body = b"opaque".to_vec();
    let (out, warnings) = decode(&body, &b"br, compress".to_vec());
    assert_eq!(out, body);
    assert_eq!(warnings.len(), 2);
    assert_eq!(warnings[0].kind, WarningKind::Unsupported);
    assert_eq!(warnings[0].token, b"compress".to_vec());
    assert_eq!(warnings[1].kind, WarningKind::Unknown);
    assert_eq!(warnings[1].token, b"br".to_vec());
}

#[test]
fn inspect_without_content_encoding_returns_body_unchanged() {
    let headers = vec![header("Content-Type", "text/plain")];
    let body = b"as is".to_vec();
    let view = inspect_body(&headers, &body);
    assert_eq!(view.bytes, body);
    assert!(view.warnings.is_empty());
}

#[test]
fn find_header_value_is_case_insensitive_and_takes_the_first() {
    let headers = vec![header("X-Twice", "first"), header("x-twice", "second")];
    let v = find_header_value(&headers, &b"X-TWICE".to_vec()).unwrap();
    assert_eq!(v, b"first".to_vec());
    assert!(find_header_value(&headers, &b"absent".to_vec()).is_none());
}

#[test]
fn exchange_intake_starts_received() {
    let r = request(MethodToken::Standard(Method::Get), "http://example.test/x", Vec::new(), b"");
    let ex = Exchange::new(r, 7, 1000);
    assert_eq!(ex.correlation_id, 7);
    assert_eq!(ex.started_at, 1000);
    assert!(ex.finished_at.is_none());
    assert!(matches!(ex.phase, ExchangePhase::Received));
    assert!(ex.warnings.is_empty());
}

#[test]
fn gzip_response_is_forwarded_encoded_and_inspected_decoded() {
    let gz = gzip_bytes(b"ok");
    let r = request(MethodToken::Standard(Method::Get), "http://example.test/x", Vec::new(), b"");
    let config = inspection_config();
    let mut ex = Exchange::new(r, 1, 0);
    ex.translate(&config);
    match &ex.phase {
        ExchangePhase::Dispatching(d) => {
            assert_eq!(d.method, Method::Get);
            assert!(d.body.is_empty());
            assert_eq!(d.url, b"http://example.test/x".to_vec());
        }
        other => panic!("expected Dispatching, got {:?}", other),
    }
    let upstream = UpstreamResponseDescriptor {
        status: 200,
        headers: vec![header("Content-Encoding", "gzip")],
        body: gz.clone(),
    };
    ex.complete_dispatch(DispatchOutcome::Response(upstream), 5);
    assert_eq!(ex.finished_at, Some(5));
    match &ex.phase {
        ExchangePhase::Sent(resp) => {
            assert_eq!(resp.status, 200);
            assert_eq!(resp.headers.len(), 1);
            assert_eq!(resp.headers[0].name, b"Content-Encoding".to_vec());
            assert_eq!(resp.headers[0].value, b"gzip".to_vec());
            assert_eq!(resp.body, gz);
        }
        other => panic!("expected Sent, got {:?}", other),
    }
    let decoded = ex.inspect_sent_response(&config).unwrap();
    assert_eq!(decoded, b"ok".to_vec());
    assert!(ex.warnings.is_empty());
    match &ex.phase {
        ExchangePhase::Sent(resp) => assert_eq!(resp.body, gz),
        other => panic!("expected Sent, got {:?}", other),
    }
}

#[test]
fn inspection_disabled_leaves_exchange_untouched() {
    let r = request(MethodToken::Standard(Method::Get), "http://example.test/x", Vec::new(), b"");
    let config = ProxyConfig::default();
    let mut ex = Exchange::new(r, 1, 0);
    ex.translate(&config);
    let upstream =
        UpstreamResponseDescriptor { status: 200, headers: Vec::new(), body: b"raw".to_vec() };
    ex.complete_dispatch(DispatchOutcome::Response(upstream), 1);
    assert!(ex.inspect_sent_response(&config).is_none());
    assert!(ex.warnings.is_empty());
}

#[test]
fn translation_failure_is_terminal_with_status_400() {
    let r = request(MethodToken::Extension(b"BREW".to_vec()), "http://example.test/", Vec::new(), b"");
    let mut ex = Exchange::new(r, 2, 0);
    ex.translate(&ProxyConfig::default());
    match ex.phase {
        ExchangePhase::Failed(reason) => {
            assert_eq!(reason, FailureReason::Translation(TranslationError::UnsupportedMethod));
            assert_eq!(failure_status(&reason), 400);
        }
        ref other => panic!("expected Failed, got {:?}", other),
    }
}

#[test]
fn unreachable_upstream_fails_with_502() {
    let r = request(MethodToken::Standard(Method::Get), "http://example.test/", Vec::new(), b"");
    let mut ex = Exchange::new(r, 3, 0);
    ex.translate(&ProxyConfig::default());
    ex.complete_dispatch(
        DispatchOutcome::Failed(DispatchError::Unreachable(DispatchCause::ConnectFailed)),
        9,
    );
    match ex.phase {
        ExchangePhase::Failed(reason) => {
            assert_eq!(
                reason,
                FailureReason::Dispatch(DispatchError::Unreachable(DispatchCause::ConnectFailed))
            );
            assert_eq!(failure_status(&reason), 502);
        }
        ref other => panic!("expected Failed, got {:?}", other),
    }
}

#[test]
fn dispatch_timeout_fails_with_504() {
    let r = request(MethodToken::Standard(Method::Get), "http://example.test/", Vec::new(), b"");
    let mut ex = Exchange::new(r, 4, 0);
    ex.translate(&ProxyConfig::default());
    ex.complete_dispatch(
        DispatchOutcome::Failed(DispatchError::Unreachable(DispatchCause::TimedOut)),
        9,
    );
    match ex.phase {
        ExchangePhase::Failed(reason) => assert_eq!(failure_status(&reason), 504),
        ref other => panic!("expected Failed, got {:?}", other),
    }
}

#[test]
fn protocol_error_fails_with_502() {
    let r = request(MethodToken::Standard(Method::Get), "http://example.test/", Vec::new(), b"");
    let mut ex = Exchange::new(r, 5, 0);
    ex.translate(&ProxyConfig::default());
    ex.complete_dispatch(DispatchOutcome::Failed(DispatchError::Protocol), 9);
    match ex.phase {
        ExchangePhase::Failed(reason) => assert_eq!(failure_status(&reason), 502),
        ref other => panic!("expected Failed, got {:?}", other),
    }
}

#[test]
fn peer_disconnect_cancels_and_nothing_is_emitted() {
    let r = request(MethodToken::Standard(Method::Get), "http://example.test/", Vec::new(), b"");
    let mut ex = Exchange::new(r, 6, 0);
    ex.translate(&ProxyConfig::default());
    assert!(matches!(ex.phase, ExchangePhase::Dispatching(_)));
    ex.complete_dispatch(DispatchOutcome::PeerDisconnected, 9);
    assert!(matches!(ex.phase, ExchangePhase::Cancelled));
    assert!(!matches!(ex.phase, ExchangePhase::Sent(_)));
    assert!(!matches!(ex.phase, ExchangePhase::Failed(_)));
}
