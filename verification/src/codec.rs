//! Content codec: decoding of message bodies per `Content-Encoding`, used
//! only for read-only inspection of a body copy.
//!
//! The comma-separated encoding list is parsed into trimmed tokens; decoding
//! undoes the listed encodings in reverse of their application order (the
//! token listed last was applied last, so it is undone first).  `gzip` and
//! `deflate` are decoded for real, `identity` is a no-op, `compress` is not
//! supported by the runtime and passes the bytes through with a warning, and
//! an unrecognized token stops decoding with a warning.  No failure here is
//! ever fatal, and the codec never mutates its input.
use vstd::prelude::*;

use crate::ascii::{trim, bytes_eq};

verus! {

/// The byte string `"gzip"`.
pub open spec fn tok_gzip() -> Seq<u8> {
    seq![103u8, 122u8, 105u8, 112u8]
}

/// The byte string `"deflate"`.
pub open spec fn tok_deflate() -> Seq<u8> {
    seq![100u8, 101u8, 102u8, 108u8, 97u8, 116u8, 101u8]
}

/// The byte string `"identity"`.
pub open spec fn tok_identity() -> Seq<u8> {
    seq![105u8, 100u8, 101u8, 110u8, 116u8, 105u8, 116u8, 121u8]
}

/// The byte string `"compress"`.
pub open spec fn tok_compress() -> Seq<u8> {
    seq![99u8, 111u8, 109u8, 112u8, 114u8, 101u8, 115u8, 115u8]
}

fn tok_gzip_exec() -> (r: Vec<u8>)
    ensures
        r@ == tok_gzip(),
{
    let r: Vec<u8> = vec![103u8, 122u8, 105u8, 112u8];
    proof {
        assert(r@ =~= tok_gzip());
    }
    r
}

fn tok_deflate_exec() -> (r: Vec<u8>)
    ensures
        r@ == tok_deflate(),
{
    let r: Vec<u8> = vec![100u8, 101u8, 102u8, 108u8, 97u8, 116u8, 101u8];
    proof {
        assert(r@ =~= tok_deflate());
    }
    r
}

fn tok_identity_exec() -> (r: Vec<u8>)
    ensures
        r@ == tok_identity(),
{
    let r: Vec<u8> = vec![105u8, 100u8, 101u8, 110u8, 116u8, 105u8, 116u8, 121u8];
    proof {
        assert(r@ =~= tok_identity());
    }
    r
}

fn tok_compress_exec() -> (r: Vec<u8>)
    ensures
        r@ == tok_compress(),
{
    let r: Vec<u8> = vec![99u8, 111u8, 109u8, 112u8, 114u8, 101u8, 115u8, 115u8];
    proof {
        assert(r@ =~= tok_compress());
    }
    r
}

/// The views of a list of byte strings.
pub open spec fn views_of(ts: Seq<Vec<u8>>) -> Seq<Seq<u8>> {
    ts.map_values(|t: Vec<u8>| t@)
}

/// Splitting a byte string at every comma; the result always has at least one
/// (possibly empty) element.
pub open spec fn split_commas(s: Seq<u8>) -> Seq<Seq<u8>>
    decreases s.len(),
{
    if s.len() == 0 {
        seq![Seq::<u8>::empty()]
    } else if s[0] == 44 {
        seq![Seq::<u8>::empty()] + split_commas(s.drop_first())
    } else {
        let rest = split_commas(s.drop_first());
        seq![seq![s[0]] + rest[0]] + rest.drop_first()
    }
}

/// Splits a byte string at every comma.
pub fn split_commas_exec(s: &Vec<u8>) -> (r: Vec<Vec<u8>>)
    ensures
        views_of(r@) == split_commas(s@),
{
    let mut out: Vec<Vec<u8>> = Vec::new();
    out.push(Vec::new());
    let mut i: usize = s.len();
    proof {
        assert(s@.skip(s@.len() as int) =~= Seq::<u8>::empty());
        assert(views_of(out@) =~= split_commas(s@.skip(i as int)));
    }
    while i > 0
        invariant
            i <= s@.len(),
            out@.len() >= 1,
            views_of(out@) == split_commas(s@.skip(i as int)),
        decreases i,
    {
        i = i - 1;
        let ghost old_out = out@;
        proof {
            assert(s@.skip(i as int).drop_first() =~= s@.skip(i + 1));
            assert(s@.skip(i as int)[0] == s@[i as int]);
        }
        let b = s[i];
        if b == 44 {
            out.insert(0, Vec::new());
            proof {
                assert(views_of(out@) =~= seq![Seq::<u8>::empty()] + views_of(old_out));
            }
        } else {
            let mut first = out.remove(0);
            first.insert(0, b);
            let ghost first_view = first@;
            out.insert(0, first);
            proof {
                let rest = split_commas(s@.skip(i + 1));
                assert(views_of(old_out) == rest);
                assert(first_view =~= seq![s@[i as int]] + old_out[0]@);
                assert(out@ =~= seq![].push(out@[0]) + old_out.drop_first());
                assert(old_out[0]@ == views_of(old_out)[0]);
                assert forall|k: int| 0 <= k < out@.len() implies views_of(out@)[k] == (
                seq![seq![s@[i as int]] + rest[0]] + rest.drop_first())[k] by {
                    if k == 0 {
                        assert(views_of(out@)[0] == first_view);
                    } else {
                        assert(out@[k] == old_out[k]);
                        assert(views_of(out@)[k] == old_out[k]@);
                        assert(views_of(old_out)[k] == old_out[k]@);
                    }
                }
                assert(views_of(out@) =~= seq![seq![s@[i as int]] + rest[0]] + rest.drop_first());
            }
        }
    }
    proof {
        assert(s@.skip(0) =~= s@);
    }
    out
}

/// The cleaned token list of a split encoding value: every element trimmed,
/// empty elements dropped.
pub open spec fn clean_tokens(ts: Seq<Seq<u8>>) -> Seq<Seq<u8>>
    decreases ts.len(),
{
    if ts.len() == 0 {
        Seq::<Seq<u8>>::empty()
    } else {
        let rest = clean_tokens(ts.drop_first());
        if trim(ts[0]).len() == 0 {
            rest
        } else {
            seq![trim(ts[0])] + rest
        }
    }
}

/// The token list of a raw `Content-Encoding` value: split at commas,
/// trimmed, empty elements dropped, order preserved.
pub open spec fn encoding_tokens(enc: Seq<u8>) -> Seq<Seq<u8>> {
    clean_tokens(split_commas(enc))
}

/// Parses a raw `Content-Encoding` value into its token list.
pub fn parse_encoding_tokens(enc: &Vec<u8>) -> (r: Vec<Vec<u8>>)
    ensures
        views_of(r@) == encoding_tokens(enc@),
{
    let parts = split_commas_exec(enc);
    let mut out: Vec<Vec<u8>> = Vec::new();
    let mut j: usize = parts.len();
    proof {
        assert(views_of(parts@).skip(j as int) =~= Seq::<Seq<u8>>::empty());
        assert(views_of(out@) =~= clean_tokens(views_of(parts@).skip(j as int)));
    }
    while j > 0
        invariant
            j <= parts@.len(),
            views_of(out@) == clean_tokens(views_of(parts@).skip(j as int)),
        decreases j,
    {
        j = j - 1;
        let ghost old_out = out@;
        proof {
            assert(views_of(parts@).skip(j as int).drop_first() =~= views_of(parts@).skip(j + 1));
            assert(views_of(parts@).skip(j as int)[0] == parts@[j as int]@);
        }
        let tr = crate::ascii::trim_exec(&parts[j]);
        if tr.len() > 0 {
            out.insert(0, tr);
            proof {
                assert(views_of(out@) =~= seq![trim(parts@[j as int]@)] + views_of(old_out));
            }
        }
    }
    proof {
        assert(views_of(parts@).skip(0) =~= views_of(parts@));
    }
    out
}

/// What went wrong while decoding one encoding token.
#[derive(Clone, Copy, PartialEq, Eq, Structural, Debug)]
pub enum WarningKind {
    /// The token is not a recognized content coding.
    Unknown,
    /// The token is recognized but the runtime cannot decode it.
    Unsupported,
    /// The body is not well-formed data for this token's coding.
    Corrupt,
}

/// A non-fatal decoding warning: the offending token and what went wrong.
#[derive(Debug)]
pub struct DecodeWarning {
    pub kind: WarningKind,
    pub token: Vec<u8>,
}

/// Mathematical model of a `DecodeWarning`.
pub struct DecodeWarningView {
    pub kind: WarningKind,
    pub token: Seq<u8>,
}

impl View for DecodeWarning {
    type V = DecodeWarningView;

    open spec fn view(&self) -> DecodeWarningView {
        DecodeWarningView { kind: self.kind, token: self.token@ }
    }
}

/// Model of a warning list.
pub open spec fn warnings_view(ws: Seq<DecodeWarning>) -> Seq<DecodeWarningView> {
    ws.map_values(|w: DecodeWarning| w@)
}

/// The gzip decoding of a byte string: `None` when the bytes are not
/// well-formed gzip data.  The decoding is a function of the bytes alone.
pub uninterp spec fn gunzip_of(s: Seq<u8>) -> Option<Seq<u8>>;

/// The zlib ("deflate" content coding) decoding of a byte string: `None`
/// when the bytes are not well-formed zlib data.  The decoding is a function
/// of the bytes alone.
pub uninterp spec fn inflate_of(s: Seq<u8>) -> Option<Seq<u8>>;

/// Relies on flate2's `read::GzDecoder`, driven to the end by
/// `Read::read_to_end`: decodes gzip data, and fails exactly on input that is
/// not well-formed gzip; the result depends on the input bytes alone.
#[verifier::external_body]
fn gunzip(data: &Vec<u8>) -> (r: Option<Vec<u8>>)
    ensures
        match r {
            Some(v) => gunzip_of(data@) == Some(v@),
            None => gunzip_of(data@) is None,
        },
{
    let mut out = Vec::new();
    let mut dec = flate2::read::GzDecoder::new(data.as_slice());
    match std::io::Read::read_to_end(&mut dec, &mut out) {
        Ok(_) => Some(out),
        Err(_) => None,
    }
}

/// Relies on flate2's `read::ZlibDecoder`, driven to the end by
/// `Read::read_to_end`: decodes the zlib format that the `deflate` content
/// coding names, and fails exactly on input that is not well-formed zlib
/// data; the result depends on the input bytes alone.
#[verifier::external_body]
fn inflate(data: &Vec<u8>) -> (r: Option<Vec<u8>>)
    ensures
        match r {
            Some(v) => inflate_of(data@) == Some(v@),
            None => inflate_of(data@) is None,
        },
{
    let mut out = Vec::new();
    let mut dec = flate2::read::ZlibDecoder::new(data.as_slice());
    match std::io::Read::read_to_end(&mut dec, &mut out) {
        Ok(_) => Some(out),
        Err(_) => None,
    }
}

/// The decoded body and warning list for a body and a cleaned token list.
///
/// Tokens are undone from the last listed towards the first.  `identity` is a
/// no-op; `gzip` and `deflate` decode, and on malformed data decoding stops
/// with a `Corrupt` warning and returns the bytes decoded so far; `compress`
/// passes the bytes through with an `Unsupported` warning; any other token
/// stops decoding with an `Unknown` warning.
pub open spec fn decode_result(body: Seq<u8>, toks: Seq<Seq<u8>>) -> (Seq<u8>, Seq<
    DecodeWarningView,
>)
    decreases toks.len(),
{
    if toks.len() == 0 {
        (body, Seq::<DecodeWarningView>::empty())
    } else {
        let t = toks.last();
        if t == tok_identity() {
            decode_result(body, toks.drop_last())
        } else if t == tok_gzip() {
            match gunzip_of(body) {
                Some(d) => decode_result(d, toks.drop_last()),
                None => (
                    body,
                    seq![DecodeWarningView { kind: WarningKind::Corrupt, token: t }],
                ),
            }
        } else if t == tok_deflate() {
            match inflate_of(body) {
                Some(d) => decode_result(d, toks.drop_last()),
                None => (
                    body,
                    seq![DecodeWarningView { kind: WarningKind::Corrupt, token: t }],
                ),
            }
        } else if t == tok_compress() {
            let rest = decode_result(body, toks.drop_last());
            (
                rest.0,
                seq![DecodeWarningView { kind: WarningKind::Unsupported, token: t }] + rest.1,
            )
        } else {
            (body, seq![DecodeWarningView { kind: WarningKind::Unknown, token: t }])
        }
    }
}

fn one_warning(kind: WarningKind, token: &Vec<u8>) -> (r: Vec<DecodeWarning>)
    ensures
        warnings_view(r@) =~= seq![
            DecodeWarningView { kind: kind, token: token@ },
        ],
{
    let w = DecodeWarning { kind: kind, token: crate::message::copy_bytes(token) };
    let mut out: Vec<DecodeWarning> = Vec::new();
    out.push(w);
    out
}

fn decode_prefix(body: Vec<u8>, toks: &Vec<Vec<u8>>, n: usize) -> (r: (Vec<u8>, Vec<DecodeWarning>))
    requires
        n <= toks@.len(),
    ensures
        r.0@ == decode_result(body@, views_of(toks@).take(n as int)).0,
        warnings_view(r.1@) == decode_result(body@, views_of(toks@).take(n as int)).1,
    decreases n,
{
    if n == 0 {
        proof {
            assert(views_of(toks@).take(0) =~= Seq::<Seq<u8>>::empty());
            assert(warnings_view(Seq::<DecodeWarning>::empty()) =~= Seq::<
                DecodeWarningView,
            >::empty());
        }
        return (body, Vec::new());
    }
    let ghost vt = views_of(toks@).take(n as int);
    proof {
        assert(vt.last() == toks@[n - 1]@);
        assert(vt.drop_last() =~= views_of(toks@).take(n - 1));
    }
    let t = &toks[n - 1];
    if bytes_eq(t, &tok_identity_exec()) {
        decode_prefix(body, toks, n - 1)
    } else if bytes_eq(t, &tok_gzip_exec()) {
        match gunzip(&body) {
            Some(d) => decode_prefix(d, toks, n - 1),
            None => {
                let ws = one_warning(WarningKind::Corrupt, t);
                (body, ws)
            },
        }
    } else if bytes_eq(t, &tok_deflate_exec()) {
        match inflate(&body) {
            Some(d) => decode_prefix(d, toks, n - 1),
            None => {
                let ws = one_warning(WarningKind::Corrupt, t);
                (body, ws)
            },
        }
    } else if bytes_eq(t, &tok_compress_exec()) {
        let w = DecodeWarning { kind: WarningKind::Unsupported, token: crate::message::copy_bytes(t) };
        let rest = decode_prefix(body, toks, n - 1);
        let (b2, mut ws) = rest;
        let ghost ws_old = ws@;
        ws.insert(0, w);
        proof {
            assert(ws@ =~= seq![w] + ws_old);
            assert forall|k: int| 0 <= k < ws@.len() implies warnings_view(ws@)[k] == (seq![
                DecodeWarningView { kind: WarningKind::Unsupported, token: vt.last() },
            ] + warnings_view(ws_old))[k] by {
                if k > 0 {
                    assert(ws@[k] == ws_old[k - 1]);
                    assert(warnings_view(ws_old)[k - 1] == ws_old[k - 1]@);
                }
            }
            assert(warnings_view(ws@) =~= seq![
                DecodeWarningView { kind: WarningKind::Unsupported, token: vt.last() },
            ] + warnings_view(ws_old));
        }
        (b2, ws)
    } else {
        let ws = one_warning(WarningKind::Unknown, t);
        (body, ws)
    }
}

/// Decodes a body copy per a raw `Content-Encoding` value, undoing the listed
/// codings in reverse of their application order.  Never fatal: trouble with
/// a token is reported as a warning beside the bytes decoded so far.  The
/// input buffers are never mutated.
pub fn decode(body: &Vec<u8>, encoding: &Vec<u8>) -> (r: (Vec<u8>, Vec<DecodeWarning>))
    ensures
        r.0@ == decode_result(body@, encoding_tokens(encoding@)).0,
        warnings_view(r.1@) == decode_result(body@, encoding_tokens(encoding@)).1,
{
    let toks = parse_encoding_tokens(encoding);
    let b = crate::message::copy_bytes(body);
    proof {
        assert(views_of(toks@).take(toks@.len() as int) =~= views_of(toks@));
    }
    decode_prefix(b, &toks, toks.len())
}

/// Law: for the chained encoding list `gzip, identity` the codec undoes
/// `identity` first (a no-op, since it was applied last) and then `gzip`,
/// recovering the original plaintext with no warnings.
pub proof fn lemma_chained_gzip_identity(body: Seq<u8>, plain: Seq<u8>)
    requires
        gunzip_of(body) == Some(plain),
    ensures
        decode_result(body, seq![tok_gzip(), tok_identity()]).0 == plain,
        decode_result(body, seq![tok_gzip(), tok_identity()]).1 == Seq::<
            DecodeWarningView,
        >::empty(),
{
    let toks = seq![tok_gzip(), tok_identity()];
    let t1 = seq![tok_gzip()];
    assert(tok_gzip().len() == 4 && tok_identity().len() == 8);
    assert(toks.last() == tok_identity());
    assert(toks.drop_last() =~= t1);
    assert(decode_result(body, toks) == decode_result(body, t1));
    assert(t1.last() == tok_gzip());
    assert(t1.drop_last() =~= Seq::<Seq<u8>>::empty());
    assert(decode_result(body, t1) == decode_result(plain, Seq::<Seq<u8>>::empty()));
    assert(decode_result(plain, Seq::<Seq<u8>>::empty()) == (
        plain,
        Seq::<DecodeWarningView>::empty(),
    ));
}

/// Law: an unrecognized encoding token is non-fatal.  The codec stops at the
/// token, returns the bytes unchanged, and reports exactly one `Unknown`
/// warning naming the token; it never raises a hard failure.
pub proof fn lemma_unknown_token_passthrough(body: Seq<u8>, toks: Seq<Seq<u8>>)
    requires
        toks.len() > 0,
        toks.last() != tok_identity(),
        toks.last() != tok_gzip(),
        toks.last() != tok_deflate(),
        toks.last() != tok_compress(),
    ensures
        decode_result(body, toks).0 == body,
        decode_result(body, toks).1 == seq![
            DecodeWarningView { kind: WarningKind::Unknown, token: toks.last() },
        ],
{
    let t = toks.last();
    assert(!(t == tok_identity()) && !(t == tok_gzip()) && !(t == tok_deflate()) && !(t
        == tok_compress()));
    assert(decode_result(body, toks) == (
        body,
        seq![DecodeWarningView { kind: WarningKind::Unknown, token: t }],
    ));
}

/// The byte string `"content-encoding"`.
pub open spec fn content_encoding_name() -> Seq<u8> {
    seq![
        99u8,
        111u8,
        110u8,
        116u8,
        101u8,
        110u8,
        116u8,
        45u8,
        101u8,
        110u8,
        99u8,
        111u8,
        100u8,
        105u8,
        110u8,
        103u8,
    ]
}

fn content_encoding_name_exec() -> (r: Vec<u8>)
    ensures
        r@ == content_encoding_name(),
{
    let r: Vec<u8> = vec![
        99u8, 111u8, 110u8, 116u8, 101u8, 110u8, 116u8, 45u8, 101u8, 110u8, 99u8, 111u8, 100u8,
        105u8, 110u8, 103u8,
    ];
    proof {
        assert(r@ =~= content_encoding_name());
    }
    r
}

/// A derived, read-only decoded view of a body: the decoded bytes and the
/// codec's warnings.  Never placed into a forwarded message.
#[derive(Debug)]
pub struct DecodedView {
    pub bytes: Vec<u8>,
    pub warnings: Vec<DecodeWarning>,
}

/// The inspection of a body under a header multi-map: the body decoded per
/// the first `Content-Encoding` header, or unchanged with no warnings when
/// that header is absent.
pub open spec fn inspection_result(hs: Seq<crate::message::HeaderView>, body: Seq<u8>) -> (Seq<
    u8,
>, Seq<DecodeWarningView>) {
    match crate::message::header_value(hs, content_encoding_name()) {
        Some(enc) => decode_result(body, encoding_tokens(enc)),
        None => (body, Seq::<DecodeWarningView>::empty()),
    }
}

/// Produces the read-only decoded view of a body copy for logging.  The
/// given buffers are not mutated, and nothing of the result ever flows back
/// into a forwarded message.
pub fn inspect_body(headers: &Vec<crate::message::Header>, body: &Vec<u8>) -> (r: DecodedView)
    ensures
        r.bytes@ == inspection_result(crate::message::headers_view(headers@), body@).0,
        warnings_view(r.warnings@) == inspection_result(
            crate::message::headers_view(headers@),
            body@,
        ).1,
{
    let ce = content_encoding_name_exec();
    match crate::message::find_header_value(headers, &ce) {
        Some(enc) => {
            let (bytes, warnings) = decode(body, &enc);
            DecodedView { bytes, warnings }
        },
        None => {
            proof {
                assert(warnings_view(Seq::<DecodeWarning>::empty()) =~= Seq::<
                    DecodeWarningView,
                >::empty());
            }
            DecodedView { bytes: crate::message::copy_bytes(body), warnings: Vec::new() }
        },
    }
}

} // verus!
