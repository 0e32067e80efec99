//! Data model of the pipeline: methods, versions, headers, and the four
//! message shapes that cross the proxy boundary.
use vstd::prelude::*;

verus! {

/// The standard request method tokens.  Translation is required to be the
/// identity relation on this set: a token is forwarded as itself, never
/// substituted for a different verb.
#[derive(Clone, Copy, PartialEq, Eq, Structural, Debug)]
pub enum Method {
    Get,
    Post,
    Put,
    Delete,
    Head,
    Options,
    Connect,
    Patch,
    Trace,
}

/// A method token as delivered by the listener: either one of the standard
/// tokens, or an extension token carried as raw bytes.
#[derive(Debug)]
pub enum MethodToken {
    Standard(Method),
    Extension(Vec<u8>),
}

/// Mathematical model of a `MethodToken`.
pub enum MethodTokenView {
    Standard(Method),
    Extension(Seq<u8>),
}

impl View for MethodToken {
    type V = MethodTokenView;

    open spec fn view(&self) -> MethodTokenView {
        match self {
            MethodToken::Standard(m) => MethodTokenView::Standard(*m),
            MethodToken::Extension(t) => MethodTokenView::Extension(t@),
        }
    }
}

/// Protocol versions the listener can deliver.
#[derive(Clone, Copy, PartialEq, Eq, Structural, Debug)]
pub enum Version {
    Http09,
    Http10,
    Http11,
    H2,
    H3,
}

/// One header field: a name and a value, both raw byte strings.
#[derive(Debug)]
pub struct Header {
    pub name: Vec<u8>,
    pub value: Vec<u8>,
}

/// Mathematical model of a `Header`.
pub struct HeaderView {
    pub name: Seq<u8>,
    pub value: Seq<u8>,
}

impl View for Header {
    type V = HeaderView;

    open spec fn view(&self) -> HeaderView {
        HeaderView { name: self.name@, value: self.value@ }
    }
}

/// Model of an ordered header multi-map.
pub open spec fn headers_view(hs: Seq<Header>) -> Seq<HeaderView> {
    hs.map_values(|h: Header| h@)
}

/// An inbound request as the listener delivers it: fully framed, immutable
/// once captured.
#[derive(Debug)]
pub struct InboundRequest {
    pub method: MethodToken,
    pub target: Vec<u8>,
    pub version: Version,
    pub headers: Vec<Header>,
    pub body: Vec<u8>,
}

/// Mathematical model of an `InboundRequest`.
pub struct InboundRequestView {
    pub method: MethodTokenView,
    pub target: Seq<u8>,
    pub version: Version,
    pub headers: Seq<HeaderView>,
    pub body: Seq<u8>,
}

impl View for InboundRequest {
    type V = InboundRequestView;

    open spec fn view(&self) -> InboundRequestView {
        InboundRequestView {
            method: self.method@,
            target: self.target@,
            version: self.version,
            headers: headers_view(self.headers@),
            body: self.body@,
        }
    }
}

/// The outbound request handed to the dispatcher: a validated absolute URL,
/// the method mapped 1:1, the headers copied minus hop-by-hop fields, and a
/// body byte-for-byte equal to the inbound body.
#[derive(Debug)]
pub struct OutboundRequestDescriptor {
    pub url: Vec<u8>,
    pub method: Method,
    pub headers: Vec<Header>,
    pub body: Vec<u8>,
}

/// Mathematical model of an `OutboundRequestDescriptor`.
pub struct OutboundRequestView {
    pub url: Seq<u8>,
    pub method: Method,
    pub headers: Seq<HeaderView>,
    pub body: Seq<u8>,
}

impl View for OutboundRequestDescriptor {
    type V = OutboundRequestView;

    open spec fn view(&self) -> OutboundRequestView {
        OutboundRequestView {
            url: self.url@,
            method: self.method,
            headers: headers_view(self.headers@),
            body: self.body@,
        }
    }
}

/// An upstream response exactly as the origin sent it: the transport must
/// not have decompressed the body or touched `Content-Encoding`.
#[derive(Debug)]
pub struct UpstreamResponseDescriptor {
    pub status: u16,
    pub headers: Vec<Header>,
    pub body: Vec<u8>,
}

/// Mathematical model of an `UpstreamResponseDescriptor`.
pub struct UpstreamResponseView {
    pub status: u16,
    pub headers: Seq<HeaderView>,
    pub body: Seq<u8>,
}

impl View for UpstreamResponseDescriptor {
    type V = UpstreamResponseView;

    open spec fn view(&self) -> UpstreamResponseView {
        UpstreamResponseView {
            status: self.status,
            headers: headers_view(self.headers@),
            body: self.body@,
        }
    }
}

/// The response emitted back to the caller; it mirrors the upstream
/// response verbatim.
#[derive(Debug)]
pub struct OutboundResponse {
    pub status: u16,
    pub headers: Vec<Header>,
    pub body: Vec<u8>,
}

/// Mathematical model of an `OutboundResponse`.
pub struct OutboundResponseView {
    pub status: u16,
    pub headers: Seq<HeaderView>,
    pub body: Seq<u8>,
}

impl View for OutboundResponse {
    type V = OutboundResponseView;

    open spec fn view(&self) -> OutboundResponseView {
        OutboundResponseView {
            status: self.status,
            headers: headers_view(self.headers@),
            body: self.body@,
        }
    }
}

/// Copies a byte string.
pub fn copy_bytes(v: &Vec<u8>) -> (r: Vec<u8>)
    ensures
        r@ == v@,
{
    let mut out: Vec<u8> = Vec::new();
    let mut i: usize = 0;
    while i < v.len()
        invariant
            i <= v@.len(),
            out@ == v@.take(i as int),
        decreases v.len() - i,
    {
        out.push(v[i]);
        proof {
            assert(out@ =~= v@.take(i + 1));
        }
        i = i + 1;
    }
    proof {
        assert(v@.take(v@.len() as int) =~= v@);
    }
    out
}

/// The value of the first header field whose name matches `name` up to ASCII
/// case, if any.
pub open spec fn header_value(hs: Seq<HeaderView>, name: Seq<u8>) -> Option<Seq<u8>>
    decreases hs.len(),
{
    if hs.len() == 0 {
        None
    } else if crate::ascii::lower_bytes(hs[0].name) == crate::ascii::lower_bytes(name) {
        Some(hs[0].value)
    } else {
        header_value(hs.drop_first(), name)
    }
}

/// Looks up the first header field whose name matches `name` up to ASCII
/// case, and returns a copy of its value.
pub fn find_header_value(hs: &Vec<Header>, name: &Vec<u8>) -> (r: Option<Vec<u8>>)
    ensures
        match r {
            Some(v) => header_value(headers_view(hs@), name@) == Some(v@),
            None => header_value(headers_view(hs@), name@) is None,
        },
{
    let mut i: usize = 0;
    proof {
        assert(headers_view(hs@).skip(0) =~= headers_view(hs@));
    }
    while i < hs.len()
        invariant
            i <= hs@.len(),
            header_value(headers_view(hs@), name@) == header_value(
                headers_view(hs@).skip(i as int),
                name@,
            ),
        decreases hs.len() - i,
    {
        proof {
            assert(headers_view(hs@).skip(i as int)[0] == hs@[i as int]@);
            assert(headers_view(hs@).skip(i as int).drop_first() =~= headers_view(hs@).skip(i + 1));
        }
        if crate::ascii::bytes_eq_nocase(&hs[i].name, name) {
            return Some(copy_bytes(&hs[i].value));
        }
        i = i + 1;
    }
    proof {
        assert(headers_view(hs@).skip(hs@.len() as int) =~= Seq::<HeaderView>::empty());
    }
    None
}

/// Copies one header field.
pub fn clone_header(h: &Header) -> (r: Header)
    ensures
        r@ == h@,
{
    Header { name: h.name.clone(), value: h.value.clone() }
}

/// Copies an ordered header multi-map.
pub fn clone_headers(hs: &Vec<Header>) -> (r: Vec<Header>)
    ensures
        headers_view(r@) == headers_view(hs@),
{
    let mut out: Vec<Header> = Vec::new();
    let mut i: usize = 0;
    while i < hs.len()
        invariant
            i <= hs.len(),
            out@.len() == i,
            forall|k: int| 0 <= k < i ==> (#[trigger] out@[k])@ == hs@[k]@,
        decreases hs.len() - i,
    {
        out.push(clone_header(&hs[i]));
        i = i + 1;
    }
    proof {
        assert(headers_view(out@) =~= headers_view(hs@));
    }
    out
}

} // verus!
