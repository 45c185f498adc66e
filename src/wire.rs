//! The wire protocol between a process pool and its workers.
//!
//! Every message is a frame `[u32 length][payload]`, little-endian.
//! Request payload: `[u64 id][u32 path_len][path bytes][u8 zoom][u32 x][u32 y]`.
//! Response payload: `[u64 id][u8 tag]`, then for tag 0 (success) the raw image
//! `[u32 width][u32 height][width*height*4 RGBA8 bytes]`, for tag 1 (failure)
//! `[u32 message_len][message bytes]`, for tag 2 (the style path is not an
//! existing file) `[u32 path_len][path bytes]`. Text travels as UTF-8.

use crate::bytes::{copy_range, le32, le64, lemma_le32, lemma_le64, push_bytes, push_u32, push_u64, read_u32, read_u64};
use crate::picture::{Image, ImageView};
use vstd::prelude::*;
use vstd::utf8::{encode_utf8, encode_utf8_decode_utf8, encode_utf8_valid_utf8, valid_utf8};

verus! {

/// Largest payload accepted in either direction, in bytes (1 GiB). A corrupted
/// length prefix above it is refused instead of allocated.
pub const MAX_FRAME_LEN: usize = 1073741824;

/// Why a message could not be encoded or decoded.
#[derive(Debug, Clone, Copy, PartialEq, Eq, Structural)]
pub enum WireError {
    /// The payload is longer than [`MAX_FRAME_LEN`].
    FrameTooLarge,
    /// The payload is not the encoding of any message.
    Malformed,
}

/// A frame: the payload's length as `u32`, then the payload.
pub open spec fn frame(payload: Seq<u8>) -> Seq<u8> {
    le32(payload.len() as u32) + payload
}

/// A UTF-8 text preceded by its byte length as `u32`.
pub open spec fn text_field(s: Seq<char>) -> Seq<u8> {
    le32(encode_utf8(s).len() as u32) + encode_utf8(s)
}

/// Whether a text's UTF-8 length fits its `u32` length field.
pub open spec fn text_fits(s: Seq<char>) -> bool {
    encode_utf8(s).len() <= u32::MAX
}

/// What a [`WorkerRequest`] holds.
pub struct RequestView {
    pub id: u64,
    pub style_path: Seq<char>,
    pub z: u8,
    pub x: u32,
    pub y: u32,
}

impl RequestView {
    /// Whether the path fits its length field.
    pub open spec fn encodable(self) -> bool {
        text_fits(self.style_path)
    }

    /// The request's payload.
    pub open spec fn payload(self) -> Seq<u8> {
        le64(self.id) + text_field(self.style_path) + seq![self.z] + le32(self.x) + le32(self.y)
    }
}

/// A render request sent from a process pool to one of its workers.
#[derive(Debug, Clone)]
pub struct WorkerRequest {
    /// Correlates the response with this request.
    pub id: u64,
    /// Path of the style to render with.
    pub style_path: String,
    /// Zoom level of the tile.
    pub z: u8,
    /// Column of the tile.
    pub x: u32,
    /// Row of the tile.
    pub y: u32,
}

impl View for WorkerRequest {
    type V = RequestView;

    open spec fn view(&self) -> RequestView {
        RequestView { id: self.id, style_path: self.style_path@, z: self.z, x: self.x, y: self.y }
    }
}

/// What a [`WorkerFailure`] holds.
pub enum FailureView {
    /// The style path, which is not an existing regular file.
    NotFound(Seq<char>),
    /// Any other failure's text.
    Failed(Seq<char>),
}

impl FailureView {
    /// The text carried: the missing path, or the failure's text.
    pub open spec fn text(self) -> Seq<char> {
        match self {
            FailureView::NotFound(p) => p,
            FailureView::Failed(m) => m,
        }
    }

    /// The tag that announces this failure on the wire.
    pub open spec fn tag(self) -> u8 {
        match self {
            FailureView::NotFound(_) => 2,
            FailureView::Failed(_) => 1,
        }
    }
}

/// Why a worker produced no image for a request.
#[derive(Debug, Clone, PartialEq, Eq)]
pub enum WorkerFailure {
    /// The style path is not an existing regular file; the worker's backend
    /// was not touched.
    NotFound(String),
    /// The backend failed; its text.
    Failed(String),
}

impl View for WorkerFailure {
    type V = FailureView;

    open spec fn view(&self) -> FailureView {
        match self {
            WorkerFailure::NotFound(p) => FailureView::NotFound(p@),
            WorkerFailure::Failed(m) => FailureView::Failed(m@),
        }
    }
}

/// What a [`WorkerResponse`] holds.
pub struct ResponseView {
    pub id: u64,
    pub result: Result<ImageView, FailureView>,
}

/// The tag of a response: 0 for an image, else its failure's tag.
pub open spec fn response_tag(result: Result<ImageView, FailureView>) -> u8 {
    match result {
        Ok(_) => 0,
        Err(f) => f.tag(),
    }
}

impl ResponseView {
    /// Whether the image is well formed and the text fits its length field.
    pub open spec fn encodable(self) -> bool {
        match self.result {
            Ok(img) => img.is_valid(),
            Err(f) => text_fits(f.text()),
        }
    }

    /// The response's payload.
    pub open spec fn payload(self) -> Seq<u8> {
        le64(self.id) + seq![response_tag(self.result)] + response_body(self.result)
    }
}

/// A worker's answer to one request: the image, or why there is none.
#[derive(Debug, PartialEq, Eq)]
pub struct WorkerResponse {
    /// The id of the request answered.
    pub id: u64,
    /// The rendered image, or why there is none.
    pub result: Result<Image, WorkerFailure>,
}

impl View for WorkerResponse {
    type V = ResponseView;

    open spec fn view(&self) -> ResponseView {
        ResponseView {
            id: self.id,
            result: match self.result {
                Ok(img) => Ok(img@),
                Err(f) => Err(f@),
            },
        }
    }
}

/// Relies on `String::from_utf8`: it accepts exactly the valid UTF-8 byte
/// strings and keeps the bytes as they are.
#[verifier::external_body]
fn string_from_utf8(b: Vec<u8>) -> (r: Option<String>)
    ensures
        r matches Some(s) ==> encode_utf8(s@) == b@,
        r is None ==> !valid_utf8(b@),
{
    String::from_utf8(b).ok()
}

/// The UTF-8 bytes of `s`.
fn utf8_bytes(s: &String) -> (r: &[u8])
    ensures
        r@ == encode_utf8(s@),
{
    s.as_str().as_bytes()
}

/// Reads the frame length from a four-byte header; lengths above
/// [`MAX_FRAME_LEN`] are refused.
pub fn frame_len(header: &[u8]) -> (r: Result<usize, WireError>)
    requires
        header@.len() == 4,
    ensures
        r matches Ok(n) ==> n <= MAX_FRAME_LEN && le32(n as u32) == header@,
        r matches Err(e) ==> e == WireError::FrameTooLarge && forall|n: u32|
            le32(n) == header@ ==> n > MAX_FRAME_LEN,
{
    let n = read_u32(header, 0);
    assert(header@.subrange(0, 4) == header@);
    if n as usize > MAX_FRAME_LEN {
        proof {
            assert forall|m: u32| le32(m) == header@ implies m > MAX_FRAME_LEN by {
                lemma_le32(m, header@);
                lemma_le32(n, header@);
            }
        }
        Err(WireError::FrameTooLarge)
    } else {
        Ok(n as usize)
    }
}

/// Frames `payload`: its length, then the payload itself.
fn frame_payload(payload: &[u8]) -> (r: Result<Vec<u8>, WireError>)
    ensures
        r matches Ok(f) ==> f@ == frame(payload@),
        r is Err <==> payload@.len() > MAX_FRAME_LEN,
        r matches Err(e) ==> e == WireError::FrameTooLarge,
{
    if payload.len() > MAX_FRAME_LEN {
        return Err(WireError::FrameTooLarge);
    }
    let mut out: Vec<u8> = Vec::new();
    push_u32(&mut out, payload.len() as u32);
    push_bytes(&mut out, payload);
    Ok(out)
}

/// Appends the length field and the UTF-8 bytes of `s`.
fn push_text(out: &mut Vec<u8>, s: &String)
    requires
        text_fits(s@),
    ensures
        final(out)@ == old(out)@ + text_field(s@),
{
    let b = utf8_bytes(s);
    push_u32(out, b.len() as u32);
    push_bytes(out, b);
    assert(final(out)@ == old(out)@ + text_field(s@));
}

/// Encodes `req` as a complete frame. Fails only where the payload would be
/// longer than [`MAX_FRAME_LEN`].
pub fn encode_request(req: &WorkerRequest) -> (r: Result<Vec<u8>, WireError>)
    ensures
        r matches Ok(f) ==> f@ == frame(req@.payload()),
        r is Err <==> req@.payload().len() > MAX_FRAME_LEN,
        r matches Err(e) ==> e == WireError::FrameTooLarge,
{
    let path = utf8_bytes(&req.style_path);
    proof {
        lemma_request_parts(req@);
    }
    if path.len() > MAX_FRAME_LEN - 21 {
        return Err(WireError::FrameTooLarge);
    }
    let mut p: Vec<u8> = Vec::new();
    push_u64(&mut p, req.id);
    push_text(&mut p, &req.style_path);
    p.push(req.z);
    push_u32(&mut p, req.x);
    push_u32(&mut p, req.y);
    assert(p@ == req@.payload());
    frame_payload(p.as_slice())
}

/// The parts of a request's payload, by position.
proof fn lemma_request_parts(m: RequestView)
    ensures
        ({
            let p = m.payload();
            let b = encode_utf8(m.style_path);
            let l = b.len() as int;
            &&& p.len() == 21 + l
            &&& p.subrange(0, 8) == le64(m.id)
            &&& p.subrange(8, 12) == le32(l as u32)
            &&& p.subrange(12, 12 + l) == b
            &&& p[12 + l] == m.z
            &&& p.subrange(13 + l, 17 + l) == le32(m.x)
            &&& p.subrange(17 + l, 21 + l) == le32(m.y)
        }),
{
    lemma_le64(m.id, Seq::empty());
    lemma_le32(0, Seq::empty());
    lemma_le32(m.x, Seq::empty());
    lemma_le32(m.y, Seq::empty());
    lemma_le32(encode_utf8(m.style_path).len() as u32, Seq::empty());
    let p = m.payload();
    let b = encode_utf8(m.style_path);
    let l = b.len() as int;
    assert(p.subrange(0, 8) == le64(m.id));
    assert(p.subrange(8, 12) == le32(l as u32));
    assert(p.subrange(12, 12 + l) == b);
    assert(p.subrange(13 + l, 17 + l) == le32(m.x));
    assert(p.subrange(17 + l, 21 + l) == le32(m.y));
}

/// Decodes a request payload (the frame without its length prefix). `Ok`
/// exactly where the payload is the encoding of a request.
pub fn decode_request(payload: &[u8]) -> (r: Result<WorkerRequest, WireError>)
    ensures
        r matches Ok(q) ==> q@.encodable() && q@.payload() == payload@,
        r matches Err(e) ==> e == WireError::Malformed && forall|m: RequestView|
            m.encodable() ==> m.payload() != payload@,
{
    let n = payload.len();
    if n < 21 {
        proof {
            assert forall|m: RequestView| m.encodable() implies m.payload() != payload@ by {
                lemma_request_parts(m);
            }
        }
        return Err(WireError::Malformed);
    }
    let id = read_u64(payload, 0);
    let len = read_u32(payload, 8);
    if n - 21 != len as usize {
        proof {
            assert forall|m: RequestView| m.encodable() implies m.payload() != payload@ by {
                lemma_request_parts(m);
                if m.payload() == payload@ {
                    lemma_le32(len, payload@.subrange(8, 12));
                    lemma_le32(encode_utf8(m.style_path).len() as u32, payload@.subrange(8, 12));
                }
            }
        }
        return Err(WireError::Malformed);
    }
    let l = len as usize;
    let path = copy_range(payload, 12, 12 + l);
    let z = payload[12 + l];
    let x = read_u32(payload, 13 + l);
    let y = read_u32(payload, 17 + l);
    let ghost path_bytes = path@;
    match string_from_utf8(path) {
        None => {
            proof {
                assert forall|m: RequestView| m.encodable() implies m.payload() != payload@ by {
                    lemma_request_parts(m);
                    if m.payload() == payload@ {
                        lemma_le32(len, payload@.subrange(8, 12));
                        lemma_le32(
                            encode_utf8(m.style_path).len() as u32,
                            payload@.subrange(8, 12),
                        );
                        encode_utf8_valid_utf8(m.style_path);
                    }
                }
            }
            Err(WireError::Malformed)
        },
        Some(style_path) => {
            let q = WorkerRequest { id, style_path, z, x, y };
            proof {
                lemma_request_parts(q@);
                lemma_le32(len, Seq::empty());
                assert(payload@ == payload@.subrange(0, 8) + payload@.subrange(8, 12)
                    + payload@.subrange(12, 12 + l) + seq![z] + payload@.subrange(
                    13 + l,
                    17 + l,
                ) + payload@.subrange(17 + l, 21 + l));
                assert(q@.payload() == payload@);
            }
            Ok(q)
        },
    }
}

/// The body of a response after its id and tag.
pub open spec fn response_body(result: Result<ImageView, FailureView>) -> Seq<u8> {
    match result {
        Ok(img) => img.raw(),
        Err(f) => text_field(f.text()),
    }
}

/// The parts of a response's payload, by position.
proof fn lemma_response_parts(m: ResponseView)
    ensures
        ({
            let p = m.payload();
            &&& p.len() == 9 + response_body(m.result).len()
            &&& p.subrange(0, 8) == le64(m.id)
            &&& p[8] == response_tag(m.result)
            &&& p.subrange(9, p.len() as int) == response_body(m.result)
        }),
{
    lemma_le64(m.id, Seq::empty());
    let p = m.payload();
    assert(p.subrange(0, 8) == le64(m.id));
    assert(p.subrange(9, p.len() as int) == response_body(m.result));
}

/// The parts of a text field, by position.
proof fn lemma_text_parts(s: Seq<char>)
    ensures
        ({
            let t = text_field(s);
            let b = encode_utf8(s);
            &&& t.len() == 4 + b.len()
            &&& t.subrange(0, 4) == le32(b.len() as u32)
            &&& t.subrange(4, t.len() as int) == b
        }),
{
    lemma_le32(encode_utf8(s).len() as u32, Seq::empty());
    let t = text_field(s);
    assert(t.subrange(0, 4) == le32(encode_utf8(s).len() as u32));
    assert(t.subrange(4, t.len() as int) == encode_utf8(s));
}

/// Encodes `resp` as a complete frame. Fails only where the payload would be
/// longer than [`MAX_FRAME_LEN`], or a text longer than its length field can
/// say.
pub fn encode_response(resp: &WorkerResponse) -> (r: Result<Vec<u8>, WireError>)
    ensures
        r matches Ok(f) ==> resp@.encodable() && f@ == frame(resp@.payload()),
        r is Err <==> !resp@.encodable() || resp@.payload().len() > MAX_FRAME_LEN,
        r matches Err(e) ==> e == WireError::FrameTooLarge,
{
    proof {
        lemma_response_parts(resp@);
    }
    let mut p: Vec<u8> = Vec::new();
    push_u64(&mut p, resp.id);
    match &resp.result {
        Ok(img) => {
            proof {
                use_type_invariant(img);
            }
            let raw = img.to_raw();
            if raw.len() > MAX_FRAME_LEN - 9 {
                return Err(WireError::FrameTooLarge);
            }
            p.push(0u8);
            push_bytes(&mut p, raw.as_slice());
            assert(resp@.encodable());
            assert(p@ == resp@.payload());
        },
        Err(f) => {
            let (tag, text) = match f {
                WorkerFailure::NotFound(path) => (2u8, path),
                WorkerFailure::Failed(msg) => (1u8, msg),
            };
            let b = utf8_bytes(text);
            proof {
                lemma_text_parts(text@);
            }
            if b.len() > MAX_FRAME_LEN - 13 {
                return Err(WireError::FrameTooLarge);
            }
            p.push(tag);
            push_text(&mut p, text);
            assert(resp@.encodable());
            assert(p@ == resp@.payload());
        },
    }
    assert(p@ == resp@.payload());
    frame_payload(p.as_slice())
}

/// Decodes a response payload (the frame without its length prefix). `Ok`
/// exactly where the payload is the encoding of a response.
pub fn decode_response(payload: &[u8]) -> (r: Result<WorkerResponse, WireError>)
    ensures
        r matches Ok(q) ==> q@.encodable() && q@.payload() == payload@,
        r matches Err(e) ==> e == WireError::Malformed && forall|m: ResponseView|
            m.encodable() ==> m.payload() != payload@,
{
    let n = payload.len();
    if n < 9 {
        proof {
            assert forall|m: ResponseView| m.encodable() implies m.payload() != payload@ by {
                lemma_response_parts(m);
            }
        }
        return Err(WireError::Malformed);
    }
    let id = read_u64(payload, 0);
    let tag = payload[8];
    let body = &payload[9..n];
    assert(payload@ == payload@.subrange(0, 8) + seq![tag] + body@);
    if tag == 0 {
        match Image::from_raw(body) {
            Some(img) => {
                proof {
                    use_type_invariant(&img);
                }
                let q = WorkerResponse { id, result: Ok(img) };
                assert(q@.encodable());
                assert(q@.payload() == payload@);
                Ok(q)
            },
            None => {
                proof {
                    assert forall|m: ResponseView| m.encodable() implies m.payload() != payload@ by {
                        lemma_response_parts(m);
                    }
                }
                Err(WireError::Malformed)
            },
        }
    } else if (tag == 1 || tag == 2) && n >= 13 {
        let len = read_u32(payload, 9);
        if n - 13 != len as usize {
            proof {
                assert forall|m: ResponseView| m.encodable() implies m.payload() != payload@ by {
                    lemma_response_parts(m);
                    if m.payload() == payload@ {
                        let t = m.result->Err_0.text();
                        lemma_text_parts(t);
                        assert(payload@.subrange(9, 13) == text_field(t).subrange(0, 4));
                        lemma_le32(len, payload@.subrange(9, 13));
                        lemma_le32(encode_utf8(t).len() as u32, payload@.subrange(9, 13));
                    }
                }
            }
            return Err(WireError::Malformed);
        }
        let text = copy_range(payload, 13, n);
        match string_from_utf8(text) {
            None => {
                proof {
                    assert forall|m: ResponseView| m.encodable() implies m.payload() != payload@ by {
                        lemma_response_parts(m);
                        if m.payload() == payload@ {
                            let t = m.result->Err_0.text();
                            lemma_text_parts(t);
                            assert(payload@.subrange(13, n as int) == text_field(t).subrange(
                                4,
                                text_field(t).len() as int,
                            ));
                            encode_utf8_valid_utf8(t);
                        }
                    }
                }
                Err(WireError::Malformed)
            },
            Some(t) => {
                let failure = if tag == 2 {
                    WorkerFailure::NotFound(t)
                } else {
                    WorkerFailure::Failed(t)
                };
                let q = WorkerResponse { id, result: Err(failure) };
                proof {
                    lemma_text_parts(failure@.text());
                    lemma_le32(len, Seq::empty());
                    assert(text_fits(failure@.text()));
                    assert(q@.encodable());
                    assert(body@ == payload@.subrange(9, 13) + payload@.subrange(13, n as int));
                    assert(q@.payload() == payload@);
                }
                Ok(q)
            },
        }
    } else {
        proof {
            assert forall|m: ResponseView| m.encodable() implies m.payload() != payload@ by {
                lemma_response_parts(m);
                if m.payload() == payload@ && m.result is Err {
                    lemma_text_parts(m.result->Err_0.text());
                }
            }
        }
        Err(WireError::Malformed)
    }
}

/// Round trip of requests: the frame of an encoded request holds its payload
/// after a length prefix that reads back as the payload's length, and no other
/// encodable request has the same payload, so decoding that payload gives back
/// exactly the request's fields.
pub proof fn lemma_request_round_trip(a: RequestView, b: RequestView)
    requires
        a.encodable(),
        b.encodable(),
    ensures
        frame(a.payload()).len() == 4 + a.payload().len(),
        frame(a.payload()).subrange(4, frame(a.payload()).len() as int) == a.payload(),
        a.payload().len() <= MAX_FRAME_LEN ==> frame(a.payload()).subrange(0, 4) == le32(
            a.payload().len() as u32,
        ),
        a.payload() == b.payload() ==> a == b,
{
    lemma_le32(a.payload().len() as u32, Seq::empty());
    let f = frame(a.payload());
    assert(f.subrange(4, f.len() as int) == a.payload());
    assert(f.subrange(0, 4) == le32(a.payload().len() as u32));
    if a.payload() == b.payload() {
        lemma_request_parts(a);
        lemma_request_parts(b);
        let p = a.payload();
        lemma_le64(a.id, p.subrange(0, 8));
        lemma_le64(b.id, p.subrange(0, 8));
        let la = encode_utf8(a.style_path).len();
        let lb = encode_utf8(b.style_path).len();
        lemma_le32(la as u32, p.subrange(8, 12));
        lemma_le32(lb as u32, p.subrange(8, 12));
        assert(la == lb);
        let l = la as int;
        lemma_le32(a.x, p.subrange(13 + l, 17 + l));
        lemma_le32(b.x, p.subrange(13 + l, 17 + l));
        lemma_le32(a.y, p.subrange(17 + l, 21 + l));
        lemma_le32(b.y, p.subrange(17 + l, 21 + l));
        encode_utf8_decode_utf8(a.style_path);
        encode_utf8_decode_utf8(b.style_path);
        assert(a.style_path == b.style_path);
    }
}

/// Round trip of responses: no other encodable response has the same payload
/// as an encodable response, so decoding the payload of an encoded response
/// gives back exactly its id and its image, or its kind of failure and text.
pub proof fn lemma_response_round_trip(a: ResponseView, b: ResponseView)
    requires
        a.encodable(),
        b.encodable(),
        a.payload() == b.payload(),
    ensures
        a == b,
{
    let p = a.payload();
    lemma_response_parts(a);
    lemma_response_parts(b);
    lemma_le64(a.id, p.subrange(0, 8));
    lemma_le64(b.id, p.subrange(0, 8));
    let body = p.subrange(9, p.len() as int);
    match a.result {
        Ok(ia) => {
            let ib = b.result->Ok_0;
            crate::picture::lemma_raw_parts(ia, body);
            crate::picture::lemma_raw_parts(ib, body);
            lemma_le32(ia.width, body.subrange(0, 4));
            lemma_le32(ib.width, body.subrange(0, 4));
            lemma_le32(ia.height, body.subrange(4, 8));
            lemma_le32(ib.height, body.subrange(4, 8));
        },
        Err(fa) => {
            let fb = b.result->Err_0;
            lemma_text_parts(fa.text());
            lemma_text_parts(fb.text());
            encode_utf8_decode_utf8(fa.text());
            encode_utf8_decode_utf8(fb.text());
        },
    }
}

} // verus!
