//! The wire envelope: frames for authentication, connection control and
//! opaque application payloads, with a deterministic binary encoding.
//!
//! Layout, all integers little-endian: a `u32` variant index, then the
//! fields in order. A `u64` is 8 bytes; a `bool` one byte, 0 or 1; a byte
//! string or a text is its length as a `u64` and then its bytes (UTF-8 for
//! text); an optional text is a byte 0, or a byte 1 and the text. Decoding
//! accepts exactly the encodings of messages: nothing may follow the last
//! field.

use vstd::prelude::*;
use vstd::utf8::*;

use crate::protocol::unix_time_millis;
use crate::text::string_from_utf8;

verus! {

/// One frame of the protocol.
#[derive(Debug, Clone)]
pub enum Message {
    AuthRequest { id: String, password: String },
    AuthResponse { success: bool, session_token: Option<String> },
    Heartbeat { timestamp: u64 },
    Disconnect { reason: String },
    Error { message: String },
    /// Bytes of an application collaborator (screen frames, input events,
    /// file listings), carried without interpretation.
    ApplicationPayload { data: Vec<u8> },
}

/// A message with its texts as character sequences.
pub enum MessageView {
    AuthRequest(Seq<char>, Seq<char>),
    AuthResponse(bool, Option<Seq<char>>),
    Heartbeat(u64),
    Disconnect(Seq<char>),
    Error(Seq<char>),
    ApplicationPayload(Seq<u8>),
}

impl View for Message {
    type V = MessageView;

    open spec fn view(&self) -> MessageView {
        match self {
            Message::AuthRequest { id, password } => MessageView::AuthRequest(id@, password@),
            Message::AuthResponse { success, session_token } => MessageView::AuthResponse(
                *success,
                match session_token {
                    Some(t) => Some(t@),
                    None => None,
                },
            ),
            Message::Heartbeat { timestamp } => MessageView::Heartbeat(*timestamp),
            Message::Disconnect { reason } => MessageView::Disconnect(reason@),
            Message::Error { message } => MessageView::Error(message@),
            Message::ApplicationPayload { data } => MessageView::ApplicationPayload(data@),
        }
    }
}

impl Message {
    /// Frames that belong to the authentication handshake.
    pub open spec fn spec_is_auth_frame(&self) -> bool {
        self is AuthRequest || self is AuthResponse
    }

    pub fn is_auth_frame(&self) -> (r: bool)
        ensures
            r == self.spec_is_auth_frame(),
    {
        match self {
            Message::AuthRequest { .. } => true,
            Message::AuthResponse { .. } => true,
            _ => false,
        }
    }

    pub fn is_application_payload(&self) -> (r: bool)
        ensures
            r == self is ApplicationPayload,
    {
        match self {
            Message::ApplicationPayload { .. } => true,
            _ => false,
        }
    }
}

/// Errors of encoding and decoding.
#[derive(Debug, Clone)]
pub enum MessageError {
    SerializationFailed(String),
    DeserializationFailed(String),
    InvalidFormat,
    UnsupportedType,
}

// ---- encoding -------------------------------------------------------------

pub open spec fn enc_u32(v: u32) -> Seq<u8> {
    seq![v as u8, (v >> 8) as u8, (v >> 16) as u8, (v >> 24) as u8]
}

pub open spec fn enc_u64(v: u64) -> Seq<u8> {
    seq![
        v as u8,
        (v >> 8) as u8,
        (v >> 16) as u8,
        (v >> 24) as u8,
        (v >> 32) as u8,
        (v >> 40) as u8,
        (v >> 48) as u8,
        (v >> 56) as u8,
    ]
}

pub open spec fn enc_bool(b: bool) -> Seq<u8> {
    if b {
        seq![1u8]
    } else {
        seq![0u8]
    }
}

pub open spec fn enc_bytes(s: Seq<u8>) -> Seq<u8> {
    enc_u64(s.len() as u64) + s
}

pub open spec fn enc_text(s: Seq<char>) -> Seq<u8> {
    enc_bytes(encode_utf8(s))
}

pub open spec fn enc_opt_text(o: Option<Seq<char>>) -> Seq<u8> {
    match o {
        None => seq![0u8],
        Some(s) => seq![1u8] + enc_text(s),
    }
}

/// Variant index of a message.
pub open spec fn tag_of(m: MessageView) -> u32 {
    match m {
        MessageView::AuthRequest(..) => 0,
        MessageView::AuthResponse(..) => 1,
        MessageView::Heartbeat(..) => 2,
        MessageView::Disconnect(..) => 3,
        MessageView::Error(..) => 4,
        MessageView::ApplicationPayload(..) => 5,
    }
}

/// The bytes after the variant index.
pub open spec fn enc_body(m: MessageView) -> Seq<u8> {
    match m {
        MessageView::AuthRequest(id, pw) => enc_text(id) + enc_text(pw),
        MessageView::AuthResponse(ok, token) => enc_bool(ok) + enc_opt_text(token),
        MessageView::Heartbeat(ts) => enc_u64(ts),
        MessageView::Disconnect(r) => enc_text(r),
        MessageView::Error(e) => enc_text(e),
        MessageView::ApplicationPayload(d) => enc_bytes(d),
    }
}

/// The encoding of a message.
pub open spec fn encoding(m: MessageView) -> Seq<u8> {
    enc_u32(tag_of(m)) + enc_body(m)
}

/// Every length in the message fits the 8-byte length field.
pub open spec fn fits(m: MessageView) -> bool {
    let ok = |s: Seq<char>| encode_utf8(s).len() <= u64::MAX;
    match m {
        MessageView::AuthRequest(id, pw) => ok(id) && ok(pw),
        MessageView::AuthResponse(_, token) => match token {
            Some(t) => ok(t),
            None => true,
        },
        MessageView::Heartbeat(_) => true,
        MessageView::Disconnect(r) => ok(r),
        MessageView::Error(e) => ok(e),
        MessageView::ApplicationPayload(d) => d.len() <= u64::MAX,
    }
}

// ---- decoding, as a function on byte strings --------------------------------

pub open spec fn le_u32(b: Seq<u8>, p: int) -> u32 {
    (b[p] as u32) | ((b[p + 1] as u32) << 8) | ((b[p + 2] as u32) << 16) | ((b[p + 3] as u32) << 24)
}

pub open spec fn le_u64(b: Seq<u8>, p: int) -> u64 {
    (b[p] as u64) | ((b[p + 1] as u64) << 8) | ((b[p + 2] as u64) << 16) | ((b[p + 3] as u64)
        << 24) | ((b[p + 4] as u64) << 32) | ((b[p + 5] as u64) << 40) | ((b[p + 6] as u64) << 48)
        | ((b[p + 7] as u64) << 56)
}

pub open spec fn rd_u32(b: Seq<u8>, p: int) -> Option<(u32, int)> {
    if 0 <= p && p + 4 <= b.len() {
        Some((le_u32(b, p), p + 4))
    } else {
        None
    }
}

pub open spec fn rd_u64(b: Seq<u8>, p: int) -> Option<(u64, int)> {
    if 0 <= p && p + 8 <= b.len() {
        Some((le_u64(b, p), p + 8))
    } else {
        None
    }
}

pub open spec fn rd_bool(b: Seq<u8>, p: int) -> Option<(bool, int)> {
    if 0 <= p && p < b.len() && b[p] <= 1 {
        Some((b[p] == 1, p + 1))
    } else {
        None
    }
}

pub open spec fn rd_bytes(b: Seq<u8>, p: int) -> Option<(Seq<u8>, int)> {
    match rd_u64(b, p) {
        Some((n, q)) => if q + n <= b.len() {
            Some((b.subrange(q, q + n), q + n))
        } else {
            None
        },
        None => None,
    }
}

pub open spec fn rd_text(b: Seq<u8>, p: int) -> Option<(Seq<char>, int)> {
    match rd_bytes(b, p) {
        Some((s, q)) => if valid_utf8(s) {
            Some((decode_utf8(s), q))
        } else {
            None
        },
        None => None,
    }
}

pub open spec fn rd_opt_text(b: Seq<u8>, p: int) -> Option<(Option<Seq<char>>, int)> {
    if 0 <= p && p < b.len() && b[p] == 0 {
        Some((None, p + 1))
    } else if 0 <= p && p < b.len() && b[p] == 1 {
        match rd_text(b, p + 1) {
            Some((s, q)) => Some((Some(s), q)),
            None => None,
        }
    } else {
        None
    }
}

/// The body of a message with variant index `tag`, read from `p`.
pub open spec fn rd_body(tag: u32, b: Seq<u8>, p: int) -> Option<(MessageView, int)> {
    if tag == 0 {
        match rd_text(b, p) {
            Some((id, q)) => match rd_text(b, q) {
                Some((pw, e)) => Some((MessageView::AuthRequest(id, pw), e)),
                None => None,
            },
            None => None,
        }
    } else if tag == 1 {
        match rd_bool(b, p) {
            Some((ok, q)) => match rd_opt_text(b, q) {
                Some((t, e)) => Some((MessageView::AuthResponse(ok, t), e)),
                None => None,
            },
            None => None,
        }
    } else if tag == 2 {
        match rd_u64(b, p) {
            Some((ts, e)) => Some((MessageView::Heartbeat(ts), e)),
            None => None,
        }
    } else if tag == 3 {
        match rd_text(b, p) {
            Some((r, e)) => Some((MessageView::Disconnect(r), e)),
            None => None,
        }
    } else if tag == 4 {
        match rd_text(b, p) {
            Some((r, e)) => Some((MessageView::Error(r), e)),
            None => None,
        }
    } else if tag == 5 {
        match rd_bytes(b, p) {
            Some((d, e)) => Some((MessageView::ApplicationPayload(d), e)),
            None => None,
        }
    } else {
        None
    }
}

/// The message that `b` holds, when it holds exactly one.
pub open spec fn parse(b: Seq<u8>) -> Option<MessageView> {
    match rd_u32(b, 0) {
        Some((tag, p)) => match rd_body(tag, b, p) {
            Some((m, e)) => if e == b.len() {
                Some(m)
            } else {
                None
            },
            None => None,
        },
        None => None,
    }
}

// ---- the byte-level facts ----------------------------------------------------

proof fn lemma_u32_bytes(v: u32, b0: u8, b1: u8, b2: u8, b3: u8)
    ensures
        (b0 == v as u8 && b1 == (v >> 8) as u8 && b2 == (v >> 16) as u8 && b3 == (v >> 24) as u8)
            <==> ((b0 as u32) | ((b1 as u32) << 8) | ((b2 as u32) << 16) | ((b3 as u32) << 24))
            == v,
{
    assert((b0 == v as u8 && b1 == (v >> 8) as u8 && b2 == (v >> 16) as u8 && b3 == (v >> 24) as u8)
        <==> ((b0 as u32) | ((b1 as u32) << 8) | ((b2 as u32) << 16) | ((b3 as u32) << 24)) == v)
        by (bit_vector);
}

proof fn lemma_u64_bytes(v: u64, b0: u8, b1: u8, b2: u8, b3: u8, b4: u8, b5: u8, b6: u8, b7: u8)
    ensures
        (b0 == v as u8 && b1 == (v >> 8) as u8 && b2 == (v >> 16) as u8 && b3 == (v >> 24) as u8
            && b4 == (v >> 32) as u8 && b5 == (v >> 40) as u8 && b6 == (v >> 48) as u8 && b7 == (v
            >> 56) as u8) <==> ((b0 as u64) | ((b1 as u64) << 8) | ((b2 as u64) << 16) | ((b3 as u64)
            << 24) | ((b4 as u64) << 32) | ((b5 as u64) << 40) | ((b6 as u64) << 48) | ((b7 as u64)
            << 56)) == v,
{
    assert((b0 == v as u8 && b1 == (v >> 8) as u8 && b2 == (v >> 16) as u8 && b3 == (v >> 24) as u8
        && b4 == (v >> 32) as u8 && b5 == (v >> 40) as u8 && b6 == (v >> 48) as u8 && b7 == (v
        >> 56) as u8) <==> ((b0 as u64) | ((b1 as u64) << 8) | ((b2 as u64) << 16) | ((b3 as u64)
        << 24) | ((b4 as u64) << 32) | ((b5 as u64) << 40) | ((b6 as u64) << 48) | ((b7 as u64)
        << 56)) == v) by (bit_vector);
}

/// Four bytes read as a `u32` are the encoding of what they read as.
proof fn lemma_rd_u32(b: Seq<u8>, p: int, v: u32)
    requires
        0 <= p,
        p + 4 <= b.len(),
    ensures
        b.subrange(p, p + 4) == enc_u32(v) <==> le_u32(b, p) == v,
{
    lemma_u32_bytes(v, b[p], b[p + 1], b[p + 2], b[p + 3]);
    if b.subrange(p, p + 4) == enc_u32(v) {
        assert(b[p] == b.subrange(p, p + 4)[0]);
        assert(b[p + 1] == b.subrange(p, p + 4)[1]);
        assert(b[p + 2] == b.subrange(p, p + 4)[2]);
        assert(b[p + 3] == b.subrange(p, p + 4)[3]);
    }
    if le_u32(b, p) == v {
        assert(b.subrange(p, p + 4) =~= enc_u32(v));
    }
}

/// Eight bytes read as a `u64` are the encoding of what they read as.
proof fn lemma_rd_u64(b: Seq<u8>, p: int, v: u64)
    requires
        0 <= p,
        p + 8 <= b.len(),
    ensures
        b.subrange(p, p + 8) == enc_u64(v) <==> le_u64(b, p) == v,
{
    lemma_u64_bytes(v, b[p], b[p + 1], b[p + 2], b[p + 3], b[p + 4], b[p + 5], b[p + 6], b[p + 7]);
    if b.subrange(p, p + 8) == enc_u64(v) {
        let s = b.subrange(p, p + 8);
        assert(b[p] == s[0] && b[p + 1] == s[1] && b[p + 2] == s[2] && b[p + 3] == s[3]);
        assert(b[p + 4] == s[4] && b[p + 5] == s[5] && b[p + 6] == s[6] && b[p + 7] == s[7]);
    }
    if le_u64(b, p) == v {
        assert(b.subrange(p, p + 8) =~= enc_u64(v));
    }
}

/// What a reader accepts is the encoding of what it returns.
proof fn lemma_rd_text_sound(b: Seq<u8>, p: int)
    requires
        rd_text(b, p) is Some,
    ensures
        ({
            let (s, q) = rd_text(b, p)->0;
            p <= q <= b.len() && b.subrange(p, q) == enc_text(s)
        }),
{
    let (n, q0) = rd_u64(b, p)->0;
    lemma_rd_u64(b, p, n);
    let (s, q) = rd_text(b, p)->0;
    let raw = b.subrange(q0, q0 + n);
    decode_utf8_encode_utf8(raw);
    assert(b.subrange(p, q) =~= b.subrange(p, q0) + raw);
}

proof fn lemma_rd_bytes_sound(b: Seq<u8>, p: int)
    requires
        rd_bytes(b, p) is Some,
    ensures
        ({
            let (s, q) = rd_bytes(b, p)->0;
            p <= q <= b.len() && b.subrange(p, q) == enc_bytes(s)
        }),
{
    let (n, q0) = rd_u64(b, p)->0;
    lemma_rd_u64(b, p, n);
    let (s, q) = rd_bytes(b, p)->0;
    assert(b.subrange(p, q) =~= b.subrange(p, q0) + s);
}

/// A reader at the start of an encoding returns the encoded value and the
/// position after it.
proof fn lemma_rd_bytes_complete(b: Seq<u8>, p: int, s: Seq<u8>)
    requires
        0 <= p,
        s.len() <= u64::MAX,
        p + enc_bytes(s).len() <= b.len(),
        b.subrange(p, p + enc_bytes(s).len()) == enc_bytes(s),
    ensures
        rd_bytes(b, p) == Some((s, p + enc_bytes(s).len())),
{
    let e = enc_bytes(s);
    assert(b.subrange(p, p + 8) =~= e.subrange(0, 8));
    assert(e.subrange(0, 8) =~= enc_u64(s.len() as u64));
    lemma_rd_u64(b, p, s.len() as u64);
    assert(b.subrange(p + 8, p + 8 + s.len()) =~= e.subrange(8, e.len() as int));
    assert(e.subrange(8, e.len() as int) =~= s);
}

proof fn lemma_rd_text_complete(b: Seq<u8>, p: int, s: Seq<char>)
    requires
        0 <= p,
        encode_utf8(s).len() <= u64::MAX,
        p + enc_text(s).len() <= b.len(),
        b.subrange(p, p + enc_text(s).len()) == enc_text(s),
    ensures
        rd_text(b, p) == Some((s, p + enc_text(s).len())),
{
    lemma_rd_bytes_complete(b, p, encode_utf8(s));
    encode_utf8_valid_utf8(s);
    encode_utf8_decode_utf8(s);
}

proof fn lemma_auth_response_sound(b: Seq<u8>, p: int)
    requires
        rd_body(1, b, p) is Some,
    ensures
        ({
            let (m, e) = rd_body(1, b, p)->0;
            p <= e <= b.len() && b.subrange(p, e) == enc_body(m)
        }),
{
    let (ok, q) = rd_bool(b, p)->0;
    let (m, e) = rd_body(1, b, p)->0;
    assert(b.subrange(p, q) =~= enc_bool(ok));
    if b[q] == 0 {
        assert(b.subrange(q, e) =~= seq![0u8]);
    } else {
        lemma_rd_text_sound(b, q + 1);
        assert(b.subrange(q, e) =~= seq![1u8] + b.subrange(q + 1, e));
    }
    assert(b.subrange(p, e) =~= b.subrange(p, q) + b.subrange(q, e));
}

proof fn lemma_auth_request_sound(b: Seq<u8>, p: int)
    requires
        rd_body(0, b, p) is Some,
    ensures
        ({
            let (m, e) = rd_body(0, b, p)->0;
            p <= e <= b.len() && b.subrange(p, e) == enc_body(m)
        }),
{
    let (m, e) = rd_body(0, b, p)->0;
    lemma_rd_text_sound(b, p);
    let (id, q) = rd_text(b, p)->0;
    lemma_rd_text_sound(b, q);
    assert(b.subrange(p, e) =~= b.subrange(p, q) + b.subrange(q, e));
}

/// The body that a reader accepts is the encoding of what it returns.
proof fn lemma_body_sound(tag: u32, b: Seq<u8>, p: int)
    requires
        rd_body(tag, b, p) is Some,
    ensures
        ({
            let (m, e) = rd_body(tag, b, p)->0;
            p <= e <= b.len() && tag_of(m) == tag && b.subrange(p, e) == enc_body(m)
        }),
{
    if tag == 0 {
        lemma_auth_request_sound(b, p);
    } else if tag == 1 {
        lemma_auth_response_sound(b, p);
    } else if tag == 2 {
        let (ts, _) = rd_u64(b, p)->0;
        lemma_rd_u64(b, p, ts);
    } else if tag == 3 || tag == 4 {
        lemma_rd_text_sound(b, p);
    } else {
        lemma_rd_bytes_sound(b, p);
    }
}

/// A message read from bytes is exactly what those bytes encode.
pub proof fn lemma_parse_sound(b: Seq<u8>)
    requires
        parse(b) is Some,
    ensures
        encoding(parse(b)->0) == b,
{
    let (tag, p) = rd_u32(b, 0)->0;
    lemma_rd_u32(b, 0, tag);
    lemma_body_sound(tag, b, p);
    let (m, e) = rd_body(tag, b, p)->0;
    assert(b =~= b.subrange(0, 4) + b.subrange(p, e));
}

/// The encoding of a message reads back as that message.
pub proof fn lemma_parse_complete(m: MessageView)
    requires
        fits(m),
    ensures
        parse(encoding(m)) == Some(m),
{
    let b = encoding(m);
    let body = enc_body(m);
    lemma_rd_u32(b, 0, tag_of(m));
    assert(b.subrange(0, 4) =~= enc_u32(tag_of(m)));
    match m {
        MessageView::AuthRequest(id, pw) => {
            let e1 = enc_text(id);
            let n1 = e1.len() as int;
            assert(b.subrange(4, 4 + n1) =~= e1);
            lemma_rd_text_complete(b, 4, id);
            assert(b.subrange(4 + n1, b.len() as int) =~= enc_text(pw));
            lemma_rd_text_complete(b, 4 + n1, pw);
        },
        MessageView::AuthResponse(ok, token) => {
            assert(b[4] == enc_bool(ok)[0]);
            match token {
                None => {},
                Some(t) => {
                    assert(b[5] == 1u8);
                    assert(b.subrange(6, b.len() as int) =~= enc_text(t));
                    lemma_rd_text_complete(b, 6, t);
                },
            }
        },
        MessageView::Heartbeat(ts) => {
            assert(b.subrange(4, 12) =~= enc_u64(ts));
            lemma_rd_u64(b, 4, ts);
        },
        MessageView::Disconnect(r) => {
            assert(b.subrange(4, b.len() as int) =~= enc_text(r));
            lemma_rd_text_complete(b, 4, r);
        },
        MessageView::Error(r) => {
            assert(b.subrange(4, b.len() as int) =~= enc_text(r));
            lemma_rd_text_complete(b, 4, r);
        },
        MessageView::ApplicationPayload(d) => {
            assert(b.subrange(4, b.len() as int) =~= enc_bytes(d));
            lemma_rd_bytes_complete(b, 4, d);
        },
    }
}

/// Bytes that do not parse encode no message.
pub proof fn lemma_parse_rejects(b: Seq<u8>)
    requires
        parse(b) is None,
    ensures
        forall|v: MessageView| fits(v) ==> encoding(v) != b,
{
    assert forall|v: MessageView| fits(v) implies encoding(v) != b by {
        if encoding(v) == b {
            lemma_parse_complete(v);
        }
    }
}

/// Encoding is one to one: two messages with the same encoding are the same
/// message.
pub proof fn lemma_encoding_injective(m1: MessageView, m2: MessageView)
    requires
        fits(m1),
        fits(m2),
        encoding(m1) == encoding(m2),
    ensures
        m1 == m2,
{
    lemma_parse_complete(m1);
    lemma_parse_complete(m2);
}

// ---- executable encoder and decoder -------------------------------------------

fn put_u32(out: &mut Vec<u8>, v: u32)
    ensures
        final(out)@ == old(out)@ + enc_u32(v),
{
    out.push(v as u8);
    out.push((v >> 8) as u8);
    out.push((v >> 16) as u8);
    out.push((v >> 24) as u8);
    assert(final(out)@ =~= old(out)@ + enc_u32(v));
}

fn put_u64(out: &mut Vec<u8>, v: u64)
    ensures
        final(out)@ == old(out)@ + enc_u64(v),
{
    out.push(v as u8);
    out.push((v >> 8) as u8);
    out.push((v >> 16) as u8);
    out.push((v >> 24) as u8);
    out.push((v >> 32) as u8);
    out.push((v >> 40) as u8);
    out.push((v >> 48) as u8);
    out.push((v >> 56) as u8);
    assert(final(out)@ =~= old(out)@ + enc_u64(v));
}

fn put_bytes(out: &mut Vec<u8>, s: &[u8])
    ensures
        final(out)@ == old(out)@ + enc_bytes(s@),
{
    put_u64(out, s.len() as u64);
    out.extend_from_slice(s);
    assert(final(out)@ =~= old(out)@ + enc_bytes(s@));
}

fn put_text(out: &mut Vec<u8>, s: &String)
    ensures
        final(out)@ == old(out)@ + enc_text(s@),
{
    put_bytes(out, s.as_str().as_bytes());
}

/// The encoding of `m`.
pub fn encode(m: &Message) -> (r: Vec<u8>)
    ensures
        r@ == encoding(m@),
{
    let mut out: Vec<u8> = Vec::new();
    match m {
        Message::AuthRequest { id, password } => {
            put_u32(&mut out, 0);
            put_text(&mut out, id);
            put_text(&mut out, password);
        },
        Message::AuthResponse { success, session_token } => {
            put_u32(&mut out, 1);
            out.push(if *success {
                1u8
            } else {
                0u8
            });
            match session_token {
                None => out.push(0u8),
                Some(t) => {
                    out.push(1u8);
                    put_text(&mut out, t);
                },
            }
        },
        Message::Heartbeat { timestamp } => {
            put_u32(&mut out, 2);
            put_u64(&mut out, *timestamp);
        },
        Message::Disconnect { reason } => {
            put_u32(&mut out, 3);
            put_text(&mut out, reason);
        },
        Message::Error { message } => {
            put_u32(&mut out, 4);
            put_text(&mut out, message);
        },
        Message::ApplicationPayload { data } => {
            put_u32(&mut out, 5);
            put_bytes(&mut out, data.as_slice());
        },
    }
    assert(out@ =~= encoding(m@));
    out
}

fn get_u32(b: &[u8], p: usize) -> (r: Option<(u32, usize)>)
    ensures
        match r {
            Some((v, q)) => rd_u32(b@, p as int) == Some((v, q as int)),
            None => rd_u32(b@, p as int) is None,
        },
{
    if p > b.len() || b.len() - p < 4 {
        return None;
    }
    let v = (b[p] as u32) | ((b[p + 1] as u32) << 8) | ((b[p + 2] as u32) << 16) | ((b[p
        + 3] as u32) << 24);
    Some((v, p + 4))
}

fn get_u64(b: &[u8], p: usize) -> (r: Option<(u64, usize)>)
    ensures
        match r {
            Some((v, q)) => rd_u64(b@, p as int) == Some((v, q as int)),
            None => rd_u64(b@, p as int) is None,
        },
{
    if p > b.len() || b.len() - p < 8 {
        return None;
    }
    let v = (b[p] as u64) | ((b[p + 1] as u64) << 8) | ((b[p + 2] as u64) << 16) | ((b[p
        + 3] as u64) << 24) | ((b[p + 4] as u64) << 32) | ((b[p + 5] as u64) << 40) | ((b[p
        + 6] as u64) << 48) | ((b[p + 7] as u64) << 56);
    Some((v, p + 8))
}

fn get_bytes(b: &[u8], p: usize) -> (r: Option<(Vec<u8>, usize)>)
    ensures
        match r {
            Some((v, q)) => rd_bytes(b@, p as int) == Some((v@, q as int)),
            None => rd_bytes(b@, p as int) is None,
        },
{
    let (n, q) = match get_u64(b, p) {
        Some(x) => x,
        None => return None,
    };
    if ((b.len() - q) as u64) < n {
        return None;
    }
    let e = q + (n as usize);
    let v = vstd::slice::slice_to_vec(vstd::slice::slice_subrange(b, q, e));
    Some((v, e))
}

fn get_text(b: &[u8], p: usize) -> (r: Option<(String, usize)>)
    ensures
        match r {
            Some((s, q)) => rd_text(b@, p as int) == Some((s@, q as int)),
            None => rd_text(b@, p as int) is None,
        },
{
    let (raw, q) = match get_bytes(b, p) {
        Some(x) => x,
        None => return None,
    };
    match string_from_utf8(raw) {
        Some(s) => Some((s, q)),
        None => None,
    }
}

fn get_body(tag: u32, b: &[u8], p: usize) -> (r: Option<(Message, usize)>)
    ensures
        match r {
            Some((m, q)) => rd_body(tag, b@, p as int) == Some((m@, q as int)),
            None => rd_body(tag, b@, p as int) is None,
        },
{
    if tag == 0 {
        let (id, q) = match get_text(b, p) {
            Some(x) => x,
            None => return None,
        };
        let (password, e) = match get_text(b, q) {
            Some(x) => x,
            None => return None,
        };
        Some((Message::AuthRequest { id, password }, e))
    } else if tag == 1 {
        if p >= b.len() || b[p] > 1 {
            return None;
        }
        let success = b[p] == 1;
        let q = p + 1;
        if q >= b.len() {
            return None;
        }
        if b[q] == 0 {
            Some((Message::AuthResponse { success, session_token: None }, q + 1))
        } else if b[q] == 1 {
            let (t, e) = match get_text(b, q + 1) {
                Some(x) => x,
                None => return None,
            };
            Some((Message::AuthResponse { success, session_token: Some(t) }, e))
        } else {
            None
        }
    } else if tag == 2 {
        let (timestamp, e) = match get_u64(b, p) {
            Some(x) => x,
            None => return None,
        };
        Some((Message::Heartbeat { timestamp }, e))
    } else if tag == 3 {
        let (reason, e) = match get_text(b, p) {
            Some(x) => x,
            None => return None,
        };
        Some((Message::Disconnect { reason }, e))
    } else if tag == 4 {
        let (message, e) = match get_text(b, p) {
            Some(x) => x,
            None => return None,
        };
        Some((Message::Error { message }, e))
    } else if tag == 5 {
        let (data, e) = match get_bytes(b, p) {
            Some(x) => x,
            None => return None,
        };
        Some((Message::ApplicationPayload { data }, e))
    } else {
        None
    }
}

/// The message that `b` holds. It fails exactly when `b` is not the
/// encoding of a message: with `UnsupportedType` on an unknown variant
/// index, with `InvalidFormat` otherwise.
pub fn decode(b: &[u8]) -> (r: Result<Message, MessageError>)
    ensures
        match r {
            Ok(m) => encoding(m@) == b@,
            Err(_) => forall|v: MessageView| fits(v) ==> encoding(v) != b@,
        },
        r is Ok <==> parse(b@) is Some,
        r matches Ok(m) ==> parse(b@) == Some(m@),
        r matches Err(e) ==> (e is UnsupportedType <==> (rd_u32(b@, 0) matches Some((t, _))
            && t > 5)),
        r matches Err(e) ==> e is UnsupportedType || e is InvalidFormat,
{
    let (tag, p) = match get_u32(b, 0) {
        Some(x) => x,
        None => return Err(MessageError::InvalidFormat),
    };
    if tag > 5 {
        proof {
            lemma_parse_rejects(b@);
        }
        return Err(MessageError::UnsupportedType);
    }
    match get_body(tag, b, p) {
        Some((m, e)) => {
            if e == b.len() {
                proof {
                    lemma_parse_sound(b@);
                }
                Ok(m)
            } else {
                proof {
                    lemma_parse_rejects(b@);
                }
                Err(MessageError::InvalidFormat)
            }
        },
        None => {
            proof {
                lemma_parse_rejects(b@);
            }
            Err(MessageError::InvalidFormat)
        },
    }
}

/// Builders and the codec under the names the rest of the system uses.
pub struct MessageHandler;

impl MessageHandler {
    /// The encoding of `message`; it cannot fail.
    pub fn serialize_message(message: &Message) -> (r: Result<Vec<u8>, MessageError>)
        ensures
            r matches Ok(bytes) && bytes@ == encoding(message@),
    {
        Ok(encode(message))
    }

    /// The message that `data` encodes, as `decode` reads it.
    pub fn deserialize_message(data: &[u8]) -> (r: Result<Message, MessageError>)
        ensures
            r is Ok <==> parse(data@) is Some,
            r matches Ok(m) ==> encoding(m@) == data@,
            r is Err ==> forall|v: MessageView| fits(v) ==> encoding(v) != data@,
    {
        decode(data)
    }

    pub fn create_auth_request(id: String, password: String) -> (r: Message)
        ensures
            r@ == MessageView::AuthRequest(id@, password@),
    {
        Message::AuthRequest { id, password }
    }

    pub fn create_auth_response(success: bool, session_token: Option<String>) -> (r: Message)
        ensures
            r matches Message::AuthResponse { success: s, session_token: t } && s == success && t
                == session_token,
    {
        Message::AuthResponse { success, session_token }
    }

    /// A heartbeat stamped `timestamp` (milliseconds since the Unix epoch).
    pub fn create_heartbeat_at(timestamp: u64) -> (r: Message)
        ensures
            r@ == MessageView::Heartbeat(timestamp),
    {
        Message::Heartbeat { timestamp }
    }

    /// A heartbeat stamped with the current time.
    pub fn create_heartbeat() -> (r: Message)
        ensures
            r is Heartbeat,
    {
        Message::Heartbeat { timestamp: unix_time_millis() }
    }

    pub fn create_disconnect(reason: String) -> (r: Message)
        ensures
            r@ == MessageView::Disconnect(reason@),
    {
        Message::Disconnect { reason }
    }

    pub fn create_error(message: String) -> (r: Message)
        ensures
            r@ == MessageView::Error(message@),
    {
        Message::Error { message }
    }

    /// Wraps bytes that an application collaborator already serialised.
    pub fn create_application_payload(data: Vec<u8>) -> (r: Message)
        ensures
            r@ == MessageView::ApplicationPayload(data@),
    {
        Message::ApplicationPayload { data }
    }
}

} // verus!
