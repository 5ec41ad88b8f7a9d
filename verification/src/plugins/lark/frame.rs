//! The binary frames that Lark's long connection carries.
//!
//! A frame is a protocol-buffer message: fields at their default value are not
//! written, unknown fields are skipped, the last of several values of one field
//! holds, and headers add up.
use vstd::prelude::*;
use vstd::string::*;
use vstd::utf8::*;

use super::wire;
use super::wire::FrameError;
use crate::text::{str_eq, string_from_utf8};

verus! {

/// Method of control frames: pings, pongs and their replies.
pub const METHOD_CONTROL: i32 = 0;

/// Method of data frames: events and card actions.
pub const METHOD_DATA: i32 = 1;

/// One name and value of a frame's headers.
#[derive(Debug, PartialEq)]
pub struct PbHeader {
    pub key: String,
    pub value: String,
}

/// One frame of the long connection.
#[derive(Debug, PartialEq)]
pub struct PbFrame {
    pub seq_id: u64,
    pub log_id: u64,
    pub service: i32,
    pub method: i32,
    pub headers: Vec<PbHeader>,
    pub payload_encoding: String,
    pub payload_type: String,
    pub payload: Vec<u8>,
    pub log_id_new: String,
}

/// What a header holds.
pub struct HeaderView {
    pub key: Seq<char>,
    pub value: Seq<char>,
}

/// What a frame holds.
#[verifier::ext_equal]
pub struct FrameView {
    pub seq_id: u64,
    pub log_id: u64,
    pub service: i32,
    pub method: i32,
    pub headers: Seq<HeaderView>,
    pub payload_encoding: Seq<char>,
    pub payload_type: Seq<char>,
    pub payload: Seq<u8>,
    pub log_id_new: Seq<char>,
}

impl View for PbHeader {
    type V = HeaderView;

    open spec fn view(&self) -> HeaderView {
        HeaderView { key: self.key@, value: self.value@ }
    }
}

impl Clone for PbHeader {
    fn clone(&self) -> (r: Self)
        ensures
            r@ == self@,
    {
        PbHeader { key: self.key.clone(), value: self.value.clone() }
    }
}

/// What each header of a list holds.
pub open spec fn header_views(headers: Seq<PbHeader>) -> Seq<HeaderView> {
    headers.map_values(|h: PbHeader| h@)
}

impl View for PbFrame {
    type V = FrameView;

    open spec fn view(&self) -> FrameView {
        FrameView {
            seq_id: self.seq_id,
            log_id: self.log_id,
            service: self.service,
            method: self.method,
            headers: header_views(self.headers@),
            payload_encoding: self.payload_encoding@,
            payload_type: self.payload_type@,
            payload: self.payload@,
            log_id_new: self.log_id_new@,
        }
    }
}

/// The header without any field.
pub open spec fn default_header() -> HeaderView {
    HeaderView { key: Seq::empty(), value: Seq::empty() }
}

/// The frame without any field.
pub open spec fn default_frame() -> FrameView {
    FrameView {
        seq_id: 0,
        log_id: 0,
        service: 0,
        method: 0,
        headers: Seq::empty(),
        payload_encoding: Seq::empty(),
        payload_type: Seq::empty(),
        payload: Seq::empty(),
        log_id_new: Seq::empty(),
    }
}

// ---------------------------------------------------------------------------
// Encoding
// ---------------------------------------------------------------------------

/// A 32-bit integer as it goes on the wire: sign-extended to 64 bits.
pub open spec fn int32_bits(v: i32) -> nat {
    if v < 0 {
        (v + 0x1_0000_0000_0000_0000) as nat
    } else {
        v as nat
    }
}

/// The 32-bit integer that a wire integer stands for: its low 32 bits.
pub open spec fn low_int32(v: nat) -> i32 {
    let low = v % 0x1_0000_0000;
    if low >= 0x8000_0000 {
        (low - 0x1_0000_0000) as i32
    } else {
        low as i32
    }
}

/// An integer field; absent where it is zero.
pub open spec fn varint_field(tag: nat, v: nat) -> Seq<u8> {
    if v == 0 {
        Seq::empty()
    } else {
        wire::key_bytes(tag, wire::WIRE_VARINT as nat) + wire::varint_bytes(v)
    }
}

/// A field of raw bytes; absent where it is empty.
pub open spec fn bytes_field(tag: nat, bytes: Seq<u8>) -> Seq<u8> {
    if bytes.len() == 0 {
        Seq::empty()
    } else {
        wire::key_bytes(tag, wire::WIRE_DELIMITED as nat) + wire::delimited_bytes(bytes)
    }
}

/// A text field, in UTF-8; absent where it is empty.
pub open spec fn text_field(tag: nat, text: Seq<char>) -> Seq<u8> {
    bytes_field(tag, encode_utf8(text))
}

/// The fields of a header.
pub open spec fn header_bytes(h: HeaderView) -> Seq<u8> {
    text_field(1, h.key) + text_field(2, h.value)
}

/// The header fields of a frame, one for each header.
pub open spec fn headers_bytes(headers: Seq<HeaderView>) -> Seq<u8>
    decreases headers.len(),
{
    if headers.len() == 0 {
        Seq::empty()
    } else {
        headers_bytes(headers.drop_last()) + (wire::key_bytes(5, wire::WIRE_DELIMITED as nat) + wire::delimited_bytes(
            header_bytes(headers.last()),
        ))
    }
}

/// The bytes of a frame: its fields in the order of their tags.
pub open spec fn frame_bytes(f: FrameView) -> Seq<u8> {
    varint_field(1, f.seq_id as nat) + varint_field(2, f.log_id as nat) + varint_field(3, int32_bits(f.service))
        + varint_field(4, int32_bits(f.method)) + headers_bytes(f.headers) + text_field(6, f.payload_encoding)
        + text_field(7, f.payload_type) + bytes_field(8, f.payload) + text_field(9, f.log_id_new)
}

fn int32_to_wire(v: i32) -> (r: u64)
    ensures
        r == int32_bits(v),
{
    if v < 0 {
        0xffff_ffff_ffff_ffff - ((-(v as i64)) - 1) as u64
    } else {
        v as u64
    }
}

fn int32_from_wire(v: u64) -> (r: i32)
    ensures
        r == low_int32(v as nat),
{
    let low: u64 = v % 0x1_0000_0000;
    if low >= 0x8000_0000 {
        (low as i64 - 0x1_0000_0000) as i32
    } else {
        low as i32
    }
}

fn put_varint_field(tag: u32, v: u64, out: &mut Vec<u8>)
    requires
        1 <= tag <= 0x1fff_ffff,
    ensures
        final(out)@ == old(out)@ + varint_field(tag as nat, v as nat),
{
    if v != 0 {
        wire::put_key(tag, wire::WIRE_VARINT, out);
        wire::put_varint(v, out);
    }
    assert(out@ =~= old(out)@ + varint_field(tag as nat, v as nat));
}

fn put_bytes_field(tag: u32, bytes: &[u8], out: &mut Vec<u8>)
    requires
        1 <= tag <= 0x1fff_ffff,
    ensures
        final(out)@ == old(out)@ + bytes_field(tag as nat, bytes@),
{
    if bytes.len() != 0 {
        wire::put_key(tag, wire::WIRE_DELIMITED, out);
        wire::put_delimited(bytes, out);
    }
    assert(out@ =~= old(out)@ + bytes_field(tag as nat, bytes@));
}

fn put_text_field(tag: u32, text: &str, out: &mut Vec<u8>)
    requires
        1 <= tag <= 0x1fff_ffff,
    ensures
        final(out)@ == old(out)@ + text_field(tag as nat, text@),
{
    put_bytes_field(tag, text.as_bytes(), out);
}

fn put_headers(headers: &Vec<PbHeader>, out: &mut Vec<u8>)
    ensures
        final(out)@ == old(out)@ + headers_bytes(header_views(headers@)),
{
    let ghost views = header_views(headers@);
    let mut i: usize = 0;
    assert(out@ + headers_bytes(views.take(0)) =~= out@);
    while i < headers.len()
        invariant
            i <= headers.len(),
            views == header_views(headers@),
            out@ == old(out)@ + headers_bytes(views.take(i as int)),
        decreases headers.len() - i,
    {
        let mut body: Vec<u8> = Vec::new();
        put_text_field(1, headers[i].key.as_str(), &mut body);
        put_text_field(2, headers[i].value.as_str(), &mut body);
        assert(body@ =~= header_bytes(views[i as int]));
        wire::put_key(5, wire::WIRE_DELIMITED, out);
        wire::put_delimited(body.as_slice(), out);
        i += 1;
        assert(views.take(i as int).drop_last() =~= views.take(i - 1));
        assert(views.take(i as int).last() == views[i - 1]);
        assert(out@ =~= old(out)@ + headers_bytes(views.take(i as int)));
    }
    assert(views.take(views.len() as int) =~= views);
}

/// The bytes of a frame.
pub fn encode_frame(frame: &PbFrame) -> (r: Vec<u8>)
    ensures
        r@ == frame_bytes(frame@),
{
    let mut out: Vec<u8> = Vec::new();
    put_varint_field(1, frame.seq_id, &mut out);
    put_varint_field(2, frame.log_id, &mut out);
    put_varint_field(3, int32_to_wire(frame.service), &mut out);
    put_varint_field(4, int32_to_wire(frame.method), &mut out);
    put_headers(&frame.headers, &mut out);
    put_text_field(6, frame.payload_encoding.as_str(), &mut out);
    put_text_field(7, frame.payload_type.as_str(), &mut out);
    put_bytes_field(8, frame.payload.as_slice(), &mut out);
    put_text_field(9, frame.log_id_new.as_str(), &mut out);
    assert(out@ =~= frame_bytes(frame@));
    out
}

// ---------------------------------------------------------------------------
// Decoding
// ---------------------------------------------------------------------------

/// The integer of an integer field.
pub open spec fn read_int(wire: nat, s: Seq<u8>) -> Result<(nat, Seq<u8>), FrameError> {
    if wire != wire::WIRE_VARINT {
        Err(FrameError::UnexpectedWireType)
    } else {
        wire::read_varint(s)
    }
}

/// The bytes of a field of raw bytes.
pub open spec fn read_raw(wire: nat, s: Seq<u8>) -> Result<(Seq<u8>, Seq<u8>), FrameError> {
    if wire != wire::WIRE_DELIMITED {
        Err(FrameError::UnexpectedWireType)
    } else {
        wire::read_delimited(s)
    }
}

/// The characters of a text field.
pub open spec fn read_text(wire: nat, s: Seq<u8>) -> Result<(Seq<char>, Seq<u8>), FrameError> {
    match read_raw(wire, s) {
        Err(e) => Err(e),
        Ok((bytes, rest)) => if valid_utf8(bytes) {
            Ok((decode_utf8(bytes), rest))
        } else {
            Err(FrameError::InvalidUtf8)
        },
    }
}

/// The header `h` with one more field read from `s`.
pub open spec fn header_with_field(h: HeaderView, tag: nat, wire: nat, s: Seq<u8>) -> Result<
    (HeaderView, Seq<u8>),
    FrameError,
> {
    if tag == 1 {
        match read_text(wire, s) {
            Err(e) => Err(e),
            Ok((text, rest)) => Ok((HeaderView { key: text, ..h }, rest)),
        }
    } else if tag == 2 {
        match read_text(wire, s) {
            Err(e) => Err(e),
            Ok((text, rest)) => Ok((HeaderView { value: text, ..h }, rest)),
        }
    } else {
        match wire::skip_value(wire, tag, s, (wire::MAX_DEPTH - 1) as nat) {
            Err(e) => Err(e),
            Ok(rest) => Ok((h, rest)),
        }
    }
}

/// The header `h` with the fields of `s` down to the last `limit` bytes.
pub open spec fn read_header(h: HeaderView, s: Seq<u8>, limit: nat) -> Result<(HeaderView, Seq<u8>), FrameError>
    decreases s.len(),
{
    if s.len() == limit {
        Ok((h, s))
    } else if s.len() < limit {
        Err(FrameError::LengthExceeded)
    } else {
        match wire::read_key(s) {
            Err(e) => Err(e),
            Ok((tag, wire, body)) => match header_with_field(h, tag, wire, body) {
                Err(e) => Err(e),
                Ok((h2, rest)) => if rest.len() < s.len() {
                    read_header(h2, rest, limit)
                } else {
                    Err(FrameError::InvalidVarint)
                },
            },
        }
    }
}

/// The header embedded at the front of `s`.
pub open spec fn read_embedded_header(wire: nat, s: Seq<u8>) -> Result<(HeaderView, Seq<u8>), FrameError> {
    if wire != wire::WIRE_DELIMITED {
        Err(FrameError::UnexpectedWireType)
    } else {
        match wire::read_varint(s) {
            Err(e) => Err(e),
            Ok((len, body)) => if len > body.len() {
                Err(FrameError::BufferUnderflow)
            } else {
                read_header(default_header(), body, (body.len() - len) as nat)
            },
        }
    }
}

/// The frame `f` with one more field read from `s`.
pub open spec fn frame_with_field(f: FrameView, tag: nat, wire: nat, s: Seq<u8>) -> Result<
    (FrameView, Seq<u8>),
    FrameError,
> {
    if 1 <= tag <= 4 {
        match read_int(wire, s) {
            Err(e) => Err(e),
            Ok((v, rest)) => Ok(
                (
                    if tag == 1 {
                        FrameView { seq_id: v as u64, ..f }
                    } else if tag == 2 {
                        FrameView { log_id: v as u64, ..f }
                    } else if tag == 3 {
                        FrameView { service: low_int32(v), ..f }
                    } else {
                        FrameView { method: low_int32(v), ..f }
                    },
                    rest,
                ),
            ),
        }
    } else if tag == 5 {
        match read_embedded_header(wire, s) {
            Err(e) => Err(e),
            Ok((h, rest)) => Ok((FrameView { headers: f.headers.push(h), ..f }, rest)),
        }
    } else if tag == 8 {
        match read_raw(wire, s) {
            Err(e) => Err(e),
            Ok((bytes, rest)) => Ok((FrameView { payload: bytes, ..f }, rest)),
        }
    } else if 6 <= tag <= 9 {
        match read_text(wire, s) {
            Err(e) => Err(e),
            Ok((text, rest)) => Ok(
                (
                    if tag == 6 {
                        FrameView { payload_encoding: text, ..f }
                    } else if tag == 7 {
                        FrameView { payload_type: text, ..f }
                    } else {
                        FrameView { log_id_new: text, ..f }
                    },
                    rest,
                ),
            ),
        }
    } else {
        match wire::skip_value(wire, tag, s, wire::MAX_DEPTH as nat) {
            Err(e) => Err(e),
            Ok(rest) => Ok((f, rest)),
        }
    }
}

/// The frame `f` with all fields of `s`.
pub open spec fn read_fields(f: FrameView, s: Seq<u8>) -> Result<FrameView, FrameError>
    decreases s.len(),
{
    if s.len() == 0 {
        Ok(f)
    } else {
        match wire::read_key(s) {
            Err(e) => Err(e),
            Ok((tag, wire, body)) => match frame_with_field(f, tag, wire, body) {
                Err(e) => Err(e),
                Ok((f2, rest)) => if rest.len() < s.len() {
                    read_fields(f2, rest)
                } else {
                    Err(FrameError::InvalidVarint)
                },
            },
        }
    }
}

/// The frame that `s` holds.
pub open spec fn read_frame(s: Seq<u8>) -> Result<FrameView, FrameError> {
    read_fields(default_frame(), s)
}

fn get_text(wire: u32, data: &[u8], pos: usize) -> (r: Result<(String, usize), FrameError>)
    requires
        pos <= data.len(),
    ensures
        match r {
            Ok((text, p)) => {
                &&& pos < p <= data.len()
                &&& read_text(wire as nat, data@.skip(pos as int)) == Ok::<(Seq<char>, Seq<u8>), FrameError>(
                    (text@, data@.skip(p as int)),
                )
            },
            Err(e) => read_text(wire as nat, data@.skip(pos as int)) == Err::<(Seq<char>, Seq<u8>), FrameError>(e),
        },
{
    if wire != wire::WIRE_DELIMITED {
        return Err(FrameError::UnexpectedWireType);
    }
    match wire::get_delimited(data, pos) {
        Err(e) => Err(e),
        Ok((bytes, p)) => match string_from_utf8(bytes) {
            Some(text) => Ok((text, p)),
            None => Err(FrameError::InvalidUtf8),
        },
    }
}

fn get_header_fields(data: &[u8], pos: usize, end: usize) -> (r: Result<(PbHeader, usize), FrameError>)
    requires
        pos <= end <= data.len(),
    ensures
        match r {
            Ok((h, p)) => {
                &&& p == end
                &&& read_header(default_header(), data@.skip(pos as int), (data.len() - end) as nat) == Ok::<
                    (HeaderView, Seq<u8>),
                    FrameError,
                >((h@, data@.skip(p as int)))
            },
            Err(e) => read_header(default_header(), data@.skip(pos as int), (data.len() - end) as nat) == Err::<
                (HeaderView, Seq<u8>),
                FrameError,
            >(e),
        },
{
    let mut h = PbHeader { key: String::new(), value: String::new() };
    let mut at: usize = pos;
    let ghost limit: nat = (data.len() - end) as nat;
    let ghost goal = read_header(default_header(), data@.skip(pos as int), limit);
    while at < end
        invariant
            pos <= at <= data.len(),
            end <= data.len(),
            limit == data.len() - end,
            goal == read_header(default_header(), data@.skip(pos as int), limit),
            goal == read_header(h@, data@.skip(at as int), limit),
        decreases data.len() - at,
    {
        let (tag, wire, body): (u32, u32, usize) = match wire::get_key(data, at) {
            Err(e) => {
                return Err(e);
            },
            Ok(k) => k,
        };
        if tag == 1 {
            match get_text(wire, data, body) {
                Err(e) => {
                    return Err(e);
                },
                Ok((text, p)) => {
                    h.key = text;
                    at = p;
                },
            }
        } else if tag == 2 {
            match get_text(wire, data, body) {
                Err(e) => {
                    return Err(e);
                },
                Ok((text, p)) => {
                    h.value = text;
                    at = p;
                },
            }
        } else {
            match wire::skip_field(wire, tag, data, body, wire::MAX_DEPTH - 1) {
                Err(e) => {
                    return Err(e);
                },
                Ok(p) => {
                    at = p;
                },
            }
        }
    }
    if at == end {
        Ok((h, at))
    } else {
        Err(FrameError::LengthExceeded)
    }
}

fn get_embedded_header(wire: u32, data: &[u8], pos: usize) -> (r: Result<(PbHeader, usize), FrameError>)
    requires
        pos <= data.len(),
    ensures
        match r {
            Ok((h, p)) => {
                &&& pos < p <= data.len()
                &&& read_embedded_header(wire as nat, data@.skip(pos as int)) == Ok::<(HeaderView, Seq<u8>), FrameError>(
                    (h@, data@.skip(p as int)),
                )
            },
            Err(e) => read_embedded_header(wire as nat, data@.skip(pos as int)) == Err::<
                (HeaderView, Seq<u8>),
                FrameError,
            >(e),
        },
{
    if wire != wire::WIRE_DELIMITED {
        return Err(FrameError::UnexpectedWireType);
    }
    match wire::get_varint(data, pos) {
        Err(e) => Err(e),
        Ok((len, p)) => if len > (data.len() - p) as u64 {
            Err(FrameError::BufferUnderflow)
        } else {
            get_header_fields(data, p, p + len as usize)
        },
    }
}

fn get_int(wire: u32, data: &[u8], pos: usize) -> (r: Result<(u64, usize), FrameError>)
    requires
        pos <= data.len(),
    ensures
        match r {
            Ok((v, p)) => {
                &&& pos < p <= data.len()
                &&& read_int(wire as nat, data@.skip(pos as int)) == Ok::<(nat, Seq<u8>), FrameError>(
                    (v as nat, data@.skip(p as int)),
                )
            },
            Err(e) => read_int(wire as nat, data@.skip(pos as int)) == Err::<(nat, Seq<u8>), FrameError>(e),
        },
{
    if wire != wire::WIRE_VARINT {
        return Err(FrameError::UnexpectedWireType);
    }
    wire::get_varint(data, pos)
}

/// Reads the value of one field at `pos` into `frame`.
fn get_frame_field(frame: &mut PbFrame, tag: u32, wire: u32, data: &[u8], pos: usize) -> (r: Result<usize, FrameError>)
    requires
        pos <= data.len(),
    ensures
        match r {
            Ok(p) => {
                &&& pos <= p <= data.len()
                &&& frame_with_field(old(frame)@, tag as nat, wire as nat, data@.skip(pos as int)) == Ok::<
                    (FrameView, Seq<u8>),
                    FrameError,
                >((final(frame)@, data@.skip(p as int)))
            },
            Err(e) => frame_with_field(old(frame)@, tag as nat, wire as nat, data@.skip(pos as int)) == Err::<
                (FrameView, Seq<u8>),
                FrameError,
            >(e),
        },
{
    if 1 <= tag && tag <= 4 {
        let (v, p): (u64, usize) = get_int(wire, data, pos)?;
        if tag == 1 {
            frame.seq_id = v;
        } else if tag == 2 {
            frame.log_id = v;
        } else if tag == 3 {
            frame.service = int32_from_wire(v);
        } else {
            frame.method = int32_from_wire(v);
        }
        Ok(p)
    } else if tag == 5 {
        let (h, p): (PbHeader, usize) = get_embedded_header(wire, data, pos)?;
        frame.headers.push(h);
        assert(header_views(frame.headers@) =~= header_views(old(frame).headers@).push(h@));
        Ok(p)
    } else if tag == 8 {
        if wire != wire::WIRE_DELIMITED {
            return Err(FrameError::UnexpectedWireType);
        }
        let (bytes, p): (Vec<u8>, usize) = wire::get_delimited(data, pos)?;
        frame.payload = bytes;
        Ok(p)
    } else if 6 <= tag && tag <= 9 {
        let (text, p): (String, usize) = get_text(wire, data, pos)?;
        if tag == 6 {
            frame.payload_encoding = text;
        } else if tag == 7 {
            frame.payload_type = text;
        } else {
            frame.log_id_new = text;
        }
        Ok(p)
    } else {
        wire::skip_field(wire, tag, data, pos, wire::MAX_DEPTH)
    }
}

/// The frame that `data` holds, or why it holds none.
pub fn decode_frame(data: &[u8]) -> (r: Result<PbFrame, FrameError>)
    ensures
        match r {
            Ok(f) => read_frame(data@) == Ok::<FrameView, FrameError>(f@),
            Err(e) => read_frame(data@) == Err::<FrameView, FrameError>(e),
        },
{
    let mut frame = PbFrame {
        seq_id: 0,
        log_id: 0,
        service: 0,
        method: 0,
        headers: Vec::new(),
        payload_encoding: String::new(),
        payload_type: String::new(),
        payload: Vec::new(),
        log_id_new: String::new(),
    };
    assert(frame@ =~= default_frame());
    assert(data@.skip(0) =~= data@);
    let mut at: usize = 0;
    while at < data.len()
        invariant
            at <= data.len(),
            read_frame(data@) == read_fields(frame@, data@.skip(at as int)),
        decreases data.len() - at,
    {
        let (tag, wire, body): (u32, u32, usize) = match wire::get_key(data, at) {
            Err(e) => {
                return Err(e);
            },
            Ok(k) => k,
        };
        match get_frame_field(&mut frame, tag, wire, data, body) {
            Err(e) => {
                return Err(e);
            },
            Ok(p) => {
                at = p;
            },
        }
    }
    Ok(frame)
}

// ---------------------------------------------------------------------------
// Round trip
// ---------------------------------------------------------------------------

/// Whether every length in the frame fits in a wire integer.
pub open spec fn frame_fits(f: FrameView) -> bool {
    &&& forall|i: int| 0 <= i < f.headers.len() ==> header_fits(#[trigger] f.headers[i])
    &&& encode_utf8(f.payload_encoding).len() <= u64::MAX
    &&& encode_utf8(f.payload_type).len() <= u64::MAX
    &&& f.payload.len() <= u64::MAX
    &&& encode_utf8(f.log_id_new).len() <= u64::MAX
}

/// Whether every length in the header fits in a wire integer.
pub open spec fn header_fits(h: HeaderView) -> bool {
    header_bytes(h).len() <= u64::MAX
}

proof fn lemma_bytes_field_len(tag: nat, bytes: Seq<u8>)
    ensures
        bytes_field(tag, bytes).len() >= bytes.len(),
{
}

proof fn lemma_text_read(text: Seq<char>, post: Seq<u8>)
    requires
        encode_utf8(text).len() <= u64::MAX,
    ensures
        read_text(wire::WIRE_DELIMITED as nat, wire::delimited_bytes(encode_utf8(text)) + post) == Ok::<
            (Seq<char>, Seq<u8>),
            FrameError,
        >((text, post)),
{
    wire::lemma_delimited_roundtrip(encode_utf8(text), post);
    encode_utf8_valid_utf8(text);
    encode_utf8_decode_utf8(text);
}

/// One text field at the front of what is left of a header is read as that
/// field.
proof fn lemma_header_text_step(h: HeaderView, tag: nat, text: Seq<char>, post: Seq<u8>, limit: nat)
    requires
        tag == 1 || tag == 2,
        encode_utf8(text).len() <= u64::MAX,
        limit <= post.len(),
        tag == 1 ==> h.key == Seq::<char>::empty(),
        tag == 2 ==> h.value == Seq::<char>::empty(),
    ensures
        read_header(h, text_field(tag, text) + post, limit) == read_header(
            if tag == 1 {
                HeaderView { key: text, ..h }
            } else {
                HeaderView { value: text, ..h }
            },
            post,
            limit,
        ),
{
    if encode_utf8(text).len() == 0 {
        encode_utf8_decode_utf8(text);
        assert(text =~= Seq::<char>::empty()) by {
            assert(decode_utf8(encode_utf8(text)) == text);
            assert(encode_utf8(text) =~= Seq::<u8>::empty());
        }
        assert(text_field(tag, text) + post =~= post);
    } else {
        let body = wire::delimited_bytes(encode_utf8(text)) + post;
        assert(text_field(tag, text) + post =~= wire::key_bytes(tag, wire::WIRE_DELIMITED as nat) + body);
        wire::lemma_key_roundtrip(tag, wire::WIRE_DELIMITED as nat, body);
        lemma_text_read(text, post);
    }
}

/// A written header reads back as itself.
proof fn lemma_header_roundtrip(h: HeaderView, post: Seq<u8>)
    requires
        header_fits(h),
    ensures
        read_embedded_header(
            wire::WIRE_DELIMITED as nat,
            wire::delimited_bytes(header_bytes(h)) + post,
        ) == Ok::<(HeaderView, Seq<u8>), FrameError>((h, post)),
{
    let inner = header_bytes(h);
    let body = inner + post;
    wire::lemma_varint_bound();
    wire::lemma_varint_roundtrip(inner.len(), 0, body);
    assert(wire::delimited_bytes(inner) + post =~= wire::varint_bytes(inner.len()) + body);
    lemma_bytes_field_len(1, encode_utf8(h.key));
    lemma_bytes_field_len(2, encode_utf8(h.value));
    assert(body =~= text_field(1, h.key) + (text_field(2, h.value) + post));
    lemma_header_text_step(default_header(), 1, h.key, text_field(2, h.value) + post, post.len());
    let h1 = HeaderView { key: h.key, ..default_header() };
    lemma_header_text_step(h1, 2, h.value, post, post.len());
    assert(HeaderView { value: h.value, ..h1 } == h);
}

proof fn lemma_int32_bits(v: i32)
    ensures
        low_int32(int32_bits(v)) == v,
        int32_bits(v) <= u64::MAX,
        int32_bits(v) == 0 <==> v == 0,
{
}

/// The frame `f` with the integer field `tag` set from the wire.
spec fn with_int(f: FrameView, tag: nat, v: nat) -> FrameView {
    if tag == 1 {
        FrameView { seq_id: v as u64, ..f }
    } else if tag == 2 {
        FrameView { log_id: v as u64, ..f }
    } else if tag == 3 {
        FrameView { service: low_int32(v), ..f }
    } else {
        FrameView { method: low_int32(v), ..f }
    }
}

proof fn lemma_int_step(f: FrameView, tag: nat, v: nat, post: Seq<u8>)
    requires
        1 <= tag <= 4,
        v <= u64::MAX,
        with_int(f, tag, 0) == f,
    ensures
        read_fields(f, varint_field(tag, v) + post) == read_fields(with_int(f, tag, v), post),
{
    if v == 0 {
        assert(varint_field(tag, v) + post =~= post);
    } else {
        let body = wire::varint_bytes(v) + post;
        assert(varint_field(tag, v) + post =~= wire::key_bytes(tag, wire::WIRE_VARINT as nat) + body);
        wire::lemma_key_roundtrip(tag, wire::WIRE_VARINT as nat, body);
        wire::lemma_varint_bound();
        wire::lemma_varint_roundtrip(v, 0, post);
    }
}

/// The frame `f` with the text field `tag` set.
spec fn with_text(f: FrameView, tag: nat, text: Seq<char>) -> FrameView {
    if tag == 6 {
        FrameView { payload_encoding: text, ..f }
    } else if tag == 7 {
        FrameView { payload_type: text, ..f }
    } else {
        FrameView { log_id_new: text, ..f }
    }
}

proof fn lemma_text_step(f: FrameView, tag: nat, text: Seq<char>, post: Seq<u8>)
    requires
        tag == 6 || tag == 7 || tag == 9,
        encode_utf8(text).len() <= u64::MAX,
        with_text(f, tag, Seq::empty()) == f,
    ensures
        read_fields(f, text_field(tag, text) + post) == read_fields(with_text(f, tag, text), post),
{
    if encode_utf8(text).len() == 0 {
        encode_utf8_decode_utf8(text);
        assert(text =~= Seq::<char>::empty()) by {
            assert(encode_utf8(text) =~= Seq::<u8>::empty());
        }
        assert(text_field(tag, text) + post =~= post);
    } else {
        let body = wire::delimited_bytes(encode_utf8(text)) + post;
        assert(text_field(tag, text) + post =~= wire::key_bytes(tag, wire::WIRE_DELIMITED as nat) + body);
        wire::lemma_key_roundtrip(tag, wire::WIRE_DELIMITED as nat, body);
        lemma_text_read(text, post);
    }
}

proof fn lemma_payload_step(f: FrameView, bytes: Seq<u8>, post: Seq<u8>)
    requires
        bytes.len() <= u64::MAX,
        f.payload == Seq::<u8>::empty(),
    ensures
        read_fields(f, bytes_field(8, bytes) + post) == read_fields(FrameView { payload: bytes, ..f }, post),
{
    if bytes.len() == 0 {
        assert(bytes =~= Seq::<u8>::empty());
        assert(bytes_field(8, bytes) + post =~= post);
    } else {
        let body = wire::delimited_bytes(bytes) + post;
        assert(bytes_field(8, bytes) + post =~= wire::key_bytes(8, wire::WIRE_DELIMITED as nat) + body);
        wire::lemma_key_roundtrip(8, wire::WIRE_DELIMITED as nat, body);
        wire::lemma_delimited_roundtrip(bytes, post);
    }
}

proof fn lemma_headers_step(f: FrameView, headers: Seq<HeaderView>, post: Seq<u8>)
    requires
        forall|i: int| 0 <= i < headers.len() ==> header_fits(#[trigger] headers[i]),
    ensures
        read_fields(f, headers_bytes(headers) + post) == read_fields(
            FrameView { headers: f.headers + headers, ..f },
            post,
        ),
    decreases headers.len(),
{
    if headers.len() == 0 {
        assert(headers_bytes(headers) + post =~= post);
        assert(f.headers + headers =~= f.headers);
    } else {
        let h = headers.last();
        let body = wire::delimited_bytes(header_bytes(h)) + post;
        let one = wire::key_bytes(5, wire::WIRE_DELIMITED as nat) + body;
        assert(headers_bytes(headers) + post =~= headers_bytes(headers.drop_last()) + one);
        assert forall|i: int| 0 <= i < headers.drop_last().len() implies header_fits(
            #[trigger] headers.drop_last()[i],
        ) by {
            assert(headers.drop_last()[i] == headers[i]);
        }
        lemma_headers_step(f, headers.drop_last(), one);
        let g = FrameView { headers: f.headers + headers.drop_last(), ..f };
        wire::lemma_key_roundtrip(5, wire::WIRE_DELIMITED as nat, body);
        assert(header_fits(headers[headers.len() - 1]));
        lemma_header_roundtrip(h, post);
        assert(g.headers.push(h) =~= f.headers + headers);
    }
}

/// Nine concatenations from the left are the same from the right.
proof fn lemma_regroup(
    a: Seq<u8>,
    b: Seq<u8>,
    c: Seq<u8>,
    d: Seq<u8>,
    e: Seq<u8>,
    f: Seq<u8>,
    g: Seq<u8>,
    h: Seq<u8>,
    i: Seq<u8>,
)
    ensures
        a + b + c + d + e + f + g + h + i == a + (b + (c + (d + (e + (f + (g + (h + (i + Seq::empty())))))))),
{
    assert(i + Seq::empty() =~= i);
    let hi = h + i;
    let ghi = g + hi;
    let fghi = f + ghi;
    assert(a + b + c + d + e + f + g + h + i =~= a + b + c + d + e + f + g + hi);
    assert(a + b + c + d + e + f + g + hi =~= a + b + c + d + e + f + ghi);
    assert(a + b + c + d + e + f + ghi =~= a + b + c + d + e + fghi);
    assert(a + b + c + d + e + fghi =~= a + b + c + d + (e + fghi));
    assert(a + b + c + d + (e + fghi) =~= a + b + c + (d + (e + fghi)));
    assert(a + b + c + (d + (e + fghi)) =~= a + b + (c + (d + (e + fghi))));
    assert(a + b + (c + (d + (e + fghi))) =~= a + (b + (c + (d + (e + fghi)))));
}

/// Decoding an encoded frame gives the frame back.
pub proof fn law_frame_roundtrip(f: FrameView)
    requires
        frame_fits(f),
    ensures
        read_frame(frame_bytes(f)) == Ok::<FrameView, FrameError>(f),
{
    let e = Seq::<u8>::empty();
    let p9 = text_field(9, f.log_id_new) + e;
    let p8 = bytes_field(8, f.payload) + p9;
    let p7 = text_field(7, f.payload_type) + p8;
    let p6 = text_field(6, f.payload_encoding) + p7;
    let p5 = headers_bytes(f.headers) + p6;
    let p4 = varint_field(4, int32_bits(f.method)) + p5;
    let p3 = varint_field(3, int32_bits(f.service)) + p4;
    let p2 = varint_field(2, f.log_id as nat) + p3;
    let p1 = varint_field(1, f.seq_id as nat) + p2;
    assert(frame_bytes(f) == p1) by {
        lemma_regroup(
            varint_field(1, f.seq_id as nat),
            varint_field(2, f.log_id as nat),
            varint_field(3, int32_bits(f.service)),
            varint_field(4, int32_bits(f.method)),
            headers_bytes(f.headers),
            text_field(6, f.payload_encoding),
            text_field(7, f.payload_type),
            bytes_field(8, f.payload),
            text_field(9, f.log_id_new),
        );
    }
    lemma_int32_bits(f.service);
    lemma_int32_bits(f.method);
    let f0 = default_frame();
    lemma_int_step(f0, 1, f.seq_id as nat, p2);
    let f1 = with_int(f0, 1, f.seq_id as nat);
    lemma_int_step(f1, 2, f.log_id as nat, p3);
    let f2 = with_int(f1, 2, f.log_id as nat);
    lemma_int_step(f2, 3, int32_bits(f.service), p4);
    let f3 = with_int(f2, 3, int32_bits(f.service));
    lemma_int_step(f3, 4, int32_bits(f.method), p5);
    let f4 = with_int(f3, 4, int32_bits(f.method));
    lemma_headers_step(f4, f.headers, p6);
    let f5 = FrameView { headers: f4.headers + f.headers, ..f4 };
    lemma_text_step(f5, 6, f.payload_encoding, p7);
    let f6 = with_text(f5, 6, f.payload_encoding);
    lemma_text_step(f6, 7, f.payload_type, p8);
    let f7 = with_text(f6, 7, f.payload_type);
    lemma_payload_step(f7, f.payload, p9);
    let f8 = FrameView { payload: f.payload, ..f7 };
    lemma_text_step(f8, 9, f.log_id_new, e);
    let f9 = with_text(f8, 9, f.log_id_new);
    assert(f9.headers =~= f.headers);
    assert(f9 == f);
}

// ---------------------------------------------------------------------------
// Headers, pings and acknowledgements
// ---------------------------------------------------------------------------

/// The place of the first header named `key`, or the number of headers.
pub open spec fn header_index(headers: Seq<HeaderView>, key: Seq<char>) -> nat
    decreases headers.len(),
{
    if headers.len() == 0 || headers[0].key == key {
        0
    } else {
        1 + header_index(headers.skip(1), key)
    }
}

/// The value of the first header named `key`.
pub open spec fn header_value(headers: Seq<HeaderView>, key: Seq<char>) -> Option<Seq<char>> {
    let i = header_index(headers, key) as int;
    if i < headers.len() {
        Some(headers[i].value)
    } else {
        None
    }
}

/// The value of the first header named `key`.
pub fn get_header<'a>(headers: &'a [PbHeader], key: &str) -> (r: Option<&'a str>)
    ensures
        match r {
            Some(v) => header_value(header_views(headers@), key@) == Some(v@),
            None => header_value(header_views(headers@), key@) is None,
        },
{
    let ghost views = header_views(headers@);
    let mut i: usize = 0;
    assert(views.skip(0) =~= views);
    while i < headers.len()
        invariant
            i <= headers.len(),
            views == header_views(headers@),
            header_index(views, key@) == i + header_index(views.skip(i as int), key@),
        decreases headers.len() - i,
    {
        assert(views.skip(i as int)[0] == views[i as int]);
        if str_eq(headers[i].key.as_str(), key) {
            return Some(headers[i].value.as_str());
        }
        assert(views.skip(i as int).skip(1) =~= views.skip(i + 1));
        i += 1;
    }
    None
}

/// The ping of the service `service_id`.
pub open spec fn ping_frame(service_id: i32) -> FrameView {
    FrameView {
        service: service_id,
        method: METHOD_CONTROL,
        headers: seq![HeaderView { key: "type"@, value: "ping"@ }],
        ..default_frame()
    }
}

/// The ping of the service `service_id`.
pub fn build_ping_frame(service_id: i32) -> (r: PbFrame)
    ensures
        r@ == ping_frame(service_id),
{
    let mut headers: Vec<PbHeader> = Vec::new();
    headers.push(PbHeader { key: "type".to_owned(), value: "ping".to_owned() });
    assert(header_views(headers@) =~= ping_frame(service_id).headers);
    PbFrame {
        seq_id: 0,
        log_id: 0,
        service: service_id,
        method: METHOD_CONTROL,
        headers,
        payload_encoding: String::new(),
        payload_type: String::new(),
        payload: Vec::new(),
        log_id_new: String::new(),
    }
}

/// Whether an acknowledgement repeats a header of this name.
pub open spec fn ack_keeps(key: Seq<char>) -> bool {
    key == "type"@ || key == "message_id"@ || key == "trace_id"@
}

/// The headers of the acknowledgement of a frame with these headers.
pub open spec fn ack_headers(headers: Seq<HeaderView>) -> Seq<HeaderView> {
    headers.filter(|h: HeaderView| ack_keeps(h.key)).push(HeaderView { key: "biz_rt"@, value: "0"@ })
}

/// The text of an acknowledgement's payload.
pub open spec fn ack_payload() -> Seq<u8> {
    "{\"code\":200}".spec_bytes()
}

/// The acknowledgement of a data frame: it repeats the ids and some headers of
/// the frame and reports success.
pub open spec fn ack_frame(f: FrameView) -> FrameView {
    FrameView {
        seq_id: f.seq_id,
        log_id: f.log_id,
        service: f.service,
        method: METHOD_DATA,
        headers: ack_headers(f.headers),
        payload: ack_payload(),
        log_id_new: f.log_id_new,
        ..default_frame()
    }
}

/// The acknowledgement of a data frame.
pub fn build_ack_frame(original: &PbFrame) -> (r: PbFrame)
    ensures
        r@ == ack_frame(original@),
{
    let ghost views = header_views(original.headers@);
    let ghost keeps = |h: HeaderView| ack_keeps(h.key);
    let mut headers: Vec<PbHeader> = Vec::new();
    let mut i: usize = 0;
    proof {
        reveal(Seq::filter);
    }
    assert(header_views(headers@) =~= views.take(0).filter(keeps));
    while i < original.headers.len()
        invariant
            i <= original.headers.len(),
            views == header_views(original.headers@),
            keeps == (|h: HeaderView| ack_keeps(h.key)),
            header_views(headers@) == views.take(i as int).filter(keeps),
        decreases original.headers.len() - i,
    {
        let h: &PbHeader = &original.headers[i];
        let ghost before = headers@;
        if str_eq(h.key.as_str(), "type") || str_eq(h.key.as_str(), "message_id") || str_eq(h.key.as_str(), "trace_id") {
            headers.push(h.clone());
            assert(header_views(headers@) =~= header_views(before).push(h@));
        }
        i += 1;
        proof {
            reveal(Seq::filter);
            assert(views.take(i as int).drop_last() =~= views.take(i - 1));
            assert(views.take(i as int).last() == h@);
        }
    }
    assert(views.take(views.len() as int) =~= views);
    let ghost kept = headers@;
    headers.push(PbHeader { key: "biz_rt".to_owned(), value: "0".to_owned() });
    assert(header_views(headers@) =~= header_views(kept).push(headers@.last()@));
    let mut payload: Vec<u8> = Vec::new();
    wire::put_bytes("{\"code\":200}".as_bytes(), &mut payload);
    assert(payload@ =~= ack_payload());
    PbFrame {
        seq_id: original.seq_id,
        log_id: original.log_id,
        service: original.service,
        method: METHOD_DATA,
        headers,
        payload_encoding: String::new(),
        payload_type: String::new(),
        payload,
        log_id_new: original.log_id_new.clone(),
    }
}

/// Each field of a frame stands on the wire under its own number, in the order of the
/// numbers: `[8 * n]` leads an integer and `[8 * n + 2]` text or bytes.
pub proof fn law_fields_have_their_numbers(f: FrameView)
    ensures
        ({
            let e = Seq::<u8>::empty();
            let number = |n: u8, v: nat|
                if v == 0 {
                    e
                } else {
                    seq![n] + wire::varint_bytes(v)
                };
            let raw = |n: u8, b: Seq<u8>|
                if b.len() == 0 {
                    e
                } else {
                    seq![n] + wire::varint_bytes(b.len()) + b
                };
            frame_bytes(f) == number(0x08, f.seq_id as nat) + number(0x10, f.log_id as nat) + number(
                0x18,
                int32_bits(f.service),
            ) + number(0x20, int32_bits(f.method)) + headers_bytes(f.headers) + raw(
                0x32,
                encode_utf8(f.payload_encoding),
            ) + raw(0x3a, encode_utf8(f.payload_type)) + raw(0x42, f.payload) + raw(0x4a, encode_utf8(f.log_id_new))
        }),
{
    law_integer_field(1, f.seq_id as nat);
    law_integer_field(2, f.log_id as nat);
    law_integer_field(3, int32_bits(f.service));
    law_integer_field(4, int32_bits(f.method));
    law_bytes_field(6, encode_utf8(f.payload_encoding));
    law_bytes_field(7, encode_utf8(f.payload_type));
    law_bytes_field(8, f.payload);
    law_bytes_field(9, encode_utf8(f.log_id_new));
}

/// An integer field is left out where it is zero, and led by its number otherwise.
pub proof fn law_integer_field(tag: nat, v: nat)
    requires
        tag < 16,
    ensures
        varint_field(tag, v) == (if v == 0 {
            Seq::empty()
        } else {
            seq![(8 * tag) as u8] + wire::varint_bytes(v)
        }),
{
    wire::law_keys_and_lengths_lead(tag, 0, Seq::empty());
}

/// A field of bytes is left out where it is empty; otherwise it is led by its number and by
/// its length.
pub proof fn law_bytes_field(tag: nat, bytes: Seq<u8>)
    requires
        tag < 16,
    ensures
        bytes_field(tag, bytes) == (if bytes.len() == 0 {
            Seq::empty()
        } else {
            seq![(8 * tag + 2) as u8] + wire::varint_bytes(bytes.len()) + bytes
        }),
{
    wire::law_keys_and_lengths_lead(tag, 2, bytes);
    if bytes.len() > 0 {
        assert(bytes_field(tag, bytes) =~= seq![(8 * tag + 2) as u8] + wire::varint_bytes(bytes.len()) + bytes);
    }
}

/// A further header stands behind the others, as its name and its value.
pub proof fn law_header_is_name_and_value(headers: Seq<HeaderView>, h: HeaderView)
    ensures
        ({
            let inside = text_field(1, h.key) + text_field(2, h.value);
            headers_bytes(headers.push(h)) == headers_bytes(headers) + (seq![0x2au8] + wire::varint_bytes(inside.len())
                + inside)
        }),
{
    let inside = text_field(1, h.key) + text_field(2, h.value);
    wire::law_keys_and_lengths_lead(5, 2, inside);
    assert(headers.push(h).drop_last() =~= headers);
    assert(headers_bytes(headers.push(h)) =~= headers_bytes(headers) + (seq![0x2au8] + wire::varint_bytes(inside.len())
        + inside));
}

/// A number below zero goes out as its two's complement of 64 bits.
pub proof fn law_numbers_keep_their_sign(v: i32)
    ensures
        v >= 0 ==> int32_bits(v) == v,
        v < 0 ==> int32_bits(v) == 0x1_0000_0000_0000_0000 + v,
        low_int32(int32_bits(v)) == v,
{
    lemma_int32_bits(v);
}

/// A ping is a control frame of its service that says that it is one.
pub proof fn law_ping_is_a_ping(service_id: i32)
    ensures
        ping_frame(service_id).service == service_id,
        ping_frame(service_id).method == 0,
        ping_frame(service_id).headers == seq![HeaderView { key: "type"@, value: "ping"@ }],
        ping_frame(service_id).payload.len() == 0,
{
}

/// An acknowledgement has the ids of its frame, repeats what names it, and says that all
/// went well.
pub proof fn law_acknowledgement_names_its_frame(f: FrameView, i: int)
    requires
        0 <= i < f.headers.len(),
    ensures
        ({
            let a = ack_frame(f);
            let key = f.headers[i].key;
            let kept = key == "type"@ || key == "message_id"@ || key == "trace_id"@;
            &&& a.seq_id == f.seq_id
            &&& a.log_id == f.log_id
            &&& a.service == f.service
            &&& a.method == 1
            &&& a.payload == "{\"code\":200}".spec_bytes()
            &&& a.log_id_new == f.log_id_new
            &&& kept ==> a.headers.contains(f.headers[i])
            &&& a.headers.contains(f.headers[i]) ==> kept || f.headers[i] == (HeaderView {
                key: "biz_rt"@,
                value: "0"@,
            })
            &&& a.headers.last() == (HeaderView { key: "biz_rt"@, value: "0"@ })
        }),
{
    let keeps = |h: HeaderView| ack_keeps(h.key);
    let some = f.headers.filter(keeps);
    let told = HeaderView { key: "biz_rt"@, value: "0"@ };
    let a = ack_headers(f.headers);
    assert(a == some.push(told));
    if ack_keeps(f.headers[i].key) {
        f.headers.lemma_filter_contains(keeps, i);
        let k = choose|k: int| 0 <= k < some.len() && some[k] == f.headers[i];
        assert(a[k] == f.headers[i]);
    }
    if a.contains(f.headers[i]) {
        let k = choose|k: int| 0 <= k < a.len() && a[k] == f.headers[i];
        if k < some.len() {
            assert(some[k] == f.headers[i]);
            lemma_kept(f.headers, k);
        }
    }
    assert(a.last() == told);
}

proof fn lemma_kept(headers: Seq<HeaderView>, k: int)
    requires
        0 <= k < headers.filter(|h: HeaderView| ack_keeps(h.key)).len(),
    ensures
        ack_keeps(headers.filter(|h: HeaderView| ack_keeps(h.key))[k].key),
{
    let keeps = |h: HeaderView| ack_keeps(h.key);
    headers.lemma_filter_pred(keeps, k);
}

/// A header is found by its name; the first of that name counts.
pub proof fn law_first_header_is_found(before: Seq<HeaderView>, h: HeaderView, after: Seq<HeaderView>)
    requires
        forall|i: int| 0 <= i < before.len() ==> (#[trigger] before[i]).key != h.key,
    ensures
        header_value(before + seq![h] + after, h.key) == Some(h.value),
        header_value(before, h.key) is None,
    decreases before.len(),
{
    let all = before + seq![h] + after;
    if before.len() > 0 {
        let rest = before.skip(1);
        assert forall|i: int| 0 <= i < rest.len() implies (#[trigger] rest[i]).key != h.key by {
            assert(rest[i] == before[i + 1]);
        }
        law_first_header_is_found(rest, h, after);
        assert(all.skip(1) =~= rest + seq![h] + after);
        assert(all[0] == before[0]);
        assert(before[0].key != h.key);
        let j = header_index(rest + seq![h] + after, h.key) as int;
        assert(all[1 + j] == all.skip(1)[j]);
    } else {
        assert(all[0] == h);
    }
}

} // verus!
