//! The wire layout of one frame and the functions that write and read it.

use vstd::arithmetic::div_mod::lemma_fundamental_div_mod_converse;
use vstd::prelude::*;
use vstd::slice::{slice_subrange, slice_to_vec};
use vstd::string::StringSliceAdditionalSpecFns;

use crate::error::{ProtocolError, ProtocolErrorView};
use crate::wire::{buf_into_vec, buf_put_slice, buf_put_u32_le, buf_with_capacity};

verus! {

/// The tag as it is written in text.
pub const MAGIC: &'static str = "i3-ipc";

/// Number of bytes of the magic tag that opens every frame.
pub const MAGIC_LEN: usize = 6;

/// Number of bytes before the payload: magic tag, payload length, type code.
pub const HEADER_LEN: usize = 14;

/// The magic tag, the ASCII bytes of `i3-ipc`.
pub open spec fn magic() -> Seq<u8> {
    seq![0x69u8, 0x33u8, 0x2du8, 0x69u8, 0x70u8, 0x63u8]
}

/// The four bytes of `x`, least significant first.
pub open spec fn le_bytes(x: u32) -> Seq<u8> {
    seq![
        (x % 256) as u8,
        (x / 256 % 256) as u8,
        (x / 65536 % 256) as u8,
        (x / 16777216) as u8,
    ]
}

/// The number whose least significant byte is `s[0]`, read from the first
/// four bytes of `s`.
pub open spec fn le_value(s: Seq<u8>) -> u32
    recommends
        s.len() >= 4,
{
    (s[0] as int + 256 * (s[1] as int) + 65536 * (s[2] as int) + 16777216 * (s[3] as int)) as u32
}

/// Reading back the bytes of a number gives the number.
pub proof fn lemma_le_value_of_bytes(x: u32)
    ensures
        le_bytes(x).len() == 4,
        le_value(le_bytes(x)) == x,
{
}

/// Writing the number read from four bytes gives those bytes.
pub proof fn lemma_le_bytes_of_value(s: Seq<u8>)
    requires
        s.len() == 4,
    ensures
        le_bytes(le_value(s)) == s,
{
    let b0 = s[0] as int;
    let b1 = s[1] as int;
    let b2 = s[2] as int;
    let b3 = s[3] as int;
    let x = b0 + 256 * b1 + 65536 * b2 + 16777216 * b3;
    lemma_fundamental_div_mod_converse(x, 256, b1 + 256 * b2 + 65536 * b3, b0);
    lemma_fundamental_div_mod_converse(x / 256, 256, b2 + 256 * b3, b1);
    lemma_fundamental_div_mod_converse(x, 65536, b2 + 256 * b3, b0 + 256 * b1);
    lemma_fundamental_div_mod_converse(x / 65536, 256, b3, b2);
    lemma_fundamental_div_mod_converse(x, 16777216, b3, b0 + 256 * b1 + 65536 * b2);
    assert(le_bytes(le_value(s)) =~= s);
}

/// Whether a payload of `n` bytes can be framed: its length has to fit the
/// header's 32-bit field, and the frame has to fit in memory.
pub open spec fn payload_fits(n: nat) -> bool {
    n <= u32::MAX && HEADER_LEN + n <= isize::MAX
}

/// The bytes of the frame that carries `payload` under `type_code`.
pub open spec fn frame_bytes(type_code: u32, payload: Seq<u8>) -> Seq<u8> {
    magic() + le_bytes(payload.len() as u32) + le_bytes(type_code) + payload
}

/// The bytes of the magic tag are those of its text.
pub proof fn lemma_magic_text()
    ensures
        MAGIC.spec_bytes() == magic(),
{
    reveal_strlit("i3-ipc");
    assert(vstd::string::is_ascii(MAGIC));
    vstd::string::is_ascii_spec_bytes(MAGIC);
    assert(MAGIC.spec_bytes() =~= magic());
}

/// One message as it travels: a type code and the payload under it.
#[derive(Debug, Clone, PartialEq, Eq)]
pub struct Frame {
    pub type_code: u32,
    pub payload: Vec<u8>,
}

/// A `Frame` as contracts speak of it.
pub struct FrameView {
    pub type_code: u32,
    pub payload: Seq<u8>,
}

impl View for Frame {
    type V = FrameView;

    open spec fn view(&self) -> FrameView {
        FrameView { type_code: self.type_code, payload: self.payload@ }
    }
}

impl FrameView {
    /// The bytes that this frame takes on the wire.
    pub open spec fn bytes(self) -> Seq<u8> {
        frame_bytes(self.type_code, self.payload)
    }

    /// How many bytes this frame takes on the wire.
    pub open spec fn wire_len(self) -> nat {
        HEADER_LEN as nat + self.payload.len()
    }
}

/// What the first fourteen bytes of `s` say when read as a header: the
/// payload length and the type code, or why they are no header.
pub open spec fn parse_header(s: Seq<u8>) -> Result<(u32, u32), ProtocolErrorView> {
    if s.len() < HEADER_LEN {
        Err(ProtocolErrorView::UnexpectedEof)
    } else if s.subrange(0, MAGIC_LEN as int) != magic() {
        Err(ProtocolErrorView::BadMagic(s.subrange(0, MAGIC_LEN as int)))
    } else {
        Ok((le_value(s.subrange(6, 10)), le_value(s.subrange(10, 14))))
    }
}

/// The first `len` bytes of `s`, where it has that many.
pub open spec fn parse_payload(s: Seq<u8>, len: u32) -> Result<Seq<u8>, ProtocolErrorView> {
    if s.len() < len {
        Err(ProtocolErrorView::UnexpectedEof)
    } else {
        Ok(s.subrange(0, len as int))
    }
}

/// What the front of a stream shows while more bytes may still arrive.
pub enum Scan {
    /// No frame yet: this many bytes are missing from the header, or, once
    /// the header is there, from the payload.
    NeedMore(nat),
    /// The header does not open with the magic tag but with these six bytes.
    BadMagic(Seq<u8>),
    /// A whole frame is there.
    Complete(FrameView),
}

/// Reads the front of `s` as far as it goes. Nothing is read from a header
/// before all fourteen bytes of it are there.
pub open spec fn scan(s: Seq<u8>) -> Scan {
    match parse_header(s) {
        Err(ProtocolErrorView::BadMagic(found)) => Scan::BadMagic(found),
        Err(_) => Scan::NeedMore((HEADER_LEN - s.len()) as nat),
        Ok((len, type_code)) => if s.len() < HEADER_LEN + len {
            Scan::NeedMore((HEADER_LEN + len - s.len()) as nat)
        } else {
            Scan::Complete(
                FrameView { type_code, payload: s.subrange(HEADER_LEN as int, HEADER_LEN + len) },
            )
        },
    }
}

/// The frame that `s` begins with, where `s` is all that will ever arrive:
/// what is missing then will not come.
pub open spec fn parse_frame(s: Seq<u8>) -> Result<FrameView, ProtocolErrorView> {
    match scan(s) {
        Scan::NeedMore(_) => Err(ProtocolErrorView::UnexpectedEof),
        Scan::BadMagic(found) => Err(ProtocolErrorView::BadMagic(found)),
        Scan::Complete(frame) => Ok(frame),
    }
}

/// A frame is read back from its own bytes, whatever follows them.
pub proof fn lemma_scan_frame(type_code: u32, payload: Seq<u8>, rest: Seq<u8>)
    requires
        payload.len() <= u32::MAX,
    ensures
        scan(frame_bytes(type_code, payload) + rest) == Scan::Complete(
            FrameView { type_code, payload },
        ),
{
    let n = payload.len() as u32;
    let s = frame_bytes(type_code, payload) + rest;
    lemma_le_value_of_bytes(n);
    lemma_le_value_of_bytes(type_code);
    assert(s.subrange(0, 6) =~= magic());
    assert(s.subrange(6, 10) =~= le_bytes(n));
    assert(s.subrange(10, 14) =~= le_bytes(type_code));
    assert(s.subrange(14, 14 + n) =~= payload);
}

/// Decoding what `encode` wrote gives back the type code and the payload.
pub proof fn lemma_round_trip(type_code: u32, payload: Seq<u8>)
    requires
        payload.len() <= u32::MAX,
    ensures
        parse_frame(frame_bytes(type_code, payload)) == Ok::<FrameView, ProtocolErrorView>(
            FrameView { type_code, payload },
        ),
{
    lemma_scan_frame(type_code, payload, Seq::empty());
    assert(frame_bytes(type_code, payload) + Seq::<u8>::empty() =~= frame_bytes(
        type_code,
        payload,
    ));
}

/// A frame cut short is no frame, and as many bytes are missing as were cut.
pub proof fn lemma_scan_prefix(type_code: u32, payload: Seq<u8>, k: int)
    requires
        payload.len() <= u32::MAX,
        0 <= k < HEADER_LEN + payload.len(),
    ensures
        scan(frame_bytes(type_code, payload).subrange(0, k)) == Scan::NeedMore(
            if k < HEADER_LEN {
                (HEADER_LEN - k) as nat
            } else {
                (HEADER_LEN + payload.len() - k) as nat
            },
        ),
{
    let n = payload.len() as u32;
    let s = frame_bytes(type_code, payload).subrange(0, k);
    if k >= HEADER_LEN {
        lemma_le_value_of_bytes(n);
        lemma_le_value_of_bytes(type_code);
        assert(s.subrange(0, 6) =~= magic());
        assert(s.subrange(6, 10) =~= le_bytes(n));
        assert(s.subrange(10, 14) =~= le_bytes(type_code));
    }
}

/// What was read as a frame is written as the bytes that it was read from.
pub proof fn lemma_frame_of_bytes(s: Seq<u8>, frame: FrameView)
    requires
        parse_frame(s) == Ok::<FrameView, ProtocolErrorView>(frame),
    ensures
        frame.wire_len() <= s.len(),
        frame.payload.len() <= u32::MAX,
        frame.bytes() == s.subrange(0, frame.wire_len() as int),
{
    lemma_le_bytes_of_value(s.subrange(6, 10));
    lemma_le_bytes_of_value(s.subrange(10, 14));
    assert(frame.bytes() =~= s.subrange(0, frame.wire_len() as int));
}

/// Once a frame is there, bytes that arrive after it change nothing of it.
pub proof fn lemma_scan_complete_stays(s: Seq<u8>, more: Seq<u8>)
    requires
        scan(s) is Complete,
    ensures
        scan(s + more) == scan(s),
{
    let t = s + more;
    assert(t.subrange(0, 6) =~= s.subrange(0, 6));
    assert(t.subrange(6, 10) =~= s.subrange(6, 10));
    assert(t.subrange(10, 14) =~= s.subrange(10, 14));
    let len = le_value(s.subrange(6, 10));
    assert(t.subrange(14, 14 + len) =~= s.subrange(14, 14 + len));
}

/// A header that opens with anything but the magic tag is refused with the
/// six bytes found, and nothing that follows makes a frame of it.
pub proof fn lemma_bad_magic(s: Seq<u8>, more: Seq<u8>)
    requires
        s.len() >= HEADER_LEN,
        s.subrange(0, MAGIC_LEN as int) != magic(),
    ensures
        scan(s + more) == Scan::BadMagic(s.subrange(0, MAGIC_LEN as int)),
        parse_frame(s + more) == Err::<FrameView, ProtocolErrorView>(
            ProtocolErrorView::BadMagic(s.subrange(0, MAGIC_LEN as int)),
        ),
{
    assert((s + more).subrange(0, 6) =~= s.subrange(0, 6));
}

/// A header that claims `len` payload bytes yields exactly that many, the
/// ones that follow it, or, where fewer follow, no payload at all.
pub proof fn lemma_length_exact(s: Seq<u8>, len: u32, type_code: u32)
    requires
        parse_header(s) == Ok::<(u32, u32), ProtocolErrorView>((len, type_code)),
    ensures
        s.len() < HEADER_LEN + len ==> parse_frame(s) == Err::<FrameView, ProtocolErrorView>(
            ProtocolErrorView::UnexpectedEof,
        ),
        s.len() >= HEADER_LEN + len ==> parse_frame(s) == Ok::<FrameView, ProtocolErrorView>(
            FrameView { type_code, payload: s.subrange(HEADER_LEN as int, HEADER_LEN + len) },
        ) && s.subrange(HEADER_LEN as int, HEADER_LEN + len).len() == len,
{
}

/// Whether `payload` can be framed.
pub fn fits(payload: &str) -> (ok: bool)
    ensures
        ok == payload_fits(payload.spec_bytes().len()),
{
    let n = payload.as_bytes().len();
    n <= u32::MAX as usize && n <= isize::MAX as usize - HEADER_LEN
}

/// Builds the frame for one message: magic tag, the payload's length in
/// bytes, the type code, the payload.
pub fn encode(type_code: u32, payload: &str) -> (out: Vec<u8>)
    requires
        payload_fits(payload.spec_bytes().len()),
    ensures
        out@ == frame_bytes(type_code, payload.spec_bytes()),
{
    let n = payload.len();
    let mut buf = buf_with_capacity(HEADER_LEN + n);
    proof {
        lemma_magic_text();
    }
    buf_put_slice(&mut buf, MAGIC.as_bytes());
    buf_put_u32_le(&mut buf, n as u32);
    buf_put_u32_le(&mut buf, type_code);
    buf_put_slice(&mut buf, payload.as_bytes());
    buf_into_vec(buf)
}

/// Whether two slices hold the same bytes.
fn same_bytes(a: &[u8], b: &[u8]) -> (same: bool)
    ensures
        same == (a@ == b@),
{
    if a.len() != b.len() {
        return false;
    }
    let mut i: usize = 0;
    while i < a.len()
        invariant
            a@.len() == b@.len(),
            i <= a@.len(),
            forall|k: int| 0 <= k < i ==> a@[k] == b@[k],
        decreases a@.len() - i,
    {
        if a[i] != b[i] {
            return false;
        }
        i += 1;
    }
    assert(a@ =~= b@);
    true
}

/// Reads the number that four bytes hold, least significant byte first.
fn u32_from_le(bytes: &[u8]) -> (x: u32)
    requires
        bytes@.len() == 4,
    ensures
        x == le_value(bytes@),
{
    let b0 = bytes[0] as u32;
    let b1 = bytes[1] as u32;
    let b2 = bytes[2] as u32;
    let b3 = bytes[3] as u32;
    b0 + 256 * b1 + 65536 * b2 + 16777216 * b3
}

/// Reads a header: checks the magic tag, then takes the payload length and
/// the type code. Fewer than fourteen bytes are no header.
pub fn decode_header(bytes: &[u8]) -> (r: Result<(u32, u32), ProtocolError>)
    ensures
        match r {
            Ok(h) => parse_header(bytes@) == Ok::<(u32, u32), ProtocolErrorView>(h),
            Err(e) => parse_header(bytes@) == Err::<(u32, u32), ProtocolErrorView>(e@),
        },
{
    if bytes.len() < HEADER_LEN {
        return Err(ProtocolError::UnexpectedEof);
    }
    let found = slice_subrange(bytes, 0, MAGIC_LEN);
    proof {
        lemma_magic_text();
    }
    if !same_bytes(found, MAGIC.as_bytes()) {
        return Err(ProtocolError::BadMagic(slice_to_vec(found)));
    }
    let len = u32_from_le(slice_subrange(bytes, 6, 10));
    let type_code = u32_from_le(slice_subrange(bytes, 10, 14));
    Ok((len, type_code))
}

/// Takes a payload of `len` bytes from the front of `bytes`: all of them or
/// none.
pub fn decode_payload(bytes: &[u8], len: u32) -> (r: Result<&[u8], ProtocolError>)
    ensures
        match r {
            Ok(p) => parse_payload(bytes@, len) == Ok::<Seq<u8>, ProtocolErrorView>(p@),
            Err(e) => parse_payload(bytes@, len) == Err::<Seq<u8>, ProtocolErrorView>(e@),
        },
{
    if bytes.len() < len as usize {
        return Err(ProtocolError::UnexpectedEof);
    }
    Ok(slice_subrange(bytes, 0, len as usize))
}

/// Reads the frame that `bytes` begins with. What follows the frame is left
/// alone.
pub fn decode(bytes: &[u8]) -> (r: Result<Frame, ProtocolError>)
    ensures
        match r {
            Ok(f) => parse_frame(bytes@) == Ok::<FrameView, ProtocolErrorView>(f@),
            Err(e) => parse_frame(bytes@) == Err::<FrameView, ProtocolErrorView>(e@),
        },
{
    let (len, type_code) = match decode_header(bytes) {
        Ok(h) => h,
        Err(e) => {
            return Err(e);
        },
    };
    let rest = slice_subrange(bytes, HEADER_LEN, bytes.len());
    assert(rest@.len() >= len ==> rest@.subrange(0, len as int) =~= bytes@.subrange(
        HEADER_LEN as int,
        HEADER_LEN + len,
    ));
    match decode_payload(rest, len) {
        Ok(p) => Ok(Frame { type_code, payload: slice_to_vec(p) }),
        Err(e) => Err(e),
    }
}

} // verus!
