//! The byte level of the packet format: fixed-width little-endian integers,
//! length-prefixed text and identifiers, and the size ceiling.
//!
//! Every format is given twice: as a pair of spec functions (`put_*` builds
//! the bytes of a value, `take_*` reads one value off the front of a byte
//! sequence and hands back what follows it) and as executable code proved
//! against that pair.

use bytes::Bytes;
use vstd::bytes::*;
use vstd::prelude::*;
use vstd::slice::*;
use vstd::utf8::*;

verus! {

/// Largest member list that a packet is sized for.
pub const MAX_MEMBERS: usize = 65535;

/// Ceiling on the size of a packet: a full member list and some extra.
pub const MAX_PACKET_BYTES: usize = 4194340;

/// The ceiling is 100 bytes over two 32-byte fields for each member of the
/// largest list.
pub proof fn ceiling_is_derived_from_members()
    ensures
        MAX_PACKET_BYTES == 100 + 32 * 2 * MAX_MEMBERS,
{
}

// ---------------------------------------------------------------------------
// The buffer type of the transport
// ---------------------------------------------------------------------------

/// `bytes::Bytes`, the buffer type of the transport. It is carried as it
/// is; what it holds goes by the name below.
#[verifier::external_type_specification]
#[verifier::external_body]
pub struct ExBytes(Bytes);

/// The bytes that a `Bytes` buffer holds, in order.
pub uninterp spec fn bytes_contents(b: Bytes) -> Seq<u8>;

/// `Bytes::from(Vec<u8>)`: the buffer takes over the vector and holds
/// exactly its bytes.
#[verifier::external_body]
pub(crate) fn bytes_from_vec(v: Vec<u8>) -> (b: Bytes)
    ensures
        bytes_contents(b) == v@,
{
    Bytes::from(v)
}

/// `Bytes::as_ref`: the buffer seen as a slice of exactly its bytes.
#[verifier::external_body]
pub(crate) fn bytes_as_slice(b: &Bytes) -> (s: &[u8])
    ensures
        s@ == bytes_contents(*b),
{
    b.as_ref()
}

/// `String::from_utf8`: the text that the bytes spell, where they are
/// well-formed UTF-8, and nothing where they are not.
#[verifier::external_body]
pub(crate) fn text_from_utf8(bytes: Vec<u8>) -> (r: Option<String>)
    ensures
        r is Some <==> valid_utf8(bytes@),
        r matches Some(s) ==> s@ == decode_utf8(bytes@),
{
    String::from_utf8(bytes).ok()
}

// ---------------------------------------------------------------------------
// The two directions of the codec
// ---------------------------------------------------------------------------

/// A packet that can be handed to the transport.
pub trait IntoPacketBytes: Sized {
    /// The complete encoding of the packet, from the envelope inwards.
    spec fn wire(&self) -> Seq<u8>;

    /// The bytes to send for this packet: its encoding, or an empty payload
    /// where the encoding would pass the ceiling. Encoding never fails
    /// towards the caller.
    fn into_bytes(self) -> (b: Bytes)
        ensures
            bytes_contents(b) == framed(self.wire()),
    ;
}

/// A packet that can be read back from what the transport delivered.
pub trait FromPacketBytes: Sized + View {
    /// The packet that a buffer decodes to, if it decodes at all. Only the
    /// buffer's window is looked at, and bytes that follow the packet inside
    /// it are ignored.
    spec fn decoded(buffer: Seq<u8>) -> Option<Self::V>;

    /// Decodes a buffer. `None` stands for a buffer that holds no packet;
    /// the caller ends the session on it.
    fn from_bytes(bytes: Bytes) -> (r: Option<Self>)
        ensures
            match r {
                Some(p) => Self::decoded(bytes_contents(bytes)) == Some(p@),
                None => Self::decoded(bytes_contents(bytes)) is None,
            },
    ;
}

// ---------------------------------------------------------------------------
// Formats
// ---------------------------------------------------------------------------

pub open spec fn put_u16(v: u16) -> Seq<u8> {
    spec_u16_to_le_bytes(v)
}

pub open spec fn take_u16(s: Seq<u8>) -> Option<(u16, Seq<u8>)> {
    if s.len() >= 2 {
        Some((spec_u16_from_le_bytes(s.take(2)), s.skip(2)))
    } else {
        None
    }
}

pub open spec fn put_u32(v: u32) -> Seq<u8> {
    spec_u32_to_le_bytes(v)
}

pub open spec fn take_u32(s: Seq<u8>) -> Option<(u32, Seq<u8>)> {
    if s.len() >= 4 {
        Some((spec_u32_from_le_bytes(s.take(4)), s.skip(4)))
    } else {
        None
    }
}

pub open spec fn put_u64(v: u64) -> Seq<u8> {
    spec_u64_to_le_bytes(v)
}

pub open spec fn take_u64(s: Seq<u8>) -> Option<(u64, Seq<u8>)> {
    if s.len() >= 8 {
        Some((spec_u64_from_le_bytes(s.take(8)), s.skip(8)))
    } else {
        None
    }
}

/// The sixteen bytes of an identifier, most significant first.
pub open spec fn id_bytes(id: u128) -> Seq<u8> {
    spec_u128_to_le_bytes(id).reverse()
}

/// An identifier travels as a byte string: its length, 16, and its bytes.
pub open spec fn put_id(id: u128) -> Seq<u8> {
    put_u64(16) + id_bytes(id)
}

pub open spec fn take_id(s: Seq<u8>) -> Option<(u128, Seq<u8>)> {
    match take_u64(s) {
        Some((len, rest)) => if len == 16 && rest.len() >= 16 {
            Some((spec_u128_from_le_bytes(rest.take(16).reverse()), rest.skip(16)))
        } else {
            None
        },
        None => None,
    }
}

/// Text travels as the length of its UTF-8 form and that form.
pub open spec fn put_text(t: Seq<char>) -> Seq<u8> {
    put_u64(encode_utf8(t).len() as u64) + encode_utf8(t)
}

pub open spec fn take_text(s: Seq<u8>) -> Option<(Seq<char>, Seq<u8>)> {
    match take_u64(s) {
        Some((len, rest)) => if len <= rest.len() && valid_utf8(rest.take(len as int)) {
            Some((decode_utf8(rest.take(len as int)), rest.skip(len as int)))
        } else {
            None
        },
        None => None,
    }
}

/// What goes out for an encoding: the encoding itself while it fits under
/// the ceiling, and nothing at all once it does not.
pub open spec fn framed(wire: Seq<u8>) -> Seq<u8> {
    if wire.len() <= MAX_PACKET_BYTES {
        wire
    } else {
        Seq::empty()
    }
}

/// The window of a buffer that begins with an encoding under the ceiling
/// still begins with that encoding.
pub proof fn lemma_window_keeps_prefix(wire: Seq<u8>, rest: Seq<u8>)
    requires
        wire.len() <= MAX_PACKET_BYTES,
    ensures
        exists|tail: Seq<u8>| window(wire + rest) == wire + tail,
{
    let whole = wire + rest;
    if whole.len() <= MAX_PACKET_BYTES {
        assert(window(whole) == wire + rest);
    } else {
        let tail = rest.take(MAX_PACKET_BYTES - wire.len());
        assert(window(whole) =~= wire + tail);
    }
}

/// What a decoder looks at: the buffer up to the ceiling. Bytes past it are
/// never read.
pub open spec fn window(buffer: Seq<u8>) -> Seq<u8> {
    if buffer.len() <= MAX_PACKET_BYTES {
        buffer
    } else {
        buffer.take(MAX_PACKET_BYTES as int)
    }
}

// ---------------------------------------------------------------------------
// Reading a value back gives the value, whatever follows it
// ---------------------------------------------------------------------------

pub proof fn lemma_u16_round_trip(v: u16, rest: Seq<u8>)
    ensures
        put_u16(v).len() == 2,
        take_u16(put_u16(v) + rest) == Some((v, rest)),
{
    lemma_auto_spec_u16_to_from_le_bytes();
    let s = put_u16(v) + rest;
    assert(s.take(2) =~= put_u16(v));
    assert(s.skip(2) =~= rest);
}

pub proof fn lemma_u32_round_trip(v: u32, rest: Seq<u8>)
    ensures
        put_u32(v).len() == 4,
        take_u32(put_u32(v) + rest) == Some((v, rest)),
{
    lemma_auto_spec_u32_to_from_le_bytes();
    let s = put_u32(v) + rest;
    assert(s.take(4) =~= put_u32(v));
    assert(s.skip(4) =~= rest);
}

pub proof fn lemma_u64_round_trip(v: u64, rest: Seq<u8>)
    ensures
        put_u64(v).len() == 8,
        take_u64(put_u64(v) + rest) == Some((v, rest)),
{
    lemma_auto_spec_u64_to_from_le_bytes();
    let s = put_u64(v) + rest;
    assert(s.take(8) =~= put_u64(v));
    assert(s.skip(8) =~= rest);
}

pub proof fn lemma_id_round_trip(id: u128, rest: Seq<u8>)
    ensures
        put_id(id).len() == 24,
        take_id(put_id(id) + rest) == Some((id, rest)),
{
    lemma_auto_spec_u128_to_from_le_bytes();
    let tail = id_bytes(id) + rest;
    lemma_u64_round_trip(16, tail);
    assert(put_id(id) + rest =~= put_u64(16) + tail);
    assert(tail.take(16) =~= id_bytes(id));
    assert(tail.skip(16) =~= rest);
    assert(id_bytes(id).reverse() =~= spec_u128_to_le_bytes(id));
}

pub proof fn lemma_text_round_trip(t: Seq<char>, rest: Seq<u8>)
    requires
        encode_utf8(t).len() <= u64::MAX,
    ensures
        put_text(t).len() == 8 + encode_utf8(t).len(),
        take_text(put_text(t) + rest) == Some((t, rest)),
{
    let body = encode_utf8(t);
    let tail = body + rest;
    lemma_u64_round_trip(body.len() as u64, tail);
    assert(put_text(t) + rest =~= put_u64(body.len() as u64) + tail);
    assert(tail.take(body.len() as int) =~= body);
    assert(tail.skip(body.len() as int) =~= rest);
    encode_utf8_valid_utf8(t);
    encode_utf8_decode_utf8(t);
}

// ---------------------------------------------------------------------------
// What is read was written: a value is read only off its own encoding
// ---------------------------------------------------------------------------

pub proof fn lemma_u16_exact(s: Seq<u8>)
    requires
        take_u16(s) is Some,
    ensures
        s == put_u16(take_u16(s).unwrap().0) + take_u16(s).unwrap().1,
{
    lemma_auto_spec_u16_to_from_le_bytes();
    assert(s =~= s.take(2) + s.skip(2));
}

pub proof fn lemma_u32_exact(s: Seq<u8>)
    requires
        take_u32(s) is Some,
    ensures
        s == put_u32(take_u32(s).unwrap().0) + take_u32(s).unwrap().1,
{
    lemma_auto_spec_u32_to_from_le_bytes();
    assert(s =~= s.take(4) + s.skip(4));
}

pub proof fn lemma_u64_exact(s: Seq<u8>)
    requires
        take_u64(s) is Some,
    ensures
        s == put_u64(take_u64(s).unwrap().0) + take_u64(s).unwrap().1,
{
    lemma_auto_spec_u64_to_from_le_bytes();
    assert(s =~= s.take(8) + s.skip(8));
}

pub proof fn lemma_id_exact(s: Seq<u8>)
    requires
        take_id(s) is Some,
    ensures
        s == put_id(take_id(s).unwrap().0) + take_id(s).unwrap().1,
{
    lemma_auto_spec_u128_to_from_le_bytes();
    lemma_u64_exact(s);
    let rest = take_u64(s).unwrap().1;
    let low_first = rest.take(16).reverse();
    assert(low_first.reverse() =~= rest.take(16));
    assert(rest =~= rest.take(16) + rest.skip(16));
    let id = take_id(s).unwrap().0;
    assert(s =~= put_id(id) + rest.skip(16));
}

pub proof fn lemma_text_exact(s: Seq<u8>)
    requires
        take_text(s) is Some,
    ensures
        s == put_text(take_text(s).unwrap().0) + take_text(s).unwrap().1,
{
    lemma_u64_exact(s);
    let len = take_u64(s).unwrap().0;
    let rest = take_u64(s).unwrap().1;
    let body = rest.take(len as int);
    decode_utf8_encode_utf8(body);
    assert(rest =~= body + rest.skip(len as int));
    let t = take_text(s).unwrap().0;
    assert(s =~= put_text(t) + rest.skip(len as int));
}

// ---------------------------------------------------------------------------
// Writing
// ---------------------------------------------------------------------------

/// Turns a finished encoding into what is sent.
pub(crate) fn seal(wire: Vec<u8>) -> (b: Bytes)
    ensures
        bytes_contents(b) == framed(wire@),
{
    if wire.len() <= MAX_PACKET_BYTES {
        bytes_from_vec(wire)
    } else {
        bytes_from_vec(Vec::new())
    }
}

/// The part of a received buffer that a decoder may read.
pub(crate) fn window_of(buffer: &[u8]) -> (w: &[u8])
    ensures
        w@ == window(buffer@),
{
    if buffer.len() <= MAX_PACKET_BYTES {
        buffer
    } else {
        let w = slice_subrange(buffer, 0, MAX_PACKET_BYTES);
        assert(w@ =~= buffer@.take(MAX_PACKET_BYTES as int));
        w
    }
}

pub(crate) fn write_u16(out: &mut Vec<u8>, v: u16)
    ensures
        final(out)@ == old(out)@ + put_u16(v),
{
    let mut piece = u16_to_le_bytes(v);
    out.append(&mut piece);
}

pub(crate) fn write_u32(out: &mut Vec<u8>, v: u32)
    ensures
        final(out)@ == old(out)@ + put_u32(v),
{
    let mut piece = u32_to_le_bytes(v);
    out.append(&mut piece);
}

pub(crate) fn write_u64(out: &mut Vec<u8>, v: u64)
    ensures
        final(out)@ == old(out)@ + put_u64(v),
{
    let mut piece = u64_to_le_bytes(v);
    out.append(&mut piece);
}

pub(crate) fn write_id(out: &mut Vec<u8>, id: u128)
    ensures
        final(out)@ == old(out)@ + put_id(id),
{
    let ghost before = out@;
    write_u64(out, 16);
    let low_first = u128_to_le_bytes(id);
    let mut i: usize = 16;
    while i > 0
        invariant
            i <= 16,
            low_first@ == spec_u128_to_le_bytes(id),
            low_first@.len() == 16,
            out@ == before + put_u64(16) + id_bytes(id).take(16 - i),
        decreases i,
    {
        i = i - 1;
        out.push(low_first[i]);
        assert(out@ =~= before + put_u64(16) + id_bytes(id).take(16 - i));
    }
    assert(id_bytes(id).take(16) =~= id_bytes(id));
    assert(out@ =~= before + put_id(id));
}

pub(crate) fn write_text(out: &mut Vec<u8>, t: &str)
    ensures
        final(out)@ == old(out)@ + put_text(t@),
{
    let ghost before = out@;
    let raw = t.as_bytes();
    let len: usize = raw.len();
    write_u64(out, len as u64);
    let mut piece = slice_to_vec(raw);
    out.append(&mut piece);
    assert(out@ =~= before + put_text(t@));
}

// ---------------------------------------------------------------------------
// Reading
// ---------------------------------------------------------------------------

/// A cursor over a buffer. `rest` is what has not been read yet.
pub(crate) struct Reader<'a> {
    pub buf: &'a [u8],
    pub pos: usize,
}

impl<'a> Reader<'a> {
    pub(crate) closed spec fn wf(&self) -> bool {
        self.pos <= self.buf@.len()
    }

    pub(crate) closed spec fn rest(&self) -> Seq<u8> {
        self.buf@.skip(self.pos as int)
    }

    pub(crate) fn new(buf: &'a [u8]) -> (r: Reader<'a>)
        ensures
            r.wf(),
            r.rest() == buf@,
    {
        assert(buf@.skip(0) =~= buf@);
        Reader { buf, pos: 0 }
    }

    /// Hands out the next `n` bytes, where that many are left.
    fn advance(&mut self, n: usize) -> (r: Option<&'a [u8]>)
        requires
            old(self).wf(),
        ensures
            final(self).wf(),
            final(self).buf == old(self).buf,
            match r {
                Some(piece) => {
                    &&& n <= old(self).rest().len()
                    &&& piece@ == old(self).rest().take(n as int)
                    &&& final(self).rest() == old(self).rest().skip(n as int)
                },
                None => n > old(self).rest().len() && *final(self) == *old(self),
            },
    {
        let left: usize = self.buf.len() - self.pos;
        if n > left {
            return None;
        }
        let piece = slice_subrange(self.buf, self.pos, self.pos + n);
        assert(piece@ =~= self.rest().take(n as int));
        assert(self.buf@.skip(self.pos + n) =~= self.rest().skip(n as int));
        self.pos = self.pos + n;
        Some(piece)
    }

    pub(crate) fn read_u16(&mut self) -> (r: Option<u16>)
        requires
            old(self).wf(),
        ensures
            final(self).wf(),
            match r {
                Some(v) => take_u16(old(self).rest()) == Some((v, final(self).rest())),
                None => take_u16(old(self).rest()) is None,
            },
    {
        match self.advance(2) {
            Some(piece) => Some(u16_from_le_bytes(piece)),
            None => None,
        }
    }

    pub(crate) fn read_u32(&mut self) -> (r: Option<u32>)
        requires
            old(self).wf(),
        ensures
            final(self).wf(),
            match r {
                Some(v) => take_u32(old(self).rest()) == Some((v, final(self).rest())),
                None => take_u32(old(self).rest()) is None,
            },
    {
        match self.advance(4) {
            Some(piece) => Some(u32_from_le_bytes(piece)),
            None => None,
        }
    }

    pub(crate) fn read_u64(&mut self) -> (r: Option<u64>)
        requires
            old(self).wf(),
        ensures
            final(self).wf(),
            match r {
                Some(v) => take_u64(old(self).rest()) == Some((v, final(self).rest())),
                None => take_u64(old(self).rest()) is None,
            },
    {
        match self.advance(8) {
            Some(piece) => Some(u64_from_le_bytes(piece)),
            None => None,
        }
    }

    pub(crate) fn read_id(&mut self) -> (r: Option<u128>)
        requires
            old(self).wf(),
        ensures
            final(self).wf(),
            match r {
                Some(v) => take_id(old(self).rest()) == Some((v, final(self).rest())),
                None => take_id(old(self).rest()) is None,
            },
    {
        let len = match self.read_u64() {
            Some(len) => len,
            None => { return None; },
        };
        if len != 16 {
            return None;
        }
        let piece = match self.advance(16) {
            Some(piece) => piece,
            None => { return None; },
        };
        let mut low_first: Vec<u8> = Vec::new();
        let mut i: usize = 16;
        while i > 0
            invariant
                i <= 16,
                piece@.len() == 16,
                low_first@ == piece@.reverse().take(16 - i),
            decreases i,
        {
            i = i - 1;
            low_first.push(piece[i]);
            assert(low_first@ =~= piece@.reverse().take(16 - i));
        }
        assert(low_first@ =~= piece@.reverse());
        Some(u128_from_le_bytes(low_first.as_slice()))
    }

    pub(crate) fn read_text(&mut self) -> (r: Option<String>)
        requires
            old(self).wf(),
        ensures
            final(self).wf(),
            match r {
                Some(t) => take_text(old(self).rest()) == Some((t@, final(self).rest())),
                None => take_text(old(self).rest()) is None,
            },
    {
        let len = match self.read_u64() {
            Some(len) => len,
            None => { return None; },
        };
        let left: usize = self.buf.len() - self.pos;
        if len > left as u64 {
            return None;
        }
        let piece = match self.advance(len as usize) {
            Some(piece) => piece,
            None => { return None; },
        };
        text_from_utf8(slice_to_vec(piece))
    }
}

} // verus!
