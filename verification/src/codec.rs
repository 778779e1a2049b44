//! Bounds-checked sequential cursors over byte buffers, in network
//! (big-endian) byte order, and the errors of the wire codec built on them.
//! The cursors do not interpret the bytes they move: reading only advances,
//! writing only appends.

use vstd::prelude::*;
use vstd::slice::slice_index_get;
use vstd::slice::slice_subrange;

verus! {

/// Why a decode failed: the cursor ran out of bytes, or string bytes were
/// not valid UTF-8.
#[derive(Copy, Clone, Debug, PartialEq, Eq, Structural)]
pub enum DecodeErrorKind {
    BufferUnderrun,
    InvalidEncoding,
}

/// The part of the wire format that was being read when a decode failed.
/// `Raw` marks an integer read outside any message field.
#[derive(Copy, Clone, Debug, PartialEq, Eq, Structural)]
pub enum WireField {
    Id,
    Flags,
    Red,
    Green,
    Blue,
    QueryLength,
    QueryText,
    PayloadLength,
    PayloadText,
    Raw,
}

/// A failed decode: what went wrong, and where in the message it did.
#[derive(Copy, Clone, Debug, PartialEq, Eq, Structural)]
pub struct DecodeError {
    pub kind: DecodeErrorKind,
    pub field: WireField,
}

/// Encoding fails only when an optional string does not fit its 16-bit
/// length prefix.
#[derive(Copy, Clone, Debug, PartialEq, Eq, Structural)]
pub enum EncodeError {
    QueryTooLong,
    PayloadTooLong,
}

/// The big-endian value of two bytes.
pub open spec fn be16(b0: u8, b1: u8) -> u16 {
    (b0 * 256 + b1) as u16
}

/// The big-endian value of four bytes.
pub open spec fn be32(b0: u8, b1: u8, b2: u8, b3: u8) -> u32 {
    (b0 * 0x1000000 + b1 * 0x10000 + b2 * 0x100 + b3) as u32
}

/// The two-byte big-endian encoding of a 16-bit value.
pub open spec fn be16_bytes(x: u16) -> Seq<u8> {
    seq![(x / 256) as u8, (x % 256) as u8]
}

/// The four-byte big-endian encoding of a 32-bit value.
pub open spec fn be32_bytes(x: u32) -> Seq<u8> {
    seq![
        (x / 0x1000000) as u8,
        ((x / 0x10000) % 256) as u8,
        ((x / 256) % 256) as u8,
        (x % 256) as u8,
    ]
}

/// Reading back the two-byte encoding of a 16-bit value gives the value.
pub proof fn lemma_be16_round_trip(x: u16)
    ensures
        be16(be16_bytes(x)[0], be16_bytes(x)[1]) == x,
{
}

/// Reading back the four-byte encoding of a 32-bit value gives the value.
pub proof fn lemma_be32_round_trip(x: u32)
    ensures
        be32(be32_bytes(x)[0], be32_bytes(x)[1], be32_bytes(x)[2], be32_bytes(x)[3]) == x,
{
}

/// Bounds-checked forward reader over a borrowed byte buffer.
pub struct Decoder<'a> {
    buffer: &'a [u8],
    index: usize,
}

impl<'a> Decoder<'a> {
    /// All bytes the cursor ranges over.
    pub closed spec fn data(self) -> Seq<u8> {
        self.buffer@
    }

    /// The current read position.
    pub closed spec fn pos(self) -> int {
        self.index as int
    }

    /// The cursor never points past the end of its buffer.
    pub open spec fn wf(self) -> bool {
        0 <= self.pos() <= self.data().len()
    }

    /// The bytes not consumed yet.
    pub open spec fn remaining(self) -> Seq<u8> {
        self.data().subrange(self.pos(), self.data().len() as int)
    }

    /// Create a cursor at the start of `buffer`.
    pub fn new(buffer: &'a [u8]) -> (r: Self)
        ensures
            r.wf(),
            r.data() == buffer@,
            r.pos() == 0,
    {
        Decoder { buffer, index: 0 }
    }

    /// Read the next `length` bytes and advance past them; fail without
    /// moving when fewer than `length` bytes remain.
    pub fn read_slice(&mut self, length: usize) -> (r: Result<&'a [u8], DecodeErrorKind>)
        requires
            old(self).wf(),
        ensures
            final(self).wf(),
            final(self).data() == old(self).data(),
            old(self).pos() + length <= old(self).data().len() ==> {
                &&& r matches Ok(s) && s@ == old(self).data().subrange(
                    old(self).pos(),
                    old(self).pos() + length,
                )
                &&& final(self).pos() == old(self).pos() + length
            },
            old(self).pos() + length > old(self).data().len() ==> {
                &&& r == Err::<&'a [u8], DecodeErrorKind>(DecodeErrorKind::BufferUnderrun)
                &&& *final(self) == *old(self)
            },
    {
        if length > self.buffer.len() - self.index {
            Err(DecodeErrorKind::BufferUnderrun)
        } else {
            let end = self.index + length;
            let s = slice_subrange(self.buffer, self.index, end);
            self.index = end;
            Ok(s)
        }
    }

    /// Read one byte and advance; fail without moving at the end of the
    /// buffer.
    pub fn read_u8(&mut self) -> (r: Result<u8, DecodeErrorKind>)
        requires
            old(self).wf(),
        ensures
            final(self).wf(),
            final(self).data() == old(self).data(),
            old(self).pos() < old(self).data().len() ==> {
                &&& r == Ok::<u8, DecodeErrorKind>(old(self).data()[old(self).pos()])
                &&& final(self).pos() == old(self).pos() + 1
            },
            old(self).pos() >= old(self).data().len() ==> {
                &&& r == Err::<u8, DecodeErrorKind>(DecodeErrorKind::BufferUnderrun)
                &&& *final(self) == *old(self)
            },
    {
        if self.index < self.buffer.len() {
            let byte = *slice_index_get(self.buffer, self.index);
            self.index = self.index + 1;
            Ok(byte)
        } else {
            Err(DecodeErrorKind::BufferUnderrun)
        }
    }

    /// Read a 16-bit unsigned integer in network byte order.
    pub fn read_u16(&mut self) -> (r: Result<u16, DecodeErrorKind>)
        requires
            old(self).wf(),
        ensures
            final(self).wf(),
            final(self).data() == old(self).data(),
            old(self).pos() + 2 <= old(self).data().len() ==> {
                &&& r == Ok::<u16, DecodeErrorKind>(
                    be16(
                        old(self).data()[old(self).pos()],
                        old(self).data()[old(self).pos() + 1],
                    ),
                )
                &&& final(self).pos() == old(self).pos() + 2
            },
            old(self).pos() + 2 > old(self).data().len() ==> {
                &&& r == Err::<u16, DecodeErrorKind>(DecodeErrorKind::BufferUnderrun)
                &&& *final(self) == *old(self)
            },
    {
        let s = self.read_slice(2)?;
        let b0 = *slice_index_get(s, 0);
        let b1 = *slice_index_get(s, 1);
        Ok((b0 as u16) * 256 + (b1 as u16))
    }

    /// Read a 32-bit unsigned integer in network byte order.
    pub fn read_u32(&mut self) -> (r: Result<u32, DecodeErrorKind>)
        requires
            old(self).wf(),
        ensures
            final(self).wf(),
            final(self).data() == old(self).data(),
            old(self).pos() + 4 <= old(self).data().len() ==> {
                &&& r == Ok::<u32, DecodeErrorKind>(
                    be32(
                        old(self).data()[old(self).pos()],
                        old(self).data()[old(self).pos() + 1],
                        old(self).data()[old(self).pos() + 2],
                        old(self).data()[old(self).pos() + 3],
                    ),
                )
                &&& final(self).pos() == old(self).pos() + 4
            },
            old(self).pos() + 4 > old(self).data().len() ==> {
                &&& r == Err::<u32, DecodeErrorKind>(DecodeErrorKind::BufferUnderrun)
                &&& *final(self) == *old(self)
            },
    {
        let s = self.read_slice(4)?;
        let b0 = *slice_index_get(s, 0);
        let b1 = *slice_index_get(s, 1);
        let b2 = *slice_index_get(s, 2);
        let b3 = *slice_index_get(s, 3);
        Ok((b0 as u32) * 0x1000000 + (b1 as u32) * 0x10000 + (b2 as u32) * 0x100 + (b3 as u32))
    }
}

/// Append-only writer over a growable byte buffer.
pub struct Encoder {
    buffer: Vec<u8>,
}

impl View for Encoder {
    type V = Seq<u8>;

    closed spec fn view(&self) -> Seq<u8> {
        self.buffer@
    }
}

impl Encoder {
    /// Wrap a buffer; further writes append after its current contents.
    pub fn new(buffer: Vec<u8>) -> (r: Self)
        ensures
            r@ == buffer@,
    {
        Encoder { buffer }
    }

    /// Append all of `data`; always succeeds, returning the number of
    /// bytes appended by this call.
    pub fn write_slice(&mut self, data: &[u8]) -> (r: Result<usize, EncodeError>)
        ensures
            final(self)@ == old(self)@ + data@,
            r == Ok::<usize, EncodeError>(data@.len() as usize),
    {
        let mut i: usize = 0;
        while i < data.len()
            invariant
                i <= data@.len(),
                self@ == old(self)@ + data@.subrange(0, i as int),
            decreases data@.len() - i,
        {
            let b = *slice_index_get(data, i);
            self.buffer.push(b);
            proof {
                assert(old(self)@ + data@.subrange(0, i as int) + seq![data@[i as int]]
                    =~= old(self)@ + data@.subrange(0, i + 1));
            }
            i = i + 1;
        }
        proof {
            assert(data@.subrange(0, data@.len() as int) =~= data@);
        }
        Ok(data.len())
    }

    /// Append one byte.
    pub fn write_u8(&mut self, data: u8) -> (r: Result<usize, EncodeError>)
        ensures
            final(self)@ == old(self)@ + seq![data],
            r == Ok::<usize, EncodeError>(1usize),
    {
        self.buffer.push(data);
        proof {
            assert(old(self)@.push(data) =~= old(self)@ + seq![data]);
        }
        Ok(1)
    }

    /// Append a 16-bit unsigned integer in network byte order.
    pub fn write_u16(&mut self, data: u16) -> (r: Result<usize, EncodeError>)
        ensures
            final(self)@ == old(self)@ + be16_bytes(data),
            r == Ok::<usize, EncodeError>(2usize),
    {
        self.write_u8((data / 256) as u8)?;
        self.write_u8((data % 256) as u8)?;
        proof {
            assert(old(self)@ + seq![(data / 256) as u8] + seq![(data % 256) as u8]
                =~= old(self)@ + be16_bytes(data));
        }
        Ok(2)
    }

    /// Append a 32-bit unsigned integer in network byte order.
    pub fn write_u32(&mut self, data: u32) -> (r: Result<usize, EncodeError>)
        ensures
            final(self)@ == old(self)@ + be32_bytes(data),
            r == Ok::<usize, EncodeError>(4usize),
    {
        self.write_u8((data / 0x1000000) as u8)?;
        self.write_u8(((data / 0x10000) % 256) as u8)?;
        self.write_u8(((data / 256) % 256) as u8)?;
        self.write_u8((data % 256) as u8)?;
        proof {
            assert(old(self)@ + seq![(data / 0x1000000) as u8] + seq![((data / 0x10000) % 256) as u8]
                + seq![((data / 256) % 256) as u8] + seq![(data % 256) as u8]
                =~= old(self)@ + be32_bytes(data));
        }
        Ok(4)
    }

    /// The number of bytes the underlying buffer now holds.
    pub fn len(&self) -> (r: usize)
        ensures
            r == self@.len(),
    {
        self.buffer.len()
    }

    /// Give the buffer back.
    pub fn into_bytes(self) -> (r: Vec<u8>)
        ensures
            r@ == self@,
    {
        self.buffer
    }
}

/// A value that travels on the wire. `parse` and `wire` fix, per type, the
/// byte-exact meaning of the two methods; the contracts below then hold for
/// every implementation.
pub trait Serialisable: View + Sized {
    /// The bytes this value contributes to the wire, when it can be framed.
    spec fn wire(&self) -> Seq<u8>;

    /// When the value can be framed at all.
    spec fn encodable(&self) -> bool;

    /// The error `write` reports when the value cannot be framed.
    spec fn encode_err(&self) -> EncodeError;

    /// What `read` returns on the given remaining input: the value read and
    /// the number of bytes consumed, or the failure met.
    spec fn parse(data: Seq<u8>) -> Result<(Self::V, int), DecodeError>;

    /// The count that a successful `write` reports, given the buffer
    /// lengths before and after the call.
    spec fn write_ok(&self, old_len: nat, new_len: nat) -> usize;

    /// Read one value from the cursor, consuming exactly the bytes `parse`
    /// says; on failure the cursor stays within bounds but its position is
    /// unspecified.
    fn read(decoder: &mut Decoder<'_>) -> (r: Result<Self, DecodeError>)
        requires
            old(decoder).wf(),
        ensures
            final(decoder).wf(),
            final(decoder).data() == old(decoder).data(),
            old(decoder).pos() <= final(decoder).pos(),
            match Self::parse(old(decoder).remaining()) {
                Ok((v, n)) => (r matches Ok(x) && x@ == v) && final(decoder).pos() == old(
                    decoder,
                ).pos() + n,
                Err(e) => r == Err::<Self, DecodeError>(e),
            },
    ;

    /// Append this value's encoding to the encoder; on failure the buffer
    /// is left untouched.
    fn write(&self, encoder: &mut Encoder) -> (r: Result<usize, EncodeError>)
        ensures
            self.encodable() ==> final(encoder)@ == old(encoder)@ + self.wire(),
            self.encodable() ==> r == Ok::<usize, EncodeError>(
                self.write_ok(old(encoder)@.len() as nat, final(encoder)@.len() as nat),
            ),
            !self.encodable() ==> final(encoder)@ == old(encoder)@ && r == Err::<
                usize,
                EncodeError,
            >(self.encode_err()),
    ;
}

impl Serialisable for u16 {
    open spec fn wire(&self) -> Seq<u8> {
        be16_bytes(*self)
    }

    open spec fn encodable(&self) -> bool {
        true
    }

    open spec fn encode_err(&self) -> EncodeError {
        arbitrary()
    }

    open spec fn parse(data: Seq<u8>) -> Result<(u16, int), DecodeError> {
        if data.len() >= 2 {
            Ok((be16(data[0], data[1]), 2))
        } else {
            Err(DecodeError { kind: DecodeErrorKind::BufferUnderrun, field: WireField::Raw })
        }
    }

    open spec fn write_ok(&self, old_len: nat, new_len: nat) -> usize {
        2
    }

    fn read(decoder: &mut Decoder<'_>) -> (r: Result<Self, DecodeError>) {
        match decoder.read_u16() {
            Ok(v) => Ok(v),
            Err(kind) => Err(DecodeError { kind, field: WireField::Raw }),
        }
    }

    fn write(&self, encoder: &mut Encoder) -> (r: Result<usize, EncodeError>) {
        encoder.write_u16(*self)
    }
}

impl Serialisable for u32 {
    open spec fn wire(&self) -> Seq<u8> {
        be32_bytes(*self)
    }

    open spec fn encodable(&self) -> bool {
        true
    }

    open spec fn encode_err(&self) -> EncodeError {
        arbitrary()
    }

    open spec fn parse(data: Seq<u8>) -> Result<(u32, int), DecodeError> {
        if data.len() >= 4 {
            Ok((be32(data[0], data[1], data[2], data[3]), 4))
        } else {
            Err(DecodeError { kind: DecodeErrorKind::BufferUnderrun, field: WireField::Raw })
        }
    }

    open spec fn write_ok(&self, old_len: nat, new_len: nat) -> usize {
        4
    }

    fn read(decoder: &mut Decoder<'_>) -> (r: Result<Self, DecodeError>) {
        match decoder.read_u32() {
            Ok(v) => Ok(v),
            Err(kind) => Err(DecodeError { kind, field: WireField::Raw }),
        }
    }

    fn write(&self, encoder: &mut Encoder) -> (r: Result<usize, EncodeError>) {
        encoder.write_u32(*self)
    }
}

} // verus!
