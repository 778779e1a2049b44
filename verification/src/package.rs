//! The protocol message (`Package`) and the byte-exact specification of its
//! wire layout: a 16-bit big-endian id, a packed flags byte, three colour
//! bytes, and two length-prefixed optional UTF-8 strings.

use vstd::prelude::*;
use vstd::utf8::decode_utf8;
use vstd::utf8::encode_utf8;
use vstd::utf8::valid_utf8;

use crate::codec::be16;
use crate::codec::be16_bytes;
use crate::codec::DecodeError;
use crate::codec::DecodeErrorKind;
use crate::codec::Decoder;
use crate::codec::Encoder;
use crate::codec::EncodeError;
use crate::codec::Serialisable;
use crate::codec::WireField;

verus! {

broadcast use vstd::seq::group_seq_axioms;

/// The direction of a message: set by the sender, never negotiated.
#[derive(Copy, Clone, Debug, PartialEq, Eq, Structural, PartialOrd)]
pub enum MessageType {
    Query,
    Response,
}

/// A single protocol message. `query` and `payload` are optional text;
/// absence is a first-class state distinct from the empty string.
#[derive(Debug, PartialEq, PartialOrd)]
pub struct Package {
    pub id: u16,
    pub message_type: MessageType,
    pub bold: bool,
    pub italic: bool,
    pub underlined: bool,
    pub blink: bool,
    pub red: u8,
    pub green: u8,
    pub blue: u8,
    pub query: Option<String>,
    pub payload: Option<String>,
}

/// The mathematical value of a `Package`: the same fields, with each
/// optional string abstracted to its character sequence.
pub struct PackageView {
    pub id: u16,
    pub message_type: MessageType,
    pub bold: bool,
    pub italic: bool,
    pub underlined: bool,
    pub blink: bool,
    pub red: u8,
    pub green: u8,
    pub blue: u8,
    pub query: Option<Seq<char>>,
    pub payload: Option<Seq<char>>,
}

impl View for Package {
    type V = PackageView;

    open spec fn view(&self) -> PackageView {
        PackageView {
            id: self.id,
            message_type: self.message_type,
            bold: self.bold,
            italic: self.italic,
            underlined: self.underlined,
            blink: self.blink,
            red: self.red,
            green: self.green,
            blue: self.blue,
            query: match self.query {
                Some(q) => Some(q@),
                None => None,
            },
            payload: match self.payload {
                Some(p) => Some(p@),
                None => None,
            },
        }
    }
}

/// The all-default message: id 0, a query-direction message with no style,
/// black colour and both strings absent.
pub open spec fn default_package_view() -> PackageView {
    PackageView {
        id: 0,
        message_type: MessageType::Query,
        bold: false,
        italic: false,
        underlined: false,
        blink: false,
        red: 0,
        green: 0,
        blue: 0,
        query: None,
        payload: None,
    }
}

/// The packed flags byte: bit 7 set for a response, bits 6 to 3 the four
/// style attributes, bits 2 to 0 reserved and written as zero. The bits do
/// not overlap, so the byte is their sum.
pub open spec fn spec_flags_byte(v: PackageView) -> u8 {
    ((if v.message_type == MessageType::Response {
        0x80int
    } else {
        0int
    }) + (if v.bold {
        0x40int
    } else {
        0int
    }) + (if v.italic {
        0x20int
    } else {
        0int
    }) + (if v.underlined {
        0x10int
    } else {
        0int
    }) + (if v.blink {
        0x08int
    } else {
        0int
    })) as u8
}

/// The wire form of one optional string: a 16-bit big-endian byte length,
/// then that many bytes of UTF-8. Length zero encodes absence, and nothing
/// else does.
pub open spec fn spec_string_field(s: Option<Seq<char>>) -> Seq<u8> {
    match s {
        None => seq![0u8, 0u8],
        Some(cs) => be16_bytes(encode_utf8(cs).len() as u16) + encode_utf8(cs),
    }
}

/// A message can be framed exactly when each optional string's UTF-8 form
/// fits its 16-bit length prefix.
pub open spec fn spec_encodable(v: PackageView) -> bool {
    &&& (v.query matches Some(q) ==> encode_utf8(q).len() <= 0xFFFF)
    &&& (v.payload matches Some(p) ==> encode_utf8(p).len() <= 0xFFFF)
}

/// The canonical byte encoding of a message.
pub open spec fn spec_wire(v: PackageView) -> Seq<u8> {
    be16_bytes(v.id) + seq![spec_flags_byte(v), v.red, v.green, v.blue] + spec_string_field(v.query)
        + spec_string_field(v.payload)
}

/// What decoding returns on the given bytes: the decoded message and the
/// number of bytes consumed, or the first failure met reading the fields
/// in wire order. The three reserved flag bits are ignored, not preserved.
pub open spec fn parse_package(data: Seq<u8>) -> Result<(PackageView, int), DecodeError> {
    if data.len() < 2 {
        Err(DecodeError { kind: DecodeErrorKind::BufferUnderrun, field: WireField::Id })
    } else if data.len() < 3 {
        Err(DecodeError { kind: DecodeErrorKind::BufferUnderrun, field: WireField::Flags })
    } else if data.len() < 4 {
        Err(DecodeError { kind: DecodeErrorKind::BufferUnderrun, field: WireField::Red })
    } else if data.len() < 5 {
        Err(DecodeError { kind: DecodeErrorKind::BufferUnderrun, field: WireField::Green })
    } else if data.len() < 6 {
        Err(DecodeError { kind: DecodeErrorKind::BufferUnderrun, field: WireField::Blue })
    } else if data.len() < 8 {
        Err(DecodeError { kind: DecodeErrorKind::BufferUnderrun, field: WireField::QueryLength })
    } else {
        let lq = be16(data[6], data[7]) as int;
        if 8 + lq > data.len() {
            Err(DecodeError { kind: DecodeErrorKind::BufferUnderrun, field: WireField::QueryText })
        } else {
            let qbytes = data.subrange(8, 8 + lq);
            if lq > 0 && !valid_utf8(qbytes) {
                Err(
                    DecodeError {
                        kind: DecodeErrorKind::InvalidEncoding,
                        field: WireField::QueryText,
                    },
                )
            } else {
                let off = 8 + lq;
                if off + 2 > data.len() {
                    Err(
                        DecodeError {
                            kind: DecodeErrorKind::BufferUnderrun,
                            field: WireField::PayloadLength,
                        },
                    )
                } else {
                    let lp = be16(data[off], data[off + 1]) as int;
                    if off + 2 + lp > data.len() {
                        Err(
                            DecodeError {
                                kind: DecodeErrorKind::BufferUnderrun,
                                field: WireField::PayloadText,
                            },
                        )
                    } else {
                        let pbytes = data.subrange(off + 2, off + 2 + lp);
                        if lp > 0 && !valid_utf8(pbytes) {
                            Err(
                                DecodeError {
                                    kind: DecodeErrorKind::InvalidEncoding,
                                    field: WireField::PayloadText,
                                },
                            )
                        } else {
                            Ok(
                                (
                                    PackageView {
                                        id: be16(data[0], data[1]),
                                        message_type: if data[2] & 0x80 == 0x80 {
                                            MessageType::Response
                                        } else {
                                            MessageType::Query
                                        },
                                        bold: data[2] & 0x40 == 0x40,
                                        italic: data[2] & 0x20 == 0x20,
                                        underlined: data[2] & 0x10 == 0x10,
                                        blink: data[2] & 0x08 == 0x08,
                                        red: data[3],
                                        green: data[4],
                                        blue: data[5],
                                        query: if lq == 0 {
                                            None
                                        } else {
                                            Some(decode_utf8(qbytes))
                                        },
                                        payload: if lp == 0 {
                                            None
                                        } else {
                                            Some(decode_utf8(pbytes))
                                        },
                                    },
                                    off + 2 + lp,
                                ),
                            )
                        }
                    }
                }
            }
        }
    }
}

impl Default for Package {
    /// The all-default message; `default_package_view` gives its value.
    fn default() -> (r: Self)
        ensures
            r@ == default_package_view(),
    {
        Package {
            id: 0,
            message_type: MessageType::Query,
            bold: false,
            italic: false,
            underlined: false,
            blink: false,
            red: 0,
            green: 0,
            blue: 0,
            query: None,
            payload: None,
        }
    }
}

impl Clone for Package {
    /// An exact copy, field for field.
    fn clone(&self) -> (r: Self)
        ensures
            r == *self,
    {
        Package {
            id: self.id,
            message_type: self.message_type,
            bold: self.bold,
            italic: self.italic,
            underlined: self.underlined,
            blink: self.blink,
            red: self.red,
            green: self.green,
            blue: self.blue,
            query: clone_text(&self.query),
            payload: clone_text(&self.payload),
        }
    }
}

/// An exact copy of an optional string.
pub(crate) fn clone_text(text: &Option<String>) -> (r: Option<String>)
    ensures
        r == *text,
{
    match text {
        None => None,
        Some(t) => Some(t.clone()),
    }
}

impl Package {
    /// Create the all-default message.
    pub fn new() -> (r: Self)
        ensures
            r@ == default_package_view(),
    {
        Default::default()
    }

    pub fn set_id(self, id: u16) -> (r: Package)
        ensures
            r@ == (PackageView { id, ..self@ }),
    {
        Package { id, ..self }
    }

    pub fn set_message_type(self, mtype: MessageType) -> (r: Package)
        ensures
            r@ == (PackageView { message_type: mtype, ..self@ }),
    {
        Package { message_type: mtype, ..self }
    }

    pub fn set_bold(self, bold: bool) -> (r: Package)
        ensures
            r@ == (PackageView { bold, ..self@ }),
    {
        Package { bold, ..self }
    }

    pub fn set_italic(self, italic: bool) -> (r: Package)
        ensures
            r@ == (PackageView { italic, ..self@ }),
    {
        Package { italic, ..self }
    }

    pub fn set_underlined(self, underlined: bool) -> (r: Package)
        ensures
            r@ == (PackageView { underlined, ..self@ }),
    {
        Package { underlined, ..self }
    }

    pub fn set_blink(self, blink: bool) -> (r: Package)
        ensures
            r@ == (PackageView { blink, ..self@ }),
    {
        Package { blink, ..self }
    }

    pub fn set_rgb(self, red: u8, green: u8, blue: u8) -> (r: Package)
        ensures
            r@ == (PackageView { red, green, blue, ..self@ }),
    {
        Package { red, green, blue, ..self }
    }

    pub fn set_query(&mut self, query: Option<String>)
        ensures
            final(self)@ == (PackageView { query: view_of_text(query), ..old(self)@ }),
    {
        self.query = query;
    }

    /// The length in bytes of the query's UTF-8 form; 0 when absent.
    pub fn query_len(&self) -> (r: usize)
        ensures
            r == spec_text_len(self@.query),
    {
        match &self.query {
            None => 0,
            Some(q) => q.as_str().as_bytes().len(),
        }
    }

    pub fn set_payload(self, payload: Option<String>) -> (r: Package)
        ensures
            r@ == (PackageView { payload: view_of_text(payload), ..self@ }),
    {
        Package { payload, ..self }
    }

    /// The length in bytes of the payload's UTF-8 form; 0 when absent.
    pub fn payload_len(&self) -> (r: usize)
        ensures
            r == spec_text_len(self@.payload),
    {
        match &self.payload {
            None => 0,
            Some(p) => p.as_str().as_bytes().len(),
        }
    }
}

/// Relies on `String::from_utf8`: it succeeds exactly on the byte
/// sequences that are valid UTF-8, and returns the string those bytes
/// spell.
#[verifier::external_body]
pub(crate) fn bytes_to_string(bytes: &[u8]) -> (r: Option<String>)
    ensures
        r is Some <==> valid_utf8(bytes@),
        r matches Some(s) ==> s@ == decode_utf8(bytes@),
{
    match String::from_utf8(bytes.to_vec()) {
        Ok(s) => Some(s),
        Err(_) => None,
    }
}

impl Serialisable for Package {
    open spec fn wire(&self) -> Seq<u8> {
        spec_wire(self@)
    }

    open spec fn encodable(&self) -> bool {
        spec_encodable(self@)
    }

    open spec fn encode_err(&self) -> EncodeError {
        if self@.query matches Some(q) && encode_utf8(q).len() > 0xFFFF {
            EncodeError::QueryTooLong
        } else {
            EncodeError::PayloadTooLong
        }
    }

    open spec fn parse(data: Seq<u8>) -> Result<(PackageView, int), DecodeError> {
        parse_package(data)
    }

    open spec fn write_ok(&self, old_len: nat, new_len: nat) -> usize {
        new_len as usize
    }

    /// Decode one message, field by field in wire order; any failure
    /// aborts the whole decode and names the field that was being read.
    #[verifier::rlimit(60)]
    fn read(decoder: &mut Decoder<'_>) -> (r: Result<Self, DecodeError>) {
        let ghost dat = old(decoder).data();
        let ghost p0 = old(decoder).pos();
        let ghost d0 = old(decoder).remaining();
        proof {
            assert(d0.len() == dat.len() - p0);
            assert(forall|i: int| 0 <= i < d0.len() ==> #[trigger] d0[i] == dat[p0 + i]);
        }
        let id = match decoder.read_u16() {
            Ok(v) => v,
            Err(kind) => {
                proof {
                    assert(d0.len() < 2);
                }
                return Err(DecodeError { kind, field: WireField::Id });
            },
        };
        proof {
            assert(id == be16(d0[0], d0[1]));
        }
        let flags = match decoder.read_u8() {
            Ok(v) => v,
            Err(kind) => {
                proof {
                    assert(d0.len() == 2);
                }
                return Err(DecodeError { kind, field: WireField::Flags });
            },
        };
        proof {
            assert(flags == d0[2]);
        }
        let message_type = if flags & 0x80 == 0x80 {
            MessageType::Response
        } else {
            MessageType::Query
        };
        let bold = flags & 0x40 == 0x40;
        let italic = flags & 0x20 == 0x20;
        let underlined = flags & 0x10 == 0x10;
        let blink = flags & 0x08 == 0x08;
        let red = match decoder.read_u8() {
            Ok(v) => v,
            Err(kind) => {
                proof {
                    assert(d0.len() == 3);
                }
                return Err(DecodeError { kind, field: WireField::Red });
            },
        };
        let green = match decoder.read_u8() {
            Ok(v) => v,
            Err(kind) => {
                proof {
                    assert(d0.len() == 4);
                }
                return Err(DecodeError { kind, field: WireField::Green });
            },
        };
        let blue = match decoder.read_u8() {
            Ok(v) => v,
            Err(kind) => {
                proof {
                    assert(d0.len() == 5);
                }
                return Err(DecodeError { kind, field: WireField::Blue });
            },
        };
        proof {
            assert(red == d0[3] && green == d0[4] && blue == d0[5]);
        }
        let qlen = match decoder.read_u16() {
            Ok(v) => v,
            Err(kind) => {
                proof {
                    assert(6 <= d0.len() < 8);
                }
                return Err(DecodeError { kind, field: WireField::QueryLength });
            },
        };
        proof {
            assert(qlen == be16(d0[6], d0[7]));
            assert(decoder.pos() == p0 + 8);
        }
        let query: Option<String> = if qlen > 0 {
            let raw = match decoder.read_slice(qlen as usize) {
                Ok(s) => s,
                Err(kind) => {
                    proof {
                        assert(8 + qlen as int > d0.len());
                    }
                    return Err(DecodeError { kind, field: WireField::QueryText });
                },
            };
            proof {
                assert(8 + qlen as int <= d0.len());
                assert(raw@ =~= d0.subrange(8, 8 + qlen as int));
            }
            match bytes_to_string(raw) {
                Some(s) => Some(s),
                None => {
                    return Err(
                        DecodeError {
                            kind: DecodeErrorKind::InvalidEncoding,
                            field: WireField::QueryText,
                        },
                    );
                },
            }
        } else {
            None
        };
        let ghost off = 8 + qlen as int;
        proof {
            assert(decoder.pos() == p0 + off);
            assert(qlen > 0 ==> valid_utf8(d0.subrange(8, off)));
            assert(query matches Some(s) ==> s@ == decode_utf8(d0.subrange(8, off)));
        }
        let plen = match decoder.read_u16() {
            Ok(v) => v,
            Err(kind) => {
                proof {
                    assert(off + 2 > d0.len());
                }
                return Err(DecodeError { kind, field: WireField::PayloadLength });
            },
        };
        proof {
            assert(plen == be16(d0[off], d0[off + 1]));
            assert(decoder.pos() == p0 + off + 2);
        }
        let payload: Option<String> = if plen > 0 {
            let raw = match decoder.read_slice(plen as usize) {
                Ok(s) => s,
                Err(kind) => {
                    proof {
                        assert(off + 2 + plen as int > d0.len());
                    }
                    return Err(DecodeError { kind, field: WireField::PayloadText });
                },
            };
            proof {
                assert(off + 2 + plen as int <= d0.len());
                assert(raw@ =~= d0.subrange(off + 2, off + 2 + plen as int));
            }
            match bytes_to_string(raw) {
                Some(s) => Some(s),
                None => {
                    return Err(
                        DecodeError {
                            kind: DecodeErrorKind::InvalidEncoding,
                            field: WireField::PayloadText,
                        },
                    );
                },
            }
        } else {
            None
        };
        let pkg = Package {
            id,
            message_type,
            bold,
            italic,
            underlined,
            blink,
            red,
            green,
            blue,
            query,
            payload,
        };
        proof {
            let lp = plen as int;
            assert(off + 2 + lp <= d0.len());
            assert(plen > 0 ==> valid_utf8(d0.subrange(off + 2, off + 2 + lp)));
            assert(decoder.pos() == p0 + off + 2 + lp);
            assert(parse_package(d0) matches Ok((v, n)) && pkg@ == v && n == off + 2 + lp);
        }
        Ok(pkg)
    }

    /// Encode the message in wire order. An oversize string is rejected
    /// up front, before anything is appended.
    #[verifier::rlimit(60)]
    fn write(&self, encoder: &mut Encoder) -> (r: Result<usize, EncodeError>) {
        if let Some(q) = &self.query {
            if q.as_str().as_bytes().len() > 0xFFFF {
                return Err(EncodeError::QueryTooLong);
            }
        }
        if let Some(p) = &self.payload {
            if p.as_str().as_bytes().len() > 0xFFFF {
                return Err(EncodeError::PayloadTooLong);
            }
        }
        encoder.write_u16(self.id)?;
        let mut flags: u8 = match self.message_type {
            MessageType::Query => 0,
            MessageType::Response => 0x80,
        };
        if self.bold {
            flags = flags + 0x40;
        }
        if self.italic {
            flags = flags + 0x20;
        }
        if self.underlined {
            flags = flags + 0x10;
        }
        if self.blink {
            flags = flags + 0x08;
        }
        proof {
            assert(flags == spec_flags_byte(self@));
        }
        encoder.write_u8(flags)?;
        encoder.write_u8(self.red)?;
        encoder.write_u8(self.green)?;
        encoder.write_u8(self.blue)?;
        proof {
            assert(encoder@ =~= old(encoder)@ + be16_bytes(self.id) + seq![
                spec_flags_byte(self@),
                self.red,
                self.green,
                self.blue,
            ]);
        }
        let ghost head = encoder@;
        match &self.query {
            None => {
                encoder.write_u16(0)?;
            },
            Some(query) => {
                let q_bytes = query.as_str().as_bytes();
                encoder.write_u16(q_bytes.len() as u16)?;
                encoder.write_slice(q_bytes)?;
            },
        }
        proof {
            assert(encoder@ =~= head + spec_string_field(self@.query));
        }
        let ghost mid = encoder@;
        match &self.payload {
            None => {
                encoder.write_u16(0)?;
            },
            Some(payload) => {
                let p_bytes = payload.as_str().as_bytes();
                encoder.write_u16(p_bytes.len() as u16)?;
                encoder.write_slice(p_bytes)?;
            },
        }
        proof {
            assert(encoder@ =~= mid + spec_string_field(self@.payload));
            assert(encoder@ =~= old(encoder)@ + spec_wire(self@));
        }
        Ok(encoder.len())
    }
}

/// The character sequence of an optional string.
pub open spec fn view_of_text(text: Option<String>) -> Option<Seq<char>> {
    match text {
        Some(t) => Some(t@),
        None => None,
    }
}

/// The UTF-8 byte length of an optional character sequence; 0 when absent.
pub open spec fn spec_text_len(s: Option<Seq<char>>) -> int {
    match s {
        None => 0,
        Some(cs) => encode_utf8(cs).len() as int,
    }
}

proof fn lemma_flag_sum_bits(f: u8, a: u8, b: u8, c: u8, d: u8, e: u8)
    by (bit_vector)
    requires
        a <= 1,
        b <= 1,
        c <= 1,
        d <= 1,
        e <= 1,
        f == a * 0x80 + b * 0x40 + c * 0x20 + d * 0x10 + e * 0x08,
    ensures
        (f & 0x80 == 0x80) <==> a == 1,
        (f & 0x40 == 0x40) <==> b == 1,
        (f & 0x20 == 0x20) <==> c == 1,
        (f & 0x10 == 0x10) <==> d == 1,
        (f & 0x08 == 0x08) <==> e == 1,
        f & 0x07 == 0,
{
}

/// Flag independence, written side: for every combination of direction and
/// style attributes, each packed bit of the flags byte reads back as the
/// attribute that was written, and the three reserved bits are zero.
pub proof fn lemma_flags_byte_bits(v: PackageView)
    ensures
        (spec_flags_byte(v) & 0x80 == 0x80) <==> v.message_type == MessageType::Response,
        (spec_flags_byte(v) & 0x40 == 0x40) <==> v.bold,
        (spec_flags_byte(v) & 0x20 == 0x20) <==> v.italic,
        (spec_flags_byte(v) & 0x10 == 0x10) <==> v.underlined,
        (spec_flags_byte(v) & 0x08 == 0x08) <==> v.blink,
        spec_flags_byte(v) & 0x07 == 0,
{
    let a: u8 = if v.message_type == MessageType::Response {
        1
    } else {
        0
    };
    let b: u8 = if v.bold {
        1
    } else {
        0
    };
    let c: u8 = if v.italic {
        1
    } else {
        0
    };
    let d: u8 = if v.underlined {
        1
    } else {
        0
    };
    let e: u8 = if v.blink {
        1
    } else {
        0
    };
    assert(spec_flags_byte(v) == a * 0x80 + b * 0x40 + c * 0x20 + d * 0x10 + e * 0x08);
    lemma_flag_sum_bits(spec_flags_byte(v), a, b, c, d, e);
}

/// Flag independence, read side: two flag bytes that agree on their top
/// five bits decode to the same direction and style attributes; the
/// reserved bits play no part.
pub proof fn lemma_reserved_bits_ignored(f: u8, g: u8)
    by (bit_vector)
    requires
        f & 0xF8 == g & 0xF8,
    ensures
        (f & 0x80 == 0x80) == (g & 0x80 == 0x80),
        (f & 0x40 == 0x40) == (g & 0x40 == 0x40),
        (f & 0x20 == 0x20) == (g & 0x20 == 0x20),
        (f & 0x10 == 0x10) == (g & 0x10 == 0x10),
        (f & 0x08 == 0x08) == (g & 0x08 == 0x08),
{
}

/// Flag independence, at the message level: forcing the three reserved
/// flag bits of a buffer to zero does not change what it decodes to.
pub proof fn lemma_parse_ignores_reserved_bits(data: Seq<u8>)
    requires
        data.len() >= 3,
    ensures
        parse_package(data.update(2, data[2] & 0xF8)) == parse_package(data),
{
    let data2 = data.update(2, data[2] & 0xF8);
    let f = data[2];
    assert(f & 0xF8 & 0xF8 == f & 0xF8) by (bit_vector);
    lemma_reserved_bits_ignored(data2[2], data[2]);
    if data.len() >= 8 {
        let lq = be16(data[6], data[7]) as int;
        if 8 + lq <= data.len() {
            assert(data2.subrange(8, 8 + lq) =~= data.subrange(8, 8 + lq));
            let off = 8 + lq;
            if off + 2 <= data.len() {
                let lp = be16(data[off], data[off + 1]) as int;
                if off + 2 + lp <= data.len() {
                    assert(data2.subrange(off + 2, off + 2 + lp) =~= data.subrange(
                        off + 2,
                        off + 2 + lp,
                    ));
                }
            }
        }
    }
}

/// Round trip: decoding the encoding of any message whose strings fit
/// their 16-bit length prefixes gives back the message, field for field,
/// consuming the whole encoding. A present but empty string is excluded:
/// it encodes as the same two zero bytes as absence, and decodes back as
/// absent.
#[verifier::rlimit(60)]
pub proof fn lemma_round_trip(v: PackageView)
    requires
        spec_encodable(v),
        v.query matches Some(q) ==> q.len() > 0,
        v.payload matches Some(p) ==> p.len() > 0,
    ensures
        parse_package(spec_wire(v)) == Ok::<(PackageView, int), DecodeError>(
            (v, spec_wire(v).len() as int),
        ),
{
    let data = spec_wire(v);
    let qf = spec_string_field(v.query);
    let pf = spec_string_field(v.payload);
    let head = be16_bytes(v.id) + seq![spec_flags_byte(v), v.red, v.green, v.blue];
    assert(data =~= head + qf + pf);
    let lq = spec_text_len(v.query);
    let lp = spec_text_len(v.payload);
    assert(qf.len() == 2 + lq && pf.len() == 2 + lp) by {
        if v.query is Some {
            assert(qf =~= be16_bytes(encode_utf8(v.query->Some_0).len() as u16) + encode_utf8(
                v.query->Some_0,
            ));
        }
        if v.payload is Some {
            assert(pf =~= be16_bytes(encode_utf8(v.payload->Some_0).len() as u16) + encode_utf8(
                v.payload->Some_0,
            ));
        }
    }
    assert(data.len() == 10 + lq + lp);
    crate::codec::lemma_be16_round_trip(v.id);
    assert(be16(data[0], data[1]) == v.id);
    assert(data[2] == spec_flags_byte(v));
    lemma_flags_byte_bits(v);
    assert(be16(data[6], data[7]) == lq) by {
        match v.query {
            None => {
                assert(data[6] == 0u8 && data[7] == 0u8);
            },
            Some(q) => {
                let n = encode_utf8(q).len() as u16;
                assert(data[6] == be16_bytes(n)[0] && data[7] == be16_bytes(n)[1]);
                crate::codec::lemma_be16_round_trip(n);
            },
        }
    }
    let qbytes = data.subrange(8, 8 + lq);
    assert(v.query matches Some(q) ==> qbytes =~= encode_utf8(q));
    assert(v.query matches Some(q) ==> valid_utf8(qbytes) && decode_utf8(qbytes) == q) by {
        match v.query {
            Some(q) => {
                vstd::utf8::encode_utf8_valid_utf8(q);
                vstd::utf8::encode_utf8_decode_utf8(q);
            },
            None => {},
        }
    }
    let off = 8 + lq;
    assert(be16(data[off], data[off + 1]) == lp) by {
        match v.payload {
            None => {
                assert(data[off] == 0u8 && data[off + 1] == 0u8);
            },
            Some(p) => {
                let n = encode_utf8(p).len() as u16;
                assert(data[off] == be16_bytes(n)[0] && data[off + 1] == be16_bytes(n)[1]);
                crate::codec::lemma_be16_round_trip(n);
            },
        }
    }
    let pbytes = data.subrange(off + 2, off + 2 + lp);
    assert(v.payload matches Some(p) ==> pbytes =~= encode_utf8(p));
    assert(v.payload matches Some(p) ==> valid_utf8(pbytes) && decode_utf8(pbytes) == p) by {
        match v.payload {
            Some(p) => {
                vstd::utf8::encode_utf8_valid_utf8(p);
                vstd::utf8::encode_utf8_decode_utf8(p);
            },
            None => {},
        }
    }
    assert(lq == 0 ==> v.query is None);
    assert(lp == 0 ==> v.payload is None);
}

/// A decoded message never carries a present empty string: a zero length
/// prefix decodes to absence, and a nonzero one to at least one character.
pub proof fn lemma_parsed_strings_nonempty(data: Seq<u8>, v: PackageView, n: int)
    requires
        parse_package(data) == Ok::<(PackageView, int), DecodeError>((v, n)),
    ensures
        v.query matches Some(q) ==> q.len() > 0,
        v.payload matches Some(p) ==> p.len() > 0,
{
    let lq = be16(data[6], data[7]) as int;
    if lq > 0 {
        let qbytes = data.subrange(8, 8 + lq);
        assert(decode_utf8(qbytes) == seq![
            vstd::utf8::decode_first_scalar(qbytes) as char,
        ] + decode_utf8(vstd::utf8::pop_first_scalar(qbytes)));
    }
    let off = 8 + lq;
    let lp = be16(data[off], data[off + 1]) as int;
    if lp > 0 {
        let pbytes = data.subrange(off + 2, off + 2 + lp);
        assert(decode_utf8(pbytes) == seq![
            vstd::utf8::decode_first_scalar(pbytes) as char,
        ] + decode_utf8(vstd::utf8::pop_first_scalar(pbytes)));
    }
}

/// Absence against emptiness: an absent string encodes as a zero length
/// prefix with no body bytes, and a decoded message's query is absent
/// exactly when its length prefix was zero; a present decoded query is
/// never the empty string.
pub proof fn lemma_absence_vs_empty(data: Seq<u8>, v: PackageView, n: int)
    requires
        parse_package(data) == Ok::<(PackageView, int), DecodeError>((v, n)),
    ensures
        spec_string_field(None) =~= seq![0u8, 0u8],
        v.query is None <==> spec_query_length(data) == 0,
        v.query matches Some(q) ==> q.len() > 0,
{
    lemma_parsed_strings_nonempty(data, v, n);
}

/// The query length prefix a buffer declares, at its fixed offset.
pub open spec fn spec_query_length(data: Seq<u8>) -> int {
    be16(data[6], data[7]) as int
}

/// The payload length prefix a buffer declares, just past the query text.
pub open spec fn spec_payload_length(data: Seq<u8>) -> int {
    be16(data[8 + spec_query_length(data)], data[9 + spec_query_length(data)]) as int
}

/// Truncation fails as an underrun: a buffer shorter than the 10-byte
/// minimum never decodes, and the failure is a buffer underrun. The one
/// family of inputs this cannot promise for is a 9-byte buffer that
/// declares a 1-byte query whose byte is not valid UTF-8: there the
/// failure is the invalid encoding, as the fields are read in order.
pub proof fn lemma_short_buffer_underruns(data: Seq<u8>)
    requires
        data.len() < 10,
        data.len() == 9 && spec_query_length(data) == 1 ==> valid_utf8(data.subrange(8, 9)),
    ensures
        parse_package(data) matches Err(e) && e.kind == DecodeErrorKind::BufferUnderrun,
{
}

/// Truncation fails as an underrun, declared-length form: a query length
/// prefix that exceeds the bytes remaining fails the decode with a buffer
/// underrun at the query text.
pub proof fn lemma_oversized_query_length_underruns(data: Seq<u8>)
    requires
        data.len() >= 8,
        8 + spec_query_length(data) > data.len(),
    ensures
        parse_package(data) == Err::<(PackageView, int), DecodeError>(
            DecodeError { kind: DecodeErrorKind::BufferUnderrun, field: WireField::QueryText },
        ),
{
}

/// Truncation fails as an underrun, payload form: when the query reads
/// back whole but the declared payload length exceeds the bytes that
/// remain, the decode fails with a buffer underrun at the payload text.
pub proof fn lemma_oversized_payload_length_underruns(data: Seq<u8>)
    requires
        data.len() >= 8,
        8 + spec_query_length(data) <= data.len(),
        spec_query_length(data) > 0 ==> valid_utf8(
            data.subrange(8, 8 + spec_query_length(data)),
        ),
        10 + spec_query_length(data) <= data.len(),
        10 + spec_query_length(data) + spec_payload_length(data) > data.len(),
    ensures
        parse_package(data) == Err::<(PackageView, int), DecodeError>(
            DecodeError { kind: DecodeErrorKind::BufferUnderrun, field: WireField::PayloadText },
        ),
{
}

/// Invalid text fails the decode: a declared query whose bytes are not
/// valid UTF-8 fails with the invalid-encoding error at the query text.
pub proof fn lemma_invalid_query_text_fails(data: Seq<u8>)
    requires
        data.len() >= 8,
        spec_query_length(data) > 0,
        8 + spec_query_length(data) <= data.len(),
        !valid_utf8(data.subrange(8, 8 + spec_query_length(data))),
    ensures
        parse_package(data) == Err::<(PackageView, int), DecodeError>(
            DecodeError { kind: DecodeErrorKind::InvalidEncoding, field: WireField::QueryText },
        ),
{
}

/// Invalid text fails the decode, payload form.
pub proof fn lemma_invalid_payload_text_fails(data: Seq<u8>)
    requires
        data.len() >= 8,
        8 + spec_query_length(data) <= data.len(),
        spec_query_length(data) > 0 ==> valid_utf8(
            data.subrange(8, 8 + spec_query_length(data)),
        ),
        10 + spec_query_length(data) <= data.len(),
        spec_payload_length(data) > 0,
        10 + spec_query_length(data) + spec_payload_length(data) <= data.len(),
        !valid_utf8(
            data.subrange(
                10 + spec_query_length(data),
                10 + spec_query_length(data) + spec_payload_length(data),
            ),
        ),
    ensures
        parse_package(data) == Err::<(PackageView, int), DecodeError>(
            DecodeError { kind: DecodeErrorKind::InvalidEncoding, field: WireField::PayloadText },
        ),
{
}

} // verus!
