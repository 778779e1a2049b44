//! The foreign-boundary mirror of a message: plain data whose optional
//! strings are explicit (length, byte buffer) pairs, so that a caller
//! without a managed runtime can construct, inspect and release messages.
//! The raw-pointer shell that hands these values across the boundary lives
//! outside the library; here stand the conversions and the two compute
//! halves of that boundary, verified against the codec's specification.

use vstd::prelude::*;
use vstd::string::StrSliceExecFns;
use vstd::utf8::decode_utf8;
use vstd::utf8::encode_utf8;
use vstd::utf8::valid_utf8;

use crate::codec::DecodeError;
use crate::codec::Decoder;
use crate::codec::EncodeError;
use crate::codec::Encoder;
use crate::codec::Serialisable;
use crate::package::bytes_to_string;
use crate::package::parse_package;
use crate::package::spec_encodable;
use crate::package::spec_wire;
use crate::package::MessageType;
use crate::package::Package;
use crate::package::PackageView;

verus! {

broadcast use vstd::seq::group_seq_axioms;

/// The plain-data mirror of a `Package`. Strings are carried as a byte
/// length and an owned buffer of that many UTF-8 bytes; length zero means
/// the string is absent. The direction travels as a small integer: zero
/// for a query, anything else for a response.
pub struct CPackage {
    pub id: u16,
    pub message_type: u8,
    pub bold: bool,
    pub italic: bool,
    pub underlined: bool,
    pub blink: bool,
    pub red: u8,
    pub green: u8,
    pub blue: u8,
    pub query_len: usize,
    pub query: Vec<u8>,
    pub payload_len: usize,
    pub payload: Vec<u8>,
}

/// The UTF-8 bytes an optional string contributes to a mirror: none when
/// it is absent.
pub open spec fn bytes_of_text(s: Option<Seq<char>>) -> Seq<u8> {
    match s {
        None => Seq::empty(),
        Some(cs) => encode_utf8(cs),
    }
}

impl CPackage {
    /// A whole mirror: each length field matches its buffer, and a present
    /// buffer holds valid UTF-8.
    pub open spec fn wf(&self) -> bool {
        &&& self.query_len == self.query@.len()
        &&& self.payload_len == self.payload@.len()
        &&& self.query@.len() > 0 ==> valid_utf8(self.query@)
        &&& self.payload@.len() > 0 ==> valid_utf8(self.payload@)
    }

    /// The message value a well-formed mirror stands for.
    pub open spec fn as_package_view(&self) -> PackageView {
        PackageView {
            id: self.id,
            message_type: if self.message_type == 0 {
                MessageType::Query
            } else {
                MessageType::Response
            },
            bold: self.bold,
            italic: self.italic,
            underlined: self.underlined,
            blink: self.blink,
            red: self.red,
            green: self.green,
            blue: self.blue,
            query: if self.query@.len() == 0 {
                None
            } else {
                Some(decode_utf8(self.query@))
            },
            payload: if self.payload@.len() == 0 {
                None
            } else {
                Some(decode_utf8(self.payload@))
            },
        }
    }

    /// Mirror a message: copy the plain fields and move each present
    /// string's UTF-8 bytes into an owned buffer of its own.
    pub fn from(pkg: Package) -> (r: CPackage)
        ensures
            r.wf(),
            r.id == pkg@.id,
            r.message_type == (if pkg@.message_type == MessageType::Response {
                1u8
            } else {
                0u8
            }),
            r.bold == pkg@.bold,
            r.italic == pkg@.italic,
            r.underlined == pkg@.underlined,
            r.blink == pkg@.blink,
            r.red == pkg@.red,
            r.green == pkg@.green,
            r.blue == pkg@.blue,
            r.query@ == bytes_of_text(pkg@.query),
            r.payload@ == bytes_of_text(pkg@.payload),
    {
        let message_type: u8 = match pkg.message_type {
            MessageType::Query => 0,
            MessageType::Response => 1,
        };
        let query: Vec<u8> = match &pkg.query {
            None => Vec::new(),
            Some(q) => q.as_str().as_bytes_vec(),
        };
        let payload: Vec<u8> = match &pkg.payload {
            None => Vec::new(),
            Some(p) => p.as_str().as_bytes_vec(),
        };
        proof {
            match pkg@.query {
                Some(cs) => vstd::utf8::encode_utf8_valid_utf8(cs),
                None => {},
            }
            match pkg@.payload {
                Some(cs) => vstd::utf8::encode_utf8_valid_utf8(cs),
                None => {},
            }
        }
        let query_len = query.len();
        let payload_len = payload.len();
        CPackage {
            id: pkg.id,
            message_type,
            bold: pkg.bold,
            italic: pkg.italic,
            underlined: pkg.underlined,
            blink: pkg.blink,
            red: pkg.red,
            green: pkg.green,
            blue: pkg.blue,
            query_len,
            query,
            payload_len,
            payload,
        }
    }
}

impl Package {
    /// Rebuild a message from a well-formed mirror. A mirror whose
    /// buffers do not spell valid UTF-8 is outside the boundary contract.
    pub fn from(c_pkg: &CPackage) -> (r: Package)
        requires
            c_pkg.wf(),
        ensures
            r@ == c_pkg.as_package_view(),
    {
        let message_type = if c_pkg.message_type == 0 {
            MessageType::Query
        } else {
            MessageType::Response
        };
        let query: Option<String> = if c_pkg.query_len > 0 {
            match bytes_to_string(c_pkg.query.as_slice()) {
                Some(s) => Some(s),
                None => {
                    proof {
                        assert(false);
                    }
                    unreached()
                },
            }
        } else {
            None
        };
        let payload: Option<String> = if c_pkg.payload_len > 0 {
            match bytes_to_string(c_pkg.payload.as_slice()) {
                Some(s) => Some(s),
                None => {
                    proof {
                        assert(false);
                    }
                    unreached()
                },
            }
        } else {
            None
        };
        Package {
            id: c_pkg.id,
            message_type,
            bold: c_pkg.bold,
            italic: c_pkg.italic,
            underlined: c_pkg.underlined,
            blink: c_pkg.blink,
            red: c_pkg.red,
            green: c_pkg.green,
            blue: c_pkg.blue,
            query,
            payload,
        }
    }
}

/// Decode a raw buffer and materialize the mirror a foreign caller takes
/// ownership of: the codec decode, then fresh owned copies of the decoded
/// strings' bytes. Exactly the buffers the codec decodes are mirrored.
pub fn decode_for_foreign(buffer: &[u8]) -> (r: Result<CPackage, DecodeError>)
    ensures
        match parse_package(buffer@) {
            Ok((v, n)) => (r matches Ok(c) && c.wf()) && (r matches Ok(c) && c.as_package_view()
                == v),
            Err(e) => r == Err::<CPackage, DecodeError>(e),
        },
{
    let mut decoder = Decoder::new(buffer);
    proof {
        assert(decoder.remaining() =~= buffer@);
    }
    let pkg = match Package::read(&mut decoder) {
        Ok(p) => p,
        Err(e) => {
            return Err(e);
        },
    };
    let ghost v = pkg@;
    let mirror = CPackage::from(pkg);
    proof {
        let n = parse_package(buffer@)->Ok_0.1;
        crate::package::lemma_parsed_strings_nonempty(buffer@, v, n);
        lemma_mirror_of_decoded(v, mirror);
    }
    Ok(mirror)
}

/// A mirror built from a decoded message stands for that message: the
/// codec never decodes a present string to the empty one, so mirroring
/// through byte buffers loses nothing.
proof fn lemma_mirror_of_decoded(v: PackageView, mirror: CPackage)
    requires
        mirror.wf(),
        mirror.id == v.id,
        mirror.message_type == (if v.message_type == MessageType::Response {
            1u8
        } else {
            0u8
        }),
        mirror.bold == v.bold,
        mirror.italic == v.italic,
        mirror.underlined == v.underlined,
        mirror.blink == v.blink,
        mirror.red == v.red,
        mirror.green == v.green,
        mirror.blue == v.blue,
        mirror.query@ == bytes_of_text(v.query),
        mirror.payload@ == bytes_of_text(v.payload),
        v.query matches Some(q) ==> q.len() > 0,
        v.payload matches Some(p) ==> p.len() > 0,
    ensures
        mirror.as_package_view() == v,
{
    lemma_text_of_bytes_of_text(v.query);
    lemma_text_of_bytes_of_text(v.payload);
}

/// Encoding a nonempty optional string to bytes and reading the bytes
/// back as characters returns the string.
proof fn lemma_text_of_bytes_of_text(s: Option<Seq<char>>)
    requires
        s matches Some(cs) ==> cs.len() > 0,
    ensures
        s matches Some(cs) ==> bytes_of_text(s).len() > 0 && decode_utf8(bytes_of_text(s)) == cs,
        s is None ==> bytes_of_text(s).len() == 0,
{
    match s {
        Some(cs) => {
            vstd::utf8::encode_utf8_decode_utf8(cs);
            if encode_utf8(cs).len() == 0 {
                assert(decode_utf8(encode_utf8(cs)) =~= Seq::<char>::empty());
            }
        },
        None => {},
    }
}

/// Encode a mirror into a fresh buffer a foreign caller takes ownership
/// of, returning the buffer and its length. When a string does not fit
/// its 16-bit length prefix the call fails and writes nothing.
pub fn encode_for_foreign(package: &CPackage) -> (r: Result<(Vec<u8>, usize), EncodeError>)
    requires
        package.wf(),
    ensures
        spec_encodable(package.as_package_view()) ==> (r matches Ok((buf, len)) && buf@
            == spec_wire(package.as_package_view()) && len == buf@.len()),
        !spec_encodable(package.as_package_view()) ==> r == Err::<(Vec<u8>, usize), EncodeError>(
            if package.as_package_view().query matches Some(q) && encode_utf8(q).len() > 0xFFFF {
                EncodeError::QueryTooLong
            } else {
                EncodeError::PayloadTooLong
            },
        ),
{
    let pkg = Package::from(package);
    let mut encoder = Encoder::new(Vec::new());
    let written = match pkg.write(&mut encoder) {
        Ok(n) => n,
        Err(e) => {
            return Err(e);
        },
    };
    Ok((encoder.into_bytes(), written))
}

} // verus!
