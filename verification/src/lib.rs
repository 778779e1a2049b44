//! A small styled-text request/response protocol: the byte-exact wire codec
//! for its one message type (`Package`), a plain-data mirror of that message
//! for callers outside the managed runtime, and the server-side dispatch rule
//! that maps an incoming query to a canned response.
//!
//! The wire layout is, in order: a 16-bit big-endian correlation id, one
//! packed flags byte (direction and four style bits), three colour bytes,
//! and two length-prefixed optional UTF-8 strings (query, then payload).
//! A length prefix of zero encodes an absent string.

mod codec;
mod config;
mod dispatch;
mod foreign;
mod package;

pub use codec::be16;
pub use codec::be16_bytes;
pub use codec::be32;
pub use codec::be32_bytes;
pub use codec::lemma_be16_round_trip;
pub use codec::lemma_be32_round_trip;
pub use codec::DecodeError;
pub use codec::DecodeErrorKind;
pub use codec::Decoder;
pub use codec::EncodeError;
pub use codec::Encoder;
pub use codec::Serialisable;
pub use codec::WireField;
pub use config::parse_port;
pub use config::spec_parse_port;
pub use config::Config;
pub use dispatch::lemma_dispatch_preserves_identity;
pub use dispatch::lookup_message;
pub use dispatch::map_of_entries;
pub use dispatch::spec_lookup;
pub use dispatch::spec_lookup_key;
pub use dispatch::DispatchTable;
pub use foreign::bytes_of_text;
pub use foreign::decode_for_foreign;
pub use foreign::encode_for_foreign;
pub use foreign::CPackage;
pub use package::default_package_view;
pub use package::parse_package;
pub use package::spec_encodable;
pub use package::spec_flags_byte;
pub use package::spec_string_field;
pub use package::spec_text_len;
pub use package::spec_payload_length;
pub use package::spec_query_length;
pub use package::spec_wire;
pub use package::view_of_text;
pub use package::lemma_absence_vs_empty;
pub use package::lemma_flags_byte_bits;
pub use package::lemma_invalid_payload_text_fails;
pub use package::lemma_invalid_query_text_fails;
pub use package::lemma_oversized_payload_length_underruns;
pub use package::lemma_oversized_query_length_underruns;
pub use package::lemma_parse_ignores_reserved_bits;
pub use package::lemma_parsed_strings_nonempty;
pub use package::lemma_reserved_bits_ignored;
pub use package::lemma_round_trip;
pub use package::lemma_short_buffer_underruns;
pub use package::MessageType;
pub use package::Package;
pub use package::PackageView;
