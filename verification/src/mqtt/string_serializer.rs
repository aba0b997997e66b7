//! Byte-level (de)serialization of plain string payloads.
//!
//! The transport layer implements its serializer interface on a copy of
//! this type; the encoding itself is specified here: a string payload is
//! exactly its UTF-8 bytes.
use vstd::prelude::*;

use vstd::utf8::encode_utf8;
use vstd::utf8::valid_utf8;

verus! {

/// Serializes string payloads as their UTF-8 bytes.
#[derive(Debug, PartialEq, Eq, Structural, Clone, Copy)]
pub struct JsonSerializer;

/// Relies on str::from_utf8: accepts exactly the valid UTF-8 byte
/// sequences and decodes them.
#[verifier::external_body]
fn utf8_to_string(bytes: &[u8]) -> (r: Option<String>)
    ensures
        r is Some <==> valid_utf8(bytes@),
        r matches Some(s) ==> encode_utf8(s@) == bytes@,
{
    core::str::from_utf8(bytes).ok().map(|s| s.to_string())
}

impl JsonSerializer {
    /// A string payload's wire form: its UTF-8 bytes.
    pub fn serialize(&self, data: &String) -> (r: Vec<u8>)
        ensures
            r@ == encode_utf8(data@),
    {
        data.as_str().as_bytes_vec()
    }

    /// Decode a wire payload; exactly the valid UTF-8 byte sequences are
    /// accepted.
    pub fn deserialize(&self, bytes: &[u8]) -> (r: Option<String>)
        ensures
            r is Some <==> valid_utf8(bytes@),
            r matches Some(s) ==> encode_utf8(s@) == bytes@,
    {
        utf8_to_string(bytes)
    }
}

} // verus!
