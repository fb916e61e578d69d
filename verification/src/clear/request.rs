//! The request to clear a topic.
use vstd::prelude::*;
use vstd::utf8::encode_utf8;

use crate::clear::wire::{
    bool_byte, decode_bool, decode_text, encode_bool, encode_text, law_bool_is_read_back,
    law_text_is_read_back, read_bool, read_text, text_bytes,
};
use crate::text::text_eq;

verus! {

/// The version of all requests about objects.
pub const COMMON_VERSION: i16 = 19;

/// The first version in which requests about objects carry the kind of the object.
pub const DYN_OBJ: i16 = 11;

/// The first version in which there is a request to clear an object.
pub const MIN_CLEAR_VERSION: i16 = 1;

/// The kind of topics.
pub const TOPIC_LABEL: &'static str = "Topic";

/// The request to clear all data of an object, which stays itself.
#[derive(Debug)]
pub struct ClearRequest<K> {
    key: K,
    reset_high_watermark: bool,
}

impl<K> ClearRequest<K> {
    /// The object to clear.
    pub closed spec fn target(self) -> K {
        self.key
    }

    /// Whether readers start over.
    pub closed spec fn resets(self) -> bool {
        self.reset_high_watermark
    }

    /// The request to clear an object and to leave its high watermark alone.
    pub fn new(key: K) -> (r: ClearRequest<K>)
        ensures
            r.target() == key,
            !r.resets(),
    {
        ClearRequest { key, reset_high_watermark: false }
    }

    /// The request to clear an object, and its high watermark too where `reset_hw` says so.
    pub fn with_reset_hw(key: K, reset_hw: bool) -> (r: ClearRequest<K>)
        ensures
            r.target() == key,
            r.resets() == reset_hw,
    {
        ClearRequest { key, reset_high_watermark: reset_hw }
    }

    pub fn key(self) -> (k: K)
        ensures
            k == self.target(),
    {
        self.key
    }

    pub fn reset_high_watermark(&self) -> (b: bool)
        ensures
            b == self.resets(),
    {
        self.reset_high_watermark
    }
}

/// A request to clear an object of some kind, as bytes.
#[derive(Debug)]
pub struct ObjectApiClearRequest {
    pub version: i16,
    /// The kind of the object.
    pub ty: String,
    pub buf: Vec<u8>,
}

/// A request as bytes.
pub open spec fn request_bytes(key: Seq<char>, reset: bool) -> Seq<u8> {
    text_bytes(key) + bool_byte(reset)
}

/// The request that some bytes hold. What stands behind it does not matter.
pub open spec fn read_request(src: Seq<u8>) -> Option<(Seq<char>, bool)> {
    match read_text(src) {
        Some((key, rest)) => match read_bool(rest) {
            Some((reset, _)) => Some((key, reset)),
            None => None,
        },
        None => None,
    }
}

/// A request that was put into bytes is read back as it was: for keys whose length fits the sign bit
/// and 15 bits.
pub proof fn law_request_is_read_back(key: Seq<char>, reset: bool)
    requires
        encode_utf8(key).len() <= i16::MAX,
    ensures
        read_request(request_bytes(key, reset)) == Some((key, reset)),
{
    law_text_is_read_back(key, bool_byte(reset));
    law_bool_is_read_back(reset, Seq::empty());
    assert(bool_byte(reset) + Seq::<u8>::empty() =~= bool_byte(reset));
}

/// A request on the wire is the number of bytes of the key, in two bytes with the high one first, the
/// key, and a byte that is one where readers start over and zero where they do not.
pub proof fn law_request_on_the_wire(key: Seq<char>, reset: bool)
    requires
        encode_utf8(key).len() <= i16::MAX,
    ensures
        ({
            let bytes = request_bytes(key, reset);
            let n = encode_utf8(key).len() as int;
            &&& bytes.len() == n + 3
            &&& bytes[0] * 0x100 + bytes[1] == n
            &&& bytes.subrange(2, 2 + n) == encode_utf8(key)
            &&& bytes[n + 2] == (if reset {
                1u8
            } else {
                0u8
            })
        }),
{
    let bytes = request_bytes(key, reset);
    let n = encode_utf8(key).len() as int;
    assert(text_bytes(key).len() == n + 2);
    assert(bytes.subrange(2, 2 + n) =~= encode_utf8(key));
    assert(bytes[0] == (n / 0x100) as u8 && bytes[1] == (n % 0x100) as u8);
    assert(0 <= n / 0x100 < 0x100 && 0 <= n % 0x100 < 0x100);
    assert(n / 0x100 * 0x100 + n % 0x100 == n);
}

impl ObjectApiClearRequest {
    /// Puts a request into bytes, for an object of the kind `label`. This fails only where the bytes
    /// would not fit into memory.
    pub fn try_encode_from(input: ClearRequest<String>, label: &str, version: i16) -> (r: Result<
        ObjectApiClearRequest,
        std::io::Error,
    >)
        ensures
            (match r {
                Ok(request) => {
                    &&& request.version == version
                    &&& request.ty@ == label@
                    &&& request.buf@ == request_bytes(input.target()@, input.resets())
                },
                Err(_) => encode_utf8(input.target()@).len() + 3 > isize::MAX,
            }),
    {
        let mut buf: Vec<u8> = Vec::new();
        let ghost empty = buf@;
        assert(empty + text_bytes(input.target()@) =~= text_bytes(input.target()@));
        match encode_text(&input.key, &mut buf, version) {
            Ok(_) => {},
            Err(e) => {
                return Err(e);
            },
        }
        assert(text_bytes(input.target()@).len() == 2 + encode_utf8(input.target()@).len());
        match encode_bool(input.reset_high_watermark, &mut buf, version) {
            Ok(_) => {},
            Err(e) => {
                return Err(e);
            },
        }
        Ok(ObjectApiClearRequest { version, ty: label.to_owned(), buf })
    }

    /// The request, where it is about an object of the kind `label`.
    pub fn downcast(&self, label: &str) -> (r: Result<
        Option<ClearRequest<String>>,
        std::io::Error,
    >)
        ensures
            (match r {
                Ok(Some(request)) => self.ty@ == label@ && read_request(self.buf@) == Some(
                    (request.target()@, request.resets()),
                ),
                Ok(None) => self.ty@ != label@,
                Err(_) => self.ty@ == label@ && read_request(self.buf@) is None,
            }),
    {
        if !text_eq(self.ty.as_str(), label) {
            return Ok(None);
        }
        let (key, rest) = match decode_text(self.buf.as_slice(), self.version) {
            Ok(parts) => parts,
            Err(e) => {
                return Err(e);
            },
        };
        let (reset, _) = match decode_bool(rest.as_slice(), self.version) {
            Ok(parts) => parts,
            Err(e) => {
                return Err(e);
            },
        };
        Ok(Some(ClearRequest { key, reset_high_watermark: reset }))
    }
}

} // verus!
