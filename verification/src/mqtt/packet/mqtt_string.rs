//! MQTT UTF-8 Encoded String: a two-byte big-endian length followed by UTF-8 text.
use crate::mqtt::common::bytes::{copy_range, extend_bytes};
use crate::mqtt::common::text::{str_contains_char, str_ends_with, str_from_utf8, str_starts_with};
use crate::mqtt::packet::mqtt_binary::{
    length_bytes, length_prefixed, lemma_decode_wire, lemma_length_prefixed, prefix_length,
    read_length,
};
use crate::mqtt::packet::packet_id::{be_bytes, lemma_be_value_roundtrip};
use crate::mqtt::result_code::MqttError;
use vstd::prelude::*;
use vstd::string::StringSliceAdditionalSpecFns;
use vstd::utf8::{decode_utf8, encode_utf8, encode_utf8_decode_utf8, encode_utf8_valid_utf8, valid_utf8, decode_utf8_encode_utf8};

verus! {

/// A length-prefixed UTF-8 string, kept in its wire form.
///
/// A wire form of at most `STACK_BUFFER_SIZE` bytes is kept inline in a fixed
/// buffer (`Small`, with the number of bytes used); a longer one on the heap
/// (`Large`).
#[derive(Debug, PartialEq, Eq, PartialOrd, Ord)]
pub enum GenericMqttString<const STACK_BUFFER_SIZE: usize> {
    /// An inline buffer and the number of its bytes that hold the wire form.
    Small([u8; STACK_BUFFER_SIZE], usize),
    /// The wire form on the heap.
    Large(Vec<u8>),
}

/// The string type with the default small-string size.
pub type MqttString = GenericMqttString<32>;

/// The first `n` bytes of `src` in a fresh inline buffer, the rest zero.
fn inline_buffer<const N: usize>(src: &[u8]) -> (r: [u8; N])
    requires
        src@.len() <= N,
    ensures
        r@.len() == N,
        r@.subrange(0, src@.len() as int) == src@,
{
    let mut buffer = [0u8; N];
    let mut i: usize = 0;
    while i < src.len()
        invariant
            i <= src@.len() <= N,
            buffer@.len() == N,
            forall|j: int| 0 <= j < i ==> buffer@[j] == src@[j],
        decreases src@.len() - i,
    {
        buffer[i] = src[i];
        i = i + 1;
    }
    proof {
        assert(buffer@.subrange(0, src@.len() as int) =~= src@);
    }
    buffer
}

impl<const STACK_BUFFER_SIZE: usize> GenericMqttString<STACK_BUFFER_SIZE> {
    /// The wire form is a length prefix followed by valid UTF-8 of that length, and
    /// an inline one fits its buffer.
    pub closed spec fn wf(&self) -> bool {
        &&& match self {
            GenericMqttString::Small(_, n) => 2 <= *n <= STACK_BUFFER_SIZE,
            GenericMqttString::Large(v) => v@.len() >= 2,
        }
        &&& self.wire().len() <= 65537
        &&& self.wire() == length_prefixed(self.utf8())
        &&& valid_utf8(self.utf8())
    }

    /// The UTF-8 bytes of the text.
    pub closed spec fn utf8(&self) -> Seq<u8> {
        self.wire().subrange(2, self.wire().len() as int)
    }

    /// The text.
    pub open spec fn text(&self) -> Seq<char> {
        decode_utf8(self.utf8())
    }

    /// The wire form.
    pub closed spec fn wire(&self) -> Seq<u8> {
        match self {
            GenericMqttString::Small(buf, n) => buf@.subrange(0, *n as int),
            GenericMqttString::Large(v) => v@,
        }
    }

    /// The wire form is kept inline exactly when it fits the inline buffer.
    pub open spec fn storage_fits(&self) -> bool {
        (self is Small) <==> self.wire().len() <= STACK_BUFFER_SIZE
    }

    /// The string holding the wire form `encoded`, inline when it fits.
    fn from_wire(encoded: Vec<u8>) -> (r: Self)
        ensures
            r.wire() == encoded@,
            r.storage_fits(),
            r.wf_storage(),
    {
        let total = encoded.len();
        if total <= STACK_BUFFER_SIZE {
            let buffer = inline_buffer::<STACK_BUFFER_SIZE>(encoded.as_slice());
            GenericMqttString::Small(buffer, total)
        } else {
            GenericMqttString::Large(encoded)
        }
    }

    /// An inline wire form fits its buffer.
    closed spec fn wf_storage(&self) -> bool {
        match self {
            GenericMqttString::Small(_, n) => *n <= STACK_BUFFER_SIZE,
            GenericMqttString::Large(_) => true,
        }
    }

    /// The wire form as a slice.
    fn encoded(&self) -> (r: &[u8])
        requires
            self.wf(),
        ensures
            r@ == self.wire(),
    {
        match self {
            GenericMqttString::Small(buf, n) => vstd::slice::slice_subrange(buf.as_slice(), 0, *n),
            GenericMqttString::Large(v) => v.as_slice(),
        }
    }

    /// A well-formed string's wire form is its UTF-8 bytes, at most 65535 of them,
    /// behind their length.
    pub proof fn lemma_wf(&self)
        requires
            self.wf(),
        ensures
            self.wire() == length_prefixed(self.utf8()),
            self.utf8().len() <= 65535,
            valid_utf8(self.utf8()),
    {
    }

    /// Reading a string's own wire form, whatever follows it, succeeds, takes
    /// exactly the wire form and finds the same UTF-8 bytes (so the same text):
    /// `decode` gives back what `new` encoded.
    pub proof fn lemma_decode_own_wire(&self, rest: Seq<u8>)
        requires
            self.wf(),
        ensures
            ({
                let d = self.wire() + rest;
                let n = 2 + prefix_length(d);
                &&& d.len() >= n
                &&& valid_utf8(d.subrange(2, n as int))
                &&& n == self.wire().len()
                &&& d.subrange(0, n as int) == self.wire()
                &&& d.subrange(2, n as int) == self.utf8()
            }),
    {
        lemma_decode_wire(self.utf8(), rest);
    }

    /// Encodes `s`; fails with `MalformedPacket` when its UTF-8 form is longer than
    /// 65535 bytes.
    pub fn new(s: &str) -> (r: Result<Self, MqttError>)
        ensures
            r is Ok <==> s.spec_bytes().len() <= 65535,
            r matches Ok(m) ==> m.wf() && m.utf8() == s.spec_bytes() && m.text() == s@
                && m.wire() == length_prefixed(s.spec_bytes()) && m.storage_fits(),
            r matches Err(e) ==> e == MqttError::MalformedPacket,
    {
        let bytes = s.as_bytes();
        if bytes.len() > 65535 {
            return Err(MqttError::MalformedPacket);
        }
        let mut encoded = length_bytes(bytes.len());
        extend_bytes(&mut encoded, bytes);
        proof {
            lemma_length_prefixed(bytes@);
            encode_utf8_valid_utf8(s@);
            encode_utf8_decode_utf8(s@);
        }
        Ok(Self::from_wire(encoded))
    }

    /// The wire form (length prefix and UTF-8 bytes).
    pub fn as_bytes(&self) -> (r: &[u8])
        requires
            self.wf(),
        ensures
            r@ == self.wire(),
    {
        self.encoded()
    }

    /// The text.
    pub fn as_str(&self) -> (r: &str)
        requires
            self.wf(),
        ensures
            r@ == self.text(),
            r.spec_bytes() == self.utf8(),
    {
        let all = self.encoded();
        let bytes = vstd::slice::slice_subrange(all, 2, all.len());
        match str_from_utf8(bytes) {
            Some(s) => {
                proof {
                    encode_utf8_decode_utf8(s@);
                }
                s
            },
            None => {
                proof {
                    assert(false);
                }
                ""
            },
        }
    }

    /// The number of UTF-8 bytes of the text.
    pub fn len(&self) -> (r: usize)
        requires
            self.wf(),
        ensures
            r == self.utf8().len(),
    {
        match self {
            GenericMqttString::Small(_, n) => *n - 2,
            GenericMqttString::Large(v) => v.len() - 2,
        }
    }

    /// Whether the text is empty.
    pub fn is_empty(&self) -> (r: bool)
        requires
            self.wf(),
        ensures
            r == (self.utf8().len() == 0),
    {
        match self {
            GenericMqttString::Small(_, n) => *n <= 2,
            GenericMqttString::Large(v) => v.len() <= 2,
        }
    }

    /// The size of the wire form.
    pub fn size(&self) -> (r: usize)
        requires
            self.wf(),
        ensures
            r == self.wire().len(),
            r == self.utf8().len() + 2,
            r <= 65537,
    {
        match self {
            GenericMqttString::Small(_, n) => *n,
            GenericMqttString::Large(v) => v.len(),
        }
    }

    /// A copy of the wire form.
    pub fn to_continuous_buffer(&self) -> (r: Vec<u8>)
        requires
            self.wf(),
        ensures
            r@ == self.wire(),
    {
        let mut v = Vec::new();
        extend_bytes(&mut v, self.encoded());
        v
    }

    /// Reads a string from the start of `data`, returning it and the number of bytes
    /// it takes. Fails with `MalformedPacket` when `data` is shorter than two bytes
    /// or than the announced length, or when the text is not valid UTF-8.
    pub fn decode(data: &[u8]) -> (r: Result<(Self, usize), MqttError>)
        ensures
            r is Ok <==> (data@.len() >= 2 && data@.len() >= 2 + prefix_length(data@) && valid_utf8(
                data@.subrange(2, 2 + prefix_length(data@) as int),
            )),
            r matches Ok((m, n)) ==> {
                &&& m.wf()
                &&& n == 2 + prefix_length(data@)
                &&& m.wire() == data@.subrange(0, n as int)
                &&& m.utf8() == data@.subrange(2, n as int)
                &&& m.storage_fits()
            },
            r matches Err(e) ==> e == MqttError::MalformedPacket,
    {
        if data.len() < 2 {
            return Err(MqttError::MalformedPacket);
        }
        let string_len = read_length(data);
        let total_size = 2 + string_len;
        if data.len() < total_size {
            return Err(MqttError::MalformedPacket);
        }
        let text = vstd::slice::slice_subrange(data, 2, total_size);
        if str_from_utf8(text).is_none() {
            return Err(MqttError::MalformedPacket);
        }
        let encoded = copy_range(data, 0, total_size);
        proof {
            let d = data@.subrange(2, total_size as int);
            lemma_length_prefixed(d);
            lemma_be_value_roundtrip(data@.subrange(0, 2));
            assert(encoded@ =~= be_bytes(string_len as nat, 2) + d);
            assert(encoded@.subrange(2, encoded@.len() as int) =~= d);
        }
        Ok((Self::from_wire(encoded), total_size))
    }

    /// Whether the text contains `c`.
    pub fn contains(&self, c: char) -> (r: bool)
        requires
            self.wf(),
        ensures
            r == self.text().contains(c),
    {
        str_contains_char(self.as_str(), c)
    }

    /// Whether the text starts with `prefix`.
    pub fn starts_with(&self, prefix: &str) -> (r: bool)
        requires
            self.wf(),
        ensures
            r == prefix@.is_prefix_of(self.text()),
    {
        str_starts_with(self.as_str(), prefix)
    }

    /// Whether the text ends with `suffix`.
    pub fn ends_with(&self, suffix: &str) -> (r: bool)
        requires
            self.wf(),
        ensures
            r == suffix@.is_suffix_of(self.text()),
    {
        str_ends_with(self.as_str(), suffix)
    }
}

impl<const STACK_BUFFER_SIZE: usize> Clone for GenericMqttString<STACK_BUFFER_SIZE> {
    fn clone(&self) -> (r: Self)
        ensures
            r.wire() == self.wire(),
            self.wf() ==> r.wf(),
            r.text() == self.text(),
            r is Small <==> self is Small,
    {
        match self {
            GenericMqttString::Small(buf, n) => GenericMqttString::Small(*buf, *n),
            GenericMqttString::Large(v) => {
                let mut encoded = Vec::new();
                extend_bytes(&mut encoded, v.as_slice());
                proof {
                    assert(encoded@ =~= v@);
                }
                GenericMqttString::Large(encoded)
            },
        }
    }
}

impl<const STACK_BUFFER_SIZE: usize> Default for GenericMqttString<STACK_BUFFER_SIZE> {
    /// The empty string (kept inline when the inline buffer has room for its two
    /// length bytes).
    fn default() -> (r: Self)
        ensures
            r.wf(),
            r.text() == Seq::<char>::empty(),
            r.storage_fits(),
    {
        let encoded = length_bytes(0);
        proof {
            lemma_length_prefixed(Seq::<u8>::empty());
            assert(encoded@ =~= length_prefixed(Seq::<u8>::empty()));
            assert(encoded@.subrange(2, 2) =~= Seq::<u8>::empty());
            assert(encode_utf8(Seq::<char>::empty()) =~= Seq::<u8>::empty());
            encode_utf8_valid_utf8(Seq::<char>::empty());
            encode_utf8_decode_utf8(Seq::<char>::empty());
        }
        Self::from_wire(encoded)
    }
}

} // verus!
