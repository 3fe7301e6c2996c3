//! MQTT Binary Data: a two-byte big-endian length followed by the bytes.
use crate::mqtt::common::bytes::{copy_range, extend_bytes};
use crate::mqtt::packet::packet_id::{be_bytes, be_value, lemma_be_roundtrip, lemma_be_value_roundtrip, lemma_pow256_values, pow256};
use crate::mqtt::result_code::MqttError;
use vstd::prelude::*;

verus! {

/// The wire form of binary data `s`: its length as two big-endian bytes, then `s`.
pub open spec fn length_prefixed(s: Seq<u8>) -> Seq<u8> {
    be_bytes(s.len(), 2) + s
}

/// The length prefix of `data` (its first two bytes, big-endian).
pub open spec fn prefix_length(data: Seq<u8>) -> nat {
    be_value(data.subrange(0, 2))
}

/// The length prefix of `length_prefixed(s)` is the length of `s`.
pub proof fn lemma_length_prefixed(s: Seq<u8>)
    requires
        s.len() <= 65535,
    ensures
        length_prefixed(s).len() == s.len() + 2,
        prefix_length(length_prefixed(s)) == s.len(),
        length_prefixed(s).subrange(2, length_prefixed(s).len() as int) == s,
{
    lemma_pow256_values();
    lemma_be_roundtrip(s.len(), 2);
    let e = length_prefixed(s);
    assert(e.subrange(0, 2) =~= be_bytes(s.len(), 2));
    assert(e.subrange(2, e.len() as int) =~= s);
}

/// Reading the wire form of `s`, whatever follows it, finds `s` again and takes
/// exactly the wire form: what `decode` gives back of what `new` encoded.
pub proof fn lemma_decode_wire(s: Seq<u8>, rest: Seq<u8>)
    requires
        s.len() <= 65535,
    ensures
        ({
            let d = length_prefixed(s) + rest;
            &&& d.len() >= 2 + prefix_length(d)
            &&& prefix_length(d) == s.len()
            &&& d.subrange(0, 2 + s.len() as int) == length_prefixed(s)
            &&& d.subrange(2, 2 + s.len() as int) == s
        }),
{
    lemma_length_prefixed(s);
    let e = length_prefixed(s);
    let d = e + rest;
    assert(d.subrange(0, 2) =~= e.subrange(0, 2));
    assert(d.subrange(0, 2 + s.len() as int) =~= e);
    assert(d.subrange(2, 2 + s.len() as int) =~= e.subrange(2, e.len() as int));
}

/// Builds the two length bytes of `len`.
pub(crate) fn length_bytes(len: usize) -> (r: Vec<u8>)
    requires
        len <= 65535,
    ensures
        r@ == be_bytes(len as nat, 2),
{
    let mut v = Vec::new();
    v.push((len / 256) as u8);
    v.push((len % 256) as u8);
    proof {
        reveal_with_fuel(be_bytes, 3);
        assert(v@ =~= be_bytes(len as nat, 2));
    }
    v
}

/// Reads the two length bytes at the start of `data`.
pub(crate) fn read_length(data: &[u8]) -> (r: usize)
    requires
        data@.len() >= 2,
    ensures
        r == prefix_length(data@),
        r <= 65535,
{
    let r = (data[0] as usize) * 256 + (data[1] as usize);
    proof {
        reveal_with_fuel(be_value, 3);
        let s = data@.subrange(0, 2);
        assert(s.drop_last().drop_last() =~= Seq::<u8>::empty());
        assert(s.drop_last().last() == data@[0]);
    }
    r
}

/// Length-prefixed binary data, kept in its wire form.
#[derive(Debug, Clone, PartialEq, Eq, PartialOrd, Ord)]
pub struct MqttBinary {
    encoded: Vec<u8>,
}

impl MqttBinary {
    /// The wire form is a length prefix matching the data.
    pub closed spec fn wf(&self) -> bool {
        &&& self.encoded@.len() >= 2
        &&& self.encoded@.len() <= 65537
        &&& self.encoded@ == length_prefixed(self.encoded@.subrange(2, self.encoded@.len() as int))
    }

    /// The data bytes.
    pub closed spec fn data(&self) -> Seq<u8> {
        self.encoded@.subrange(2, self.encoded@.len() as int)
    }

    /// The wire form.
    pub closed spec fn wire(&self) -> Seq<u8> {
        self.encoded@
    }

    /// Wraps `data`; fails with `MalformedPacket` when it is longer than 65535 bytes.
    pub fn new(data: &[u8]) -> (r: Result<Self, MqttError>)
        ensures
            r is Ok <==> data@.len() <= 65535,
            r matches Ok(b) ==> b.wf() && b.data() == data@ && b.wire() == length_prefixed(data@),
            r matches Err(e) ==> e == MqttError::MalformedPacket,
    {
        if data.len() > 65535 {
            return Err(MqttError::MalformedPacket);
        }
        let mut encoded = length_bytes(data.len());
        extend_bytes(&mut encoded, data);
        proof {
            lemma_length_prefixed(data@);
        }
        Ok(Self { encoded })
    }

    /// The wire form (length prefix and data).
    pub fn as_bytes(&self) -> (r: &[u8])
        ensures
            r@ == self.wire(),
    {
        self.encoded.as_slice()
    }

    /// The data bytes.
    pub fn as_slice(&self) -> (r: &[u8])
        requires
            self.wf(),
        ensures
            r@ == self.data(),
    {
        vstd::slice::slice_subrange(self.encoded.as_slice(), 2, self.encoded.len())
    }

    /// The number of data bytes.
    pub fn len(&self) -> (r: usize)
        requires
            self.wf(),
        ensures
            r == self.data().len(),
    {
        self.encoded.len() - 2
    }

    /// Whether there are no data bytes.
    pub fn is_empty(&self) -> (r: bool)
        requires
            self.wf(),
        ensures
            r == (self.data().len() == 0),
    {
        self.encoded.len() <= 2
    }

    /// The size of the wire form.
    pub fn size(&self) -> (r: usize)
        requires
            self.wf(),
        ensures
            r == self.wire().len(),
            r == self.data().len() + 2,
    {
        self.encoded.len()
    }

    /// Reads binary data from the start of `data`, returning it and the number of
    /// bytes it takes. Fails with `MalformedPacket` when `data` is shorter than
    /// two bytes or than the announced length.
    pub fn decode(data: &[u8]) -> (r: Result<(Self, usize), MqttError>)
        ensures
            r is Ok <==> (data@.len() >= 2 && data@.len() >= 2 + prefix_length(data@)),
            r matches Ok((b, n)) ==> {
                &&& b.wf()
                &&& n == 2 + prefix_length(data@)
                &&& b.wire() == data@.subrange(0, n as int)
                &&& b.data() == data@.subrange(2, n as int)
            },
            r matches Err(e) ==> e == MqttError::MalformedPacket,
    {
        if data.len() < 2 {
            return Err(MqttError::MalformedPacket);
        }
        let data_len = read_length(data);
        if data.len() < 2 + data_len {
            return Err(MqttError::MalformedPacket);
        }
        let encoded = copy_range(data, 0, 2 + data_len);
        proof {
            let d = data@.subrange(2, 2 + data_len as int);
            lemma_length_prefixed(d);
            lemma_be_value_roundtrip(data@.subrange(0, 2));
            assert(encoded@ =~= be_bytes(data_len as nat, 2) + d);
            assert(encoded@.subrange(2, encoded@.len() as int) =~= d);
        }
        Ok((Self { encoded }, 2 + data_len))
    }
}

impl Default for MqttBinary {
    fn default() -> (r: Self)
        ensures
            r.wf(),
            r.data() == Seq::<u8>::empty(),
    {
        let encoded = length_bytes(0);
        proof {
            lemma_length_prefixed(Seq::<u8>::empty());
            assert(encoded@ =~= length_prefixed(Seq::<u8>::empty()));
        }
        Self { encoded }
    }
}

} // verus!
