//! Subscription entries of SUBSCRIBE packets: a topic filter and an options byte.
use crate::mqtt::common::bytes::extend_bytes;
use crate::mqtt::packet::mqtt_binary::{lemma_length_prefixed, prefix_length};
use crate::mqtt::packet::mqtt_string::MqttString;
use crate::mqtt::packet::qos::Qos;
use crate::mqtt::packet::retain_handling::RetainHandling;
use crate::mqtt::result_code::MqttError;
use vstd::prelude::*;
use vstd::string::StringSliceAdditionalSpecFns;
use vstd::utf8::valid_utf8;

verus! {

/// Whether `b` is a valid subscription options byte: QoS (bits 0-1) and retain
/// handling (bits 4-5) at most 2, reserved bits 6-7 clear.
pub open spec fn valid_sub_opts(b: u8) -> bool {
    &&& b % 4 <= 2
    &&& (b / 16) % 4 <= 2
    &&& b < 64
}

/// An options byte is valid exactly when its QoS field (bits 0-1) is not 3, its
/// retain handling field (bits 4-5) is not 3 and its reserved bits 6-7 are clear.
pub proof fn lemma_valid_sub_opts(b: u8)
    ensures
        valid_sub_opts(b) <==> (b % 4 != 3 && (b / 16) % 4 != 3 && b / 64 == 0),
{
}

/// Subscription options: maximum QoS, No Local, Retain As Published and Retain
/// Handling, packed in one byte.
#[derive(Debug, Clone, Copy, PartialEq, Eq)]
pub struct SubOpts {
    opts: u8,
}

impl SubOpts {
    #[verifier::type_invariant]
    spec fn inv(&self) -> bool {
        valid_sub_opts(self.opts)
    }

    /// The options byte.
    pub closed spec fn spec_byte(&self) -> u8 {
        self.opts
    }

    /// Options with QoS 0, all flags clear and retained messages sent.
    pub fn new() -> (r: Self)
        ensures
            r.spec_byte() == 0,
    {
        SubOpts { opts: 0 }
    }

    /// Reads an options byte; fails with `MalformedPacket` when it is not valid.
    pub fn from_u8(b: u8) -> (r: Result<Self, MqttError>)
        ensures
            r is Ok <==> valid_sub_opts(b),
            r matches Ok(o) ==> o.spec_byte() == b,
            r matches Err(e) ==> e == MqttError::MalformedPacket,
    {
        if b % 4 <= 2 && (b / 16) % 4 <= 2 && b < 64 {
            Ok(SubOpts { opts: b })
        } else {
            Err(MqttError::MalformedPacket)
        }
    }

    /// The options byte.
    pub fn to_u8(&self) -> (r: u8)
        ensures
            r == self.spec_byte(),
            valid_sub_opts(r),
    {
        proof {
            use_type_invariant(self);
        }
        self.opts
    }

    /// The maximum QoS.
    pub fn qos(&self) -> (r: Qos)
        ensures
            r.spec_u8() == self.spec_byte() % 4,
    {
        proof {
            use_type_invariant(self);
        }
        match Qos::try_from_u8(self.opts % 4) {
            Some(q) => q,
            None => Qos::AtMostOnce,
        }
    }

    /// Sets the maximum QoS.
    pub fn set_qos(self, qos: Qos) -> (r: Self)
        ensures
            r.spec_byte() == self.spec_byte() - self.spec_byte() % 4 + qos.spec_u8(),
    {
        proof {
            use_type_invariant(&self);
        }
        SubOpts { opts: self.opts - self.opts % 4 + qos.to_u8() }
    }

    /// The No Local flag (bit 2).
    pub fn nl(&self) -> (r: bool)
        ensures
            r == ((self.spec_byte() / 4) % 2 == 1),
    {
        (self.opts / 4) % 2 == 1
    }

    /// Sets the No Local flag.
    pub fn set_nl(self, v: bool) -> (r: Self)
        ensures
            (r.spec_byte() / 4) % 2 == (if v { 1int } else { 0int }),
            r.spec_byte() % 4 == self.spec_byte() % 4,
            r.spec_byte() / 8 == self.spec_byte() / 8,
    {
        proof {
            use_type_invariant(&self);
        }
        let cleared = self.opts - ((self.opts / 4) % 2) * 4;
        SubOpts { opts: if v { cleared + 4 } else { cleared } }
    }

    /// The Retain As Published flag (bit 3).
    pub fn rap(&self) -> (r: bool)
        ensures
            r == ((self.spec_byte() / 8) % 2 == 1),
    {
        (self.opts / 8) % 2 == 1
    }

    /// Sets the Retain As Published flag.
    pub fn set_rap(self, v: bool) -> (r: Self)
        ensures
            (r.spec_byte() / 8) % 2 == (if v { 1int } else { 0int }),
            r.spec_byte() % 8 == self.spec_byte() % 8,
            r.spec_byte() / 16 == self.spec_byte() / 16,
    {
        proof {
            use_type_invariant(&self);
        }
        let cleared = self.opts - ((self.opts / 8) % 2) * 8;
        SubOpts { opts: if v { cleared + 8 } else { cleared } }
    }

    /// The retain handling option (bits 4-5).
    pub fn retain_handling(&self) -> (r: RetainHandling)
        ensures
            r.spec_u8() == (self.spec_byte() / 16) % 4,
    {
        proof {
            use_type_invariant(self);
        }
        match RetainHandling::try_from_u8((self.opts / 16) % 4) {
            Some(h) => h,
            None => RetainHandling::SendRetained,
        }
    }

    /// Sets the retain handling option.
    pub fn set_retain_handling(self, rh: RetainHandling) -> (r: Self)
        ensures
            (r.spec_byte() / 16) % 4 == rh.spec_u8(),
            r.spec_byte() % 16 == self.spec_byte() % 16,
    {
        proof {
            use_type_invariant(&self);
        }
        let low = self.opts % 16;
        SubOpts { opts: low + rh.to_u8() * 16 }
    }
}

/// Whether `s` starts with a subscription entry: a length-prefixed UTF-8 topic
/// filter followed by a valid options byte.
pub open spec fn entry_accepts(s: Seq<u8>) -> bool {
    &&& s.len() >= 2
    &&& s.len() >= 3 + prefix_length(s)
    &&& valid_utf8(s.subrange(2, 2 + prefix_length(s) as int))
    &&& valid_sub_opts(s[2 + prefix_length(s) as int])
}

/// The number of bytes of the subscription entry at the start of `s`.
pub open spec fn entry_len(s: Seq<u8>) -> nat {
    3 + prefix_length(s)
}

/// One subscription of a SUBSCRIBE packet.
#[derive(Debug, PartialEq, Eq)]
pub struct SubEntry {
    topic_filter: MqttString,
    sub_opts: SubOpts,
}

impl SubEntry {
    #[verifier::type_invariant]
    spec fn inv(&self) -> bool {
        self.topic_filter.wf()
    }

    /// The wire form: the length-prefixed topic filter, then the options byte.
    pub closed spec fn wire(&self) -> Seq<u8> {
        self.topic_filter.wire().push(self.sub_opts.spec_byte())
    }

    /// The topic filter.
    pub closed spec fn spec_topic_filter(&self) -> Seq<char> {
        self.topic_filter.text()
    }

    /// The options.
    pub closed spec fn spec_sub_opts(&self) -> SubOpts {
        self.sub_opts
    }

    /// An entry for `topic_filter` with `sub_opts`; fails with `MalformedPacket`
    /// when the filter's UTF-8 form is longer than 65535 bytes.
    pub fn new(topic_filter: &str, sub_opts: SubOpts) -> (r: Result<Self, MqttError>)
        ensures
            r is Ok <==> topic_filter.spec_bytes().len() <= 65535,
            r matches Ok(e) ==> e.spec_topic_filter() == topic_filter@ && e.spec_sub_opts()
                == sub_opts,
            r matches Err(e) ==> e == MqttError::MalformedPacket,
    {
        let topic_filter = MqttString::new(topic_filter)?;
        Ok(SubEntry { topic_filter, sub_opts })
    }

    /// The topic filter.
    pub fn topic_filter(&self) -> (r: &str)
        ensures
            r@ == self.spec_topic_filter(),
    {
        proof {
            use_type_invariant(self);
        }
        self.topic_filter.as_str()
    }

    /// The options.
    pub fn sub_opts(&self) -> (r: SubOpts)
        ensures
            r == self.spec_sub_opts(),
    {
        self.sub_opts
    }

    /// The size of the wire form.
    pub fn size(&self) -> (r: usize)
        ensures
            r == self.wire().len(),
            r <= 65538,
    {
        proof {
            use_type_invariant(self);
        }
        self.topic_filter.size() + 1
    }

    /// The wire form as one buffer; [`Self::parse`] accepts it and takes all of it.
    pub fn to_continuous_buffer(&self) -> (r: Vec<u8>)
        ensures
            r@ == self.wire(),
            entry_accepts(self.wire()),
            entry_len(self.wire()) == self.wire().len(),
    {
        proof {
            use_type_invariant(self);
            use_type_invariant(&self.sub_opts);
            self.topic_filter.lemma_wf();
            lemma_length_prefixed(self.topic_filter.utf8());
            let w = self.wire();
            let t = self.topic_filter.wire();
            assert(w.subrange(0, 2) =~= t.subrange(0, 2));
            assert(w.subrange(2, 2 + prefix_length(w) as int) =~= t.subrange(2, t.len() as int));
        }
        let mut buf = self.topic_filter.to_continuous_buffer();
        buf.push(self.sub_opts.to_u8());
        buf
    }

    /// Reads an entry from the start of `data`, returning it and the number of bytes
    /// it takes; fails with `MalformedPacket` when the topic filter or the options
    /// byte is missing or invalid.
    pub fn parse(data: &[u8]) -> (r: Result<(Self, usize), MqttError>)
        ensures
            r is Ok <==> entry_accepts(data@),
            r matches Ok((e, n)) ==> n == entry_len(data@) && e.wire() == data@.subrange(0, n as int),
            r matches Err(e) ==> e == MqttError::MalformedPacket,
    {
        let (topic_filter, consumed) = MqttString::decode(data)?;
        if consumed >= data.len() {
            return Err(MqttError::MalformedPacket);
        }
        let sub_opts = SubOpts::from_u8(data[consumed])?;
        let e = SubEntry { topic_filter, sub_opts };
        proof {
            assert(e.wire() =~= data@.subrange(0, consumed + 1));
        }
        Ok((e, consumed + 1))
    }
}

impl Clone for SubEntry {
    fn clone(&self) -> (r: Self)
        ensures
            r.wire() == self.wire(),
    {
        proof {
            use_type_invariant(self);
        }
        let topic_filter = self.topic_filter.clone();
        SubEntry { topic_filter, sub_opts: self.sub_opts }
    }
}

} // verus!
