//! Assembles MQTT frames (fixed header, remaining length, body) from a byte stream
//! that may arrive in pieces of any size.
use crate::mqtt::common::shared_bytes::{arc_as_slice, arc_from_vec};
use crate::mqtt::common::Cursor;
use crate::mqtt::packet::variable_byte_integer::{
    lemma_vbi_digits_append, lemma_vbi_encode, pow128, vbi_digits, vbi_encode, VBI_MAX,
};
use crate::mqtt::result_code::MqttError;
use std::sync::Arc;
use vstd::prelude::*;

verus! {

/// The number of remaining-length bytes of the frame prefix `s`, once its last one
/// (high bit clear) has arrived; at most four are accepted.
pub open spec fn length_field_len(s: Seq<u8>) -> Option<nat> {
    if s.len() >= 2 && s[1] < 128 {
        Some(1)
    } else if s.len() >= 3 && s[1] >= 128 && s[2] < 128 {
        Some(2)
    } else if s.len() >= 4 && s[1] >= 128 && s[2] >= 128 && s[3] < 128 {
        Some(3)
    } else if s.len() >= 5 && s[1] >= 128 && s[2] >= 128 && s[3] >= 128 && s[4] < 128 {
        Some(4)
    } else {
        None
    }
}

/// A fifth remaining-length byte has arrived: such frames are refused.
pub open spec fn length_field_too_long(s: Seq<u8>) -> bool {
    s.len() >= 6 && s[1] >= 128 && s[2] >= 128 && s[3] >= 128 && s[4] >= 128
}

/// The remaining length announced by a frame prefix whose length field is complete.
pub open spec fn announced_length(s: Seq<u8>) -> nat {
    match length_field_len(s) {
        Some(k) => vbi_digits(s.subrange(1, 1 + k as int)),
        None => 0,
    }
}

/// The size of the whole frame announced by `s`.
pub open spec fn frame_size(s: Seq<u8>) -> nat {
    match length_field_len(s) {
        Some(k) => 1 + k + announced_length(s),
        None => 0,
    }
}

/// `s` is a proper prefix of a frame that can still be completed.
pub open spec fn frame_partial(s: Seq<u8>) -> bool {
    &&& s.len() >= 1
    &&& match length_field_len(s) {
        None => !length_field_too_long(s),
        Some(k) => s.len() < frame_size(s),
    }
}

/// `s` is exactly one complete frame.
pub open spec fn frame_complete(s: Seq<u8>) -> bool {
    length_field_len(s) is Some && s.len() == frame_size(s)
}

/// `s` ends with a fifth remaining-length byte.
pub open spec fn frame_malformed(s: Seq<u8>) -> bool {
    length_field_len(s) is None && length_field_too_long(s)
}

/// The body (variable header and payload) of the complete frame `s`.
pub open spec fn frame_body(s: Seq<u8>) -> Seq<u8> {
    match length_field_len(s) {
        Some(k) => s.subrange(1 + k as int, s.len() as int),
        None => Seq::empty(),
    }
}

/// The bytes of a received packet body.
#[derive(Debug, Clone)]
pub enum PacketData {
    /// The body of any packet but PUBLISH.
    Normal(Vec<u8>),
    /// The body of a PUBLISH packet, shared so that its payload can be kept without copying.
    Publish(Arc<[u8]>),
}

impl PacketData {
    /// The body bytes.
    pub open spec fn bytes(&self) -> Seq<u8> {
        match self {
            PacketData::Normal(v) => v@,
            PacketData::Publish(a) => (**a)@,
        }
    }

    /// The body bytes.
    pub fn as_slice(&self) -> (r: &[u8])
        ensures
            r@ == self.bytes(),
    {
        match self {
            PacketData::Normal(vec) => vec.as_slice(),
            PacketData::Publish(arc) => arc_as_slice(arc),
        }
    }

    /// The number of body bytes.
    pub fn len(&self) -> (r: u32)
        requires
            self.bytes().len() <= u32::MAX,
        ensures
            r == self.bytes().len(),
    {
        let s = self.as_slice();
        s.len() as u32
    }

    /// Whether the body is empty.
    pub fn is_empty(&self) -> (r: bool)
        requires
            self.bytes().len() <= u32::MAX,
        ensures
            r == (self.bytes().len() == 0),
    {
        self.len() == 0
    }
}

/// A received frame: the fixed header byte and the body.
#[derive(Debug, Clone)]
pub struct RawPacket {
    fixed_header: u8,
    pub data: PacketData,
}

impl RawPacket {
    /// The fixed header byte.
    pub closed spec fn header(&self) -> u8 {
        self.fixed_header
    }

    /// The body bytes.
    pub closed spec fn body(&self) -> Seq<u8> {
        self.data.bytes()
    }

    /// Whether the body is held in a shared buffer.
    pub closed spec fn is_shared(&self) -> bool {
        self.data is Publish
    }

    /// The body bytes.
    pub fn data_as_slice(&self) -> (r: &[u8])
        ensures
            r@ == self.body(),
    {
        self.data.as_slice()
    }

    /// The packet type: the high four bits of the fixed header.
    pub fn packet_type(&self) -> (r: u8)
        ensures
            r == self.header() / 16,
    {
        self.fixed_header / 16
    }

    /// The flags: the low four bits of the fixed header.
    pub fn flags(&self) -> (r: u8)
        ensures
            r == self.header() % 16,
    {
        self.fixed_header % 16
    }

    /// Whether the frame is a PUBLISH packet (type 3).
    pub fn is_publish(&self) -> (r: bool)
        ensures
            r == (self.header() / 16 == 3),
    {
        self.packet_type() == 3
    }

    /// The body length.
    pub fn remaining_length(&self) -> (r: u32)
        requires
            self.body().len() <= u32::MAX,
        ensures
            r == self.body().len(),
    {
        self.data.len()
    }
}

/// What one call of [`PacketBuilder::feed`] produced.
#[derive(Debug)]
pub enum PacketBuildResult {
    /// A frame was completed.
    Complete(RawPacket),
    /// All available bytes were consumed and the frame is not complete yet.
    Incomplete,
    /// The frame is malformed.
    Error(MqttError),
}

/// Where the builder is inside the current frame.
#[derive(Debug, Clone, Copy, PartialEq, Eq, Structural)]
enum ReadState {
    FixedHeader,
    RemainingLength,
    Payload,
}

/// Builds frames from a byte stream.
pub struct PacketBuilder {
    state: ReadState,
    /// The fixed header byte followed by the remaining-length bytes read so far.
    header_buf: Vec<u8>,
    /// While reading the length, the value of the length bytes read so far; while
    /// reading the body, the number of body bytes still missing.
    remaining_length: usize,
    multiplier: u32,
    /// The body bytes read so far.
    raw_buf: Vec<u8>,
}

impl PacketBuilder {
    /// The bytes of the current frame received so far.
    pub closed spec fn pending(&self) -> Seq<u8> {
        self.header_buf@ + self.raw_buf@
    }

    /// The builder's internal invariant.
    pub closed spec fn wf(&self) -> bool {
        let h = self.header_buf@;
        &&& self.pending().len() == 0 || frame_partial(self.pending())
        &&& match self.state {
            ReadState::FixedHeader => {
                &&& h.len() == 0
                &&& self.raw_buf@.len() == 0
                &&& self.multiplier == 1
                &&& self.remaining_length == 0
            },
            ReadState::RemainingLength => {
                &&& 1 <= h.len() <= 5
                &&& forall|i: int| 1 <= i < h.len() ==> #[trigger] h[i] >= 128
                &&& self.multiplier == pow128((h.len() - 1) as nat)
                &&& self.remaining_length == vbi_digits(h.subrange(1, h.len() as int))
                &&& self.raw_buf@.len() == 0
            },
            ReadState::Payload => {
                &&& length_field_len(h) matches Some(k) && h.len() == 1 + k
                &&& self.raw_buf@.len() + self.remaining_length == announced_length(h)
                &&& self.remaining_length > 0
            },
        }
    }

    /// A builder waiting for the first byte of a frame.
    pub fn new() -> (r: Self)
        ensures
            r.wf(),
            r.pending() == Seq::<u8>::empty(),
    {
        let r = Self {
            state: ReadState::FixedHeader,
            header_buf: Vec::new(),
            remaining_length: 0,
            multiplier: 1,
            raw_buf: Vec::new(),
        };
        proof {
            assert(r.pending() =~= Seq::<u8>::empty());
        }
        r
    }

    /// Discards the current frame.
    pub fn reset(&mut self)
        ensures
            final(self).wf(),
            final(self).pending() == Seq::<u8>::empty(),
    {
        self.state = ReadState::FixedHeader;
        self.header_buf.clear();
        self.remaining_length = 0;
        self.multiplier = 1;
        self.raw_buf = Vec::new();
        proof {
            assert(self.pending() =~= Seq::<u8>::empty());
        }
    }

    /// The fixed header byte of the current frame, or zero before it arrives.
    fn get_packet_type(&self) -> (r: u8)
        ensures
            self.header_buf@.len() > 0 ==> r == self.header_buf@[0],
            self.header_buf@.len() == 0 ==> r == 0,
    {
        if self.header_buf.len() > 0 {
            self.header_buf[0]
        } else {
            0
        }
    }

    /// Whether the current frame is a PUBLISH packet.
    fn is_publish_packet(&self) -> (r: bool)
        ensures
            r == (self.header_buf@.len() > 0 && self.header_buf@[0] / 16 == 3),
    {
        self.get_packet_type() / 16 == 3
    }

    /// Packs the finished frame and starts over.
    fn finish(&mut self) -> (r: RawPacket)
        requires
            old(self).header_buf@.len() >= 1,
        ensures
            final(self).wf(),
            final(self).pending() == Seq::<u8>::empty(),
            r.header() == old(self).header_buf@[0],
            r.body() == old(self).raw_buf@,
            r.is_shared() <==> old(self).header_buf@[0] / 16 == 3,
    {
        let fixed_header = self.header_buf[0];
        let publish = self.is_publish_packet();
        let mut body = Vec::new();
        std::mem::swap(&mut body, &mut self.raw_buf);
        let data = if publish {
            PacketData::Publish(arc_from_vec(body))
        } else {
            PacketData::Normal(body)
        };
        self.reset();
        RawPacket { fixed_header, data }
    }

    /// Reads one remaining-length byte (one is available).
    fn read_length_byte(&mut self, data: &mut Cursor) -> (r: Option<PacketBuildResult>)
        requires
            old(self).wf(),
            old(self).state == ReadState::RemainingLength,
            old(data).rest().len() > 0,
        ensures
            final(self).wf(),
            final(data).data() == old(data).data(),
            final(data).pos() == old(data).pos() + 1,
            final(data).rest() == old(data).rest().drop_first(),
            ({
                let s = old(self).pending().push(old(data).rest()[0]);
                match r {
                    None => final(self).pending() == s && frame_partial(s),
                    Some(r) => !(r is Incomplete) && step_outcome(s, 0, 0, r, final(self).pending()),
                }
            }),
    {
        let b = data.read_byte().unwrap();
        let ghost h0 = self.header_buf@;
        let ghost before = self.pending();
        self.header_buf.push(b);
        proof {
            assert(self.pending() =~= before.push(b));
            reveal_with_fuel(pow128, 6);
        }
        if self.multiplier == 268435456 {
            proof {
                assert(self.header_buf@.len() == 6);
                assert(frame_malformed(self.pending()));
            }
            self.reset();
            return Some(PacketBuildResult::Error(MqttError::MalformedPacket));
        }
        proof {
            lemma_vbi_digits_append(h0.subrange(1, h0.len() as int), b);
            assert(self.header_buf@.subrange(1, self.header_buf@.len() as int) =~= h0.subrange(
                1,
                h0.len() as int,
            ).push(b));
            assert(self.multiplier <= 2097152);
            assert((b % 128) as nat * self.multiplier as nat <= 127 * 2097152) by (nonlinear_arith)
                requires
                    b % 128 <= 127,
                    self.multiplier <= 2097152,
            ;
            lemma_vbi_digits_bound(h0.subrange(1, h0.len() as int));
        }
        self.remaining_length = self.remaining_length + ((b % 128) as usize) * (
        self.multiplier as usize);
        self.multiplier = self.multiplier * 128;
        if b < 128 {
            proof {
                let h = self.header_buf@;
                assert(length_field_len(h) == Some((h.len() - 1) as nat));
                assert(h.subrange(1, 1 + (h.len() - 1)) =~= h.subrange(1, h.len() as int));
                assert(announced_length(h) == self.remaining_length);
                assert(self.pending() =~= h);
            }
            if self.remaining_length == 0 {
                proof {
                    assert(self.pending() =~= self.header_buf@);
                    assert(self.pending().subrange(
                        self.header_buf@.len() as int,
                        self.pending().len() as int,
                    ) =~= Seq::<u8>::empty());
                }
                let pkt = self.finish();
                proof {
                    let s = old(self).pending().push(old(data).rest()[0]);
                    assert(s == before.push(b));
                    assert(frame_complete(s));
                    assert(pkt.header() == s[0]);
                    assert(pkt.body() == frame_body(s));
                }
                Some(PacketBuildResult::Complete(pkt))
            } else {
                self.raw_buf = Vec::new();
                self.state = ReadState::Payload;
                proof {
                    assert(self.pending() =~= self.header_buf@);
                    let s = old(self).pending().push(old(data).rest()[0]);
                    assert(s == self.pending());
                    assert(frame_partial(s));
                }
                None
            }
        } else {
            proof {
                let h = self.header_buf@;
                assert(self.pending() =~= h);
                assert forall|i: int| 1 <= i < h.len() implies #[trigger] h[i] >= 128 by {
                    if i < h.len() - 1 {
                        assert(h[i] == h0[i]);
                    }
                }
                assert(h.len() <= 5);
                assert(length_field_len(h) is None);
                assert(!length_field_too_long(h));
                assert(frame_partial(h));
                assert(self.multiplier == pow128((self.header_buf@.len() - 1) as nat));
            }
            None
        }
    }

    /// Reads body bytes until the frame is complete or the input runs out.
    fn read_body(&mut self, data: &mut Cursor) -> (r: PacketBuildResult)
        requires
            old(self).wf(),
            old(self).state == ReadState::Payload,
        ensures
            final(self).wf(),
            final(data).data() == old(data).data(),
            ({
                let n = (final(data).pos() - old(data).pos()) as int;
                let i = old(data).rest();
                &&& 0 <= n <= i.len()
                &&& forall|m: int| 0 <= m < n ==> frame_partial(
                    #[trigger] (old(self).pending() + i.subrange(0, m)),
                )
                &&& step_outcome(old(self).pending() + i.subrange(0, n), n, i.len() as int, r, final(self).pending())
            }),
    {
        let ghost h = self.header_buf@;
        let ghost p0 = self.pending();
        let ghost input = data.rest();
        let ghost pos0 = data.pos();
        proof {
            assert(p0.subrange(0, h.len() as int) =~= h);
            lemma_frame_prefix_len(h, p0);
            assert(input.subrange(0, 0) =~= Seq::<u8>::empty());
            assert(p0 + input.subrange(0, 0) =~= p0);
            assert(data.rest() =~= input.subrange(0, input.len() as int));
        }
        while self.remaining_length > 0 && data.remaining() > 0
            invariant
                self.state == ReadState::Payload,
                self.header_buf@ == h,
                length_field_len(h) matches Some(k) && h.len() == 1 + k,
                self.raw_buf@.len() + self.remaining_length == announced_length(h),
                data.data() == old(data).data(),
                pos0 == old(data).pos(),
                input == old(data).rest(),
                p0 == old(self).pending(),
                pos0 <= data.pos() <= pos0 + input.len(),
                data.rest() == input.subrange((data.pos() - pos0) as int, input.len() as int),
                self.pending() == p0 + input.subrange(0, (data.pos() - pos0) as int),
                forall|m: int| 0 <= m < data.pos() - pos0 ==> frame_partial(
                    #[trigger] (p0 + input.subrange(0, m)),
                ),
                self.remaining_length > 0 ==> frame_partial(self.pending()),
                self.remaining_length == 0 ==> frame_complete(self.pending()),
            decreases self.remaining_length,
        {
            let ghost pend = self.pending();
            let ghost c = (data.pos() - pos0) as int;
            let b = data.read_byte().unwrap();
            self.raw_buf.push(b);
            self.remaining_length = self.remaining_length - 1;
            proof {
                assert(input.subrange(0, c + 1) =~= input.subrange(0, c).push(b));
                assert(self.pending() =~= pend.push(b));
                assert(data.rest() =~= input.subrange(c + 1, input.len() as int));
                assert(self.pending().subrange(0, h.len() as int) =~= h);
                lemma_frame_prefix_len(h, self.pending());
            }
        }
        if self.remaining_length == 0 {
            proof {
                assert(self.pending().subrange(0, h.len() as int) =~= h);
                lemma_frame_prefix_len(h, self.pending());
                assert(self.pending().subrange(h.len() as int, self.pending().len() as int)
                    =~= self.raw_buf@);
            }
            let pkt = self.finish();
            return PacketBuildResult::Complete(pkt);
        }
        proof {
            assert(input.subrange(0, (data.pos() - pos0) as int) =~= input);
        }
        PacketBuildResult::Incomplete
    }

    /// Reads bytes from `data` until the current frame is complete, found
    /// malformed, or the input runs out.
    ///
    /// Only the bytes of the current frame are consumed. A frame whose remaining
    /// length has a fifth byte is reported as `MalformedPacket` once that byte has
    /// been read.
    pub fn feed(&mut self, data: &mut Cursor) -> (r: PacketBuildResult)
        requires
            old(self).wf(),
        ensures
            final(self).wf(),
            final(data).data() == old(data).data(),
            ({
                let n = (final(data).pos() - old(data).pos()) as int;
                let i = old(data).rest();
                &&& 0 <= n <= i.len()
                &&& forall|m: int| 0 <= m < n ==> {
                    let t = #[trigger] (old(self).pending() + i.subrange(0, m));
                    t.len() == 0 || frame_partial(t)
                }
                &&& step_outcome(old(self).pending() + i.subrange(0, n), n, i.len() as int, r, final(self).pending())
            }),
    {
        let ghost p0 = self.pending();
        let ghost input = data.rest();
        let ghost pos0 = data.pos();
        proof {
            assert(input.subrange(0, 0) =~= Seq::<u8>::empty());
            assert(p0 + input.subrange(0, 0) =~= p0);
            assert(data.rest() =~= input.subrange(0, input.len() as int));
        }
        if data.remaining() == 0 {
            proof {
                assert(input.subrange(0, 0) =~= input);
            }
            return PacketBuildResult::Incomplete;
        }
        loop
            invariant
                self.wf(),
                data.data() == old(data).data(),
                pos0 == old(data).pos(),
                input == old(data).rest(),
                p0 == old(self).pending(),
                pos0 <= data.pos() <= pos0 + input.len(),
                data.rest() == input.subrange((data.pos() - pos0) as int, input.len() as int),
                self.pending() == p0 + input.subrange(0, (data.pos() - pos0) as int),
                forall|m: int| 0 <= m <= data.pos() - pos0 ==> {
                    let t = #[trigger] (p0 + input.subrange(0, m));
                    t.len() == 0 || frame_partial(t)
                },
            decreases data.rest().len(),
        {
            let ghost c = (data.pos() - pos0) as int;
            if data.remaining() == 0 {
                proof {
                    assert(input.subrange(0, c) =~= input);
                }
                return PacketBuildResult::Incomplete;
            }
            match self.state {
                ReadState::FixedHeader => {
                    let ghost before = self.pending();
                    let b = data.read_byte().unwrap();
                    self.header_buf.push(b);
                    self.state = ReadState::RemainingLength;
                    proof {
                        assert(input.subrange(0, c + 1) =~= input.subrange(0, c).push(b));
                        assert(self.pending() =~= before.push(b));
                        assert(self.header_buf@.subrange(1, 1) =~= Seq::<u8>::empty());
                        assert(vbi_digits(Seq::<u8>::empty()) == 0);
                        reveal_with_fuel(pow128, 2);
                        assert(data.rest() =~= input.subrange(c + 1, input.len() as int));
                    }
                },
                ReadState::RemainingLength => {
                    let ghost b = data.rest()[0];
                    let step = self.read_length_byte(data);
                    proof {
                        assert(input.subrange(0, c + 1) =~= input.subrange(0, c).push(b));
                        assert(data.rest() =~= input.subrange(c + 1, input.len() as int));
                    }
                    match step {
                        Some(r) => {
                            return r;
                        },
                        None => {},
                    }
                },
                ReadState::Payload => {
                    let ghost pend = self.pending();
                    let ghost rest = data.rest();
                    let r = self.read_body(data);
                    proof {
                        let n = (data.pos() - pos0) as int;
                        assert forall|m: int| 0 <= m < n implies {
                            let t = #[trigger] (p0 + input.subrange(0, m));
                            t.len() == 0 || frame_partial(t)
                        } by {
                            if m > c {
                                let d = m - c;
                                assert(input.subrange(0, m) =~= input.subrange(0, c) + rest.subrange(0, d));
                                assert(p0 + input.subrange(0, m) =~= pend + rest.subrange(0, d));
                            }
                        }
                        let d = n - c;
                        assert(input.subrange(0, n) =~= input.subrange(0, c) + rest.subrange(0, d));
                        assert(p0 + input.subrange(0, n) =~= pend + rest.subrange(0, d));
                    }
                    return r;
                },
            }
        }
    }
}

/// What one call of the builder produced, for the bytes `s` of the current frame
/// received so far, after consuming `n` of `avail` input bytes; `after` is what the
/// builder then holds.
pub open spec fn step_outcome(s: Seq<u8>, n: int, avail: int, r: PacketBuildResult, after: Seq<u8>) -> bool {
    match r {
        PacketBuildResult::Complete(p) => {
            &&& frame_complete(s)
            &&& p.header() == s[0]
            &&& p.body() == frame_body(s)
            &&& (p.is_shared() <==> s[0] / 16 == 3)
            &&& after == Seq::<u8>::empty()
        },
        PacketBuildResult::Incomplete => {
            &&& n == avail
            &&& s.len() == 0 || frame_partial(s)
            &&& after == s
        },
        PacketBuildResult::Error(e) => {
            &&& e == MqttError::MalformedPacket
            &&& frame_malformed(s)
            &&& after == Seq::<u8>::empty()
        },
    }
}

/// The 7-bit digits of `s` stay below `128` to the power of its length.
proof fn lemma_vbi_digits_bound(s: Seq<u8>)
    ensures
        vbi_digits(s) < pow128(s.len()),
    decreases s.len(),
{
    if s.len() > 0 {
        lemma_vbi_digits_bound(s.drop_first());
        let x = vbi_digits(s.drop_first());
        let p = pow128((s.len() - 1) as nat);
        assert((s[0] % 128) as nat + 128 * x < 128 * p) by (nonlinear_arith)
            requires
                x < p,
                s[0] % 128 < 128,
        ;
    }
}

/// A frame prefix that extends a complete length field shares its length field.
proof fn lemma_frame_prefix_len(h: Seq<u8>, s: Seq<u8>)
    requires
        length_field_len(h) is Some,
        h.len() == 1 + length_field_len(h)->0,
        h.len() <= s.len(),
        s.subrange(0, h.len() as int) == h,
    ensures
        length_field_len(s) == length_field_len(h),
        announced_length(s) == announced_length(h),
        frame_size(s) == frame_size(h),
{
    let k = length_field_len(h)->0;
    assert(s[0] == h[0]);
    assert(s[1] == h[1]);
    if k >= 2 {
        assert(s[2] == h[2]);
    }
    if k >= 3 {
        assert(s[3] == h[3]);
    }
    if k >= 4 {
        assert(s[4] == h[4]);
    }
    assert(s.subrange(1, 1 + k as int) =~= h.subrange(1, 1 + k as int));
}

/// A frame laid out as the protocol prescribes (header byte, remaining length as a
/// Variable Byte Integer of at most four bytes, then the body) is exactly one
/// complete frame with that header and body, and every shorter nonempty prefix of it
/// is an unfinished frame. So the builder hands back what the peer sent.
pub proof fn lemma_frame_layout(h: u8, body: Seq<u8>)
    requires
        body.len() <= VBI_MAX,
    ensures
        ({
            let s = seq![h] + vbi_encode(body.len()) + body;
            &&& frame_complete(s)
            &&& s[0] == h
            &&& frame_body(s) == body
            &&& forall|m: int| 1 <= m < s.len() ==> frame_partial(#[trigger] s.subrange(0, m))
        }),
{
    let l = body.len();
    let e = vbi_encode(l);
    lemma_vbi_encode(l);
    let k = e.len() as int;
    let s = seq![h] + e + body;
    assert(1 <= k <= 4);
    assert forall|i: int| 0 <= i < k implies s[1 + i] == #[trigger] e[i] by {}
    assert(s.subrange(1, 1 + k) =~= e);
    let hd = s.subrange(0, 1 + k);
    assert(hd.subrange(1, 1 + k) =~= e);
    assert(length_field_len(hd) == Some(k as nat)) by {
        assert(hd[1] == e[0]);
        if k >= 2 {
            assert(hd[2] == e[1]);
        }
        if k >= 3 {
            assert(hd[3] == e[2]);
        }
        if k >= 4 {
            assert(hd[4] == e[3]);
        }
    }
    lemma_frame_prefix_len(hd, s);
    assert(announced_length(s) == l);
    assert(s.subrange(1 + k, s.len() as int) =~= body);
    assert forall|m: int| 1 <= m < s.len() implies frame_partial(#[trigger] s.subrange(0, m)) by {
        let t = s.subrange(0, m);
        if m <= k {
            assert(t.len() < 6);
            if m >= 2 {
                assert(t[1] == e[0] && e[0] >= 128);
            }
            if m >= 3 {
                assert(t[2] == e[1] && e[1] >= 128);
            }
            if m >= 4 {
                assert(t[3] == e[2] && e[2] >= 128);
            }
            assert(length_field_len(t) is None);
        } else {
            assert(t.subrange(0, 1 + k) =~= hd);
            lemma_frame_prefix_len(hd, t);
        }
    }
}

/// A remaining length with a fifth byte is refused once that byte has arrived, and
/// not before: the prefixes up to the fourth length byte are unfinished frames.
pub proof fn lemma_frame_length_too_long(h: u8, len_bytes: Seq<u8>, rest: Seq<u8>)
    requires
        len_bytes.len() == 5,
        forall|i: int| 0 <= i < 4 ==> #[trigger] len_bytes[i] >= 128,
    ensures
        ({
            let s = seq![h] + len_bytes + rest;
            &&& frame_malformed(s.subrange(0, 6))
            &&& forall|m: int| 1 <= m < 6 ==> frame_partial(#[trigger] s.subrange(0, m))
        }),
{
    let s = seq![h] + len_bytes + rest;
    assert(s[1] == len_bytes[0] && s[2] == len_bytes[1] && s[3] == len_bytes[2] && s[4]
        == len_bytes[3] && s[5] == len_bytes[4]);
    assert(len_bytes[0] >= 128 && len_bytes[1] >= 128 && len_bytes[2] >= 128 && len_bytes[3] >= 128);
    assert forall|m: int| 1 <= m < 6 implies frame_partial(#[trigger] s.subrange(0, m)) by {
        let t = s.subrange(0, m);
        if m >= 2 {
            assert(t[1] == s[1]);
        }
        if m >= 3 {
            assert(t[2] == s[2]);
        }
        if m >= 4 {
            assert(t[3] == s[3]);
        }
        if m >= 5 {
            assert(t[4] == s[4]);
        }
    }
    let t = s.subrange(0, 6);
    assert(t[1] == s[1] && t[2] == s[2] && t[3] == s[3] && t[4] == s[4]);
}

} // verus!
