//! MQTT v3.1.1 SUBSCRIBE packet.
use crate::mqtt::common::bytes::extend_bytes;
use crate::mqtt::connection::sendable_version::SendableVersion;
use crate::mqtt::connection::version::Version;
use crate::mqtt::packet::packet_id::{
    be_bytes, be_value, lemma_be_roundtrip, lemma_be_value_roundtrip, lemma_be_value_zero,
    leading_bytes_zero, IsPacketId,
};
use crate::mqtt::packet::packet_type::{FixedHeader, PacketType};
use crate::mqtt::packet::mqtt_binary::prefix_length;
use crate::mqtt::packet::sub_entry::{entry_accepts, entry_len, SubEntry};
use crate::mqtt::packet::variable_byte_integer::{vbi_encode, VariableByteInteger, VBI_MAX};
use crate::mqtt::result_code::MqttError;
use core::marker::PhantomData;
use crate::mqtt::packet::kind::PacketKind;
use vstd::prelude::*;

verus! {

/// Whether `s` is a sequence of subscription entries, one after another.
pub open spec fn parses_as_entries(s: Seq<u8>) -> bool
    decreases s.len(),
{
    if s.len() == 0 {
        true
    } else if entry_accepts(s) {
        parses_as_entries(s.subrange(entry_len(s) as int, s.len() as int))
    } else {
        false
    }
}

/// The wire forms of `entries`, one after another.
pub open spec fn entries_wire(entries: Seq<SubEntry>) -> Seq<u8>
    decreases entries.len(),
{
    if entries.len() == 0 {
        Seq::empty()
    } else {
        entries_wire(entries.drop_last()) + entries.last().wire()
    }
}

/// The SUBSCRIBE packet: a packet identifier and one or more subscription entries.
#[derive(PartialEq, Eq, Debug)]
pub struct GenericSubscribe<PacketIdType: IsPacketId> {
    fixed_header: u8,
    remaining_length: VariableByteInteger,
    packet_id_buf: Vec<u8>,
    entries: Vec<SubEntry>,
    marker: PhantomData<PacketIdType>,
}

/// The SUBSCRIBE packet with standard 16-bit packet identifiers.
pub type Subscribe = GenericSubscribe<u16>;

impl<PacketIdType: IsPacketId> GenericSubscribe<PacketIdType> {
    #[verifier::type_invariant]
    spec fn inv(&self) -> bool {
        &&& self.fixed_header == 0x82
        &&& self.remaining_length.wf()
        &&& self.remaining_length.value() == self.body().len()
        &&& self.packet_id_buf@.len() == PacketIdType::id_width()
        &&& self.entries@.len() > 0
    }

    /// The packet identifier.
    pub closed spec fn spec_packet_id(&self) -> nat {
        be_value(self.packet_id_buf@)
    }

    /// The subscription entries.
    pub closed spec fn spec_entries(&self) -> Seq<SubEntry> {
        self.entries@
    }

    /// The body: packet identifier and entries.
    pub closed spec fn body(&self) -> Seq<u8> {
        self.packet_id_buf@ + entries_wire(self.entries@)
    }

    /// The whole packet on the wire.
    pub closed spec fn wire(&self) -> Seq<u8> {
        seq![self.fixed_header] + self.remaining_length.bytes() + self.body()
    }

    /// Whether [`Self::parse`] accepts `data`.
    pub open spec fn parse_accepts(data: Seq<u8>) -> bool {
        let w = PacketIdType::id_width() as int;
        &&& data.len() > w
        &&& parses_as_entries(data.subrange(w, data.len() as int))
    }

    /// A builder with nothing set.
    pub fn builder() -> (r: GenericSubscribeBuilder<PacketIdType>)
        ensures
            r.spec_packet_id() is None,
            r.spec_entries() is None,
    {
        GenericSubscribeBuilder { packet_id_buf: None, entries: None, marker: PhantomData }
    }

    /// The packet type (SUBSCRIBE).
    pub fn packet_type() -> (r: PacketType)
        ensures
            r == PacketType::Subscribe,
    {
        PacketType::Subscribe
    }

    /// The packet identifier.
    pub fn packet_id(&self) -> (r: PacketIdType)
        ensures
            r.id_value() == self.spec_packet_id(),
    {
        proof {
            use_type_invariant(self);
        }
        let r = PacketIdType::from_buffer(self.packet_id_buf.as_slice());
        proof {
            assert(self.packet_id_buf@.subrange(0, PacketIdType::id_width() as int)
                =~= self.packet_id_buf@);
        }
        r
    }

    /// The subscription entries.
    pub fn entries(&self) -> (r: &Vec<SubEntry>)
        ensures
            r@ == self.spec_entries(),
    {
        &self.entries
    }

    /// Parses the body of a SUBSCRIBE packet: the packet identifier followed by
    /// subscription entries up to the end of `data`.
    ///
    /// Fails with `MalformedPacket` when the identifier is missing or an entry is
    /// malformed, and with `ProtocolError` when there is no entry.
    pub fn parse(data: &[u8]) -> (r: Result<(Self, usize), MqttError>)
        requires
            Self::parse_accepts(data@) ==> data@.len() <= VBI_MAX,
        ensures
            r is Ok <==> Self::parse_accepts(data@),
            r matches Ok((p, n)) ==> {
                &&& n == data@.len()
                &&& p.body() == data@
                &&& p.spec_packet_id() == be_value(
                    data@.subrange(0, PacketIdType::id_width() as int),
                )
                &&& entries_wire(p.spec_entries()) == data@.subrange(
                    PacketIdType::id_width() as int,
                    data@.len() as int,
                )
            },
            r matches Err(e) ==> {
                if data@.len() == PacketIdType::id_width() {
                    e == MqttError::ProtocolError
                } else {
                    e == MqttError::MalformedPacket
                }
            },
    {
        let buffer_size = PacketIdType::width();
        proof {
            PacketIdType::lemma_width();
        }
        if data.len() < buffer_size {
            return Err(MqttError::MalformedPacket);
        }
        let packet_id = PacketIdType::from_buffer(data);
        let packet_id_buf = packet_id.to_buffer();
        proof {
            lemma_be_value_roundtrip(data@.subrange(0, buffer_size as int));
        }
        let ghost all = data@.subrange(buffer_size as int, data@.len() as int);
        let mut entries: Vec<SubEntry> = Vec::new();
        let mut cursor: usize = buffer_size;
        while cursor < data.len()
            invariant
                buffer_size == PacketIdType::id_width(),
                buffer_size <= cursor <= data@.len(),
                Self::parse_accepts(data@) ==> data@.len() <= VBI_MAX,
                entries_wire(entries@) == data@.subrange(buffer_size as int, cursor as int),
                parses_as_entries(all) == parses_as_entries(
                    data@.subrange(cursor as int, data@.len() as int),
                ),
                all == data@.subrange(buffer_size as int, data@.len() as int),
                (entries@.len() > 0) == (cursor > buffer_size),
            decreases data@.len() - cursor,
        {
            let rest = vstd::slice::slice_subrange(data, cursor, data.len());
            let ghost rest_seq = rest@;
            let (entry, consumed) = match SubEntry::parse(rest) {
                Ok(x) => x,
                Err(e) => {
                    proof {
                        assert(!parses_as_entries(rest_seq));
                    }
                    return Err(e);
                },
            };
            let ghost old_entries = entries@;
            entries.push(entry);
            proof {
                assert(entries@.drop_last() =~= old_entries);
                assert(rest_seq.subrange(consumed as int, rest_seq.len() as int) =~= data@.subrange(
                    cursor + consumed,
                    data@.len() as int,
                ));
                assert(data@.subrange(buffer_size as int, cursor + consumed) =~= data@.subrange(
                    buffer_size as int,
                    cursor as int,
                ) + rest_seq.subrange(0, consumed as int));
            }
            cursor = cursor + consumed;
        }
        if entries.len() == 0 {
            return Err(MqttError::ProtocolError);
        }
        proof {
            assert(data@.subrange(cursor as int, data@.len() as int) =~= Seq::<u8>::empty());
            assert(parses_as_entries(Seq::<u8>::empty()));
        }
        let remaining_size = data.len();
        let p = GenericSubscribe {
            fixed_header: FixedHeader::Subscribe.as_u8(),
            remaining_length: VariableByteInteger::from_value(remaining_size as u32),
            packet_id_buf,
            entries,
            marker: PhantomData,
        };
        proof {
            assert(p.body() =~= data@);
        }
        Ok((p, cursor))
    }

    /// The size of the whole packet.
    pub fn size(&self) -> (r: usize)
        ensures
            r == self.wire().len(),
    {
        proof {
            use_type_invariant(self);
            self.remaining_length.lemma_wf();
        }
        1 + self.remaining_length.size() + self.remaining_length.to_u32() as usize
    }

    /// The whole packet as one buffer.
    ///
    /// Parsing its body gives the packet back: [`Self::parse`] accepts the body,
    /// reads the same packet identifier and entries with the same wire forms.
    pub fn to_continuous_buffer(&self) -> (r: Vec<u8>)
        ensures
            r@ == self.wire(),
            r@ == seq![0x82u8] + vbi_encode(self.body().len()) + self.body(),
            self.body() == be_bytes(self.spec_packet_id(), PacketIdType::id_width())
                + entries_wire(self.spec_entries()),
            Self::parse_accepts(self.body()),
            be_value(self.body().subrange(0, PacketIdType::id_width() as int))
                == self.spec_packet_id(),
            self.body().subrange(PacketIdType::id_width() as int, self.body().len() as int)
                == entries_wire(self.spec_entries()),
    {
        proof {
            use_type_invariant(self);
            self.remaining_length.lemma_wf();
            lemma_be_value_roundtrip(self.packet_id_buf@);
            let w = PacketIdType::id_width() as int;
            assert(self.body().subrange(0, w) =~= self.packet_id_buf@);
            assert(self.body().subrange(w, self.body().len() as int) =~= entries_wire(
                self.entries@,
            ));
        }
        let mut buf = Vec::new();
        buf.push(self.fixed_header);
        extend_bytes(&mut buf, self.remaining_length.as_bytes());
        extend_bytes(&mut buf, self.packet_id_buf.as_slice());
        let ghost head = buf@;
        let mut i: usize = 0;
        while i < self.entries.len()
            invariant
                0 <= i <= self.entries@.len(),
                buf@ == head + entries_wire(self.entries@.subrange(0, i as int)),
                forall|j: int| 0 <= j < i ==> entry_ok(#[trigger] self.entries@[j]),
            decreases self.entries@.len() - i,
        {
            let e = self.entries[i].to_continuous_buffer();
            extend_bytes(&mut buf, e.as_slice());
            i = i + 1;
            proof {
                assert(self.entries@.subrange(0, i as int).drop_last() =~= self.entries@.subrange(
                    0,
                    i - 1,
                ));
            }
        }
        proof {
            assert(self.entries@.subrange(0, i as int) =~= self.entries@);
            assert(buf@ =~= self.wire());
            lemma_parses_entries(self.entries@);
        }
        buf
    }
}

impl<PacketIdType: IsPacketId> Clone for GenericSubscribe<PacketIdType> {
    fn clone(&self) -> (r: Self)
        ensures
            r.body() == self.body(),
            r.wire() == self.wire(),
            r.spec_packet_id() == self.spec_packet_id(),
            r.spec_entries().len() == self.spec_entries().len(),
            forall|i: int|
                0 <= i < self.spec_entries().len() ==> (#[trigger] r.spec_entries()[i]).wire()
                    == self.spec_entries()[i].wire(),
    {
        proof {
            use_type_invariant(self);
        }
        let mut packet_id_buf = Vec::new();
        extend_bytes(&mut packet_id_buf, self.packet_id_buf.as_slice());
        let mut entries: Vec<SubEntry> = Vec::new();
        let mut i: usize = 0;
        while i < self.entries.len()
            invariant
                0 <= i <= self.entries@.len(),
                entries@.len() == i,
                forall|j: int| 0 <= j < i ==> (#[trigger] entries@[j]).wire() == self.entries@[j].wire(),
                entries_wire(entries@) == entries_wire(self.entries@.subrange(0, i as int)),
            decreases self.entries@.len() - i,
        {
            let ghost before = entries@;
            entries.push(self.entries[i].clone());
            i = i + 1;
            proof {
                assert(entries@.drop_last() =~= before);
                assert(self.entries@.subrange(0, i as int).drop_last() =~= self.entries@.subrange(
                    0,
                    i - 1,
                ));
            }
        }
        proof {
            assert(self.entries@.subrange(0, i as int) =~= self.entries@);
            assert(packet_id_buf@ =~= self.packet_id_buf@);
        }
        GenericSubscribe {
            fixed_header: self.fixed_header,
            remaining_length: self.remaining_length.clone(),
            packet_id_buf,
            entries,
            marker: PhantomData,
        }
    }
}

/// Builder of [`GenericSubscribe`] packets.
#[derive(Debug)]
pub struct GenericSubscribeBuilder<PacketIdType: IsPacketId> {
    packet_id_buf: Option<Vec<u8>>,
    entries: Option<Vec<SubEntry>>,
    marker: PhantomData<PacketIdType>,
}

impl<PacketIdType: IsPacketId> GenericSubscribeBuilder<PacketIdType> {
    #[verifier::type_invariant]
    spec fn inv(&self) -> bool {
        self.packet_id_buf matches Some(b) ==> b@.len() == PacketIdType::id_width()
    }

    /// The packet identifier, once set.
    pub closed spec fn spec_packet_id(&self) -> Option<nat> {
        match self.packet_id_buf {
            Some(b) => Some(be_value(b@)),
            None => None,
        }
    }

    /// The entries, once set.
    pub closed spec fn spec_entries(&self) -> Option<Seq<SubEntry>> {
        match self.entries {
            Some(e) => Some(e@),
            None => None,
        }
    }

    /// Sets the packet identifier.
    pub fn packet_id(self, id: PacketIdType) -> (r: Self)
        ensures
            r.spec_packet_id() == Some(id.id_value()),
            r.spec_entries() == self.spec_entries(),
    {
        proof {
            PacketIdType::lemma_id_facts(id, id);
            lemma_be_roundtrip(id.id_value(), PacketIdType::id_width());
        }
        GenericSubscribeBuilder {
            packet_id_buf: Some(id.to_buffer()),
            entries: self.entries,
            marker: PhantomData,
        }
    }

    /// Sets the subscription entries.
    pub fn entries(self, entries: Vec<SubEntry>) -> (r: Self)
        ensures
            r.spec_entries() == Some(entries@),
            r.spec_packet_id() == self.spec_packet_id(),
    {
        proof {
            use_type_invariant(&self);
        }
        GenericSubscribeBuilder {
            packet_id_buf: self.packet_id_buf,
            entries: Some(entries),
            marker: PhantomData,
        }
    }

    /// The packet identifier must be set and not zero (else `MalformedPacket`), and
    /// there must be at least one entry (else `ProtocolError`).
    fn validate(&self) -> (r: Result<(), MqttError>)
        ensures
            r is Ok <==> ((self.spec_packet_id() matches Some(id) && id != 0) && (
            self.spec_entries() matches Some(e) && e.len() > 0)),
            r matches Err(e) ==> if self.spec_packet_id() matches Some(id) && id != 0 {
                e == MqttError::ProtocolError
            } else {
                e == MqttError::MalformedPacket
            },
    {
        match &self.packet_id_buf {
            None => {
                return Err(MqttError::MalformedPacket);
            },
            Some(buf) => {
                let zero = leading_bytes_zero(buf.as_slice(), buf.len());
                proof {
                    assert(buf@.subrange(0, buf@.len() as int) =~= buf@);
                    lemma_be_value_zero(buf@);
                }
                if zero {
                    return Err(MqttError::MalformedPacket);
                }
            },
        }
        match &self.entries {
            None => Err(MqttError::ProtocolError),
            Some(e) => {
                if e.len() == 0 {
                    Err(MqttError::ProtocolError)
                } else {
                    Ok(())
                }
            },
        }
    }

    /// Builds the packet; fails as [`Self::validate`] says.
    pub fn build(self) -> (r: Result<GenericSubscribe<PacketIdType>, MqttError>)
        requires
            self.spec_packet_id() matches Some(id) && id != 0 ==> (self.spec_entries() matches Some(e)
                ==> entries_wire(e).len() + PacketIdType::id_width() <= VBI_MAX),
        ensures
            r is Ok <==> ((self.spec_packet_id() matches Some(id) && id != 0) && (
            self.spec_entries() matches Some(e) && e.len() > 0)),
            r matches Ok(p) ==> {
                &&& self.spec_packet_id() == Some(p.spec_packet_id())
                &&& self.spec_entries() == Some(p.spec_entries())
            },
            r matches Err(e) ==> if self.spec_packet_id() matches Some(id) && id != 0 {
                e == MqttError::ProtocolError
            } else {
                e == MqttError::MalformedPacket
            },
    {
        proof {
            use_type_invariant(&self);
            PacketIdType::lemma_width();
        }
        self.validate()?;
        let packet_id_buf = match self.packet_id_buf {
            Some(b) => b,
            None => Vec::new(),
        };
        let entries = match self.entries {
            Some(e) => e,
            None => Vec::new(),
        };
        let mut entries_size: usize = 0;
        let mut i: usize = 0;
        while i < entries.len()
            invariant
                0 <= i <= entries@.len(),
                entries_wire(entries@).len() + PacketIdType::id_width() <= VBI_MAX,
                entries_size == entries_wire(entries@.subrange(0, i as int)).len(),
            decreases entries@.len() - i,
        {
            proof {
                lemma_entries_wire_prefix(entries@, i as int + 1);
                assert(entries@.subrange(0, i + 1).drop_last() =~= entries@.subrange(0, i as int));
            }
            entries_size = entries_size + entries[i].size();
            i = i + 1;
        }
        proof {
            assert(entries@.subrange(0, i as int) =~= entries@);
        }
        let remaining = PacketIdType::width() + entries_size;
        Ok(GenericSubscribe {
            fixed_header: FixedHeader::Subscribe.as_u8(),
            remaining_length: VariableByteInteger::from_value(remaining as u32),
            packet_id_buf,
            entries,
            marker: PhantomData,
        })
    }
}

/// The entry's wire form is one entry as [`SubEntry::parse`] reads it.
pub open spec fn entry_ok(e: SubEntry) -> bool {
    entry_accepts(e.wire()) && entry_len(e.wire()) == e.wire().len()
}

/// An entry is read from the front of its wire form whatever follows.
proof fn lemma_entry_prefix(x: Seq<u8>, rest: Seq<u8>)
    requires
        entry_accepts(x),
        entry_len(x) == x.len(),
    ensures
        entry_accepts(x + rest),
        entry_len(x + rest) == x.len(),
{
    let s = x + rest;
    assert(s.subrange(0, 2) =~= x.subrange(0, 2));
    let l = prefix_length(x) as int;
    assert(s.subrange(2, 2 + l) =~= x.subrange(2, 2 + l));
    assert(s[2 + l] == x[2 + l]);
}

/// The wire forms of entries start with that of the first.
proof fn lemma_entries_wire_first(es: Seq<SubEntry>)
    requires
        es.len() > 0,
    ensures
        entries_wire(es) == es[0].wire() + entries_wire(es.drop_first()),
    decreases es.len(),
{
    if es.len() == 1 {
        assert(es.drop_last() =~= Seq::<SubEntry>::empty());
        assert(es.drop_first() =~= Seq::<SubEntry>::empty());
        assert(entries_wire(es.drop_last()) == Seq::<u8>::empty());
        assert(es.last() == es[0]);
        assert(entries_wire(es) == Seq::<u8>::empty() + es[0].wire());
        assert(entries_wire(es) =~= es[0].wire());
        assert(es[0].wire() + Seq::<u8>::empty() =~= es[0].wire());
    } else {
        lemma_entries_wire_first(es.drop_last());
        assert(es.drop_last().drop_first() =~= es.drop_first().drop_last());
        assert(es.drop_last()[0] == es[0]);
        assert(es.drop_first().last() == es.last());
        assert(entries_wire(es) =~= es[0].wire() + entries_wire(es.drop_first()));
    }
}

/// The wire forms of well-formed entries, one after another, read back as entries.
proof fn lemma_parses_entries(es: Seq<SubEntry>)
    requires
        forall|j: int| 0 <= j < es.len() ==> entry_ok(#[trigger] es[j]),
    ensures
        parses_as_entries(entries_wire(es)),
    decreases es.len(),
{
    if es.len() > 0 {
        let r = es.drop_first();
        assert forall|j: int| 0 <= j < r.len() implies entry_ok(#[trigger] r[j]) by {
            assert(r[j] == es[j + 1]);
        }
        lemma_parses_entries(r);
        lemma_entries_wire_first(es);
        assert(entry_ok(es[0]));
        lemma_entry_prefix(es[0].wire(), entries_wire(r));
        let s = entries_wire(es);
        let n = es[0].wire().len() as int;
        assert(s.subrange(n, s.len() as int) =~= entries_wire(r));
    } else {
        assert(entries_wire(es) =~= Seq::<u8>::empty());
    }
}

/// The wire form of a prefix of the entries is no longer than that of all of them.
proof fn lemma_entries_wire_prefix(e: Seq<SubEntry>, k: int)
    requires
        0 <= k <= e.len(),
    ensures
        entries_wire(e.subrange(0, k)).len() <= entries_wire(e).len(),
    decreases e.len() - k,
{
    if k < e.len() {
        lemma_entries_wire_prefix(e, k + 1);
        assert(e.subrange(0, k + 1).drop_last() =~= e.subrange(0, k));
    } else {
        assert(e.subrange(0, k) =~= e);
    }
}

impl<PacketIdType: IsPacketId> PacketKind for GenericSubscribe<PacketIdType> {
    const IS_CONNECT: bool = false;
    const IS_CONNACK: bool = false;
    const IS_PUBLISH: bool = false;
    const IS_PUBACK: bool = false;
    const IS_PUBREC: bool = false;
    const IS_PUBREL: bool = false;
    const IS_PUBCOMP: bool = false;
    const IS_SUBSCRIBE: bool = true;
    const IS_SUBACK: bool = false;
    const IS_UNSUBSCRIBE: bool = false;
    const IS_UNSUBACK: bool = false;
    const IS_PINGREQ: bool = false;
    const IS_PINGRESP: bool = false;
    const IS_DISCONNECT: bool = false;
    const IS_AUTH: bool = false;
    const IS_V3_1_1: bool = true;
    const IS_V5_0: bool = false;
}

impl<PacketIdType: IsPacketId> SendableVersion for GenericSubscribe<PacketIdType> {
    open spec fn spec_version() -> Version {
        Version::V3_1_1
    }

    proof fn lemma_version_follows_kind() {
    }

    fn check(version: &Version) -> (r: bool) {
        *version == Version::V3_1_1
    }
}

} // verus!
