//! Which packet types each connection role may send.
use crate::mqtt::connection::role::{Any, Client, Server};
use crate::mqtt::packet::v3_1_1;
use crate::mqtt::packet::IsPacketId;
use vstd::prelude::*;

verus! {

/// Marks the packet types that a connection of role `Role` may send; sending any
/// other type does not compile.
pub trait SendableRole<Role> {}

// Packets a connection in the client role may send.
impl SendableRole<Client> for v3_1_1::Disconnect {}
impl<PacketIdType: IsPacketId> SendableRole<Client> for v3_1_1::GenericPuback<PacketIdType> {}
impl<PacketIdType: IsPacketId> SendableRole<Client> for v3_1_1::GenericPubrec<PacketIdType> {}
impl<PacketIdType: IsPacketId> SendableRole<Client> for v3_1_1::GenericPubcomp<PacketIdType> {}
impl<PacketIdType: IsPacketId> SendableRole<Client> for v3_1_1::GenericSubscribe<PacketIdType> {}

// Packets a connection in the server role may send.
impl SendableRole<Server> for v3_1_1::Connack {}
impl SendableRole<Server> for v3_1_1::Pingresp {}
impl<PacketIdType: IsPacketId> SendableRole<Server> for v3_1_1::GenericPuback<PacketIdType> {}
impl<PacketIdType: IsPacketId> SendableRole<Server> for v3_1_1::GenericPubrec<PacketIdType> {}
impl<PacketIdType: IsPacketId> SendableRole<Server> for v3_1_1::GenericPubcomp<PacketIdType> {}
impl<PacketIdType: IsPacketId> SendableRole<Server> for v3_1_1::GenericSuback<PacketIdType> {}
impl<PacketIdType: IsPacketId> SendableRole<Server> for v3_1_1::GenericUnsuback<PacketIdType> {}

// Packets a connection in either role may send.
impl SendableRole<Any> for v3_1_1::Connack {}
impl SendableRole<Any> for v3_1_1::Disconnect {}
impl SendableRole<Any> for v3_1_1::Pingresp {}
impl<PacketIdType: IsPacketId> SendableRole<Any> for v3_1_1::GenericPuback<PacketIdType> {}
impl<PacketIdType: IsPacketId> SendableRole<Any> for v3_1_1::GenericPubrec<PacketIdType> {}
impl<PacketIdType: IsPacketId> SendableRole<Any> for v3_1_1::GenericPubcomp<PacketIdType> {}
impl<PacketIdType: IsPacketId> SendableRole<Any> for v3_1_1::GenericSubscribe<PacketIdType> {}
impl<PacketIdType: IsPacketId> SendableRole<Any> for v3_1_1::GenericSuback<PacketIdType> {}
impl<PacketIdType: IsPacketId> SendableRole<Any> for v3_1_1::GenericUnsuback<PacketIdType> {}

} // verus!
