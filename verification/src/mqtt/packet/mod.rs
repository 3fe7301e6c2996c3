//! MQTT packet definitions and their wire encodings.

pub mod as_concrete;
pub mod enum_store_packet;
pub mod kind;
pub mod mqtt_binary;
pub mod mqtt_string;
pub mod packet_id;
pub mod packet_type;
pub mod qos;
pub mod retain_handling;
pub mod sub_entry;
pub mod topic_alias_recv;
pub mod topic_alias_send;
pub mod v3_1_1;
pub mod variable_byte_integer;

pub use as_concrete::{AsConcrete, IntoConcreteOwned};
pub use enum_store_packet::ResponsePacket;
pub use kind::PacketKind;
pub use mqtt_binary::MqttBinary;
pub use mqtt_string::{GenericMqttString, MqttString};
pub use packet_id::IsPacketId;
pub use packet_type::{FixedHeader, PacketType};
pub use qos::Qos;
pub use retain_handling::RetainHandling;
pub use sub_entry::{SubEntry, SubOpts};
pub use topic_alias_recv::TopicAliasRecv;
pub use topic_alias_send::TopicAliasSend;
pub use variable_byte_integer::VariableByteInteger;
