//! Connection-level helpers.

pub mod event;
pub mod options;
pub mod packet_builder;
pub mod packet_id_manager;
pub mod role;
pub mod sendable;
pub mod sendable_role;
pub mod sendable_version;
pub mod version;

pub use event::TimerKind;
pub use options::{ConnectionOptions, MQTT_PACKET_SIZE_NO_LIMIT};
pub use packet_builder::{PacketBuildResult, PacketBuilder, PacketData, RawPacket};
pub use packet_id_manager::PacketIdManager;
pub use role::{Any, Client, RoleType, Server};
pub use sendable::dispatch_target;
pub use sendable_role::SendableRole;
pub use sendable_version::SendableVersion;
pub use version::Version;
