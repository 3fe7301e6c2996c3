//! MQTT v3.1.1 packets.

pub mod connack;
pub mod disconnect;
pub mod pingresp;
pub mod puback;
pub mod pubcomp;
pub mod pubrec;
pub mod suback;
pub mod subscribe;
pub mod unsuback;

pub use connack::{Connack, ConnackBuilder};
pub use disconnect::{Disconnect, DisconnectBuilder};
pub use pingresp::{Pingresp, PingrespBuilder};
pub use puback::{GenericPuback, GenericPubackBuilder, Puback};
pub use pubcomp::{GenericPubcomp, GenericPubcompBuilder, Pubcomp};
pub use pubrec::{GenericPubrec, GenericPubrecBuilder, Pubrec};
pub use suback::{GenericSuback, GenericSubackBuilder, Suback};
pub use subscribe::{GenericSubscribe, GenericSubscribeBuilder, Subscribe};
pub use unsuback::{GenericUnsuback, GenericUnsubackBuilder, Unsuback};
