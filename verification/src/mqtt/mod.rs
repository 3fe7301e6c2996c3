//! MQTT protocol core: packets, connection helpers and shared data structures.

pub mod arc_payload;
pub mod common;
pub mod connection;
pub mod packet;
pub mod result_code;
