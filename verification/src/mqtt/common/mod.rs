//! Data structures shared by the packet and connection layers.

pub mod arc_payload;
pub mod bytes;
pub mod cursor;
pub(crate) mod alias_map;
pub(crate) mod shared_bytes;
pub(crate) mod text;
pub mod value_allocator;

pub use arc_payload::{ArcPayload, IntoPayload};
pub use cursor::Cursor;
pub use value_allocator::ValueAllocator;
