//! Connection roles, as types.
use vstd::prelude::*;

verus! {

/// A connection role, told apart at compile time by its flags.
///
/// Each role sets exactly one of the flags.
pub trait RoleType {
    /// Whether the role is a client.
    const IS_CLIENT: bool = false;
    /// Whether the role is a server.
    const IS_SERVER: bool = false;
    /// Whether the role may act as either.
    const IS_ANY: bool = false;
}

/// The client role: connects to a broker.
pub struct Client;

/// The server role: accepts client connections.
pub struct Server;

/// A role that may act as client or server.
pub struct Any;

impl RoleType for Client {
    const IS_CLIENT: bool = true;
}

impl RoleType for Server {
    const IS_SERVER: bool = true;
}

impl RoleType for Any {
    const IS_ANY: bool = true;
}

} // verus!
