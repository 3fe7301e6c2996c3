//! Which protocol version each packet type belongs to.
use crate::mqtt::connection::version::Version;
use crate::mqtt::packet::kind::PacketKind;
use vstd::prelude::*;

verus! {

/// Packet types that may only be sent on a connection of one protocol version.
///
/// The version is the one the packet type's kind flags name.
pub trait SendableVersion: PacketKind {
    /// The version the packet type belongs to.
    spec fn spec_version() -> Version;

    /// The version is the one the kind flags name.
    proof fn lemma_version_follows_kind()
        ensures
            Self::IS_V3_1_1 && !Self::IS_V5_0 ==> Self::spec_version() == Version::V3_1_1,
            Self::IS_V5_0 && !Self::IS_V3_1_1 ==> Self::spec_version() == Version::V5_0,
    ;

    /// Whether the packet type may be sent on a connection of `version`: a v3.1.1
    /// packet exactly on a v3.1.1 connection, a v5.0 packet exactly on a v5.0 one.
    fn check(version: &Version) -> (r: bool)
        ensures
            r == (*version == Self::spec_version()),
            Self::IS_V3_1_1 && !Self::IS_V5_0 ==> (r <==> *version == Version::V3_1_1),
            Self::IS_V5_0 && !Self::IS_V3_1_1 ==> (r <==> *version == Version::V5_0),
    ;
}

} // verus!
