//! MQTT protocol versions.
use vstd::prelude::*;

verus! {

/// The protocol version of a connection.
#[derive(PartialEq, Eq, Clone, Copy, Debug, Structural)]
pub enum Version {
    /// Not known yet (a server before the CONNECT packet arrives).
    Undetermined,
    /// MQTT v3.1.1 (protocol level 4).
    V3_1_1,
    /// MQTT v5.0 (protocol level 5).
    V5_0,
}

impl Version {
    /// The protocol level byte.
    pub open spec fn spec_level(self) -> u8 {
        match self {
            Version::Undetermined => 0,
            Version::V3_1_1 => 4,
            Version::V5_0 => 5,
        }
    }

    /// The protocol level byte (0 while undetermined).
    pub fn level(self) -> (r: u8)
        ensures
            r == self.spec_level(),
    {
        match self {
            Version::Undetermined => 0,
            Version::V3_1_1 => 4,
            Version::V5_0 => 5,
        }
    }
}

/// The protocol level bytes: MQTT v3.1.1 is level 4 and v5.0 level 5; an
/// undetermined version has none (0).
pub proof fn lemma_version_levels()
    ensures
        Version::V3_1_1.spec_level() == 4,
        Version::V5_0.spec_level() == 5,
        Version::Undetermined.spec_level() == 0,
{
}

} // verus!
