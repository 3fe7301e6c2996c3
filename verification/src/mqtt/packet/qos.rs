//! Quality of Service levels.
use vstd::prelude::*;

verus! {

/// MQTT Quality of Service levels.
#[derive(Debug, Clone, Copy, PartialEq, Eq, PartialOrd, Ord, Structural)]
pub enum Qos {
    /// At most once delivery (0).
    AtMostOnce,
    /// At least once delivery (1).
    AtLeastOnce,
    /// Exactly once delivery (2).
    ExactlyOnce,
}

impl Qos {
    /// The level number.
    pub open spec fn spec_u8(self) -> u8 {
        match self {
            Qos::AtMostOnce => 0,
            Qos::AtLeastOnce => 1,
            Qos::ExactlyOnce => 2,
        }
    }

    /// The level number.
    pub fn to_u8(self) -> (r: u8)
        ensures
            r == self.spec_u8(),
    {
        match self {
            Qos::AtMostOnce => 0,
            Qos::AtLeastOnce => 1,
            Qos::ExactlyOnce => 2,
        }
    }

    /// The level with number `v`; `None` above 2.
    pub fn try_from_u8(v: u8) -> (r: Option<Self>)
        ensures
            r is Some <==> v <= 2,
            r matches Some(q) ==> q.spec_u8() == v,
    {
        match v {
            0 => Some(Qos::AtMostOnce),
            1 => Some(Qos::AtLeastOnce),
            2 => Some(Qos::ExactlyOnce),
            _ => None,
        }
    }

    /// The name of the level, as displayed.
    pub fn as_str(&self) -> (r: &'static str)
        ensures
            r@ == (match self {
                Qos::AtMostOnce => "AtMostOnce"@,
                Qos::AtLeastOnce => "AtLeastOnce"@,
                Qos::ExactlyOnce => "ExactlyOnce"@,
            }),
    {
        match self {
            Qos::AtMostOnce => "AtMostOnce",
            Qos::AtLeastOnce => "AtLeastOnce",
            Qos::ExactlyOnce => "ExactlyOnce",
        }
    }
}

/// The QoS levels carry the numbers MQTT fixes: at most once 0, at least once 1,
/// exactly once 2; distinct levels have distinct numbers.
pub proof fn lemma_qos_numbers()
    ensures
        Qos::AtMostOnce.spec_u8() == 0,
        Qos::AtLeastOnce.spec_u8() == 1,
        Qos::ExactlyOnce.spec_u8() == 2,
        forall|a: Qos, b: Qos| #[trigger] a.spec_u8() == #[trigger] b.spec_u8() ==> a == b,
{
}

} // verus!
