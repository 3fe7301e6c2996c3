//! Retain handling options of subscriptions.
use vstd::prelude::*;

verus! {

/// Whether retained messages are sent when a subscription is made.
#[derive(Debug, Clone, Copy, PartialEq, Eq, PartialOrd, Ord, Structural)]
pub enum RetainHandling {
    /// Send retained messages at subscribe time (0).
    SendRetained,
    /// Send retained messages only for new subscriptions (1).
    SendRetainedIfNotExists,
    /// Do not send retained messages (2).
    DoNotSendRetained,
}

impl RetainHandling {
    /// The option number.
    pub open spec fn spec_u8(self) -> u8 {
        match self {
            RetainHandling::SendRetained => 0,
            RetainHandling::SendRetainedIfNotExists => 1,
            RetainHandling::DoNotSendRetained => 2,
        }
    }

    /// The option number.
    pub fn to_u8(self) -> (r: u8)
        ensures
            r == self.spec_u8(),
    {
        match self {
            RetainHandling::SendRetained => 0,
            RetainHandling::SendRetainedIfNotExists => 1,
            RetainHandling::DoNotSendRetained => 2,
        }
    }

    /// The option with number `v`; `None` above 2.
    pub fn try_from_u8(v: u8) -> (r: Option<Self>)
        ensures
            r is Some <==> v <= 2,
            r matches Some(h) ==> h.spec_u8() == v,
    {
        match v {
            0 => Some(RetainHandling::SendRetained),
            1 => Some(RetainHandling::SendRetainedIfNotExists),
            2 => Some(RetainHandling::DoNotSendRetained),
            _ => None,
        }
    }

    /// The name of the option, as displayed.
    pub fn as_str(&self) -> (r: &'static str)
        ensures
            r@ == (match self {
                RetainHandling::SendRetained => "SendRetained"@,
                RetainHandling::SendRetainedIfNotExists => "SendRetainedIfNotExists"@,
                RetainHandling::DoNotSendRetained => "DoNotSendRetained"@,
            }),
    {
        match self {
            RetainHandling::SendRetained => "SendRetained",
            RetainHandling::SendRetainedIfNotExists => "SendRetainedIfNotExists",
            RetainHandling::DoNotSendRetained => "DoNotSendRetained",
        }
    }
}

impl Default for RetainHandling {
    fn default() -> (r: Self)
        ensures
            r == RetainHandling::SendRetained,
    {
        RetainHandling::SendRetained
    }
}

/// The retain handling options carry the numbers MQTT fixes: send retained
/// messages 0, send them only for a new subscription 1, do not send them 2;
/// distinct options have distinct numbers.
pub proof fn lemma_retain_handling_numbers()
    ensures
        RetainHandling::SendRetained.spec_u8() == 0,
        RetainHandling::SendRetainedIfNotExists.spec_u8() == 1,
        RetainHandling::DoNotSendRetained.spec_u8() == 2,
        forall|a: RetainHandling, b: RetainHandling|
            #[trigger] a.spec_u8() == #[trigger] b.spec_u8() ==> a == b,
{
}

} // verus!
