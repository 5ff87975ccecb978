//! The commands of the `nl80211` family that this crate sends or
//! receives, with their codes from the kernel's `nl80211.h`.

use vstd::prelude::*;

verus! {

/// A command of the `nl80211` family.
#[derive(Debug, Clone, Copy, PartialEq, Eq, Structural)]
pub enum Nl80211Cmd {
    CmdGetWiphy,
    CmdSetWiphy,
    CmdNewWiphy,
    CmdGetInterface,
    CmdSetInterface,
    CmdNewInterface,
    CmdSetChannel,
}

impl Nl80211Cmd {
    /// The integer that stands for the variant on the wire.
    pub open spec fn code(self) -> u8 {
        match self {
            Nl80211Cmd::CmdGetWiphy => 1,
            Nl80211Cmd::CmdSetWiphy => 2,
            Nl80211Cmd::CmdNewWiphy => 3,
            Nl80211Cmd::CmdGetInterface => 5,
            Nl80211Cmd::CmdSetInterface => 6,
            Nl80211Cmd::CmdNewInterface => 7,
            Nl80211Cmd::CmdSetChannel => 65,
        }
    }

    /// The variant that a wire code stands for, if any.
    pub open spec fn of_code(code: u8) -> Option<Nl80211Cmd> {
        if code == 1 {
            Some(Nl80211Cmd::CmdGetWiphy)
        } else if code == 2 {
            Some(Nl80211Cmd::CmdSetWiphy)
        } else if code == 3 {
            Some(Nl80211Cmd::CmdNewWiphy)
        } else if code == 5 {
            Some(Nl80211Cmd::CmdGetInterface)
        } else if code == 6 {
            Some(Nl80211Cmd::CmdSetInterface)
        } else if code == 7 {
            Some(Nl80211Cmd::CmdNewInterface)
        } else if code == 65 {
            Some(Nl80211Cmd::CmdSetChannel)
        } else {
            None
        }
    }

    pub fn to_u8(self) -> (code: u8)
        ensures
            code == self.code(),
    {
        match self {
            Nl80211Cmd::CmdGetWiphy => 1,
            Nl80211Cmd::CmdSetWiphy => 2,
            Nl80211Cmd::CmdNewWiphy => 3,
            Nl80211Cmd::CmdGetInterface => 5,
            Nl80211Cmd::CmdSetInterface => 6,
            Nl80211Cmd::CmdNewInterface => 7,
            Nl80211Cmd::CmdSetChannel => 65,
        }
    }

    pub fn from_u8(code: u8) -> (r: Option<Nl80211Cmd>)
        ensures
            r == Nl80211Cmd::of_code(code),
    {
        match code {
            1 => Some(Nl80211Cmd::CmdGetWiphy),
            2 => Some(Nl80211Cmd::CmdSetWiphy),
            3 => Some(Nl80211Cmd::CmdNewWiphy),
            5 => Some(Nl80211Cmd::CmdGetInterface),
            6 => Some(Nl80211Cmd::CmdSetInterface),
            7 => Some(Nl80211Cmd::CmdNewInterface),
            65 => Some(Nl80211Cmd::CmdSetChannel),
            _ => None,
        }
    }
}

/// A command is the one that its code stands for.
pub proof fn lemma_cmd_code_round_trip(v: Nl80211Cmd)
    ensures
        Nl80211Cmd::of_code(v.code()) == Some(v),
{
}

} // verus!
