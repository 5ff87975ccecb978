//! The `rtnetlink` side of the protocol: the requests that read and
//! change the state of a link, and the reading of that state.

use crate::attr::Operstate;
use crate::codec::{attr_views, find_attr, first_of, payload_u8, Attr, AttrView};
use crate::error::{ErrorKind, Nl80211Error};
use vstd::prelude::*;

verus! {

/// The flag of a link that says it is administratively up.
pub const IFF_UP: u32 = 0x1;

/// The attribute of a link that holds its hardware address.
pub const IFLA_ADDRESS: u16 = 1;

/// The attribute of a link that holds its operational state.
pub const IFLA_OPERSTATE: u16 = 16;

/// The type of a request about a link.
#[derive(Debug, Clone, Copy, PartialEq, Eq, Structural)]
pub enum LinkCommand {
    NewLink,
    GetLink,
}

impl LinkCommand {
    /// The message type that stands for the command on the wire.
    pub open spec fn code(self) -> u16 {
        match self {
            LinkCommand::NewLink => 16,
            LinkCommand::GetLink => 18,
        }
    }

    pub fn to_u16(self) -> (code: u16)
        ensures
            code == self.code(),
    {
        match self {
            LinkCommand::NewLink => 16,
            LinkCommand::GetLink => 18,
        }
    }
}

/// A request about one link.
#[derive(Debug, Clone, Copy, PartialEq, Eq)]
pub struct LinkRequest {
    pub cmd: LinkCommand,
    /// The kernel's index of the link.
    pub index: u32,
    /// The flags that the link is to have, among those of `change`.
    pub flags: u32,
    /// The flags that the request sets or clears.
    pub change: u32,
    /// The hardware address that the link is to have.
    pub address: Option<[u8; 6]>,
    /// Whether the kernel is asked to acknowledge the request.
    pub ack: bool,
}

impl LinkRequest {
    /// The index as the kernel takes it, in 32 bits with a sign: an
    /// index that does not fit names no link.
    pub open spec fn signed_index(self) -> Option<i32> {
        if self.index <= i32::MAX {
            Some(self.index as i32)
        } else {
            None
        }
    }

    /// The index as the kernel takes it.
    pub fn wire_index(&self) -> (r: Result<i32, Nl80211Error>)
        ensures
            match r {
                Ok(index) => self.signed_index() == Some(index),
                Err(e) => self.signed_index().is_none() && e.is(
                    ErrorKind::Domain,
                    "Interface Not Found"@,
                ),
            },
    {
        if self.index <= 0x7fff_ffff {
            Ok(self.index as i32)
        } else {
            Err(Nl80211Error::new(ErrorKind::Domain, "Interface Not Found"))
        }
    }
}

/// The hardware address made from six bytes by clearing the lowest bit of
/// the first and setting the bit above it.
pub open spec fn local_address(seed: Seq<u8>) -> Seq<u8> {
    seq![(seed[0] / 4 * 4 + 2) as u8, seed[1], seed[2], seed[3], seed[4], seed[5]]
}

/// Such an address is that of one station, and is locally administered:
/// in its first byte the lowest bit is clear and the bit above it is set.
/// Its other bytes are those it was made from.
pub proof fn lemma_local_address(seed: Seq<u8>)
    requires
        seed.len() == 6,
    ensures
        local_address(seed).len() == 6,
        local_address(seed)[0] % 2 == 0,
        local_address(seed)[0] / 2 % 2 == 1,
        local_address(seed)[0] / 4 == seed[0] / 4,
        forall|i: int| 1 <= i < 6 ==> local_address(seed)[i] == seed[i],
{
}

/// Makes a locally administered address of one station from six bytes.
pub fn locally_administered(seed: [u8; 6]) -> (mac: [u8; 6])
    ensures
        mac@ == local_address(seed@),
{
    let mac = [seed[0] / 4 * 4 + 2, seed[1], seed[2], seed[3], seed[4], seed[5]];
    mac
}

/// The operational state that the attributes of a link report: `Unknown`
/// where they report none, or one that no code stands for.
pub open spec fn operstate_from(attrs: Seq<AttrView>) -> Operstate {
    match first_of(attrs, IFLA_OPERSTATE) {
        Some(attr) => match payload_u8(attr.payload) {
            Ok(code) => match Operstate::of_code(code) {
                Some(state) => state,
                None => Operstate::Unknown,
            },
            Err(_) => Operstate::Unknown,
        },
        None => Operstate::Unknown,
    }
}

/// The `rtnetlink` endpoint.
#[derive(Debug, Clone, Copy, PartialEq, Eq)]
pub struct RtSocket {}

impl RtSocket {
    pub fn new() -> RtSocket {
        RtSocket {  }
    }

    /// The request that reads the state of the link `index`.
    pub fn get_interface_status(&self, index: u32) -> (r: LinkRequest)
        ensures
            r == (LinkRequest {
                cmd: LinkCommand::GetLink,
                index,
                flags: 0,
                change: 0,
                address: None,
                ack: false,
            }),
    {
        LinkRequest {
            cmd: LinkCommand::GetLink,
            index,
            flags: 0,
            change: 0,
            address: None,
            ack: false,
        }
    }

    /// Reads the operational state from the attributes of the answer.
    pub fn read_interface_status(&self, attrs: &[Attr]) -> (state: Operstate)
        ensures
            state == operstate_from(attr_views(attrs@)),
    {
        match find_attr(attrs, IFLA_OPERSTATE) {
            Some(attr) => match attr.as_u8() {
                Ok(code) => match Operstate::from_u8(code) {
                    Some(state) => state,
                    None => Operstate::Unknown,
                },
                Err(_) => Operstate::Unknown,
            },
            None => Operstate::Unknown,
        }
    }

    /// The request that brings the link `index` up.
    pub fn set_interface_up(&self, index: u32) -> (r: LinkRequest)
        ensures
            r == (LinkRequest {
                cmd: LinkCommand::NewLink,
                index,
                flags: IFF_UP,
                change: IFF_UP,
                address: None,
                ack: true,
            }),
    {
        LinkRequest {
            cmd: LinkCommand::NewLink,
            index,
            flags: IFF_UP,
            change: IFF_UP,
            address: None,
            ack: true,
        }
    }

    /// The request that brings the link `index` down.
    pub fn set_interface_down(&self, index: u32) -> (r: LinkRequest)
        ensures
            r == (LinkRequest {
                cmd: LinkCommand::NewLink,
                index,
                flags: 0,
                change: IFF_UP,
                address: None,
                ack: true,
            }),
    {
        LinkRequest {
            cmd: LinkCommand::NewLink,
            index,
            flags: 0,
            change: IFF_UP,
            address: None,
            ack: true,
        }
    }

    /// The request that gives the link `index` the hardware address
    /// `mac`. It leaves the flags of the link alone: whether the link
    /// must be down is for the caller to see to.
    pub fn set_interface_mac(&self, index: u32, mac: &[u8; 6]) -> (r: LinkRequest)
        ensures
            r == (LinkRequest {
                cmd: LinkCommand::NewLink,
                index,
                flags: 0,
                change: 0,
                address: Some(*mac),
                ack: true,
            }),
    {
        LinkRequest {
            cmd: LinkCommand::NewLink,
            index,
            flags: 0,
            change: 0,
            address: Some(*mac),
            ack: true,
        }
    }

    /// The request that gives the link `index` a locally administered
    /// address made from the random bytes `seed`.
    pub fn set_interface_mac_random(&self, index: u32, seed: [u8; 6]) -> (r: LinkRequest)
        ensures
            r.cmd == LinkCommand::NewLink,
            r.index == index,
            r.flags == 0,
            r.change == 0,
            r.ack,
            r.address matches Some(mac) && mac@ == local_address(seed@),
    {
        LinkRequest {
            cmd: LinkCommand::NewLink,
            index,
            flags: 0,
            change: 0,
            address: Some(locally_administered(seed)),
            ack: true,
        }
    }
}

} // verus!
