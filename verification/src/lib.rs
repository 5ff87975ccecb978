//! Protocol core for inspecting and configuring Wi-Fi devices over the
//! `nl80211` generic-netlink family and `rtnetlink`.
//!
//! The crate performs no socket I/O: it builds the requests to transmit,
//! consumes the responses that were received, decodes netlink attribute
//! trees into typed records and reconciles them into one model. A driver
//! owns the sockets and moves the messages.

pub mod attr;
pub mod channels;
pub mod cmd;
pub mod codec;
pub mod error;
pub mod interface;
pub mod ntsocket;
pub mod phy;
pub mod rtsocket;
pub mod text;
pub mod util;

pub use interface::Interface;

use attr::{Nl80211ChanWidth, Nl80211ChannelType, Nl80211Iftype, Operstate};
use channels::{plain_channel, resolve_channel};
use error::{ErrorKind, Failure, Nl80211Error};
use interface::{
    along, interface_map, interface_views, name_text, names_each_once, rendering, walk,
    InterfaceView,
};
use ntsocket::{
    acks_of, read_acks, response_views, set_frequency_request, set_type_request, NtSocket, Request,
    Response,
};
use phy::{WirelessPhy, WirelessPhyView};
use rtsocket::{local_address, LinkCommand, LinkRequest, RtSocket, IFF_UP};
use std::collections::HashMap;
use util::boxed;
use vstd::prelude::*;
use vstd::std_specs::iter::IteratorSpec;

verus! {

/// The name of the family on generic netlink.
pub const NL_80211_GENL_NAME: &'static str = "nl80211";

/// The operational state of a link, by the index of the link.
#[derive(Debug, Clone, Copy, PartialEq, Eq)]
pub struct LinkState {
    pub index: u32,
    pub state: Operstate,
}

/// The radios of a table in specifications.
pub open spec fn phy_views(phys: Map<u32, WirelessPhy>) -> Map<u32, WirelessPhyView> {
    Map::new(|id: u32| phys.contains_key(id), |id: u32| phys[id]@)
}

/// The state that the first `n` entries give for the link `index`: that
/// of the first entry for it.
pub open spec fn state_among(states: Seq<LinkState>, index: u32, n: nat) -> Option<Operstate>
    decreases n,
{
    if n == 0 {
        None
    } else {
        match state_among(states, index, (n - 1) as nat) {
            Some(state) => Some(state),
            None => if states[n - 1].index == index {
                Some(states[n - 1].state)
            } else {
                None
            },
        }
    }
}

/// Whether the state of an interface is to be asked for: its radio is
/// known and it has an index.
pub open spec fn wants_state(interface: InterfaceView, phys: Map<u32, WirelessPhyView>) -> bool {
    phys.contains_key(interface.phy_name) && interface.index.is_some()
}

/// An interface with the copy of its radio and its state put in. An
/// interface without an index, or on a radio that is not known, stays as
/// it is, and so does the state where none is given for the index.
pub open spec fn attached(
    interface: InterfaceView,
    phys: Map<u32, WirelessPhyView>,
    states: Seq<LinkState>,
) -> InterfaceView {
    if wants_state(interface, phys) {
        InterfaceView {
            phy: Some(phys[interface.phy_name]),
            state: match state_among(states, interface.index.unwrap(), states.len()) {
                Some(state) => Some(state),
                None => interface.state,
            },
            ..interface
        }
    } else {
        interface
    }
}

/// The indexes of those among the first `n` interfaces whose state is to
/// be asked for, in their order.
pub open spec fn queries_among(
    table: Seq<InterfaceView>,
    phys: Map<u32, WirelessPhyView>,
    n: nat,
) -> Seq<u32>
    decreases n,
{
    if n == 0 {
        Seq::empty()
    } else if wants_state(table[n - 1], phys) {
        queries_among(table, phys, (n - 1) as nat).push(table[n - 1].index.unwrap())
    } else {
        queries_among(table, phys, (n - 1) as nat)
    }
}

/// The first among the first `n` interfaces that has the index `index`.
pub open spec fn found_by_index(table: Seq<InterfaceView>, index: u32, n: nat) -> Option<
    InterfaceView,
>
    decreases n,
{
    if n == 0 {
        None
    } else {
        match found_by_index(table, index, (n - 1) as nat) {
            Some(interface) => Some(interface),
            None => if table[n - 1].index == Some(index) {
                Some(table[n - 1])
            } else {
                None
            },
        }
    }
}

/// The error of an interface that is not there.
pub open spec fn not_found() -> Failure {
    Failure { kind: ErrorKind::Domain, message: "Interface Not Found"@ }
}

/// The error of an interface whose radio is not known.
pub open spec fn phy_missing() -> Failure {
    Failure { kind: ErrorKind::Domain, message: "Phy does not exist..."@ }
}

/// The error of a channel number that no band admits.
pub open spec fn unknown_channel() -> Failure {
    Failure { kind: ErrorKind::Domain, message: "Unknown channel"@ }
}

/// The search for a name among the first `n` interfaces. An interface
/// without an index is passed over; one with an index but without its
/// radio fails the search; the first of the others that has the name is
/// found.
pub open spec fn found_by_name(table: Seq<InterfaceView>, name: Seq<char>, n: nat) -> Result<
    Option<InterfaceView>,
    Failure,
>
    decreases n,
{
    if n == 0 {
        Ok(None)
    } else {
        match found_by_name(table, name, (n - 1) as nat) {
            Ok(None) => {
                let interface = table[n - 1];
                if interface.index.is_none() {
                    Ok(None)
                } else if interface.phy.is_none() {
                    Err(phy_missing())
                } else if name_text(interface.name) == name {
                    Ok(Some(interface))
                } else {
                    Ok(None)
                }
            },
            settled => settled,
        }
    }
}

/// What a search by index finds has that index and stands among the
/// interfaces with no interface of that index before it; it finds
/// nothing only where no interface has the index.
pub proof fn lemma_found_by_index(table: Seq<InterfaceView>, index: u32, n: nat)
    requires
        n <= table.len(),
    ensures
        match found_by_index(table, index, n) {
            Some(interface) => exists|i: int|
                0 <= i < n && table[i] == interface && interface.index == Some(index) && forall|
                    j: int,
                | 0 <= j < i ==> (#[trigger] table[j]).index != Some(index),
            None => forall|j: int| 0 <= j < n ==> (#[trigger] table[j]).index != Some(index),
        },
    decreases n,
{
    if n > 0 {
        lemma_found_by_index(table, index, (n - 1) as nat);
        match found_by_index(table, index, (n - 1) as nat) {
            Some(interface) => {
                let i = choose|i: int|
                    0 <= i < n - 1 && table[i] == interface && interface.index == Some(index)
                        && forall|j: int| 0 <= j < i ==> (#[trigger] table[j]).index != Some(index);
                assert(0 <= i < n && table[i] == interface);
            },
            None => {
                if table[n - 1].index == Some(index) {
                    assert(table[n - 1] == found_by_index(table, index, n).unwrap());
                }
            },
        }
    }
}

/// The first match stays the first match as the search goes on.
pub proof fn lemma_found_by_index_stays(table: Seq<InterfaceView>, index: u32, k: nat, n: nat)
    requires
        k <= n,
        found_by_index(table, index, k).is_some(),
    ensures
        found_by_index(table, index, n) == found_by_index(table, index, k),
    decreases n,
{
    if k < n {
        lemma_found_by_index_stays(table, index, k, (n - 1) as nat);
    }
}

/// A search by name that has found or failed stays as it is.
pub proof fn lemma_found_by_name_stays(table: Seq<InterfaceView>, name: Seq<char>, k: nat, n: nat)
    requires
        k <= n,
        found_by_name(table, name, k) != Ok::<Option<InterfaceView>, Failure>(None),
    ensures
        found_by_name(table, name, n) == found_by_name(table, name, k),
    decreases n,
{
    if k < n {
        lemma_found_by_name_stays(table, name, k, (n - 1) as nat);
    }
}

/// What a search by name finds has an index, its radio and that name;
/// it fails only where an interface has an index and lacks its radio; it
/// finds nothing only where every interface lacks an index or has its
/// radio and another name.
pub proof fn lemma_found_by_name(table: Seq<InterfaceView>, name: Seq<char>, n: nat)
    requires
        n <= table.len(),
    ensures
        match found_by_name(table, name, n) {
            Ok(Some(interface)) => interface.index.is_some() && interface.phy.is_some()
                && name_text(interface.name) == name && exists|i: int|
                0 <= i < n && table[i] == interface,
            Ok(None) => forall|j: int|
                0 <= j < n ==> (#[trigger] table[j]).index.is_none() || (table[j].phy.is_some()
                    && name_text(table[j].name) != name),
            Err(failure) => failure == phy_missing() && exists|i: int|
                0 <= i < n && (#[trigger] table[i]).index.is_some() && table[i].phy.is_none(),
        },
    decreases n,
{
    if n > 0 {
        lemma_found_by_name(table, name, (n - 1) as nat);
        match found_by_name(table, name, (n - 1) as nat) {
            Ok(Some(interface)) => {
                let i = choose|i: int| 0 <= i < n - 1 && table[i] == interface;
                assert(0 <= i < n && table[i] == interface);
            },
            Ok(None) => {
                let last = table[n - 1];
                if last.index.is_some() && last.phy.is_none() {
                    assert(table[n - 1].index.is_some() && table[n - 1].phy.is_none());
                } else if last.index.is_some() && name_text(last.name) == name {
                    assert(table[n - 1] == last);
                }
            },
            Err(_) => {
                let i = choose|i: int|
                    0 <= i < n - 1 && (#[trigger] table[i]).index.is_some()
                        && table[i].phy.is_none();
                assert(0 <= i < n && table[i].index.is_some() && table[i].phy.is_none());
            },
        }
    }
}

/// In whatever order a table hands out its interfaces, a search by
/// index finds an interface of the table that has the index, and finds
/// nothing only where the table holds none that has it.
pub proof fn lemma_search_by_index_in_a_walk(
    table: Map<u32, InterfaceView>,
    radios: Seq<u32>,
    index: u32,
)
    requires
        names_each_once(radios, table),
    ensures
        match found_by_index(along(table, radios), index, radios.len()) {
            Some(interface) => interface.index == Some(index) && exists|radio: u32|
                table.contains_key(radio) && #[trigger] table[radio] == interface,
            None => forall|radio: u32|
                table.contains_key(radio) ==> (#[trigger] table[radio]).index != Some(index),
        },
{
    let walked = along(table, radios);
    lemma_found_by_index(walked, index, radios.len());
    match found_by_index(walked, index, radios.len()) {
        Some(interface) => {
            let i = choose|i: int|
                0 <= i < radios.len() && walked[i] == interface && interface.index == Some(index)
                    && forall|j: int| 0 <= j < i ==> (#[trigger] walked[j]).index != Some(index);
            assert(radios.to_set().contains(radios[i]));
            assert(table.contains_key(radios[i]) && table[radios[i]] == interface);
        },
        None => {
            assert forall|radio: u32| table.contains_key(radio) implies (
            #[trigger] table[radio]).index != Some(index) by {
                assert(radios.to_set().contains(radio));
                let i = choose|i: int| 0 <= i < radios.len() && radios[i] == radio;
                assert(walked[i] == table[radio]);
            }
        },
    }
}

/// In whatever order a table hands out its interfaces, a search by name
/// finds an interface of the table that has an index, its radio and the
/// name; it fails only where the table holds an interface with an index
/// and without its radio; and it finds nothing only where every
/// interface of the table lacks an index or has its radio and another
/// name.
pub proof fn lemma_search_by_name_in_a_walk(
    table: Map<u32, InterfaceView>,
    radios: Seq<u32>,
    name: Seq<char>,
)
    requires
        names_each_once(radios, table),
    ensures
        match found_by_name(along(table, radios), name, radios.len()) {
            Ok(Some(interface)) => interface.index.is_some() && interface.phy.is_some()
                && name_text(interface.name) == name && exists|radio: u32|
                table.contains_key(radio) && #[trigger] table[radio] == interface,
            Ok(None) => forall|radio: u32|
                table.contains_key(radio) ==> (#[trigger] table[radio]).index.is_none() || (
                table[radio].phy.is_some() && name_text(table[radio].name) != name),
            Err(failure) => failure == phy_missing() && exists|radio: u32|
                table.contains_key(radio) && (#[trigger] table[radio]).index.is_some()
                    && table[radio].phy.is_none(),
        },
{
    let walked = along(table, radios);
    lemma_found_by_name(walked, name, radios.len());
    match found_by_name(walked, name, radios.len()) {
        Ok(Some(interface)) => {
            let i = choose|i: int| 0 <= i < radios.len() && walked[i] == interface;
            assert(radios.to_set().contains(radios[i]));
            assert(table.contains_key(radios[i]) && table[radios[i]] == interface);
        },
        Ok(None) => {
            assert forall|radio: u32| table.contains_key(radio) implies (
            #[trigger] table[radio]).index.is_none() || (table[radio].phy.is_some() && name_text(
                table[radio].name,
            ) != name) by {
                assert(radios.to_set().contains(radio));
                let i = choose|i: int| 0 <= i < radios.len() && radios[i] == radio;
                assert(walked[i] == table[radio]);
            }
        },
        Err(_) => {
            let i = choose|i: int|
                0 <= i < radios.len() && (#[trigger] walked[i]).index.is_some()
                    && walked[i].phy.is_none();
            assert(radios.to_set().contains(radios[i]));
            assert(table.contains_key(radios[i]) && table[radios[i]] == walked[i]);
        },
    }
}

fn find_state(states: &[LinkState], index: u32) -> (r: Option<Operstate>)
    ensures
        r == state_among(states@, index, states@.len()),
{
    let mut i: usize = 0;
    while i < states.len()
        invariant
            i <= states@.len(),
            state_among(states@, index, i as nat).is_none(),
        decreases states@.len() - i,
    {
        if states[i].index == index {
            proof {
                lemma_state_among_stays(states@, index, (i + 1) as nat, states@.len());
            }
            return Some(states[i].state);
        }
        i = i + 1;
    }
    None
}

/// The first state given for a link stays the one that counts.
pub proof fn lemma_state_among_stays(states: Seq<LinkState>, index: u32, k: nat, n: nat)
    requires
        k <= n,
        state_among(states, index, k).is_some(),
    ensures
        state_among(states, index, n) == state_among(states, index, k),
    decreases n,
{
    if k < n {
        lemma_state_among_stays(states, index, k, (n - 1) as nat);
    }
}

/// The indexes of the interfaces whose state is to be asked for, in the
/// order of the interfaces.
pub fn state_queries(interfaces: &[Interface], wiphys: &HashMap<u32, WirelessPhy>) -> (r: Vec<u32>)
    ensures
        r@ == queries_among(
            interface_views(interfaces@),
            phy_views(wiphys@),
            interfaces@.len(),
        ),
{
    broadcast use vstd::std_specs::hash::group_hash_axioms;

    let ghost table = interface_views(interfaces@);
    let ghost phys = phy_views(wiphys@);
    let mut out: Vec<u32> = Vec::new();
    let mut i: usize = 0;
    while i < interfaces.len()
        invariant
            i <= interfaces@.len(),
            table == interface_views(interfaces@),
            phys == phy_views(wiphys@),
            out@ == queries_among(table, phys, i as nat),
        decreases interfaces@.len() - i,
    {
        let interface = &interfaces[i];
        if wiphys.contains_key(&interface.phy_name) {
            match interface.index {
                Some(index) => out.push(index),
                None => {},
            }
        }
        i = i + 1;
    }
    out
}

/// A table with the copy of its radio and its state put into each
/// interface.
pub open spec fn attached_all(
    table: Map<u32, InterfaceView>,
    phys: Map<u32, WirelessPhyView>,
    states: Seq<LinkState>,
) -> Map<u32, InterfaceView> {
    Map::new(
        |radio: u32| table.contains_key(radio),
        |radio: u32| attached(table[radio], phys, states),
    )
}

fn attach(interface: &Interface, wiphys: &HashMap<u32, WirelessPhy>, states: &[LinkState]) -> (r:
    Interface)
    ensures
        r@ == attached(interface@, phy_views(wiphys@), states@),
{
    broadcast use vstd::std_specs::hash::group_hash_axioms;

    let mut interface = interface.snapshot();
    match wiphys.get(&interface.phy_name) {
        Some(phy) => {
            match interface.index {
                Some(index) => {
                    interface.phy = Some(phy.snapshot());
                    match find_state(states, index) {
                        Some(state) => {
                            interface.state = Some(state);
                        },
                        None => {},
                    }
                },
                None => {},
            }
        },
        None => {},
    }
    interface
}

/// Puts into each interface of a table the copy of its radio and its
/// state.
pub fn get_interfaces_info(
    wiphys: &HashMap<u32, WirelessPhy>,
    interfaces: &HashMap<u32, Interface>,
    states: &[LinkState],
) -> (r: HashMap<u32, Interface>)
    ensures
        interface_map(r@) == attached_all(
            interface_map(interfaces@),
            phy_views(wiphys@),
            states@,
        ),
{
    broadcast use vstd::std_specs::hash::group_hash_axioms;

    let ghost phys = phy_views(wiphys@);
    let mut out: HashMap<u32, Interface> = HashMap::new();
    for radio in iter: interfaces.keys()
        invariant
            phys == phy_views(wiphys@),
            forall|k: u32| #[trigger]
                out@.contains_key(k) ==> interfaces@.contains_key(k) && out@[k]@ == attached(
                    interfaces@[k]@,
                    phys,
                    states@,
                ),
            forall|i: int| 0 <= i < iter.index() ==> out@.contains_key(*#[trigger] iter.seq()[i]),
    {
        assert(interfaces@.contains_key(*radio)) by {
            assert(iter.seq().unref().to_set().contains(*radio)) by {
                assert(iter.seq().unref()[iter.index()] == *radio);
            }
        }
        match interfaces.get(radio) {
            Some(interface) => {
                out.insert(*radio, attach(interface, wiphys, states));
            },
            None => {},
        }
    }
    proof {
        let radios = interfaces.keys().remaining().unref();
        assert forall|k: u32| interfaces@.contains_key(k) implies out@.contains_key(k) by {
            assert(radios.to_set().contains(k));
            let i = choose|i: int| 0 <= i < radios.len() && radios[i] == k;
            assert(radios[i] == *interfaces.keys().remaining()[i]);
        }
        assert(interface_map(out@) == attached_all(interface_map(interfaces@), phys, states@));
    }
    out
}

/// Finds the interface with the index `interface_index`.
pub fn get_interface_info_idx(interfaces: &[Interface], interface_index: u32) -> (r: Result<
    Interface,
    Nl80211Error,
>)
    ensures
        match r {
            Ok(interface) => found_by_index(
                interface_views(interfaces@),
                interface_index,
                interfaces@.len(),
            ) == Some(interface@),
            Err(e) => found_by_index(
                interface_views(interfaces@),
                interface_index,
                interfaces@.len(),
            ).is_none() && e@ == not_found(),
        },
{
    let ghost table = interface_views(interfaces@);
    let mut i: usize = 0;
    while i < interfaces.len()
        invariant
            i <= interfaces@.len(),
            table == interface_views(interfaces@),
            found_by_index(table, interface_index, i as nat).is_none(),
        decreases interfaces@.len() - i,
    {
        match interfaces[i].index {
            Some(index) => {
                if index == interface_index {
                    proof {
                        lemma_found_by_index_stays(
                            table,
                            interface_index,
                            (i + 1) as nat,
                            table.len(),
                        );
                    }
                    return Ok(interfaces[i].snapshot());
                }
            },
            None => {},
        }
        i = i + 1;
    }
    Err(Nl80211Error::new(ErrorKind::Domain, "Interface Not Found"))
}

/// Finds the interface with the name `interface_name`.
pub fn get_interface_info_name(interfaces: &[Interface], interface_name: &String) -> (r: Result<
    Interface,
    Nl80211Error,
>)
    ensures
        match r {
            Ok(interface) => found_by_name(
                interface_views(interfaces@),
                interface_name@,
                interfaces@.len(),
            ) == Ok::<_, Failure>(Some(interface@)),
            Err(e) => match found_by_name(
                interface_views(interfaces@),
                interface_name@,
                interfaces@.len(),
            ) {
                Ok(found) => found.is_none() && e@ == not_found(),
                Err(failure) => e@ == failure,
            },
        },
{
    let ghost table = interface_views(interfaces@);
    let mut i: usize = 0;
    while i < interfaces.len()
        invariant
            i <= interfaces@.len(),
            table == interface_views(interfaces@),
            found_by_name(table, interface_name@, i as nat) == Ok::<Option<InterfaceView>, Failure>(
                None,
            ),
        decreases interfaces@.len() - i,
    {
        let interface = &interfaces[i];
        if interface.index.is_some() {
            if interface.phy.is_none() {
                proof {
                    lemma_found_by_name_stays(table, interface_name@, (i + 1) as nat, table.len());
                }
                return Err(Nl80211Error::new(ErrorKind::Domain, "Phy does not exist..."));
            }
            if interface.name_as_string() == *interface_name {
                proof {
                    lemma_found_by_name_stays(table, interface_name@, (i + 1) as nat, table.len());
                }
                return Ok(interface.snapshot());
            }
        }
        i = i + 1;
    }
    Err(Nl80211Error::new(ErrorKind::Domain, "Interface Not Found"))
}

/// The request that puts the interface into monitor mode.
pub fn set_interface_monitor(nt_socket: &NtSocket, interface_index: u32, active: bool) -> (r:
    Request)
    ensures
        r@ == set_type_request(
            nt_socket.family_id,
            interface_index,
            Nl80211Iftype::IftypeMonitor,
            active,
        ),
{
    nt_socket.set_type_vec(interface_index, Nl80211Iftype::IftypeMonitor, active)
}

/// The request that puts the interface into station mode.
pub fn set_interface_station(nt_socket: &NtSocket, interface_index: u32) -> (r: Request)
    ensures
        r@ == set_type_request(
            nt_socket.family_id,
            interface_index,
            Nl80211Iftype::IftypeStation,
            false,
        ),
{
    nt_socket.set_type_vec(interface_index, Nl80211Iftype::IftypeStation, false)
}

/// The request that tunes the interface to the channel `channel`, 20 MHz
/// wide and without HT. The 2.4 GHz band is tried before the 5 GHz band,
/// and a number that neither admits is an error.
pub fn set_interface_chan(nt_socket: &NtSocket, interface_index: u32, channel: u8) -> (r: Result<
    Request,
    Nl80211Error,
>)
    ensures
        match r {
            Ok(request) => plain_channel(channel) matches Some((_, frequency)) && request@
                == set_frequency_request(
                nt_socket.family_id,
                interface_index,
                frequency,
                Nl80211ChanWidth::ChanWidth20Noht,
                Nl80211ChannelType::ChanNoHt,
            ),
            Err(e) => plain_channel(channel).is_none() && e@ == unknown_channel(),
        },
{
    match resolve_channel(channel) {
        Some((_, frequency)) => Ok(
            nt_socket.set_frequency(
                interface_index,
                frequency,
                Nl80211ChanWidth::ChanWidth20Noht,
                Nl80211ChannelType::ChanNoHt,
            ),
        ),
        None => Err(Nl80211Error::new(ErrorKind::Domain, "Unknown channel")),
    }
}

/// The request that brings the interface up.
pub fn set_interface_up(rt_socket: &RtSocket, interface_index: u32) -> (r: LinkRequest)
    ensures
        r == (LinkRequest {
            cmd: LinkCommand::NewLink,
            index: interface_index,
            flags: IFF_UP,
            change: IFF_UP,
            address: None,
            ack: true,
        }),
{
    rt_socket.set_interface_up(interface_index)
}

/// The request that brings the interface down.
pub fn set_interface_down(rt_socket: &RtSocket, interface_index: u32) -> (r: LinkRequest)
    ensures
        r == (LinkRequest {
            cmd: LinkCommand::NewLink,
            index: interface_index,
            flags: 0,
            change: IFF_UP,
            address: None,
            ack: true,
        }),
{
    rt_socket.set_interface_down(interface_index)
}

/// The request that gives the interface the hardware address `mac`.
pub fn set_interface_mac(rt_socket: &RtSocket, interface_index: u32, mac: &[u8; 6]) -> (r:
    LinkRequest)
    ensures
        r == (LinkRequest {
            cmd: LinkCommand::NewLink,
            index: interface_index,
            flags: 0,
            change: 0,
            address: Some(*mac),
            ack: true,
        }),
{
    rt_socket.set_interface_mac(interface_index, mac)
}

/// The request that gives the interface a locally administered address
/// made from the random bytes `seed`.
pub fn set_interface_mac_random(rt_socket: &RtSocket, interface_index: u32, seed: [u8; 6]) -> (r:
    LinkRequest)
    ensures
        r.cmd == LinkCommand::NewLink,
        r.index == interface_index,
        r.flags == 0,
        r.change == 0,
        r.ack,
        r.address matches Some(mac) && mac@ == local_address(seed@),
{
    rt_socket.set_interface_mac_random(interface_index, seed)
}

/// The request that reads the state of the interface.
pub fn get_interface_state(rt_socket: &RtSocket, interface_index: u32) -> (r: LinkRequest)
    ensures
        r == (LinkRequest {
            cmd: LinkCommand::GetLink,
            index: interface_index,
            flags: 0,
            change: 0,
            address: None,
            ack: false,
        }),
{
    rt_socket.get_interface_status(interface_index)
}

/// Takes what was read of one radio into the table of radios. A radio
/// that could not be read is left out.
pub fn record_wiphy(
    wiphys: &mut HashMap<u32, WirelessPhy>,
    id: u32,
    read: Result<WirelessPhy, Nl80211Error>,
)
    ensures
        phy_views(final(wiphys)@) == match read {
            Ok(phy) => phy_views(old(wiphys)@).insert(id, phy@),
            Err(_) => phy_views(old(wiphys)@),
        },
{
    broadcast use vstd::std_specs::hash::group_hash_axioms;

    match read {
        Ok(phy) => {
            wiphys.insert(id, phy);
        },
        Err(_) => {},
    }
}

/// A change that the facade makes to an interface.
#[derive(Debug, Clone, Copy, PartialEq, Eq, Structural)]
pub enum Mutation {
    Monitor,
    Station,
    Channel,
    Up,
    Down,
    Mac,
    MacRandom,
}

/// What the facade does once a change is acknowledged.
#[derive(Debug, Clone, Copy, PartialEq, Eq, Structural)]
pub enum Next {
    /// Nothing more.
    Done,
    /// The radios and the interfaces are read again.
    Refresh,
}

impl Mutation {
    /// What follows the change: all are followed by a new reading but the
    /// change to monitor mode, of which the kernel tells only later.
    pub open spec fn next(self) -> Next {
        if self == Mutation::Monitor {
            Next::Done
        } else {
            Next::Refresh
        }
    }
}

/// The facade: the two endpoints, and what was last read of the radios
/// and of the interfaces, each under the number of its radio.
pub struct Nl80211 {
    pub nt_socket: NtSocket,
    pub rt_socket: RtSocket,
    wirelessphys: HashMap<u32, WirelessPhy>,
    interfaces: HashMap<u32, Interface>,
}

/// The facade in specifications.
pub struct Nl80211View {
    pub nt_socket: NtSocket,
    pub rt_socket: RtSocket,
    pub wirelessphys: Map<u32, WirelessPhyView>,
    pub interfaces: Map<u32, InterfaceView>,
}

impl View for Nl80211 {
    type V = Nl80211View;

    closed spec fn view(&self) -> Nl80211View {
        Nl80211View {
            nt_socket: self.nt_socket,
            rt_socket: self.rt_socket,
            wirelessphys: phy_views(self.wirelessphys@),
            interfaces: interface_map(self.interfaces@),
        }
    }
}

/// What the facade holds after a reading: the endpoints, the radios as
/// read, and the interfaces, each with the copy of its radio and its
/// state put in.
pub open spec fn reading(
    nt_socket: NtSocket,
    rt_socket: RtSocket,
    wiphys: Map<u32, WirelessPhyView>,
    interfaces: Map<u32, InterfaceView>,
    states: Seq<LinkState>,
) -> Nl80211View {
    Nl80211View {
        nt_socket,
        rt_socket,
        wirelessphys: wiphys,
        interfaces: attached_all(interfaces, wiphys, states),
    }
}

/// The renderings of the first `n` interfaces, each in its box and
/// followed by a line feed.
pub open spec fn renderings(interfaces: Seq<InterfaceView>, n: nat) -> Seq<char>
    decreases n,
{
    if n == 0 {
        Seq::empty()
    } else {
        renderings(interfaces, (n - 1) as nat) + boxed(rendering(interfaces[n - 1])) + "\n"@
    }
}

/// Renders the interfaces in their order, each in its box and followed
/// by a line feed.
pub fn render_interfaces(interfaces: &[Interface]) -> (s: String)
    ensures
        s@ == renderings(interface_views(interfaces@), interfaces@.len()),
{
    let mut out = String::new();
    let mut i: usize = 0;
    while i < interfaces.len()
        invariant
            i <= interfaces@.len(),
            out@ == renderings(interface_views(interfaces@), i as nat),
        decreases interfaces@.len() - i,
    {
        out.append(interfaces[i].pretty_print().as_str());
        out.append("\n");
        i = i + 1;
    }
    out
}

impl Nl80211 {
    /// Makes the facade from the two endpoints and from a first reading
    /// of the radios, of the interfaces and of their states.
    pub fn new(
        nt_socket: NtSocket,
        rt_socket: RtSocket,
        wirelessphys: HashMap<u32, WirelessPhy>,
        interfaces: HashMap<u32, Interface>,
        states: &[LinkState],
    ) -> (r: Nl80211)
        ensures
            r@ == reading(
                nt_socket,
                rt_socket,
                phy_views(wirelessphys@),
                interface_map(interfaces@),
                states@,
            ),
    {
        let interfaces = get_interfaces_info(&wirelessphys, &interfaces, states);
        Nl80211 { nt_socket, rt_socket, wirelessphys, interfaces }
    }

    /// Replaces what the facade holds by a new reading.
    pub fn update_interfaces(
        &mut self,
        wirelessphys: HashMap<u32, WirelessPhy>,
        interfaces: HashMap<u32, Interface>,
        states: &[LinkState],
    )
        ensures
            final(self)@ == reading(
                old(self)@.nt_socket,
                old(self)@.rt_socket,
                phy_views(wirelessphys@),
                interface_map(interfaces@),
                states@,
            ),
    {
        self.interfaces = get_interfaces_info(&wirelessphys, &interfaces, states);
        self.wirelessphys = wirelessphys;
    }

    /// The interfaces, each in its box and followed by a line feed. They
    /// come in the order in which the table hands them out, of which
    /// nothing is known: each radio is named once.
    pub fn pretty_print_interfaces(&self) -> (s: String)
        ensures
            exists|radios: Seq<u32>|
                #[trigger] names_each_once(radios, self@.interfaces) && s@ == renderings(
                    along(self@.interfaces, radios),
                    radios.len(),
                ),
    {
        let walked = walk(&self.interfaces);
        let s = render_interfaces(walked.as_slice());
        proof {
            let radios = choose|radios: Seq<u32>|
                #[trigger] names_each_once(radios, self@.interfaces) && interface_views(walked@)
                    == along(self@.interfaces, radios);
            assert(interface_views(walked@).len() == radios.len());
            assert(names_each_once(radios, self@.interfaces));
        }
        s
    }

    /// The interfaces by the number of the radio.
    pub fn get_interfaces(&self) -> (r: &HashMap<u32, Interface>)
        ensures
            interface_map(r@) == self@.interfaces,
    {
        &self.interfaces
    }

    pub fn get_wiphys(&self) -> (r: &HashMap<u32, WirelessPhy>)
        ensures
            phy_views(r@) == self@.wirelessphys,
    {
        &self.wirelessphys
    }

    /// The interfaces, to be changed in place.
    pub fn get_mut_interfaces(&mut self) -> (r: &mut HashMap<u32, Interface>)
        ensures
            interface_map(r@) == old(self)@.interfaces,
            final(self)@ == (Nl80211View {
                interfaces: interface_map(final(r)@),
                ..old(self)@
            }),
    {
        &mut self.interfaces
    }

    /// The radios, to be changed in place.
    pub fn get_mut_wiphys(&mut self) -> (r: &mut HashMap<u32, WirelessPhy>)
        ensures
            phy_views(r@) == old(self)@.wirelessphys,
            final(self)@ == (Nl80211View {
                wirelessphys: phy_views(final(r)@),
                ..old(self)@
            }),
    {
        &mut self.wirelessphys
    }

    /// What follows the responses to a change: the failure that they
    /// report, or else what the change calls for. The facade itself is
    /// not touched.
    pub fn after_change(&self, mutation: Mutation, responses: &[Response]) -> (r: Result<
        Next,
        Nl80211Error,
    >)
        ensures
            match r {
                Ok(next) => acks_of(response_views(responses@)).is_ok() && next == mutation.next(),
                Err(e) => acks_of(response_views(responses@)) == Err::<(), _>(e@),
            },
    {
        match read_acks(responses) {
            Ok(_) => match mutation {
                Mutation::Monitor => Ok(Next::Done),
                _ => Ok(Next::Refresh),
            },
            Err(e) => Err(e),
        }
    }

    /// The request that puts the interface `index` into monitor mode.
    pub fn set_interface_monitor(&self, active: bool, index: u32) -> (r: Request)
        ensures
            r@ == set_type_request(
                self@.nt_socket.family_id,
                index,
                Nl80211Iftype::IftypeMonitor,
                active,
            ),
    {
        self.nt_socket.set_type_vec(index, Nl80211Iftype::IftypeMonitor, active)
    }

    /// The request that puts the interface `index` into station mode.
    pub fn set_interface_station(&self, index: u32) -> (r: Request)
        ensures
            r@ == set_type_request(
                self@.nt_socket.family_id,
                index,
                Nl80211Iftype::IftypeStation,
                false,
            ),
    {
        self.nt_socket.set_type_vec(index, Nl80211Iftype::IftypeStation, false)
    }

    /// The request that tunes the interface `index` to the channel
    /// `channel`.
    pub fn set_interface_chan(&self, index: u32, channel: u8) -> (r: Result<Request, Nl80211Error>)
        ensures
            match r {
                Ok(request) => plain_channel(channel) matches Some((_, frequency)) && request@
                    == set_frequency_request(
                    self@.nt_socket.family_id,
                    index,
                    frequency,
                    Nl80211ChanWidth::ChanWidth20Noht,
                    Nl80211ChannelType::ChanNoHt,
                ),
                Err(e) => plain_channel(channel).is_none() && e@ == unknown_channel(),
            },
    {
        set_interface_chan(&self.nt_socket, index, channel)
    }

    /// The request that brings the interface `index` up.
    pub fn set_interface_up(&self, index: u32) -> (r: LinkRequest)
        ensures
            r == (LinkRequest {
                cmd: LinkCommand::NewLink,
                index,
                flags: IFF_UP,
                change: IFF_UP,
                address: None,
                ack: true,
            }),
    {
        self.rt_socket.set_interface_up(index)
    }

    /// The request that brings the interface `index` down.
    pub fn set_interface_down(&self, index: u32) -> (r: LinkRequest)
        ensures
            r == (LinkRequest {
                cmd: LinkCommand::NewLink,
                index,
                flags: 0,
                change: IFF_UP,
                address: None,
                ack: true,
            }),
    {
        self.rt_socket.set_interface_down(index)
    }

    /// The request that gives the interface `index` the address `mac`.
    pub fn set_interface_mac(&self, index: u32, mac: &[u8; 6]) -> (r: LinkRequest)
        ensures
            r == (LinkRequest {
                cmd: LinkCommand::NewLink,
                index,
                flags: 0,
                change: 0,
                address: Some(*mac),
                ack: true,
            }),
    {
        self.rt_socket.set_interface_mac(index, mac)
    }

    /// The request that gives the interface `index` a locally
    /// administered address made from the random bytes `seed`.
    pub fn set_interface_mac_random(&self, index: u32, seed: [u8; 6]) -> (r: LinkRequest)
        ensures
            r.cmd == LinkCommand::NewLink,
            r.index == index,
            r.flags == 0,
            r.change == 0,
            r.ack,
            r.address matches Some(mac) && mac@ == local_address(seed@),
    {
        self.rt_socket.set_interface_mac_random(index, seed)
    }
}

} // verus!
