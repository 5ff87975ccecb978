use nl80211::attr::{Nl80211Attr, Nl80211Iftype, Operstate};
use nl80211::channels::WiFiBand;
use nl80211::cmd::Nl80211Cmd;
use nl80211::codec::{Attr, ByteOrder};
use nl80211::error::{ErrorKind, Nl80211Error};
use nl80211::interface::walk;
use nl80211::ntsocket::{
    read_interfaces, read_wiphy, read_wiphy_ids, MessageKind, NtSocket, Payload, Response,
};
use nl80211::phy::WirelessPhy;
use nl80211::rtsocket::{LinkCommand, RtSocket};
use nl80211::{
    get_interface_info_idx, get_interface_info_name, get_interface_state, get_interfaces_info,
    record_wiphy, set_interface_down, set_interface_mac, set_interface_mac_random,
    render_interfaces, set_interface_up, state_queries, Interface, LinkState, Mutation, Next,
    Nl80211,
    NL_80211_GENL_NAME,
};
use std::collections::HashMap;

const LE: ByteOrder = ByteOrder::Little;

fn raw(kind: u16, payload: &[u8]) -> Attr {
    Attr { kind, nested: false, network_order: false, payload: payload.to_vec() }
}

fn attr(kind: Nl80211Attr, payload: &[u8]) -> Attr {
    raw(kind.to_u16(), payload)
}

fn u32_attr(kind: Nl80211Attr, value: u32) -> Attr {
    attr(kind, &value.to_le_bytes())
}

fn encode(attrs: &[Attr]) -> Vec<u8> {
    let mut out = Vec::new();
    for a in attrs {
        let len = (a.payload.len() + 4) as u16;
        out.extend_from_slice(&len.to_le_bytes());
        out.extend_from_slice(&a.kind.to_le_bytes());
        out.extend_from_slice(&a.payload);
        while out.len() % 4 != 0 {
            out.push(0);
        }
    }
    out
}

fn band_attr(marker: u16, frequencies: &[u32]) -> Attr {
    let records: Vec<Attr> = frequencies
        .iter()
        .enumerate()
        .map(|(i, f)| raw(i as u16, &encode(&[raw(1, &f.to_le_bytes())])))
        .collect();
    raw(marker, &encode(&[raw(1, &encode(&records))]))
}

fn genl(cmd: Nl80211Cmd, attrs: Vec<Attr>) -> Response {
    Response { kind: MessageKind::Other, payload: Payload::Genl { cmd: cmd.to_u8(), attrs } }
}

fn done() -> Response {
    Response { kind: MessageKind::Done, payload: Payload::Empty }
}

fn wiphy_part(id: u32, name: &[u8], bands: &[Attr]) -> Response {
    genl(
        Nl80211Cmd::CmdNewWiphy,
        vec![
            u32_attr(Nl80211Attr::AttrWiphy, id),
            attr(Nl80211Attr::AttrWiphyName, name),
            attr(Nl80211Attr::AttrWiphyBands, &encode(bands)),
        ],
    )
}

fn new_interface(wiphy: u32, index: u32, name: &[u8]) -> Response {
    genl(
        Nl80211Cmd::CmdNewInterface,
        vec![
            u32_attr(Nl80211Attr::AttrIfindex, index),
            attr(Nl80211Attr::AttrIfname, name),
            u32_attr(Nl80211Attr::AttrWiphy, wiphy),
            u32_attr(Nl80211Attr::AttrIftype, 2),
        ],
    )
}

fn one_radio() -> HashMap<u32, WirelessPhy> {
    let listing = vec![wiphy_part(0, b"phy0\0", &[]), done()];
    let ids = read_wiphy_ids(&listing, LE).unwrap();
    assert_eq!(ids, vec![0]);
    let parts = vec![
        wiphy_part(0, b"phy0\0", &[band_attr(0, &[2412, 2437])]),
        wiphy_part(0, b"phy0\0", &[band_attr(1, &[5180])]),
        done(),
    ];
    let mut wiphys = HashMap::new();
    record_wiphy(&mut wiphys, ids[0], read_wiphy(&parts, LE));
    wiphys
}

fn facade(interfaces: &[Response], states: &[LinkState]) -> Nl80211 {
    let wiphys = one_radio();
    let table = read_interfaces(interfaces, LE).unwrap();
    Nl80211::new(NtSocket::new(28), RtSocket::new(), wiphys, table, states)
}

fn by_radio(table: &HashMap<u32, Interface>) -> Vec<Interface> {
    let mut radios: Vec<u32> = table.keys().copied().collect();
    radios.sort();
    radios.iter().map(|radio| table[radio].clone()).collect()
}

fn error(kind: ErrorKind, message: &str) -> Nl80211Error {
    Nl80211Error { kind, message: message.to_string() }
}

#[test]
fn a_first_reading_fills_the_caches() {
    let nl = facade(
        &[new_interface(0, 3, b"wlan0\0"), done()],
        &[LinkState { index: 3, state: Operstate::Up }],
    );
    assert_eq!(nl.get_wiphys().len(), 1);
    let phy = &nl.get_wiphys()[&0];
    assert_eq!(phy.phy, 0);
    assert_eq!(phy.phy_name, Some("phy0".to_string()));
    let bands: Vec<WiFiBand> = phy.frequency_list.as_ref().unwrap().iter().map(|b| b.band).collect();
    assert_eq!(bands, vec![WiFiBand::Band2GHz, WiFiBand::Band5GHz]);
    assert_eq!(nl.get_interfaces().len(), 1);
    let interface = &nl.get_interfaces()[&0];
    assert_eq!(interface.index, Some(3));
    assert_eq!(interface.name_as_string(), "wlan0");
    assert_eq!(interface.current_iftype, Some(Nl80211Iftype::IftypeStation));
    assert_eq!(interface.phy.as_ref(), Some(phy));
    assert_eq!(interface.state, Some(Operstate::Up));
    assert_eq!(nl.nt_socket.family_id, 28);
}

#[test]
fn interfaces_without_radio_or_index_stay_as_they_are() {
    let wiphys = one_radio();
    let mut known = Interface::new(0);
    known.index = Some(3);
    let mut stranger = Interface::new(9);
    stranger.index = Some(4);
    let indexless = Interface::new(0);
    let listed = vec![known.clone(), stranger.clone(), indexless.clone()];
    assert_eq!(state_queries(&listed, &wiphys), vec![3]);
    let table: HashMap<u32, Interface> =
        HashMap::from([(0, known.clone()), (9, stranger.clone()), (5, indexless.clone())]);
    assert_eq!(state_queries(&walk(&table), &wiphys), vec![3]);
    let states = [
        LinkState { index: 4, state: Operstate::Down },
        LinkState { index: 3, state: Operstate::Dormant },
        LinkState { index: 3, state: Operstate::Up },
    ];
    let out = get_interfaces_info(&wiphys, &table, &states);
    assert_eq!(out.len(), 3);
    assert_eq!(out[&0].phy, Some(wiphys[&0].clone()));
    assert_eq!(out[&0].state, Some(Operstate::Dormant));
    assert_eq!(out[&0].index, Some(3));
    assert_eq!(out[&9], stranger);
    assert_eq!(out[&5], indexless);
    let without_states = get_interfaces_info(&wiphys, &HashMap::from([(0, known)]), &[]);
    assert_eq!(without_states[&0].state, None);
    assert!(without_states[&0].phy.is_some());
    assert!(get_interfaces_info(&wiphys, &HashMap::new(), &states).is_empty());
}

#[test]
fn a_radio_that_cannot_be_read_is_left_out() {
    let mut wiphys = one_radio();
    record_wiphy(&mut wiphys, 5, Err(error(ErrorKind::Protocol, "Error (CMD_GET_WIPHY)")));
    assert_eq!(wiphys.len(), 1);
    let mut other = WirelessPhy::default();
    other.phy = 5;
    record_wiphy(&mut wiphys, 5, Ok(other.clone()));
    assert_eq!(wiphys.len(), 2);
    assert_eq!(wiphys[&5], other);
    record_wiphy(&mut wiphys, 0, Ok(other.clone()));
    assert_eq!(wiphys[&0], other);
}

#[test]
fn finds_an_interface_by_name() {
    let mut wiphys = one_radio();
    let mut second = WirelessPhy::default();
    second.phy = 1;
    record_wiphy(&mut wiphys, 1, Ok(second));
    let mut third = WirelessPhy::default();
    third.phy = 2;
    record_wiphy(&mut wiphys, 2, Ok(third));
    let table = read_interfaces(
        &[
            new_interface(1, 4, b"wlan1\0"),
            new_interface(0, 3, b"wlan0\0"),
            new_interface(2, 5, b"mon0\0"),
            done(),
        ],
        LE,
    )
    .unwrap();
    let table = get_interfaces_info(&wiphys, &table, &[]);
    let found = get_interface_info_name(&walk(&table), &"wlan0".to_string()).unwrap();
    assert_eq!(found, table[&0]);
    assert_eq!(found.index, Some(3));
    let table = by_radio(&table);
    assert_eq!(
        get_interface_info_name(&table, &"wlan9".to_string()),
        Err(error(ErrorKind::Domain, "Interface Not Found"))
    );
    assert_eq!(
        get_interface_info_name(&[], &"wlan0".to_string()),
        Err(error(ErrorKind::Domain, "Interface Not Found"))
    );
}

#[test]
fn a_search_by_name_fails_on_an_interface_without_radio() {
    let wiphys = one_radio();
    let table = read_interfaces(
        &[new_interface(7, 4, b"wlan1\0"), new_interface(0, 3, b"wlan0\0")],
        LE,
    )
    .unwrap();
    let table = get_interfaces_info(&wiphys, &table, &[]);
    let walked = vec![table[&7].clone(), table[&0].clone()];
    assert_eq!(
        get_interface_info_name(&walked, &"wlan0".to_string()),
        Err(error(ErrorKind::Domain, "Phy does not exist..."))
    );
    let reversed = by_radio(&table);
    assert_eq!(get_interface_info_name(&reversed, &"wlan0".to_string()), Ok(reversed[0].clone()));
    let found = get_interface_info_name(&walk(&table), &"wlan0".to_string());
    assert!(
        found == Ok(table[&0].clone())
            || found == Err(error(ErrorKind::Domain, "Phy does not exist..."))
    );
    let mut indexless = Interface::new(7);
    indexless.name = Some(b"wlan0\0".to_vec());
    assert_eq!(
        get_interface_info_name(&[indexless], &"wlan0".to_string()),
        Err(error(ErrorKind::Domain, "Interface Not Found"))
    );
}

#[test]
fn finds_an_interface_by_index() {
    let table = read_interfaces(
        &[new_interface(1, 4, b"wlan1\0"), new_interface(0, 3, b"wlan0\0")],
        LE,
    )
    .unwrap();
    assert_eq!(get_interface_info_idx(&walk(&table), 3), Ok(table[&0].clone()));
    assert_eq!(get_interface_info_idx(&walk(&table), 4), Ok(table[&1].clone()));
    let table = by_radio(&table);
    assert_eq!(get_interface_info_idx(&table, 3), Ok(table[0].clone()));
    assert_eq!(
        get_interface_info_idx(&table, 5),
        Err(error(ErrorKind::Domain, "Interface Not Found"))
    );
    assert_eq!(
        get_interface_info_idx(&[Interface::new(3)], 3),
        Err(error(ErrorKind::Domain, "Interface Not Found"))
    );
}

#[test]
fn a_refused_change_leaves_the_cache_as_it_is() {
    let nl = facade(
        &[new_interface(0, 3, b"wlan0\0"), done()],
        &[LinkState { index: 3, state: Operstate::Up }],
    );
    let before_interfaces = nl.get_interfaces().clone();
    let before_wiphys = nl.get_wiphys().clone();
    let refusal = vec![Response {
        kind: MessageKind::Error,
        payload: Payload::Nack { code: -1, message: "Operation not permitted".to_string() },
    }];
    for mutation in [
        Mutation::Monitor,
        Mutation::Station,
        Mutation::Channel,
        Mutation::Up,
        Mutation::Down,
        Mutation::Mac,
        Mutation::MacRandom,
    ] {
        assert_eq!(
            nl.after_change(mutation, &refusal),
            Err(error(ErrorKind::Protocol, "Operation not permitted"))
        );
    }
    assert_eq!(nl.get_interfaces(), &before_interfaces);
    assert_eq!(nl.get_wiphys(), &before_wiphys);
}

#[test]
fn every_change_but_monitor_mode_is_followed_by_a_reading() {
    let nl = facade(&[], &[]);
    let acked = vec![Response { kind: MessageKind::Error, payload: Payload::Ack }];
    assert_eq!(nl.after_change(Mutation::Monitor, &acked), Ok(Next::Done));
    for mutation in [
        Mutation::Station,
        Mutation::Channel,
        Mutation::Up,
        Mutation::Down,
        Mutation::Mac,
        Mutation::MacRandom,
    ] {
        assert_eq!(nl.after_change(mutation, &acked), Ok(Next::Refresh));
    }
}

#[test]
fn a_new_reading_replaces_the_caches() {
    let mut nl = facade(
        &[new_interface(0, 3, b"wlan0\0"), done()],
        &[LinkState { index: 3, state: Operstate::Up }],
    );
    let table = read_interfaces(
        &[new_interface(0, 8, b"mon0\0"), new_interface(4, 9, b"wlan4\0")],
        LE,
    )
    .unwrap();
    nl.update_interfaces(one_radio(), table, &[LinkState { index: 8, state: Operstate::Down }]);
    assert_eq!(nl.get_interfaces().len(), 2);
    assert_eq!(nl.get_interfaces()[&0].index, Some(8));
    assert_eq!(nl.get_interfaces()[&0].state, Some(Operstate::Down));
    assert!(nl.get_interfaces()[&0].phy.is_some());
    assert_eq!(nl.get_interfaces()[&4].phy, None);
    assert_eq!(nl.get_interfaces()[&4].state, None);
}

#[test]
fn the_caches_can_be_changed_in_place() {
    let mut nl = facade(&[new_interface(0, 3, b"wlan0\0"), done()], &[]);
    nl.get_mut_interfaces().get_mut(&0).unwrap().state = Some(Operstate::Dormant);
    nl.get_mut_interfaces().insert(8, Interface::new(8));
    nl.get_mut_wiphys().remove(&0);
    assert_eq!(nl.get_interfaces().len(), 2);
    assert_eq!(nl.get_interfaces()[&0].state, Some(Operstate::Dormant));
    assert_eq!(nl.get_interfaces()[&8], Interface::new(8));
    assert!(nl.get_wiphys().is_empty());
    assert_eq!(nl.get_mut_interfaces().remove(&0).map(|i| i.index), Some(Some(3)));
    assert_eq!(nl.get_interfaces().len(), 1);
    assert_eq!(nl.pretty_print_interfaces(), format!("{}\n", Interface::new(8).pretty_print()));
}

#[test]
fn the_facade_holds_the_interfaces_by_radio() {
    let mut first = Interface::new(0);
    first.index = Some(7);
    let mut other = Interface::new(1);
    other.index = Some(4);
    let nl = Nl80211::new(
        NtSocket { family_id: 28 },
        RtSocket::new(),
        one_radio(),
        HashMap::from([(0, first), (1, other.clone())]),
        &[LinkState { index: 7, state: Operstate::Up }],
    );
    assert_eq!(nl.get_interfaces().len(), 2);
    assert_eq!(nl.get_interfaces()[&0].phy_name, 0);
    assert_eq!(nl.get_interfaces()[&0].index, Some(7));
    assert_eq!(nl.get_interfaces()[&0].state, Some(Operstate::Up));
    assert!(nl.get_interfaces()[&0].phy.is_some());
    assert_eq!(nl.get_interfaces()[&1], other);
}

#[test]
fn the_facade_builds_the_same_requests() {
    let nl = facade(&[], &[]);
    assert_eq!(nl.set_interface_monitor(true, 3), nl80211::set_interface_monitor(&nl.nt_socket, 3, true));
    assert_eq!(nl.set_interface_station(3), nl80211::set_interface_station(&nl.nt_socket, 3));
    assert_eq!(nl.set_interface_chan(3, 6), nl80211::set_interface_chan(&nl.nt_socket, 3, 6));
    assert_eq!(nl.set_interface_chan(3, 0), Err(error(ErrorKind::Domain, "Unknown channel")));
    let rt = RtSocket::new();
    assert_eq!(nl.set_interface_up(3), set_interface_up(&rt, 3));
    assert_eq!(nl.set_interface_down(3), set_interface_down(&rt, 3));
    assert_eq!(nl.set_interface_mac(3, &[1; 6]), set_interface_mac(&rt, 3, &[1; 6]));
    assert_eq!(nl.set_interface_mac_random(3, [0xff; 6]), set_interface_mac_random(&rt, 3, [0xff; 6]));
    assert_eq!(nl.set_interface_mac_random(3, [0xff; 6]).address, Some([0xfe, 255, 255, 255, 255, 255]));
    assert_eq!(get_interface_state(&rt, 3).cmd, LinkCommand::GetLink);
    assert_eq!(NL_80211_GENL_NAME, "nl80211");
}

#[test]
fn renders_every_interface() {
    let nl = facade(&[new_interface(0, 3, b"wlan0\0"), new_interface(6, 4, b"wlan1\0")], &[]);
    let text = nl.pretty_print_interfaces();
    let first = format!("{}\n", nl.get_interfaces()[&0].pretty_print());
    let second = format!("{}\n", nl.get_interfaces()[&6].pretty_print());
    assert!(text == format!("{first}{second}") || text == format!("{second}{first}"));
    assert!(text.contains("Band2GHz"));
    assert!(text.contains("[5180 (36)]"));
    assert_eq!(facade(&[], &[]).pretty_print_interfaces(), "");
    let listed = vec![nl.get_interfaces()[&6].clone(), nl.get_interfaces()[&0].clone()];
    assert_eq!(render_interfaces(&listed), format!("{second}{first}"));
    assert_eq!(render_interfaces(&[]), "");
}

#[test]
fn a_walk_hands_out_each_interface_once() {
    let table = read_interfaces(
        &[
            new_interface(1, 4, b"wlan1\0"),
            new_interface(0, 3, b"wlan0\0"),
            new_interface(2, 5, b"mon0\0"),
            new_interface(1, 6, b"wlan6\0"),
        ],
        LE,
    )
    .unwrap();
    let mut walked = walk(&table);
    assert_eq!(walked.len(), 3);
    walked.sort_by_key(|interface| interface.phy_name);
    assert_eq!(walked, by_radio(&table));
    assert_eq!(walked[1].index, Some(6));
    assert!(walk(&HashMap::new()).is_empty());
}

#[test]
fn errors_in_text() {
    assert_eq!(error(ErrorKind::Domain, "Interface Not Found").describe(), "domain: Interface Not Found");
    assert_eq!(Nl80211Error::new(ErrorKind::Transport, "no socket").describe(), "transport: no socket");
    assert_eq!(ErrorKind::Protocol.string(), "protocol");
    assert_eq!(ErrorKind::Decode.string(), "decode");
    assert_eq!(ErrorKind::Io.string(), "io");
}
