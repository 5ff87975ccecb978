use nl80211::attr::{Nl80211Attr, Nl80211ChanWidth, Nl80211Iftype, Operstate};
use nl80211::channels::{BandList, ChannelData, FrequencyStatus, WiFiBand};
use nl80211::codec::{Attr, ByteOrder, DecodeFault};
use nl80211::interface::interface_take_attr;
use nl80211::phy::{Frequency, WirelessPhy};
use nl80211::Interface;
use std::collections::HashMap;

const LE: ByteOrder = ByteOrder::Little;

fn attr(kind: Nl80211Attr, payload: &[u8]) -> Attr {
    Attr { kind: kind.to_u16(), nested: false, network_order: false, payload: payload.to_vec() }
}

fn u32_attr(kind: Nl80211Attr, value: u32) -> Attr {
    attr(kind, &value.to_le_bytes())
}

fn channel(frequency: u32, number: u32, status: FrequencyStatus) -> ChannelData {
    ChannelData { frequency, channel: number, pwr: 0, status }
}

fn phy0() -> WirelessPhy {
    let mut phy = WirelessPhy::default();
    phy.phy_name = Some("phy0".to_string());
    phy.driver = Some("iwlwifi".to_string());
    phy.iftypes = Some(vec![Nl80211Iftype::IftypeStation, Nl80211Iftype::IftypeMonitor]);
    phy.active_monitor = true;
    phy.has_netlink = true;
    phy.frequency_list = Some(vec![BandList {
        band: WiFiBand::Band2GHz,
        channels: vec![
            channel(2412, 1, FrequencyStatus::Enabled),
            channel(2417, 2, FrequencyStatus::Disabled),
            channel(2437, 6, FrequencyStatus::Enabled),
        ],
    }]);
    phy
}

#[test]
fn decodes_a_message_with_radio_and_type_only() {
    let attrs = vec![u32_attr(Nl80211Attr::AttrWiphy, 7), u32_attr(Nl80211Attr::AttrIftype, 2)];
    let interface = Interface::from_message(&attrs, LE).unwrap();
    assert_eq!(interface.phy_name, 7);
    assert_eq!(interface.current_iftype, Some(Nl80211Iftype::IftypeStation));
    assert_eq!(interface.index, None);
    assert_eq!(interface.ssid, None);
    assert_eq!(interface.mac, None);
    assert_eq!(interface.name, None);
    assert_eq!(interface.state, None);
    assert_eq!(interface.phy, None);
    assert_eq!(interface.device, None);
    assert_eq!(interface.frequency, None);
}

#[test]
fn decodes_every_known_attribute() {
    let attrs = vec![
        u32_attr(Nl80211Attr::AttrIfindex, 3),
        attr(Nl80211Attr::AttrIfname, b"wlan0\0"),
        u32_attr(Nl80211Attr::AttrWiphy, 0),
        u32_attr(Nl80211Attr::AttrIftype, 6),
        attr(Nl80211Attr::AttrWdev, &0x1_0000_0002u64.to_le_bytes()),
        attr(Nl80211Attr::AttrMac, &[2, 0, 0, 0, 0, 1]),
        attr(Nl80211Attr::AttrSsid, b"home"),
        u32_attr(Nl80211Attr::AttrWiphyFreq, 5180),
        u32_attr(Nl80211Attr::AttrChannelWidth, 3),
        u32_attr(Nl80211Attr::AttrWiphyTxPowerLevel, 2000),
        u32_attr(Nl80211Attr::AttrFeatureFlags, 1),
        Attr { kind: 999, nested: false, network_order: false, payload: vec![1] },
    ];
    let interface = Interface::from_message(&attrs, LE).unwrap();
    let mut expected = Interface::new(0);
    expected.index = Some(3);
    expected.name = Some(b"wlan0\0".to_vec());
    expected.current_iftype = Some(Nl80211Iftype::IftypeMonitor);
    expected.device = Some(0x1_0000_0002);
    expected.mac = Some(vec![2, 0, 0, 0, 0, 1]);
    expected.ssid = Some(b"home".to_vec());
    expected.frequency = Some(Frequency {
        frequency: Some(5180),
        width: Some(Nl80211ChanWidth::ChanWidth80),
        channel: Some(36),
        pwr: Some(2000),
    });
    assert_eq!(interface, expected);
}

#[test]
fn tuning_starts_from_the_default() {
    let attrs = vec![
        u32_attr(Nl80211Attr::AttrWiphy, 1),
        u32_attr(Nl80211Attr::AttrIftype, 2),
        u32_attr(Nl80211Attr::AttrWiphyFreq, 2484),
    ];
    let interface = Interface::from_message(&attrs, LE).unwrap();
    assert_eq!(
        interface.frequency,
        Some(Frequency {
            frequency: Some(2484),
            width: Some(Nl80211ChanWidth::ChanWidth20Noht),
            channel: Some(14),
            pwr: Some(0),
        })
    );
    assert_eq!(Frequency::default().frequency, None);
    assert_eq!(Frequency::default().width, Some(Nl80211ChanWidth::ChanWidth20Noht));
    let unknown_width = vec![
        u32_attr(Nl80211Attr::AttrWiphy, 1),
        u32_attr(Nl80211Attr::AttrIftype, 2),
        u32_attr(Nl80211Attr::AttrChannelWidth, 77),
    ];
    let interface = Interface::from_message(&unknown_width, LE).unwrap();
    assert_eq!(interface.frequency.unwrap().width, None);
}

#[test]
fn takes_the_low_byte_of_the_type_and_defaults_to_unspecified() {
    let typed = |code: u32| {
        let attrs =
            vec![u32_attr(Nl80211Attr::AttrWiphy, 1), u32_attr(Nl80211Attr::AttrIftype, code)];
        Interface::from_message(&attrs, LE).unwrap().current_iftype
    };
    assert_eq!(typed(0x0102), Some(Nl80211Iftype::IftypeStation));
    assert_eq!(typed(5), Some(Nl80211Iftype::IftypeUnspecified));
    assert_eq!(typed(200), Some(Nl80211Iftype::IftypeUnspecified));
    assert_eq!(typed(3), Some(Nl80211Iftype::IftypeAp));
}

#[test]
fn later_attributes_of_a_kind_replace_earlier_ones() {
    let attrs = vec![
        u32_attr(Nl80211Attr::AttrWiphy, 1),
        u32_attr(Nl80211Attr::AttrWiphy, 2),
        u32_attr(Nl80211Attr::AttrIftype, 2),
        u32_attr(Nl80211Attr::AttrIfindex, 3),
        u32_attr(Nl80211Attr::AttrIfindex, 4),
    ];
    let interface = Interface::from_message(&attrs, LE).unwrap();
    assert_eq!(interface.phy_name, 1);
    assert_eq!(interface.index, Some(4));
}

#[test]
fn decode_errors() {
    let missing_wiphy = vec![u32_attr(Nl80211Attr::AttrIftype, 2)];
    assert_eq!(Interface::from_message(&missing_wiphy, LE), Err(DecodeFault::Missing));
    let missing_type = vec![u32_attr(Nl80211Attr::AttrWiphy, 2)];
    assert_eq!(Interface::from_message(&missing_type, LE), Err(DecodeFault::Missing));
    assert_eq!(Interface::from_message(&[], LE), Err(DecodeFault::Missing));
    let short_wiphy = vec![attr(Nl80211Attr::AttrWiphy, &[1, 0]), u32_attr(Nl80211Attr::AttrIftype, 2)];
    assert_eq!(Interface::from_message(&short_wiphy, LE), Err(DecodeFault::WrongLength));
    let short_index = vec![
        u32_attr(Nl80211Attr::AttrWiphy, 2),
        u32_attr(Nl80211Attr::AttrIftype, 2),
        attr(Nl80211Attr::AttrIfindex, &[3]),
    ];
    assert_eq!(Interface::from_message(&short_index, LE), Err(DecodeFault::WrongLength));
    let short_wdev = vec![
        u32_attr(Nl80211Attr::AttrWiphy, 2),
        u32_attr(Nl80211Attr::AttrIftype, 2),
        u32_attr(Nl80211Attr::AttrWdev, 3),
    ];
    assert_eq!(Interface::from_message(&short_wdev, LE), Err(DecodeFault::WrongLength));
}

#[test]
fn reads_big_endian_messages() {
    let attrs = vec![
        attr(Nl80211Attr::AttrWiphy, &7u32.to_be_bytes()),
        attr(Nl80211Attr::AttrIftype, &2u32.to_be_bytes()),
        attr(Nl80211Attr::AttrIfindex, &3u32.to_be_bytes()),
    ];
    let interface = Interface::from_message(&attrs, ByteOrder::Big).unwrap();
    assert_eq!((interface.phy_name, interface.index), (7, Some(3)));
}

#[test]
fn takes_one_attribute() {
    let interface = Interface::new(1);
    let next = interface_take_attr(interface, &u32_attr(Nl80211Attr::AttrIfindex, 9), LE).unwrap();
    assert_eq!(next.index, Some(9));
    let same = interface_take_attr(next.clone(), &u32_attr(Nl80211Attr::AttrWiphyBands, 9), LE);
    assert_eq!(same, Ok(next));
}

#[test]
fn new_and_default() {
    let interface = Interface::new(4);
    assert_eq!(interface.phy_name, 4);
    assert_eq!(interface.index, None);
    assert_eq!(interface.frequency, None);
    assert_eq!(Interface::default(), Interface::new(0));
}

#[test]
fn names_in_text() {
    let mut interface = Interface::new(0);
    assert_eq!(interface.name_as_string(), "Unknown");
    interface.name = Some(b"wlan0\0".to_vec());
    assert_eq!(interface.name_as_string(), "wlan0");
    interface.name = Some(b"wlan0".to_vec());
    assert_eq!(interface.name_as_string(), "wlan0");
    interface.name = Some(b"wlan0\0\0".to_vec());
    assert_eq!(interface.name_as_string(), "wlan0\0");
    interface.name = Some(vec![0xff, 0xfe, 0]);
    assert_eq!(interface.name_as_string(), "Invalid UTF-8");
    interface.name = Some(vec![]);
    assert_eq!(interface.name_as_string(), "");
    interface.name = Some("wl\u{e4}n\0".as_bytes().to_vec());
    assert_eq!(interface.name_as_string(), "wl\u{e4}n");
}

#[test]
fn index_and_driver_in_text() {
    let mut interface = Interface::new(0);
    assert_eq!(interface.index_as_string(), "");
    assert_eq!(interface.driver_as_string(), "Unknown");
    interface.index = Some(0);
    assert_eq!(interface.index_as_string(), "0");
    interface.index = Some(4294967295);
    assert_eq!(interface.index_as_string(), "4294967295");
    interface.index = Some(1203);
    assert_eq!(interface.index_as_string(), "1203");
    interface.phy = Some(WirelessPhy::default());
    assert_eq!(interface.driver_as_string(), "Unknown");
    interface.phy = Some(phy0());
    assert_eq!(interface.driver_as_string(), "iwlwifi");
}

#[test]
fn merge_fills_what_is_missing() {
    let mut a = Interface::new(1);
    a.ssid = Some(b"mine".to_vec());
    a.index = None;
    let mut b = Interface::new(2);
    b.index = Some(5);
    b.ssid = Some(b"other".to_vec());
    b.mac = Some(vec![1, 2, 3, 4, 5, 6]);
    b.name = Some(b"wlan1\0".to_vec());
    b.state = Some(Operstate::Up);
    b.device = Some(9);
    b.current_iftype = Some(Nl80211Iftype::IftypeAp);
    b.phy = Some(phy0());
    b.frequency = Some(Frequency::default());
    a.merge_with(b.clone());
    assert_eq!(a.ssid, Some(b"mine".to_vec()));
    assert_eq!(a.mac, Some(vec![1, 2, 3, 4, 5, 6]));
    assert_eq!(a.name, Some(b"wlan1\0".to_vec()));
    assert_eq!(a.state, Some(Operstate::Up));
    assert_eq!(a.device, Some(9));
    assert_eq!(a.current_iftype, Some(Nl80211Iftype::IftypeAp));
    assert_eq!(a.phy_name, 1);
    assert_eq!(a.index, None);
    assert_eq!(a.phy, None);
    assert_eq!(a.frequency, None);
    let once = a.clone();
    a.merge_with(b);
    assert_eq!(a, once);
}

#[test]
fn simple_frequency_list() {
    let mut interface = Interface::new(0);
    assert_eq!(interface.get_frequency_list_simple(), None);
    interface.phy = Some(WirelessPhy::default());
    assert_eq!(interface.get_frequency_list_simple(), Some(HashMap::new()));
    let mut phy = phy0();
    phy.frequency_list.as_mut().unwrap().push(BandList {
        band: WiFiBand::Band5GHz,
        channels: vec![channel(5180, 36, FrequencyStatus::Disabled)],
    });
    phy.frequency_list.as_mut().unwrap().push(BandList {
        band: WiFiBand::Band6GHz,
        channels: vec![channel(7115, 233, FrequencyStatus::Enabled), channel(0, 258, FrequencyStatus::Enabled)],
    });
    interface.phy = Some(phy);
    let mut expected: HashMap<u8, Vec<u8>> = HashMap::new();
    expected.insert(2, vec![1, 6]);
    expected.insert(5, vec![]);
    expected.insert(6, vec![233, 2]);
    assert_eq!(interface.get_frequency_list_simple(), Some(expected));
}

#[test]
fn renders_an_interface() {
    let mut interface = Interface::new(0);
    interface.index = Some(3);
    interface.name = Some(b"wlan0\0".to_vec());
    interface.current_iftype = Some(Nl80211Iftype::IftypeStation);
    interface.state = Some(Operstate::Up);
    interface.phy = Some(phy0());
    interface.frequency = Some(Frequency {
        frequency: Some(2437),
        width: None,
        channel: Some(6),
        pwr: None,
    });
    let expected = "\
┏━━━━━━━━━━━━━━━━━━━━━━━━━━━━━━━━━━━━━━━━━━━━┓
┃ Interface: wlan0                           ┃
┃ Index: 3 | Driver: iwlwifi                 ┃
┃ Mode: IftypeStation | Active Monitor: true ┃
┃ Modes: Station, Monitor                    ┃
┃ State: Up                                  ┃
┃ Current Frequency: 2437 (6)                ┃
┃ Enabled Bands/Channels:                    ┃
┃                                            ┃
┃ Band2GHz:                                  ┃
┃   [2412 (1)]       [2437 (6)]              ┃
┃                                            ┃
┃                                            ┃
┗━━━━━━━━━━━━━━━━━━━━━━━━━━━━━━━━━━━━━━━━━━━━┛";
    assert_eq!(interface.pretty_print(), expected);
}

#[test]
fn renders_an_interface_of_which_nothing_is_known() {
    let expected = "\
┏━━━━━━━━━━━━━━━━━━━━━━━━━━━━━━━━━━━━━━━━━━━━━━━━━┓
┃ Interface: Unknown                              ┃
┃ Index:  | Driver: Unknown                       ┃
┃ Mode: IftypeUnspecified | Active Monitor: false ┃
┃ Modes:                                          ┃
┃ State: Unknown                                  ┃
┃ Current Frequency: None                         ┃
┃ Enabled Bands/Channels:                         ┃
┃                                                 ┃
┃                                                 ┃
┗━━━━━━━━━━━━━━━━━━━━━━━━━━━━━━━━━━━━━━━━━━━━━━━━━┛";
    assert_eq!(Interface::new(0).pretty_print(), expected);
}

#[test]
fn tuning_in_text() {
    let mut f = Frequency::default();
    assert_eq!(f.print(), "None");
    f.frequency = Some(5180);
    assert_eq!(f.print(), "5180 (Unknown)");
    f.channel = Some(36);
    assert_eq!(f.print(), "5180 (36)");
    f.frequency = None;
    assert_eq!(f.print(), "None");
}

#[test]
fn snapshots_are_equal() {
    let mut interface = Interface::new(2);
    interface.name = Some(b"wlan0\0".to_vec());
    interface.phy = Some(phy0());
    assert_eq!(interface.snapshot(), interface);
    assert_eq!(phy0().snapshot(), phy0());
}

#[test]
fn a_band_without_enabled_channels_is_left_out_of_the_box() {
    let mut phy = phy0();
    let mut bands = phy.frequency_list.clone().unwrap();
    bands.push(BandList {
        band: WiFiBand::Band5GHz,
        channels: vec![
            channel(5180, 36, FrequencyStatus::Disabled),
            channel(5200, 40, FrequencyStatus::Disabled),
        ],
    });
    phy.frequency_list = Some(bands);
    let mut interface = Interface::new(0);
    interface.name = Some(b"wlan0\0".to_vec());
    interface.phy = Some(phy);
    let with_idle_band = interface.pretty_print();
    interface.phy = Some(phy0());
    assert_eq!(with_idle_band, interface.pretty_print());
    assert!(with_idle_band.contains("Interface: wlan0"));
    assert!(with_idle_band.contains("Band2GHz:"));
    assert!(!with_idle_band.contains("Band5GHz"));
    assert_eq!(with_idle_band.chars().next(), Some('┏'));
    assert_eq!(with_idle_band.chars().last(), Some('┛'));
    let lengths: Vec<usize> = with_idle_band.lines().map(|line| line.chars().count()).collect();
    assert_eq!(lengths.len(), 14);
    assert!(lengths.iter().all(|n| *n == lengths[0]));
    assert_eq!(with_idle_band.lines().nth(1).unwrap().trim_end_matches(" ┃").trim_end(), "┃ Interface: wlan0");
}
