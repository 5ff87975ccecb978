use nl80211::attr::{Nl80211Attr, Nl80211ChanWidth, Nl80211Iftype};
use nl80211::channels::{BandList, ChannelData, FrequencyStatus, WiFiBand};
use nl80211::codec::{Attr, ByteOrder, DecodeFault};
use nl80211::phy::{
    decode_band_channels, decode_bands, decode_channel, decode_channels, iftypes_to_string_list,
    phy_take_attr, phy_take_message, tune, Frequency, WirelessPhy,
};

const LE: ByteOrder = ByteOrder::Little;

fn raw(kind: u16, payload: &[u8]) -> Attr {
    Attr { kind, nested: false, network_order: false, payload: payload.to_vec() }
}

fn attr(kind: Nl80211Attr, payload: &[u8]) -> Attr {
    raw(kind.to_u16(), payload)
}

fn u32_attr(kind: Nl80211Attr, value: u32) -> Attr {
    attr(kind, &value.to_le_bytes())
}

fn encode(attrs: &[Attr]) -> Vec<u8> {
    let mut out = Vec::new();
    for a in attrs {
        let len = (a.payload.len() + 4) as u16;
        out.extend_from_slice(&len.to_le_bytes());
        out.extend_from_slice(&a.kind.to_le_bytes());
        out.extend_from_slice(&a.payload);
        while out.len() % 4 != 0 {
            out.push(0);
        }
    }
    out
}

fn frequency_record(index: u16, freq: u32, disabled: bool, power: Option<u32>) -> Attr {
    let mut attrs = vec![raw(1, &freq.to_le_bytes())];
    if disabled {
        attrs.push(raw(2, &[]));
    }
    attrs.push(raw(3, &[]));
    if let Some(p) = power {
        attrs.push(raw(6, &p.to_le_bytes()));
    }
    raw(index, &encode(&attrs))
}

fn band_attr(marker: u16, records: &[Attr]) -> Attr {
    raw(marker, &encode(&[raw(2, &[1, 2, 3, 4]), raw(1, &encode(records))]))
}

fn bands_attr(bands: &[Attr]) -> Attr {
    attr(Nl80211Attr::AttrWiphyBands, &encode(bands))
}

fn named(id: u32) -> Vec<Attr> {
    vec![u32_attr(Nl80211Attr::AttrWiphy, id), attr(Nl80211Attr::AttrWiphyName, b"phy0\0")]
}

fn channel(frequency: u32, number: u32, pwr: u32, status: FrequencyStatus) -> ChannelData {
    ChannelData { frequency, channel: number, pwr, status }
}

#[test]
fn decodes_one_frequency() {
    let attrs = vec![raw(1, &2437u32.to_le_bytes()), raw(6, &2000u32.to_le_bytes()), raw(9, &[1])];
    assert_eq!(decode_channel(&attrs, LE), Ok(channel(2437, 6, 2000, FrequencyStatus::Enabled)));
    let disabled = vec![raw(2, &[]), raw(1, &5180u32.to_le_bytes())];
    assert_eq!(decode_channel(&disabled, LE), Ok(channel(5180, 36, 0, FrequencyStatus::Disabled)));
    assert_eq!(decode_channel(&[], LE), Ok(ChannelData::default()));
    assert_eq!(decode_channel(&[raw(1, &[1, 2])], LE), Err(DecodeFault::WrongLength));
    assert_eq!(decode_channel(&[raw(6, &[])], LE), Err(DecodeFault::WrongLength));
}

#[test]
fn decodes_the_frequencies_of_a_band() {
    let records = vec![
        frequency_record(0, 2412, false, Some(2000)),
        frequency_record(1, 2417, true, None),
    ];
    assert_eq!(
        decode_channels(&records, LE),
        Ok(vec![
            channel(2412, 1, 2000, FrequencyStatus::Enabled),
            channel(2417, 2, 0, FrequencyStatus::Disabled)
        ])
    );
    assert_eq!(decode_channels(&[raw(0, &[1, 2, 3])], LE), Err(DecodeFault::Truncated));
    let band = vec![raw(2, &[9, 9]), raw(1, &encode(&records)), raw(8, &[])];
    assert_eq!(decode_band_channels(&band, LE).unwrap().len(), 2);
    assert_eq!(decode_band_channels(&[raw(2, &[9, 9])], LE), Ok(vec![]));
}

#[test]
fn decodes_the_four_bands_and_passes_over_others() {
    let bands = vec![
        band_attr(0, &[frequency_record(0, 2412, false, None)]),
        band_attr(4, &[frequency_record(0, 902, false, None)]),
        band_attr(1, &[frequency_record(0, 5180, false, None)]),
        band_attr(3, &[frequency_record(0, 5955, false, None)]),
        band_attr(2, &[frequency_record(0, 58320, false, None)]),
        raw(5, &[1, 2, 3]),
        raw(77, &[]),
    ];
    let lists = decode_bands(&bands, LE).unwrap();
    let found: Vec<(WiFiBand, u32)> =
        lists.iter().map(|l| (l.band, l.channels[0].channel)).collect();
    assert_eq!(
        found,
        vec![
            (WiFiBand::Band2GHz, 1),
            (WiFiBand::Band5GHz, 36),
            (WiFiBand::Band6GHz, 1),
            (WiFiBand::Band60GHz, 1)
        ]
    );
    assert_eq!(decode_bands(&[raw(0, &[1, 2, 3])], LE), Err(DecodeFault::Truncated));
}

#[test]
fn reads_one_message_about_a_radio() {
    let mut attrs = named(0);
    attrs.push(attr(Nl80211Attr::AttrSupportedIftypes, &[4, 0, 2, 0, 4, 0, 6, 0]));
    attrs.push(u32_attr(Nl80211Attr::AttrFeatureFlags, 1 << 17));
    attrs.push(u32_attr(Nl80211Attr::AttrIftype, 2));
    attrs.push(u32_attr(Nl80211Attr::AttrWiphyFreq, 2437));
    attrs.push(u32_attr(Nl80211Attr::AttrChannelWidth, 1));
    attrs.push(u32_attr(Nl80211Attr::AttrWiphyTxPowerLevel, 1500));
    attrs.push(bands_attr(&[band_attr(0, &[frequency_record(0, 2412, false, Some(2000))])]));
    let phy = phy_take_message(WirelessPhy::default(), &attrs, LE).unwrap();
    let expected = WirelessPhy {
        phy: 0,
        phy_name: Some("phy0".to_string()),
        frequency_list: Some(vec![BandList {
            band: WiFiBand::Band2GHz,
            channels: vec![channel(2412, 1, 2000, FrequencyStatus::Enabled)],
        }]),
        iftypes: Some(vec![Nl80211Iftype::IftypeStation, Nl80211Iftype::IftypeMonitor]),
        current_iftype: Some(Nl80211Iftype::IftypeStation),
        powerstate: None,
        driver: None,
        has_netlink: true,
        active_monitor: true,
        frequency: Some(Frequency {
            frequency: Some(2437),
            width: Some(Nl80211ChanWidth::ChanWidth20),
            channel: Some(6),
            pwr: Some(1500),
        }),
    };
    assert_eq!(phy, expected);
}

#[test]
fn split_dumps_merge_their_bands() {
    let mut first = named(3);
    first.push(bands_attr(&[band_attr(
        1,
        &[frequency_record(0, 5180, false, None), frequency_record(1, 5200, false, None)],
    )]));
    let mut second = named(3);
    second.push(bands_attr(&[
        band_attr(1, &[frequency_record(2, 5220, false, None)]),
        band_attr(0, &[frequency_record(0, 2412, false, None)]),
    ]));
    let phy = phy_take_message(WirelessPhy::default(), &first, LE).unwrap();
    let phy = phy_take_message(phy, &second, LE).unwrap();
    let list = phy.frequency_list.unwrap();
    assert_eq!(list.len(), 2);
    assert_eq!(list[0].band, WiFiBand::Band5GHz);
    assert_eq!(list[0].channels.iter().map(|c| c.channel).collect::<Vec<_>>(), vec![36, 40, 44]);
    assert_eq!(list[1].band, WiFiBand::Band2GHz);
    assert_eq!(list[1].channels.iter().map(|c| c.channel).collect::<Vec<_>>(), vec![1]);
}

#[test]
fn a_channel_that_two_chunks_carry_stands_once() {
    let mut first = named(3);
    first.push(bands_attr(&[band_attr(
        1,
        &[frequency_record(0, 5180, false, Some(1700)), frequency_record(1, 5200, false, None)],
    )]));
    let mut second = named(3);
    second.push(bands_attr(&[band_attr(
        1,
        &[
            frequency_record(0, 5180, true, Some(2300)),
            frequency_record(1, 5220, false, None),
            frequency_record(2, 5220, true, None),
        ],
    )]));
    let phy = phy_take_message(WirelessPhy::default(), &first, LE).unwrap();
    let phy = phy_take_message(phy, &second, LE).unwrap();
    let list = phy.frequency_list.unwrap();
    assert_eq!(list.len(), 1);
    assert_eq!(
        list[0].channels,
        vec![
            channel(5180, 36, 1700, FrequencyStatus::Enabled),
            channel(5200, 40, 0, FrequencyStatus::Enabled),
            channel(5220, 44, 0, FrequencyStatus::Enabled),
        ]
    );
    let mut once = named(3);
    once.push(bands_attr(&[band_attr(
        0,
        &[frequency_record(0, 2412, false, None), frequency_record(1, 2412, true, None)],
    )]));
    let phy = phy_take_message(WirelessPhy::default(), &once, LE).unwrap();
    assert_eq!(
        phy.frequency_list.unwrap()[0].channels,
        vec![channel(2412, 1, 0, FrequencyStatus::Enabled)]
    );
}

#[test]
fn an_attribute_without_known_bands_leaves_the_list_absent() {
    let mut attrs = named(3);
    attrs.push(bands_attr(&[band_attr(4, &[frequency_record(0, 902, false, None)])]));
    let phy = phy_take_message(WirelessPhy::default(), &attrs, LE).unwrap();
    assert_eq!(phy.frequency_list, None);
    let mut attrs = named(3);
    attrs.push(bands_attr(&[raw(0, &[])]));
    let phy = phy_take_message(WirelessPhy::default(), &attrs, LE).unwrap();
    assert_eq!(phy.frequency_list, Some(vec![BandList { band: WiFiBand::Band2GHz, channels: vec![] }]));
}

#[test]
fn feature_flags_and_types() {
    let flag = |flags: u32| {
        phy_take_attr(WirelessPhy::default(), &u32_attr(Nl80211Attr::AttrFeatureFlags, flags), LE)
            .unwrap()
            .active_monitor
    };
    assert!(flag(1 << 17));
    assert!(flag(u32::MAX));
    assert!(flag((1 << 17) | 1));
    assert!(!flag(0));
    assert!(!flag(1 << 16));
    assert!(!flag(1 << 18));
    assert!(!flag(!(1u32 << 17)));
    let iftype = |code: u32| {
        phy_take_attr(WirelessPhy::default(), &u32_attr(Nl80211Attr::AttrIftype, code), LE)
            .unwrap()
            .current_iftype
    };
    assert_eq!(iftype(6), Some(Nl80211Iftype::IftypeMonitor));
    assert_eq!(iftype(5), None);
    assert_eq!(iftype(0x102), None);
}

#[test]
fn a_message_must_name_the_radio() {
    assert_eq!(phy_take_message(WirelessPhy::default(), &[], LE), Err(DecodeFault::Missing));
    let only_id = vec![u32_attr(Nl80211Attr::AttrWiphy, 1)];
    assert_eq!(phy_take_message(WirelessPhy::default(), &only_id, LE), Err(DecodeFault::Missing));
    let only_name = vec![attr(Nl80211Attr::AttrWiphyName, b"phy0\0")];
    assert_eq!(phy_take_message(WirelessPhy::default(), &only_name, LE), Err(DecodeFault::Missing));
    let bad_name =
        vec![u32_attr(Nl80211Attr::AttrWiphy, 1), attr(Nl80211Attr::AttrWiphyName, &[0xff, 0])];
    assert_eq!(phy_take_message(WirelessPhy::default(), &bad_name, LE), Err(DecodeFault::NotText));
    let mut bad_flags = named(1);
    bad_flags.push(attr(Nl80211Attr::AttrFeatureFlags, &[1]));
    assert_eq!(
        phy_take_message(WirelessPhy::default(), &bad_flags, LE),
        Err(DecodeFault::WrongLength)
    );
    let mut bad_bands = named(1);
    bad_bands.push(attr(Nl80211Attr::AttrWiphyBands, &[1, 2]));
    assert_eq!(
        phy_take_message(WirelessPhy::default(), &bad_bands, LE),
        Err(DecodeFault::Truncated)
    );
}

#[test]
fn tuning() {
    let f = tune(None, Nl80211Attr::AttrWiphyFreq, 5935);
    assert_eq!(f.frequency, Some(5935));
    assert_eq!(f.channel, Some(2));
    assert_eq!(f.width, Some(Nl80211ChanWidth::ChanWidth20Noht));
    assert_eq!(f.pwr, Some(0));
    let g = tune(Some(f), Nl80211Attr::AttrChannelWidth, 5);
    assert_eq!(g.width, Some(Nl80211ChanWidth::ChanWidth160));
    assert_eq!(g.frequency, Some(5935));
    let h = tune(Some(g), Nl80211Attr::AttrWiphyTxPowerLevel, 17);
    assert_eq!(h.pwr, Some(17));
    assert_eq!(tune(Some(h), Nl80211Attr::AttrMac, 1), h);
}

#[test]
fn names_of_interface_types() {
    assert_eq!(iftypes_to_string_list(&vec![]), "");
    assert_eq!(iftypes_to_string_list(&vec![Nl80211Iftype::IftypeAp]), "Ap");
    assert_eq!(
        iftypes_to_string_list(&vec![
            Nl80211Iftype::IftypeStation,
            Nl80211Iftype::IftypeMonitor,
            Nl80211Iftype::IftypeP2pGo
        ]),
        "Station, Monitor, P2pGo"
    );
}

#[test]
fn driver_link() {
    let mut phy = WirelessPhy::default();
    assert_eq!(phy.driver_link(), None);
    phy.phy_name = Some("phy0".to_string());
    assert_eq!(phy.driver_link(), Some("/sys/class/ieee80211/phy0/device/driver".to_string()));
}
