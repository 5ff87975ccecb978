//! A physical radio, its tuning, and the decoding of what the kernel
//! reports of it.

use crate::attr::{
    Nl80211Attr, Nl80211BandAttr, Nl80211Bandc, Nl80211ChanWidth, Nl80211FrequencyAttr,
    Nl80211Iftype, NL80211_FEATURE_ACTIVE_MONITOR,
};
use crate::channels::{
    band_views, bands_wf, chan_from_frequency, channel_of, lemma_with_bands_wf, merge_bands,
    with_bands, BandList, BandListView, ChannelData, FrequencyStatus, WiFiBand,
};
use crate::codec::{
    attr_views, attrs_of, find_attr, first_of, payload_text, payload_u32, Attr, AttrView,
    ByteOrder, DecodeFault,
};
use crate::text::{decimal_text, push_decimal};
use crate::util::{decode_iftypes, iftypes_of};
use vstd::prelude::*;

verus! {

/// The tuning of a radio or of an interface. What is not known is absent.
#[derive(Debug, Clone, Copy, PartialEq, Eq)]
pub struct Frequency {
    pub frequency: Option<u32>,
    pub width: Option<Nl80211ChanWidth>,
    pub channel: Option<u32>,
    pub pwr: Option<u32>,
}

impl Frequency {
    /// The tuning before anything is known of it.
    pub open spec fn initial() -> Frequency {
        Frequency {
            frequency: None,
            width: Some(Nl80211ChanWidth::ChanWidth20Noht),
            channel: None,
            pwr: Some(0),
        }
    }

    /// The channel is the one that the frequency falls on, and is known
    /// exactly where the frequency is.
    pub open spec fn wf(self) -> bool {
        match self.frequency {
            Some(freq) => self.channel == Some(channel_of(freq as int) as u32),
            None => self.channel.is_none(),
        }
    }

    /// The tuning in text: the frequency and, in brackets, the channel.
    pub open spec fn text(self) -> Seq<char> {
        match self.frequency {
            Some(freq) => decimal_text(freq as nat) + " ("@ + (match self.channel {
                Some(chan) => decimal_text(chan as nat),
                None => "Unknown"@,
            }) + ")"@,
            None => "None"@,
        }
    }

    pub fn print(&self) -> (s: String)
        ensures
            s@ == self.text(),
    {
        match self.frequency {
            Some(freq) => {
                let mut s = String::new();
                push_decimal(&mut s, freq as u64);
                s.append(" (");
                match self.channel {
                    Some(chan) => push_decimal(&mut s, chan as u64),
                    None => s.append("Unknown"),
                }
                s.append(")");
                s
            },
            None => String::from_str("None"),
        }
    }
}

impl Default for Frequency {
    fn default() -> (r: Self)
        ensures
            r == Frequency::initial(),
    {
        Frequency {
            frequency: None,
            width: Some(Nl80211ChanWidth::ChanWidth20Noht),
            channel: None,
            pwr: Some(0),
        }
    }
}

/// A tuning with one more attribute taken in. The frequency brings its
/// channel with it; a width that no code stands for is absent.
pub open spec fn tuned(base: Option<Frequency>, kind: Nl80211Attr, value: u32) -> Frequency {
    let f = match base {
        Some(f) => f,
        None => Frequency::initial(),
    };
    match kind {
        Nl80211Attr::AttrWiphyFreq => Frequency {
            frequency: Some(value),
            channel: Some(channel_of(value as int) as u32),
            ..f
        },
        Nl80211Attr::AttrChannelWidth => Frequency { width: Nl80211ChanWidth::of_code(value), ..f },
        Nl80211Attr::AttrWiphyTxPowerLevel => Frequency { pwr: Some(value), ..f },
        _ => f,
    }
}

/// Taking an attribute in keeps the channel the one of the frequency.
pub proof fn lemma_tuned_wf(base: Option<Frequency>, kind: Nl80211Attr, value: u32)
    requires
        base matches Some(f) ==> f.wf(),
    ensures
        tuned(base, kind, value).wf(),
{
}

pub fn tune(base: Option<Frequency>, kind: Nl80211Attr, value: u32) -> (r: Frequency)
    ensures
        r == tuned(base, kind, value),
{
    let f = match base {
        Some(f) => f,
        None => Frequency::default(),
    };
    match kind {
        Nl80211Attr::AttrWiphyFreq => Frequency {
            frequency: Some(value),
            width: f.width,
            channel: Some(chan_from_frequency(value)),
            pwr: f.pwr,
        },
        Nl80211Attr::AttrChannelWidth => Frequency {
            frequency: f.frequency,
            width: Nl80211ChanWidth::from_u32(value),
            channel: f.channel,
            pwr: f.pwr,
        },
        Nl80211Attr::AttrWiphyTxPowerLevel => Frequency {
            frequency: f.frequency,
            width: f.width,
            channel: f.channel,
            pwr: Some(value),
        },
        _ => f,
    }
}

/// A physical radio.
#[derive(Debug, Clone, PartialEq, Eq)]
pub struct WirelessPhy {
    pub phy: u32,
    pub phy_name: Option<String>,
    pub frequency_list: Option<Vec<BandList>>,
    pub iftypes: Option<Vec<Nl80211Iftype>>,
    pub current_iftype: Option<Nl80211Iftype>,
    pub powerstate: Option<u32>,
    pub driver: Option<String>,
    pub has_netlink: bool,
    pub active_monitor: bool,
    pub frequency: Option<Frequency>,
}

/// A radio in specifications.
pub struct WirelessPhyView {
    pub phy: u32,
    pub phy_name: Option<Seq<char>>,
    pub frequency_list: Option<Seq<BandListView>>,
    pub iftypes: Option<Seq<Nl80211Iftype>>,
    pub current_iftype: Option<Nl80211Iftype>,
    pub powerstate: Option<u32>,
    pub driver: Option<Seq<char>>,
    pub has_netlink: bool,
    pub active_monitor: bool,
    pub frequency: Option<Frequency>,
}

/// The view of a text that may be absent.
pub open spec fn text_view(text: Option<String>) -> Option<Seq<char>> {
    match text {
        Some(s) => Some(s@),
        None => None,
    }
}

impl View for WirelessPhy {
    type V = WirelessPhyView;

    open spec fn view(&self) -> WirelessPhyView {
        WirelessPhyView {
            phy: self.phy,
            phy_name: text_view(self.phy_name),
            frequency_list: match self.frequency_list {
                Some(list) => Some(band_views(list@)),
                None => None,
            },
            iftypes: match self.iftypes {
                Some(list) => Some(list@),
                None => None,
            },
            current_iftype: self.current_iftype,
            powerstate: self.powerstate,
            driver: text_view(self.driver),
            has_netlink: self.has_netlink,
            active_monitor: self.active_monitor,
            frequency: self.frequency,
        }
    }
}

impl WirelessPhyView {
    /// A radio of which nothing is known.
    pub open spec fn empty() -> WirelessPhyView {
        WirelessPhyView {
            phy: 0,
            phy_name: None,
            frequency_list: None,
            iftypes: None,
            current_iftype: None,
            powerstate: None,
            driver: None,
            has_netlink: false,
            active_monitor: false,
            frequency: None,
        }
    }

    /// No band has two lists, no channel number occurs twice in a band,
    /// each channel has the number that belongs to its frequency, and so
    /// has the tuning.
    pub open spec fn wf(self) -> bool {
        &&& match self.frequency_list {
            Some(list) => bands_wf(list),
            None => true,
        }
        &&& match self.frequency {
            Some(frequency) => frequency.wf(),
            None => true,
        }
    }
}

impl Default for WirelessPhy {
    fn default() -> (r: Self)
        ensures
            r@ == WirelessPhyView::empty(),
    {
        WirelessPhy {
            phy: 0,
            phy_name: None,
            frequency_list: None,
            iftypes: None,
            current_iftype: None,
            powerstate: None,
            driver: None,
            has_netlink: false,
            active_monitor: false,
            frequency: None,
        }
    }
}

fn copy_text(text: &Option<String>) -> (r: Option<String>)
    ensures
        text_view(r) == text_view(*text),
{
    match text {
        Some(s) => Some(s.clone()),
        None => None,
    }
}

impl WirelessPhy {
    /// A copy of the radio.
    pub fn snapshot(&self) -> (r: WirelessPhy)
        ensures
            r@ == self@,
    {
        let frequency_list = match &self.frequency_list {
            Some(list) => {
                let mut copy: Vec<BandList> = Vec::new();
                let mut i: usize = 0;
                while i < list.len()
                    invariant
                        i <= list@.len(),
                        band_views(copy@) == band_views(list@).take(i as int),
                    decreases list@.len() - i,
                {
                    let item = list[i].snapshot();
                    copy.push(item);
                    assert(band_views(list@).take(i as int).push(list@[i as int]@) == band_views(
                        list@,
                    ).take(i + 1));
                    i = i + 1;
                }
                assert(band_views(list@).take(i as int) == band_views(list@));
                Some(copy)
            },
            None => None,
        };
        let iftypes = match &self.iftypes {
            Some(list) => {
                let mut copy: Vec<Nl80211Iftype> = Vec::new();
                let mut i: usize = 0;
                while i < list.len()
                    invariant
                        i <= list@.len(),
                        copy@ == list@.take(i as int),
                    decreases list@.len() - i,
                {
                    copy.push(list[i]);
                    i = i + 1;
                }
                assert(list@.take(i as int) == list@);
                Some(copy)
            },
            None => None,
        };
        WirelessPhy {
            phy: self.phy,
            phy_name: copy_text(&self.phy_name),
            frequency_list,
            iftypes,
            current_iftype: self.current_iftype,
            powerstate: self.powerstate,
            driver: copy_text(&self.driver),
            has_netlink: self.has_netlink,
            active_monitor: self.active_monitor,
            frequency: self.frequency,
        }
    }

    /// The path of the link that leads to the driver of the radio.
    pub open spec fn driver_link_of(name: Seq<char>) -> Seq<char> {
        "/sys/class/ieee80211/"@ + name + "/device/driver"@
    }

    /// The path of the link that leads to the driver of the radio, where
    /// the radio has a name.
    pub fn driver_link(&self) -> (r: Option<String>)
        ensures
            text_view(r) == match self@.phy_name {
                Some(name) => Some(Self::driver_link_of(name)),
                None => None,
            },
    {
        match &self.phy_name {
            Some(name) => {
                let mut path = String::from_str("/sys/class/ieee80211/");
                path.append(name.as_str());
                path.append("/device/driver");
                Some(path)
            },
            None => None,
        }
    }
}

/// The names of the interface types up to the `n`th, with a comma and a
/// space between them.
pub open spec fn iftype_names(iftypes: Seq<Nl80211Iftype>, n: nat) -> Seq<char>
    decreases n,
{
    if n == 0 {
        Seq::empty()
    } else if n == 1 {
        iftypes[0].name()
    } else {
        iftype_names(iftypes, (n - 1) as nat) + ", "@ + iftypes[n - 1].name()
    }
}

pub fn iftypes_to_string_list(iftypes: &Vec<Nl80211Iftype>) -> (s: String)
    ensures
        s@ == iftype_names(iftypes@, iftypes@.len()),
{
    let mut s = String::new();
    let mut i: usize = 0;
    while i < iftypes.len()
        invariant
            i <= iftypes@.len(),
            s@ == iftype_names(iftypes@, i as nat),
        decreases iftypes@.len() - i,
    {
        if i > 0 {
            s.append(", ");
        }
        s.append(iftypes[i].string());
        i = i + 1;
    }
    s
}

/// One channel with one more of its attributes taken in.
pub open spec fn channel_step(ch: ChannelData, attr: AttrView, order: ByteOrder) -> Result<
    ChannelData,
    DecodeFault,
> {
    match Nl80211FrequencyAttr::of_code(attr.kind) {
        Some(Nl80211FrequencyAttr::FrequencyAttrFreq) => match payload_u32(attr.payload, order) {
            Ok(freq) => Ok(
                ChannelData { frequency: freq, channel: channel_of(freq as int) as u32, ..ch },
            ),
            Err(fault) => Err(fault),
        },
        Some(Nl80211FrequencyAttr::FrequencyAttrDisabled) => Ok(
            ChannelData { status: FrequencyStatus::Disabled, ..ch },
        ),
        Some(Nl80211FrequencyAttr::FrequencyAttrMaxTxPower) => match payload_u32(
            attr.payload,
            order,
        ) {
            Ok(pwr) => Ok(ChannelData { pwr, ..ch }),
            Err(fault) => Err(fault),
        },
        None => Ok(ch),
    }
}

/// The channel that the attributes of one frequency describe. An
/// attribute that is not known is passed over.
pub open spec fn channel_from(attrs: Seq<AttrView>, order: ByteOrder) -> Result<
    ChannelData,
    DecodeFault,
>
    decreases attrs.len(),
{
    if attrs.len() == 0 {
        Ok(ChannelData { frequency: 0, channel: 0, pwr: 0, status: FrequencyStatus::Enabled })
    } else {
        match channel_from(attrs.drop_last(), order) {
            Ok(ch) => channel_step(ch, attrs.last(), order),
            Err(fault) => Err(fault),
        }
    }
}

/// The channels that the records of a band's frequencies describe: each
/// record holds the attributes of one frequency.
pub open spec fn channels_from(records: Seq<AttrView>, order: ByteOrder) -> Result<
    Seq<ChannelData>,
    DecodeFault,
>
    decreases records.len(),
{
    if records.len() == 0 {
        Ok(Seq::empty())
    } else {
        match channels_from(records.drop_last(), order) {
            Ok(channels) => match attrs_of(records.last().payload, order) {
                Ok(attrs) => match channel_from(attrs, order) {
                    Ok(ch) => Ok(channels.push(ch)),
                    Err(fault) => Err(fault),
                },
                Err(fault) => Err(fault),
            },
            Err(fault) => Err(fault),
        }
    }
}

/// The channels that the attributes of one band describe: those of the
/// last attribute that lists frequencies, none where there is no such
/// attribute.
pub open spec fn band_channels_from(attrs: Seq<AttrView>, order: ByteOrder) -> Result<
    Seq<ChannelData>,
    DecodeFault,
>
    decreases attrs.len(),
{
    if attrs.len() == 0 {
        Ok(Seq::empty())
    } else {
        match band_channels_from(attrs.drop_last(), order) {
            Ok(channels) => if Nl80211BandAttr::of_code(attrs.last().kind) == Some(
                Nl80211BandAttr::BandAttrFreqs,
            ) {
                match attrs_of(attrs.last().payload, order) {
                    Ok(records) => channels_from(records, order),
                    Err(fault) => Err(fault),
                }
            } else {
                Ok(channels)
            },
            Err(fault) => Err(fault),
        }
    }
}

/// The band that a marker inside the attribute of the bands stands for.
pub open spec fn marked_band(kind: u16) -> Option<WiFiBand> {
    match Nl80211Bandc::of_code(kind) {
        Some(Nl80211Bandc::Band2ghz) => Some(WiFiBand::Band2GHz),
        Some(Nl80211Bandc::Band5ghz) => Some(WiFiBand::Band5GHz),
        Some(Nl80211Bandc::Band60ghz) => Some(WiFiBand::Band60GHz),
        Some(Nl80211Bandc::Band6ghz) => Some(WiFiBand::Band6GHz),
        _ => None,
    }
}

/// The band lists that the attribute of the bands describes, one for each
/// attribute whose type marks a band of the four. Other attributes are
/// passed over.
pub open spec fn bands_from(bands: Seq<AttrView>, order: ByteOrder) -> Result<
    Seq<BandListView>,
    DecodeFault,
>
    decreases bands.len(),
{
    if bands.len() == 0 {
        Ok(Seq::empty())
    } else {
        match bands_from(bands.drop_last(), order) {
            Ok(lists) => match marked_band(bands.last().kind) {
                Some(band) => match attrs_of(bands.last().payload, order) {
                    Ok(attrs) => match band_channels_from(attrs, order) {
                        Ok(channels) => Ok(lists.push(BandListView { band, channels })),
                        Err(fault) => Err(fault),
                    },
                    Err(fault) => Err(fault),
                },
                None => Ok(lists),
            },
            Err(fault) => Err(fault),
        }
    }
}

/// A radio with one more attribute of a message taken in.
#[verifier::opaque]
pub open spec fn phy_step(phy: WirelessPhyView, attr: AttrView, order: ByteOrder) -> Result<
    WirelessPhyView,
    DecodeFault,
> {
    match Nl80211Attr::of_code(attr.kind) {
        Some(Nl80211Attr::AttrWiphyFreq) => match payload_u32(attr.payload, order) {
            Ok(v) => Ok(
                WirelessPhyView {
                    frequency: Some(tuned(phy.frequency, Nl80211Attr::AttrWiphyFreq, v)),
                    ..phy
                },
            ),
            Err(fault) => Err(fault),
        },
        Some(Nl80211Attr::AttrChannelWidth) => match payload_u32(attr.payload, order) {
            Ok(v) => Ok(
                WirelessPhyView {
                    frequency: Some(tuned(phy.frequency, Nl80211Attr::AttrChannelWidth, v)),
                    ..phy
                },
            ),
            Err(fault) => Err(fault),
        },
        Some(Nl80211Attr::AttrWiphyTxPowerLevel) => match payload_u32(attr.payload, order) {
            Ok(v) => Ok(
                WirelessPhyView {
                    frequency: Some(tuned(phy.frequency, Nl80211Attr::AttrWiphyTxPowerLevel, v)),
                    ..phy
                },
            ),
            Err(fault) => Err(fault),
        },
        Some(Nl80211Attr::AttrSupportedIftypes) => Ok(
            WirelessPhyView { iftypes: Some(iftypes_of(attr.payload)), has_netlink: true, ..phy },
        ),
        Some(Nl80211Attr::AttrWiphyBands) => match attrs_of(attr.payload, order) {
            Ok(bands) => match bands_from(bands, order) {
                Ok(lists) => if lists.len() == 0 {
                    Ok(phy)
                } else {
                    Ok(
                        WirelessPhyView {
                            frequency_list: Some(
                                with_bands(
                                    match phy.frequency_list {
                                        Some(old) => old,
                                        None => Seq::empty(),
                                    },
                                    lists,
                                    lists.len(),
                                ),
                            ),
                            ..phy
                        },
                    )
                },
                Err(fault) => Err(fault),
            },
            Err(fault) => Err(fault),
        },
        Some(Nl80211Attr::AttrFeatureFlags) => match payload_u32(attr.payload, order) {
            Ok(flags) => Ok(
                WirelessPhyView {
                    active_monitor: flags / NL80211_FEATURE_ACTIVE_MONITOR % 2 == 1,
                    ..phy
                },
            ),
            Err(fault) => Err(fault),
        },
        Some(Nl80211Attr::AttrIftype) => match payload_u32(attr.payload, order) {
            Ok(code) => Ok(
                WirelessPhyView {
                    current_iftype: if code < 0x100 {
                        Nl80211Iftype::of_code(code as u8)
                    } else {
                        None
                    },
                    ..phy
                },
            ),
            Err(fault) => Err(fault),
        },
        _ => Ok(phy),
    }
}

/// An attribute whose type is not known changes nothing of a radio.
pub proof fn lemma_unknown_attribute_is_passed_over(
    phy: WirelessPhyView,
    attr: AttrView,
    order: ByteOrder,
)
    requires
        Nl80211Attr::of_code(attr.kind).is_none(),
    ensures
        phy_step(phy, attr, order) == Ok::<_, DecodeFault>(phy),
{
    reveal(phy_step);
}

/// A radio with the first `n` attributes of a message taken in, one by
/// one.
pub open spec fn phy_steps(phy: WirelessPhyView, attrs: Seq<AttrView>, n: nat, order: ByteOrder)
    -> Result<WirelessPhyView, DecodeFault>
    decreases n,
{
    if n == 0 {
        Ok(phy)
    } else {
        match phy_steps(phy, attrs, (n - 1) as nat, order) {
            Ok(before) => phy_step(before, attrs[n - 1], order),
            Err(fault) => Err(fault),
        }
    }
}

/// A radio with one message about it taken in. The message must name the
/// radio by number and by name; then each of its attributes is taken in.
pub open spec fn phy_with_message(phy: WirelessPhyView, attrs: Seq<AttrView>, order: ByteOrder)
    -> Result<WirelessPhyView, DecodeFault> {
    match first_of(attrs, Nl80211Attr::AttrWiphy.code()) {
        Some(id) => match payload_u32(id.payload, order) {
            Ok(number) => match first_of(attrs, Nl80211Attr::AttrWiphyName.code()) {
                Some(name) => match payload_text(name.payload) {
                    Ok(text) => phy_steps(
                        WirelessPhyView { phy: number, phy_name: Some(text), ..phy },
                        attrs,
                        attrs.len(),
                        order,
                    ),
                    Err(fault) => Err(fault),
                },
                None => Err(DecodeFault::Missing),
            },
            Err(fault) => Err(fault),
        },
        None => Err(DecodeFault::Missing),
    }
}

/// Decodes the attributes of one frequency.
pub fn decode_channel(attrs: &[Attr], order: ByteOrder) -> (r: Result<ChannelData, DecodeFault>)
    ensures
        r == channel_from(attr_views(attrs@), order),
{
    let ghost views = attr_views(attrs@);
    let mut ch = ChannelData::default();
    let mut i: usize = 0;
    while i < attrs.len()
        invariant
            i <= attrs@.len(),
            views == attr_views(attrs@),
            channel_from(views.take(i as int), order) == Ok::<_, DecodeFault>(ch),
        decreases attrs@.len() - i,
    {
        let attr = &attrs[i];
        proof {
            assert(views.take(i + 1).drop_last() == views.take(i as int));
        }
        let step = match Nl80211FrequencyAttr::from_u16(attr.kind) {
            Some(Nl80211FrequencyAttr::FrequencyAttrFreq) => match attr.as_u32(order) {
                Ok(freq) => Ok(
                    ChannelData {
                        frequency: freq,
                        channel: chan_from_frequency(freq),
                        pwr: ch.pwr,
                        status: ch.status,
                    },
                ),
                Err(fault) => Err(fault),
            },
            Some(Nl80211FrequencyAttr::FrequencyAttrDisabled) => Ok(
                ChannelData {
                    frequency: ch.frequency,
                    channel: ch.channel,
                    pwr: ch.pwr,
                    status: FrequencyStatus::Disabled,
                },
            ),
            Some(Nl80211FrequencyAttr::FrequencyAttrMaxTxPower) => match attr.as_u32(order) {
                Ok(pwr) => Ok(
                    ChannelData {
                        frequency: ch.frequency,
                        channel: ch.channel,
                        pwr,
                        status: ch.status,
                    },
                ),
                Err(fault) => Err(fault),
            },
            None => Ok(ch),
        };
        match step {
            Ok(next) => {
                ch = next;
            },
            Err(fault) => {
                proof {
                    lemma_channel_from_fails(views, i + 1, order);
                }
                return Err(fault);
            },
        }
        i = i + 1;
    }
    assert(views.take(i as int) == views);
    Ok(ch)
}

/// Where the attributes of a frequency fail to decode up to some point,
/// they fail as a whole, and in the same way.
pub proof fn lemma_channel_from_fails(attrs: Seq<AttrView>, k: int, order: ByteOrder)
    requires
        0 <= k <= attrs.len(),
        channel_from(attrs.take(k), order).is_err(),
    ensures
        channel_from(attrs, order) == channel_from(attrs.take(k), order),
    decreases attrs.len(),
{
    if k < attrs.len() {
        assert(attrs.drop_last().take(k) == attrs.take(k));
        lemma_channel_from_fails(attrs.drop_last(), k, order);
    } else {
        assert(attrs.take(k) == attrs);
    }
}

/// Decodes the records of the frequencies of one band.
pub fn decode_channels(records: &[Attr], order: ByteOrder) -> (r: Result<
    Vec<ChannelData>,
    DecodeFault,
>)
    ensures
        match r {
            Ok(channels) => channels_from(attr_views(records@), order) == Ok::<_, DecodeFault>(
                channels@,
            ),
            Err(fault) => channels_from(attr_views(records@), order) == Err::<Seq<ChannelData>, _>(
                fault,
            ),
        },
{
    let ghost views = attr_views(records@);
    let mut channels: Vec<ChannelData> = Vec::new();
    let mut i: usize = 0;
    while i < records.len()
        invariant
            i <= records@.len(),
            views == attr_views(records@),
            channels_from(views.take(i as int), order) == Ok::<_, DecodeFault>(channels@),
        decreases records@.len() - i,
    {
        let record = &records[i];
        proof {
            assert(views.take(i + 1).drop_last() == views.take(i as int));
        }
        let step = match record.as_nested(order) {
            Ok(attrs) => decode_channel(attrs.as_slice(), order),
            Err(fault) => Err(fault),
        };
        match step {
            Ok(ch) => {
                channels.push(ch);
            },
            Err(fault) => {
                proof {
                    lemma_channels_from_fails(views, i + 1, order);
                }
                return Err(fault);
            },
        }
        i = i + 1;
    }
    assert(views.take(i as int) == views);
    Ok(channels)
}

/// Where the records of a band fail to decode up to some point, they fail
/// as a whole, and in the same way.
pub proof fn lemma_channels_from_fails(records: Seq<AttrView>, k: int, order: ByteOrder)
    requires
        0 <= k <= records.len(),
        channels_from(records.take(k), order).is_err(),
    ensures
        channels_from(records, order) == channels_from(records.take(k), order),
    decreases records.len(),
{
    if k < records.len() {
        assert(records.drop_last().take(k) == records.take(k));
        lemma_channels_from_fails(records.drop_last(), k, order);
    } else {
        assert(records.take(k) == records);
    }
}

/// Decodes the attributes of one band into its channels.
pub fn decode_band_channels(attrs: &[Attr], order: ByteOrder) -> (r: Result<
    Vec<ChannelData>,
    DecodeFault,
>)
    ensures
        match r {
            Ok(channels) => band_channels_from(attr_views(attrs@), order) == Ok::<_, DecodeFault>(
                channels@,
            ),
            Err(fault) => band_channels_from(attr_views(attrs@), order) == Err::<
                Seq<ChannelData>,
                _,
            >(fault),
        },
{
    let ghost views = attr_views(attrs@);
    let mut channels: Vec<ChannelData> = Vec::new();
    let mut i: usize = 0;
    while i < attrs.len()
        invariant
            i <= attrs@.len(),
            views == attr_views(attrs@),
            band_channels_from(views.take(i as int), order) == Ok::<_, DecodeFault>(channels@),
        decreases attrs@.len() - i,
    {
        let attr = &attrs[i];
        proof {
            assert(views.take(i + 1).drop_last() == views.take(i as int));
        }
        match Nl80211BandAttr::from_u16(attr.kind) {
            Some(Nl80211BandAttr::BandAttrFreqs) => {
                let step = match attr.as_nested(order) {
                    Ok(records) => decode_channels(records.as_slice(), order),
                    Err(fault) => Err(fault),
                };
                match step {
                    Ok(found) => {
                        channels = found;
                    },
                    Err(fault) => {
                        proof {
                            lemma_band_channels_from_fails(views, i + 1, order);
                        }
                        return Err(fault);
                    },
                }
            },
            _ => {},
        }
        i = i + 1;
    }
    assert(views.take(i as int) == views);
    Ok(channels)
}

/// Where the attributes of a band fail to decode up to some point, they
/// fail as a whole, and in the same way.
pub proof fn lemma_band_channels_from_fails(attrs: Seq<AttrView>, k: int, order: ByteOrder)
    requires
        0 <= k <= attrs.len(),
        band_channels_from(attrs.take(k), order).is_err(),
    ensures
        band_channels_from(attrs, order) == band_channels_from(attrs.take(k), order),
    decreases attrs.len(),
{
    if k < attrs.len() {
        assert(attrs.drop_last().take(k) == attrs.take(k));
        lemma_band_channels_from_fails(attrs.drop_last(), k, order);
    } else {
        assert(attrs.take(k) == attrs);
    }
}

fn band_of_marker(kind: u16) -> (r: Option<WiFiBand>)
    ensures
        r == marked_band(kind),
{
    match Nl80211Bandc::from_u16(kind) {
        Some(Nl80211Bandc::Band2ghz) => Some(WiFiBand::Band2GHz),
        Some(Nl80211Bandc::Band5ghz) => Some(WiFiBand::Band5GHz),
        Some(Nl80211Bandc::Band60ghz) => Some(WiFiBand::Band60GHz),
        Some(Nl80211Bandc::Band6ghz) => Some(WiFiBand::Band6GHz),
        _ => None,
    }
}

/// Decodes the attribute of the bands into one band list for each band
/// of the four that it names.
pub fn decode_bands(bands: &[Attr], order: ByteOrder) -> (r: Result<Vec<BandList>, DecodeFault>)
    ensures
        match r {
            Ok(lists) => bands_from(attr_views(bands@), order) == Ok::<_, DecodeFault>(
                band_views(lists@),
            ),
            Err(fault) => bands_from(attr_views(bands@), order) == Err::<Seq<BandListView>, _>(
                fault,
            ),
        },
{
    let ghost views = attr_views(bands@);
    let mut lists: Vec<BandList> = Vec::new();
    let mut i: usize = 0;
    assert(band_views(lists@) == Seq::<BandListView>::empty());
    while i < bands.len()
        invariant
            i <= bands@.len(),
            views == attr_views(bands@),
            bands_from(views.take(i as int), order) == Ok::<_, DecodeFault>(band_views(lists@)),
        decreases bands@.len() - i,
    {
        let attr = &bands[i];
        proof {
            assert(views.take(i + 1).drop_last() == views.take(i as int));
        }
        match band_of_marker(attr.kind) {
            Some(band) => {
                let step = match attr.as_nested(order) {
                    Ok(attrs) => decode_band_channels(attrs.as_slice(), order),
                    Err(fault) => Err(fault),
                };
                match step {
                    Ok(channels) => {
                        let ghost before = band_views(lists@);
                        let list = BandList { band, channels };
                        lists.push(list);
                        assert(band_views(lists@) == before.push(list@));
                    },
                    Err(fault) => {
                        proof {
                            lemma_bands_from_fails(views, i + 1, order);
                        }
                        return Err(fault);
                    },
                }
            },
            None => {},
        }
        i = i + 1;
    }
    assert(views.take(i as int) == views);
    Ok(lists)
}

/// Where the attribute of the bands fails to decode up to some point, it
/// fails as a whole, and in the same way.
pub proof fn lemma_bands_from_fails(bands: Seq<AttrView>, k: int, order: ByteOrder)
    requires
        0 <= k <= bands.len(),
        bands_from(bands.take(k), order).is_err(),
    ensures
        bands_from(bands, order) == bands_from(bands.take(k), order),
    decreases bands.len(),
{
    if k < bands.len() {
        assert(bands.drop_last().take(k) == bands.take(k));
        lemma_bands_from_fails(bands.drop_last(), k, order);
    } else {
        assert(bands.take(k) == bands);
    }
}

fn retune(phy: WirelessPhy, kind: Nl80211Attr, attr: &Attr, order: ByteOrder) -> (r: Result<
    WirelessPhy,
    DecodeFault,
>)
    ensures
        match r {
            Ok(next) => payload_u32(attr@.payload, order) matches Ok(v) && next@ == (
            WirelessPhyView { frequency: Some(tuned(phy@.frequency, kind, v)), ..phy@ }),
            Err(fault) => payload_u32(attr@.payload, order) == Err::<u32, _>(fault),
        },
{
    let mut phy = phy;
    match attr.as_u32(order) {
        Ok(v) => {
            phy.frequency = Some(tune(phy.frequency, kind, v));
            Ok(phy)
        },
        Err(fault) => Err(fault),
    }
}

/// Takes one attribute of a message about a radio into the radio.
pub fn phy_take_attr(phy: WirelessPhy, attr: &Attr, order: ByteOrder) -> (r: Result<
    WirelessPhy,
    DecodeFault,
>)
    ensures
        match r {
            Ok(next) => phy_step(phy@, attr@, order) == Ok::<_, DecodeFault>(next@),
            Err(fault) => phy_step(phy@, attr@, order) == Err::<WirelessPhyView, _>(fault),
        },
{
    let mut phy = phy;
    let ghost before = phy@;
    reveal(phy_step);
    match Nl80211Attr::from_u16(attr.kind) {
        Some(Nl80211Attr::AttrWiphyFreq) => retune(phy, Nl80211Attr::AttrWiphyFreq, attr, order),
        Some(Nl80211Attr::AttrChannelWidth) => retune(
            phy,
            Nl80211Attr::AttrChannelWidth,
            attr,
            order,
        ),
        Some(Nl80211Attr::AttrWiphyTxPowerLevel) => retune(
            phy,
            Nl80211Attr::AttrWiphyTxPowerLevel,
            attr,
            order,
        ),
        Some(Nl80211Attr::AttrSupportedIftypes) => {
            phy.iftypes = Some(decode_iftypes(attr.as_bytes()));
            phy.has_netlink = true;
            Ok(phy)
        },
        Some(Nl80211Attr::AttrWiphyBands) => {
            let step = match attr.as_nested(order) {
                Ok(bands) => decode_bands(bands.as_slice(), order),
                Err(fault) => Err(fault),
            };
            match step {
                Ok(lists) => {
                    if lists.len() == 0 {
                        return Ok(phy);
                    }
                    let mut list = match phy.frequency_list.take() {
                        Some(list) => list,
                        None => Vec::new(),
                    };
                    assert(before.frequency_list.is_none() ==> band_views(list@) == Seq::<
                        BandListView,
                    >::empty());
                    merge_bands(&mut list, lists);
                    phy.frequency_list = Some(list);
                    Ok(phy)
                },
                Err(fault) => Err(fault),
            }
        },
        Some(Nl80211Attr::AttrFeatureFlags) => match attr.as_u32(order) {
            Ok(flags) => {
                phy.active_monitor = flags / NL80211_FEATURE_ACTIVE_MONITOR % 2 == 1;
                Ok(phy)
            },
            Err(fault) => Err(fault),
        },
        Some(Nl80211Attr::AttrIftype) => match attr.as_u32(order) {
            Ok(code) => {
                phy.current_iftype = if code < 0x100 {
                    Nl80211Iftype::from_u8(code as u8)
                } else {
                    None
                };
                Ok(phy)
            },
            Err(fault) => Err(fault),
        },
        _ => Ok(phy),
    }
}

/// Where the attributes of a message fail to decode up to some point,
/// they fail in the same way however many more are taken in.
pub proof fn lemma_phy_steps_fail(
    phy: WirelessPhyView,
    attrs: Seq<AttrView>,
    k: nat,
    n: nat,
    order: ByteOrder,
)
    requires
        k <= n,
        phy_steps(phy, attrs, k, order).is_err(),
    ensures
        phy_steps(phy, attrs, n, order) == phy_steps(phy, attrs, k, order),
    decreases n,
{
    if k < n {
        lemma_phy_steps_fail(phy, attrs, k, (n - 1) as nat, order);
    }
}

/// Takes one message about a radio into the radio.
pub fn phy_take_message(phy: WirelessPhy, attrs: &[Attr], order: ByteOrder) -> (r: Result<
    WirelessPhy,
    DecodeFault,
>)
    ensures
        match r {
            Ok(next) => phy_with_message(phy@, attr_views(attrs@), order) == Ok::<_, DecodeFault>(
                next@,
            ),
            Err(fault) => phy_with_message(phy@, attr_views(attrs@), order) == Err::<
                WirelessPhyView,
                _,
            >(fault),
        },
{
    let ghost views = attr_views(attrs@);
    let number = match find_attr(attrs, Nl80211Attr::AttrWiphy.to_u16()) {
        Some(attr) => match attr.as_u32(order) {
            Ok(number) => number,
            Err(fault) => {
                return Err(fault);
            },
        },
        None => {
            return Err(DecodeFault::Missing);
        },
    };
    let name = match find_attr(attrs, Nl80211Attr::AttrWiphyName.to_u16()) {
        Some(attr) => match attr.as_nul_string() {
            Ok(name) => name,
            Err(fault) => {
                return Err(fault);
            },
        },
        None => {
            return Err(DecodeFault::Missing);
        },
    };
    let ghost whole = phy_with_message(phy@, views, order);
    let mut radio = phy;
    radio.phy = number;
    radio.phy_name = Some(name);
    let ghost start = radio@;
    let mut i: usize = 0;
    while i < attrs.len()
        invariant
            i <= attrs@.len(),
            views == attr_views(attrs@),
            whole == phy_with_message(phy@, views, order),
            whole == phy_steps(start, views, views.len(), order),
            phy_steps(start, views, i as nat, order) == Ok::<_, DecodeFault>(radio@),
        decreases attrs@.len() - i,
    {
        match phy_take_attr(radio, &attrs[i], order) {
            Ok(next) => {
                radio = next;
            },
            Err(fault) => {
                proof {
                    lemma_phy_steps_fail(start, views, (i + 1) as nat, views.len(), order);
                }
                return Err(fault);
            },
        }
        i = i + 1;
    }
    Ok(radio)
}

/// A channel that decodes has the number that belongs to its frequency.
pub proof fn lemma_channel_from_wf(attrs: Seq<AttrView>, order: ByteOrder)
    ensures
        channel_from(attrs, order) matches Ok(ch) ==> ch.wf(),
    decreases attrs.len(),
{
    if attrs.len() > 0 {
        lemma_channel_from_wf(attrs.drop_last(), order);
    }
}

/// The channels of a band that decode have the numbers that belong to
/// their frequencies.
pub proof fn lemma_channels_from_wf(records: Seq<AttrView>, order: ByteOrder)
    ensures
        channels_from(records, order) matches Ok(channels) ==> (BandListView {
            band: WiFiBand::Unknown,
            channels,
        }).channels_wf(),
    decreases records.len(),
{
    if records.len() > 0 {
        lemma_channels_from_wf(records.drop_last(), order);
        match attrs_of(records.last().payload, order) {
            Ok(attrs) => {
                lemma_channel_from_wf(attrs, order);
            },
            Err(_) => {},
        }
        match channels_from(records, order) {
            Ok(channels) => {
                let front = channels_from(records.drop_last(), order).unwrap();
                assert forall|i: int| 0 <= i < channels.len() implies (#[trigger] channels[i]).wf() by {
                    if i < front.len() {
                        assert((BandListView { band: WiFiBand::Unknown, channels: front }).channels[i]
                            == front[i]);
                    }
                }
            },
            Err(_) => {},
        }
    }
}

/// The channels that the attributes of one band describe have the
/// numbers that belong to their frequencies.
pub proof fn lemma_band_channels_from_wf(attrs: Seq<AttrView>, order: ByteOrder)
    ensures
        band_channels_from(attrs, order) matches Ok(channels) ==> (BandListView {
            band: WiFiBand::Unknown,
            channels,
        }).channels_wf(),
    decreases attrs.len(),
{
    if attrs.len() > 0 {
        lemma_band_channels_from_wf(attrs.drop_last(), order);
        match attrs_of(attrs.last().payload, order) {
            Ok(records) => {
                lemma_channels_from_wf(records, order);
            },
            Err(_) => {},
        }
    }
}

/// The band lists that decode hold channels with the numbers that belong
/// to their frequencies.
pub proof fn lemma_bands_from_wf(bands: Seq<AttrView>, order: ByteOrder)
    ensures
        bands_from(bands, order) matches Ok(lists) ==> forall|i: int|
            0 <= i < lists.len() ==> (#[trigger] lists[i]).channels_wf(),
    decreases bands.len(),
{
    if bands.len() > 0 {
        lemma_bands_from_wf(bands.drop_last(), order);
        match attrs_of(bands.last().payload, order) {
            Ok(attrs) => {
                lemma_band_channels_from_wf(attrs, order);
            },
            Err(_) => {},
        }
        match bands_from(bands, order) {
            Ok(lists) => {
                let front = bands_from(bands.drop_last(), order).unwrap();
                assert forall|i: int| 0 <= i < lists.len() implies (#[trigger] lists[i]).channels_wf() by {
                    if i >= front.len() {
                        let channels = lists[i].channels;
                        assert forall|c: int| 0 <= c < channels.len() implies (
                        #[trigger] lists[i].channels[c]).wf() by {
                            assert((BandListView { band: WiFiBand::Unknown, channels }).channels[c]
                                == channels[c]);
                        }
                    }
                }
            },
            Err(_) => {},
        }
    }
}

/// Taking an attribute into a radio keeps its bands distinct and its
/// channels and tuning as they must be.
pub proof fn lemma_phy_step_wf(phy: WirelessPhyView, attr: AttrView, order: ByteOrder)
    requires
        phy.wf(),
    ensures
        phy_step(phy, attr, order) matches Ok(next) ==> next.wf(),
{
    reveal(phy_step);
    if phy_step(phy, attr, order).is_ok() && Nl80211Attr::of_code(attr.kind) == Some(
        Nl80211Attr::AttrWiphyBands,
    ) {
        let bands = attrs_of(attr.payload, order).unwrap();
        let lists = bands_from(bands, order).unwrap();
        lemma_bands_from_wf(bands, order);
        let old = match phy.frequency_list {
            Some(old) => old,
            None => Seq::empty(),
        };
        lemma_with_bands_wf(old, lists, lists.len());
    }
}

/// Taking a message into a radio keeps its bands distinct and its
/// channels and tuning as they must be.
pub proof fn lemma_phy_with_message_wf(phy: WirelessPhyView, attrs: Seq<AttrView>, order: ByteOrder)
    requires
        phy.wf(),
    ensures
        phy_with_message(phy, attrs, order) matches Ok(next) ==> next.wf(),
{
    match phy_with_message(phy, attrs, order) {
        Ok(next) => {
            let number = payload_u32(
                first_of(attrs, Nl80211Attr::AttrWiphy.code()).unwrap().payload,
                order,
            ).unwrap();
            let text = payload_text(
                first_of(attrs, Nl80211Attr::AttrWiphyName.code()).unwrap().payload,
            ).unwrap();
            let start = WirelessPhyView { phy: number, phy_name: Some(text), ..phy };
            lemma_phy_steps_wf(start, attrs, attrs.len(), order);
        },
        Err(_) => {},
    }
}

/// Taking attributes into a radio one by one keeps its bands distinct
/// and its channels and tuning as they must be.
pub proof fn lemma_phy_steps_wf(phy: WirelessPhyView, attrs: Seq<AttrView>, n: nat, order: ByteOrder)
    requires
        phy.wf(),
    ensures
        phy_steps(phy, attrs, n, order) matches Ok(next) ==> next.wf(),
    decreases n,
{
    if n > 0 {
        lemma_phy_steps_wf(phy, attrs, (n - 1) as nat, order);
        match phy_steps(phy, attrs, (n - 1) as nat, order) {
            Ok(before) => {
                lemma_phy_step_wf(before, attrs[n - 1], order);
            },
            Err(_) => {},
        }
    }
}

} // verus!
