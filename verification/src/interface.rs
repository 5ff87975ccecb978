//! A logical network interface on a radio, and the decoding of what the
//! kernel reports of it.

use crate::attr::{Nl80211Attr, Nl80211Iftype, Operstate};
use crate::codec::{
    attr_views, find_attr, first_of, payload_u32, payload_u64, Attr, AttrView, ByteOrder,
    DecodeFault,
};
use crate::channels::{
    band_sections, band_views, lemma_idle_band_is_left_out, pretty_print_band_lists, BandListView,
    ChannelData, FrequencyStatus,
};
use crate::phy::{
    iftype_names, iftypes_to_string_list, tune, tuned, Frequency, WirelessPhy, WirelessPhyView,
};
use crate::text::{decimal_string, decimal_text, strip_nul, text_from_utf8, without_nul};
use crate::util::{
    boxed, boxed_line, lemma_boxed_shape, lemma_first_line, lines_of, one_line, widest,
    wrap_in_box,
};
use std::collections::HashMap;
use vstd::prelude::*;
use vstd::std_specs::iter::IteratorSpec;

verus! {

/// A Wi-Fi interface.
#[non_exhaustive]
#[derive(Debug, Clone, PartialEq, Eq)]
pub struct Interface {
    /// The kernel's index of the interface.
    pub index: Option<u32>,
    pub ssid: Option<Vec<u8>>,
    pub mac: Option<Vec<u8>>,
    /// The name as the kernel sends it, with the NUL byte that ends it.
    pub name: Option<Vec<u8>>,
    pub state: Option<Operstate>,
    /// A copy of the radio that carries the interface.
    pub phy: Option<WirelessPhy>,
    /// The number of the radio that carries the interface.
    pub phy_name: u32,
    /// The identifier of the wireless device.
    pub device: Option<u64>,
    pub current_iftype: Option<Nl80211Iftype>,
    pub frequency: Option<Frequency>,
}

/// An interface in specifications.
pub struct InterfaceView {
    pub index: Option<u32>,
    pub ssid: Option<Seq<u8>>,
    pub mac: Option<Seq<u8>>,
    pub name: Option<Seq<u8>>,
    pub state: Option<Operstate>,
    pub phy: Option<WirelessPhyView>,
    pub phy_name: u32,
    pub device: Option<u64>,
    pub current_iftype: Option<Nl80211Iftype>,
    pub frequency: Option<Frequency>,
}

/// The view of bytes that may be absent.
pub open spec fn bytes_view(bytes: Option<Vec<u8>>) -> Option<Seq<u8>> {
    match bytes {
        Some(b) => Some(b@),
        None => None,
    }
}

impl View for Interface {
    type V = InterfaceView;

    open spec fn view(&self) -> InterfaceView {
        InterfaceView {
            index: self.index,
            ssid: bytes_view(self.ssid),
            mac: bytes_view(self.mac),
            name: bytes_view(self.name),
            state: self.state,
            phy: match self.phy {
                Some(phy) => Some(phy@),
                None => None,
            },
            phy_name: self.phy_name,
            device: self.device,
            current_iftype: self.current_iftype,
            frequency: self.frequency,
        }
    }
}

/// The views of a sequence of interfaces.
pub open spec fn interface_views(interfaces: Seq<Interface>) -> Seq<InterfaceView> {
    Seq::new(interfaces.len(), |i: int| interfaces[i]@)
}

impl InterfaceView {
    /// An interface on radio `wiphy` of which nothing else is known.
    pub open spec fn on(wiphy: u32) -> InterfaceView {
        InterfaceView {
            index: None,
            ssid: None,
            mac: None,
            name: None,
            state: None,
            phy: None,
            phy_name: wiphy,
            device: None,
            current_iftype: None,
            frequency: None,
        }
    }

    /// The interface with what it lacks taken from `other`: the SSID, the
    /// address, the name, the state, the device and the type. What it has
    /// stays.
    pub open spec fn merged_with(self, other: InterfaceView) -> InterfaceView {
        InterfaceView {
            ssid: if self.ssid.is_none() {
                other.ssid
            } else {
                self.ssid
            },
            mac: if self.mac.is_none() {
                other.mac
            } else {
                self.mac
            },
            name: if self.name.is_none() {
                other.name
            } else {
                self.name
            },
            state: if self.state.is_none() {
                other.state
            } else {
                self.state
            },
            device: if self.device.is_none() {
                other.device
            } else {
                self.device
            },
            current_iftype: if self.current_iftype.is_none() {
                other.current_iftype
            } else {
                self.current_iftype
            },
            ..self
        }
    }
}

/// Merging is idempotent: a second merge with the same interface changes
/// nothing.
pub proof fn lemma_merge_idempotent(a: InterfaceView, b: InterfaceView)
    ensures
        a.merged_with(b).merged_with(b) == a.merged_with(b),
{
}

/// An interface that lacks nothing of what a merge fills is left as it
/// is.
pub proof fn lemma_merge_keeps_what_is_known(a: InterfaceView, b: InterfaceView)
    requires
        a.ssid.is_some(),
        a.mac.is_some(),
        a.name.is_some(),
        a.state.is_some(),
        a.device.is_some(),
        a.current_iftype.is_some(),
    ensures
        a.merged_with(b) == a,
{
}

impl Default for Interface {
    fn default() -> (r: Self)
        ensures
            r@ == InterfaceView::on(0),
    {
        Interface::new(0)
    }
}

/// The interface type that the low byte of a code stands for, and
/// `IftypeUnspecified` where it stands for none.
pub open spec fn iftype_of_code(code: u32) -> Nl80211Iftype {
    match Nl80211Iftype::of_code((code % 0x100) as u8) {
        Some(iftype) => iftype,
        None => Nl80211Iftype::IftypeUnspecified,
    }
}

/// An interface with one more attribute of a message taken in.
#[verifier::opaque]
pub open spec fn interface_step(interface: InterfaceView, attr: AttrView, order: ByteOrder)
    -> Result<InterfaceView, DecodeFault> {
    match Nl80211Attr::of_code(attr.kind) {
        Some(Nl80211Attr::AttrIfindex) => match payload_u32(attr.payload, order) {
            Ok(index) => Ok(InterfaceView { index: Some(index), ..interface }),
            Err(fault) => Err(fault),
        },
        Some(Nl80211Attr::AttrIfname) => Ok(
            InterfaceView { name: Some(attr.payload), ..interface },
        ),
        Some(Nl80211Attr::AttrMac) => Ok(InterfaceView { mac: Some(attr.payload), ..interface }),
        Some(Nl80211Attr::AttrSsid) => Ok(InterfaceView { ssid: Some(attr.payload), ..interface }),
        Some(Nl80211Attr::AttrWiphyFreq) => match payload_u32(attr.payload, order) {
            Ok(v) => Ok(
                InterfaceView {
                    frequency: Some(tuned(interface.frequency, Nl80211Attr::AttrWiphyFreq, v)),
                    ..interface
                },
            ),
            Err(fault) => Err(fault),
        },
        Some(Nl80211Attr::AttrChannelWidth) => match payload_u32(attr.payload, order) {
            Ok(v) => Ok(
                InterfaceView {
                    frequency: Some(tuned(interface.frequency, Nl80211Attr::AttrChannelWidth, v)),
                    ..interface
                },
            ),
            Err(fault) => Err(fault),
        },
        Some(Nl80211Attr::AttrWiphyTxPowerLevel) => match payload_u32(attr.payload, order) {
            Ok(v) => Ok(
                InterfaceView {
                    frequency: Some(
                        tuned(interface.frequency, Nl80211Attr::AttrWiphyTxPowerLevel, v),
                    ),
                    ..interface
                },
            ),
            Err(fault) => Err(fault),
        },
        Some(Nl80211Attr::AttrWdev) => match payload_u64(attr.payload, order) {
            Ok(device) => Ok(InterfaceView { device: Some(device), ..interface }),
            Err(fault) => Err(fault),
        },
        _ => Ok(interface),
    }
}

/// An attribute whose type is not known changes nothing.
pub proof fn lemma_unknown_attribute_is_passed_over(
    interface: InterfaceView,
    attr: AttrView,
    order: ByteOrder,
)
    requires
        Nl80211Attr::of_code(attr.kind).is_none(),
    ensures
        interface_step(interface, attr, order) == Ok::<_, DecodeFault>(interface),
{
    reveal(interface_step);
}

/// An interface with the first `n` attributes of a message taken in, one
/// by one.
pub open spec fn interface_steps(
    interface: InterfaceView,
    attrs: Seq<AttrView>,
    n: nat,
    order: ByteOrder,
) -> Result<InterfaceView, DecodeFault>
    decreases n,
{
    if n == 0 {
        Ok(interface)
    } else {
        match interface_steps(interface, attrs, (n - 1) as nat, order) {
            Ok(before) => interface_step(before, attrs[n - 1], order),
            Err(fault) => Err(fault),
        }
    }
}

/// The interface that a message describes. The message must name the
/// radio and the interface type, each in four bytes; then each of its
/// attributes is taken in. An attribute that is not known is passed over,
/// and the tuning is absent where no attribute speaks of it.
pub open spec fn interface_from(attrs: Seq<AttrView>, order: ByteOrder) -> Result<
    InterfaceView,
    DecodeFault,
> {
    match first_of(attrs, Nl80211Attr::AttrWiphy.code()) {
        Some(wiphy) => match payload_u32(wiphy.payload, order) {
            Ok(number) => match first_of(attrs, Nl80211Attr::AttrIftype.code()) {
                Some(iftype) => match payload_u32(iftype.payload, order) {
                    Ok(code) => interface_steps(
                        InterfaceView {
                            current_iftype: Some(iftype_of_code(code)),
                            ..InterfaceView::on(number)
                        },
                        attrs,
                        attrs.len(),
                        order,
                    ),
                    Err(fault) => Err(fault),
                },
                None => Err(DecodeFault::Missing),
            },
            Err(fault) => Err(fault),
        },
        None => Err(DecodeFault::Missing),
    }
}

/// Where the attributes of a message fail to decode up to some point,
/// they fail in the same way however many more are taken in.
pub proof fn lemma_interface_steps_fail(
    interface: InterfaceView,
    attrs: Seq<AttrView>,
    k: nat,
    n: nat,
    order: ByteOrder,
)
    requires
        k <= n,
        interface_steps(interface, attrs, k, order).is_err(),
    ensures
        interface_steps(interface, attrs, n, order) == interface_steps(interface, attrs, k, order),
    decreases n,
{
    if k < n {
        lemma_interface_steps_fail(interface, attrs, k, (n - 1) as nat, order);
    }
}

/// A message that holds nothing but the radio's number and the interface
/// type gives an interface with these two and nothing else.
pub proof fn lemma_interface_from_two(wiphy: AttrView, iftype: AttrView, order: ByteOrder)
    requires
        wiphy.kind == Nl80211Attr::AttrWiphy.code(),
        iftype.kind == Nl80211Attr::AttrIftype.code(),
        payload_u32(wiphy.payload, order).is_ok(),
        payload_u32(iftype.payload, order).is_ok(),
    ensures
        interface_from(seq![wiphy, iftype], order) == Ok::<_, DecodeFault>(
            InterfaceView {
                current_iftype: Some(iftype_of_code(payload_u32(iftype.payload, order).unwrap())),
                ..InterfaceView::on(payload_u32(wiphy.payload, order).unwrap())
            },
        ),
{
    let attrs = seq![wiphy, iftype];
    reveal(interface_step);
    reveal_with_fuel(first_of, 3);
    reveal_with_fuel(interface_steps, 3);
}

fn retune(interface: Interface, kind: Nl80211Attr, attr: &Attr, order: ByteOrder) -> (r: Result<
    Interface,
    DecodeFault,
>)
    ensures
        match r {
            Ok(next) => payload_u32(attr@.payload, order) matches Ok(v) && next@ == (
            InterfaceView { frequency: Some(tuned(interface@.frequency, kind, v)), ..interface@ }),
            Err(fault) => payload_u32(attr@.payload, order) == Err::<u32, _>(fault),
        },
{
    let mut interface = interface;
    match attr.as_u32(order) {
        Ok(v) => {
            interface.frequency = Some(tune(interface.frequency, kind, v));
            Ok(interface)
        },
        Err(fault) => Err(fault),
    }
}

/// Takes one attribute of a message about an interface into the
/// interface.
pub fn interface_take_attr(interface: Interface, attr: &Attr, order: ByteOrder) -> (r: Result<
    Interface,
    DecodeFault,
>)
    ensures
        match r {
            Ok(next) => interface_step(interface@, attr@, order) == Ok::<_, DecodeFault>(next@),
            Err(fault) => interface_step(interface@, attr@, order) == Err::<InterfaceView, _>(
                fault,
            ),
        },
{
    let mut interface = interface;
    reveal(interface_step);
    match Nl80211Attr::from_u16(attr.kind) {
        Some(Nl80211Attr::AttrIfindex) => match attr.as_u32(order) {
            Ok(index) => {
                interface.index = Some(index);
                Ok(interface)
            },
            Err(fault) => Err(fault),
        },
        Some(Nl80211Attr::AttrIfname) => {
            interface.name = Some(attr.as_bytes());
            Ok(interface)
        },
        Some(Nl80211Attr::AttrMac) => {
            interface.mac = Some(attr.as_bytes());
            Ok(interface)
        },
        Some(Nl80211Attr::AttrSsid) => {
            interface.ssid = Some(attr.as_bytes());
            Ok(interface)
        },
        Some(Nl80211Attr::AttrWiphyFreq) => retune(
            interface,
            Nl80211Attr::AttrWiphyFreq,
            attr,
            order,
        ),
        Some(Nl80211Attr::AttrChannelWidth) => retune(
            interface,
            Nl80211Attr::AttrChannelWidth,
            attr,
            order,
        ),
        Some(Nl80211Attr::AttrWiphyTxPowerLevel) => retune(
            interface,
            Nl80211Attr::AttrWiphyTxPowerLevel,
            attr,
            order,
        ),
        Some(Nl80211Attr::AttrWdev) => match attr.as_u64(order) {
            Ok(device) => {
                interface.device = Some(device);
                Ok(interface)
            },
            Err(fault) => Err(fault),
        },
        _ => Ok(interface),
    }
}

fn iftype_from_code(code: u32) -> (r: Nl80211Iftype)
    ensures
        r == iftype_of_code(code),
{
    match Nl80211Iftype::from_u8((code % 0x100) as u8) {
        Some(iftype) => iftype,
        None => Nl80211Iftype::IftypeUnspecified,
    }
}

impl Interface {
    pub fn new(wiphy: u32) -> (r: Interface)
        ensures
            r@ == InterfaceView::on(wiphy),
    {
        Interface {
            index: None,
            ssid: None,
            mac: None,
            name: None,
            state: None,
            phy: None,
            phy_name: wiphy,
            device: None,
            current_iftype: None,
            frequency: None,
        }
    }

    /// Decodes the attributes of one message about an interface.
    pub fn from_message(attrs: &[Attr], order: ByteOrder) -> (r: Result<Interface, DecodeFault>)
        ensures
            match r {
                Ok(interface) => interface_from(attr_views(attrs@), order) == Ok::<_, DecodeFault>(
                    interface@,
                ),
                Err(fault) => interface_from(attr_views(attrs@), order) == Err::<InterfaceView, _>(
                    fault,
                ),
            },
    {
        let ghost views = attr_views(attrs@);
        let number = match find_attr(attrs, Nl80211Attr::AttrWiphy.to_u16()) {
            Some(attr) => match attr.as_u32(order) {
                Ok(number) => number,
                Err(fault) => {
                    return Err(fault);
                },
            },
            None => {
                return Err(DecodeFault::Missing);
            },
        };
        let code = match find_attr(attrs, Nl80211Attr::AttrIftype.to_u16()) {
            Some(attr) => match attr.as_u32(order) {
                Ok(code) => code,
                Err(fault) => {
                    return Err(fault);
                },
            },
            None => {
                return Err(DecodeFault::Missing);
            },
        };
        let mut interface = Interface::new(number);
        interface.current_iftype = Some(iftype_from_code(code));
        let ghost start = interface@;
        let mut i: usize = 0;
        while i < attrs.len()
            invariant
                i <= attrs@.len(),
                views == attr_views(attrs@),
                interface_from(views, order) == interface_steps(start, views, views.len(), order),
                interface_steps(start, views, i as nat, order) == Ok::<_, DecodeFault>(interface@),
            decreases attrs@.len() - i,
        {
            match interface_take_attr(interface, &attrs[i], order) {
                Ok(next) => {
                    interface = next;
                },
                Err(fault) => {
                    proof {
                        lemma_interface_steps_fail(
                            start,
                            views,
                            (i + 1) as nat,
                            views.len(),
                            order,
                        );
                    }
                    return Err(fault);
                },
            }
            i = i + 1;
        }
        Ok(interface)
    }

    /// Fills what the interface lacks from `other`.
    pub fn merge_with(&mut self, other: Interface)
        ensures
            final(self)@ == old(self)@.merged_with(other@),
    {
        if self.ssid.is_none() {
            self.ssid = other.ssid;
        }
        if self.mac.is_none() {
            self.mac = other.mac;
        }
        if self.name.is_none() {
            self.name = other.name;
        }
        if self.state.is_none() {
            self.state = other.state;
        }
        if self.device.is_none() {
            self.device = other.device;
        }
        if self.current_iftype.is_none() {
            self.current_iftype = other.current_iftype;
        }
    }

    /// The name in text, without the NUL byte that ends it.
    pub fn name_as_string(&self) -> (s: String)
        ensures
            s@ == name_text(self@.name),
    {
        let text = match &self.name {
            Some(bytes) => match text_from_utf8(copy_of(bytes)) {
                Ok(text) => text,
                Err(_) => String::from_str("Invalid UTF-8"),
            },
            None => String::from_str("Unknown"),
        };
        strip_nul(text)
    }

    /// The index in decimal, and nothing where there is none.
    pub fn index_as_string(&self) -> (s: String)
        ensures
            s@ == index_text(self@.index),
    {
        match self.index {
            Some(index) => decimal_string(index as u64),
            None => String::new(),
        }
    }

    /// The driver of the radio, and `Unknown` where it is not known.
    pub fn driver_as_string(&self) -> (s: String)
        ensures
            s@ == driver_text(self@.phy),
    {
        match &self.phy {
            Some(phy) => match &phy.driver {
                Some(driver) => driver.clone(),
                None => String::from_str("Unknown"),
            },
            None => String::from_str("Unknown"),
        }
    }

    /// The enabled channel numbers of each band of the radio, by the
    /// code of the band, and nothing where the radio is not known.
    pub fn get_frequency_list_simple(&self) -> (r: Option<HashMap<u8, Vec<u8>>>)
        ensures
            match r {
                Some(map) => self@.phy matches Some(phy) && number_views(map@) == simple_list(
                    bands_of_phy(phy),
                    bands_of_phy(phy).len(),
                ),
                None => self@.phy.is_none(),
            },
    {
        broadcast use vstd::std_specs::hash::group_hash_axioms;

        match &self.phy {
            Some(phy) => {
                let mut map: HashMap<u8, Vec<u8>> = HashMap::new();
                match &phy.frequency_list {
                    Some(list) => {
                        let ghost bands = band_views(list@);
                        let mut b: usize = 0;
                        while b < list.len()
                            invariant
                                b <= list@.len(),
                                bands == band_views(list@),
                                number_views(map@) == simple_list(bands, b as nat),
                            decreases list@.len() - b,
                        {
                            let band = &list[b];
                            let mut numbers: Vec<u8> = Vec::new();
                            let mut c: usize = 0;
                            while c < band.channels.len()
                                invariant
                                    c <= band.channels@.len(),
                                    numbers@ == enabled_numbers(band.channels@, c as nat),
                                decreases band.channels@.len() - c,
                            {
                                match band.channels[c].status {
                                    FrequencyStatus::Enabled => {
                                        numbers.push((band.channels[c].channel % 0x100) as u8);
                                    },
                                    FrequencyStatus::Disabled => {},
                                }
                                c = c + 1;
                            }
                            let ghost before = map@;
                            let ghost code = band.band.code();
                            map.insert(band.band.to_u8(), numbers);
                            assert(number_views(map@) == number_views(before).insert(
                                code,
                                numbers@,
                            ));
                            b = b + 1;
                        }
                    },
                    None => {},
                }
                Some(map)
            },
            None => None,
        }
    }

    /// The interface for reading: its name, index, driver, mode, state
    /// and tuning, and the enabled channels of each band, in a box.
    pub fn pretty_print(&self) -> (s: String)
        ensures
            s@ == boxed(rendering(self@)),
    {
        let mut out = String::from_str("Interface: ");
        out.append(self.name_as_string().as_str());
        out.append("\n");
        out.append("Index: ");
        out.append(self.index_as_string().as_str());
        out.append(" | Driver: ");
        out.append(self.driver_as_string().as_str());
        out.append("\n");
        out.append("Mode: ");
        let mode = match self.current_iftype {
            Some(iftype) => iftype,
            None => Nl80211Iftype::IftypeUnspecified,
        };
        out.append(mode.variant_str());
        out.append(" | Active Monitor: ");
        let active = match &self.phy {
            Some(phy) => phy.active_monitor,
            None => false,
        };
        if active {
            out.append("true");
        } else {
            out.append("false");
        }
        out.append("\n");
        out.append("Modes: ");
        match &self.phy {
            Some(phy) => match &phy.iftypes {
                Some(iftypes) => out.append(iftypes_to_string_list(iftypes).as_str()),
                None => {},
            },
            None => {},
        }
        out.append("\n");
        out.append("State: ");
        let state = match self.state {
            Some(state) => state,
            None => Operstate::Unknown,
        };
        out.append(state.string());
        out.append("\n");
        out.append("Current Frequency: ");
        match &self.frequency {
            Some(frequency) => out.append(frequency.print().as_str()),
            None => out.append("None"),
        }
        out.append("\n");
        out.append("Enabled Bands/Channels:\n\n");
        match &self.phy {
            Some(phy) => match &phy.frequency_list {
                Some(list) => out.append(
                    pretty_print_band_lists(list.as_slice(), BAND_COLUMNS).as_str(),
                ),
                None => {},
            },
            None => {},
        }
        wrap_in_box(out.as_str())
    }

    /// A copy of the interface.
    pub fn snapshot(&self) -> (r: Interface)
        ensures
            r@ == self@,
    {
        Interface {
            index: self.index,
            ssid: copy_bytes(&self.ssid),
            mac: copy_bytes(&self.mac),
            name: copy_bytes(&self.name),
            state: self.state,
            phy: match &self.phy {
                Some(phy) => Some(phy.snapshot()),
                None => None,
            },
            phy_name: self.phy_name,
            device: self.device,
            current_iftype: self.current_iftype,
            frequency: self.frequency,
        }
    }
}

/// How many channels of a band stand in one row of a rendering.
pub const BAND_COLUMNS: usize = 4;

/// The name of an interface in text: the bytes read as UTF-8, without
/// the NUL character that ends them. Bytes that are not UTF-8 and a name
/// that is absent are said in words.
pub open spec fn name_text(name: Option<Seq<u8>>) -> Seq<char> {
    without_nul(
        match name {
            Some(bytes) => if vstd::utf8::valid_utf8(bytes) {
                vstd::utf8::decode_utf8(bytes)
            } else {
                "Invalid UTF-8"@
            },
            None => "Unknown"@,
        },
    )
}

/// The index of an interface in text.
pub open spec fn index_text(index: Option<u32>) -> Seq<char> {
    match index {
        Some(index) => decimal_text(index as nat),
        None => Seq::empty(),
    }
}

/// The driver of the radio of an interface in text.
pub open spec fn driver_text(phy: Option<WirelessPhyView>) -> Seq<char> {
    match phy {
        Some(phy) => match phy.driver {
            Some(driver) => driver,
            None => "Unknown"@,
        },
        None => "Unknown"@,
    }
}

/// The band lists of a radio, none where it has none.
pub open spec fn bands_of_phy(phy: WirelessPhyView) -> Seq<BandListView> {
    match phy.frequency_list {
        Some(list) => list,
        None => Seq::empty(),
    }
}

/// The low bytes of the numbers of the enabled among the first `n`
/// channels.
pub open spec fn enabled_numbers(channels: Seq<ChannelData>, n: nat) -> Seq<u8>
    decreases n,
{
    if n == 0 {
        Seq::empty()
    } else if channels[n - 1].status == FrequencyStatus::Enabled {
        enabled_numbers(channels, (n - 1) as nat).push((channels[n - 1].channel % 0x100) as u8)
    } else {
        enabled_numbers(channels, (n - 1) as nat)
    }
}

/// The enabled channel numbers of the first `n` bands, by the code of
/// the band. Of two lists of one band the later counts.
pub open spec fn simple_list(bands: Seq<BandListView>, n: nat) -> Map<u8, Seq<u8>>
    decreases n,
{
    if n == 0 {
        Map::empty()
    } else {
        simple_list(bands, (n - 1) as nat).insert(
            bands[n - 1].band.code(),
            enabled_numbers(bands[n - 1].channels, bands[n - 1].channels.len()),
        )
    }
}

/// A map of lists of numbers in specifications.
pub open spec fn number_views(map: Map<u8, Vec<u8>>) -> Map<u8, Seq<u8>> {
    Map::new(|k: u8| map.contains_key(k), |k: u8| map[k]@)
}

/// What is rendered of an interface, line by line.
pub open spec fn rendering(interface: InterfaceView) -> Seq<char> {
    "Interface: "@ + name_text(interface.name) + "\n"@ + "Index: "@ + index_text(interface.index)
        + " | Driver: "@ + driver_text(interface.phy) + "\n"@ + "Mode: "@ + (
    match interface.current_iftype {
        Some(iftype) => iftype,
        None => Nl80211Iftype::IftypeUnspecified,
    }).variant() + " | Active Monitor: "@ + (if interface.phy matches Some(phy)
        && phy.active_monitor {
        "true"@
    } else {
        "false"@
    }) + "\n"@ + "Modes: "@ + (match interface.phy {
        Some(phy) => match phy.iftypes {
            Some(iftypes) => iftype_names(iftypes, iftypes.len()),
            None => Seq::empty(),
        },
        None => Seq::empty(),
    }) + "\n"@ + "State: "@ + (match interface.state {
        Some(state) => state,
        None => Operstate::Unknown,
    }).name() + "\n"@ + "Current Frequency: "@ + (match interface.frequency {
        Some(frequency) => frequency.text(),
        None => "None"@,
    }) + "\n"@ + "Enabled Bands/Channels:\n\n"@ + (match interface.phy {
        Some(phy) => match phy.frequency_list {
            Some(list) => band_sections(list, BAND_COLUMNS as nat, list.len()),
            None => Seq::empty(),
        },
        None => Seq::empty(),
    })
}

/// Where the name holds no line feed, the first line of the rendering
/// is the name behind its label, and so it stands in the box: in the
/// line below the top border, between the side borders.
pub proof fn lemma_rendering_names_the_interface(interface: InterfaceView)
    requires
        one_line(name_text(interface.name)),
    ensures
        lines_of(rendering(interface))[0] == "Interface: "@ + name_text(interface.name),
        lines_of(boxed(rendering(interface)))[1] == boxed_line(
            "Interface: "@ + name_text(interface.name),
            widest(lines_of(rendering(interface)), lines_of(rendering(interface)).len()),
        ),
{
    reveal_strlit("Interface: ");
    reveal_strlit("\n");
    let text = rendering(interface);
    let first = "Interface: "@ + name_text(interface.name);
    let start = first + "\n"@;
    assert(one_line(first));
    assert(text.subrange(0, start.len() as int) == start);
    let rest = text.subrange(start.len() as int, text.len() as int);
    assert(text == first + "\n"@ + rest);
    lemma_first_line(first, rest);
    lemma_boxed_shape(text);
    assert(lines_of(text)[0] == first);
}

/// A band of the radio whose channels are all disabled is left out of
/// the rendering: it is that of the interface on the radio without the
/// band.
pub proof fn lemma_rendering_leaves_idle_band_out(
    interface: InterfaceView,
    phy: WirelessPhyView,
    list: Seq<BandListView>,
    k: int,
)
    requires
        interface.phy == Some(phy),
        phy.frequency_list == Some(list),
        0 <= k < list.len(),
        forall|i: int|
            0 <= i < list[k].channels.len() ==> (#[trigger] list[k].channels[i]).status
                == FrequencyStatus::Disabled,
    ensures
        rendering(interface) == rendering(
            InterfaceView {
                phy: Some(WirelessPhyView { frequency_list: Some(list.remove(k)), ..phy }),
                ..interface
            },
        ),
{
    lemma_idle_band_is_left_out(list, BAND_COLUMNS as nat, k, list.len());
}

fn copy_of(bytes: &Vec<u8>) -> (copy: Vec<u8>)
    ensures
        copy@ == bytes@,
{
    let mut copy: Vec<u8> = Vec::new();
    let mut i: usize = 0;
    while i < bytes.len()
        invariant
            i <= bytes@.len(),
            copy@ == bytes@.take(i as int),
        decreases bytes@.len() - i,
    {
        copy.push(bytes[i]);
        i = i + 1;
    }
    copy
}

fn copy_bytes(bytes: &Option<Vec<u8>>) -> (r: Option<Vec<u8>>)
    ensures
        bytes_view(r) == bytes_view(*bytes),
{
    match bytes {
        Some(b) => Some(copy_of(b)),
        None => None,
    }
}

/// The interfaces of a table in specifications.
pub open spec fn interface_map(table: Map<u32, Interface>) -> Map<u32, InterfaceView> {
    Map::new(|radio: u32| table.contains_key(radio), |radio: u32| table[radio]@)
}

/// Whether each interface of a table stands under the number of its
/// radio.
pub open spec fn keyed_by_radio(table: Map<u32, InterfaceView>) -> bool {
    forall|radio: u32| table.contains_key(radio) ==> (#[trigger] table[radio]).phy_name == radio
}

/// Whether `radios` names each radio of a table once.
pub open spec fn names_each_once(radios: Seq<u32>, table: Map<u32, InterfaceView>) -> bool {
    radios.no_duplicates() && radios.to_set() == table.dom()
}

/// The interfaces of a table in the order in which `radios` names them.
pub open spec fn along(table: Map<u32, InterfaceView>, radios: Seq<u32>) -> Seq<InterfaceView> {
    Seq::new(radios.len(), |i: int| table[radios[i]])
}

/// The interfaces of a table, each once. They come in the order in which
/// the table hands them out, of which nothing is known.
pub fn walk(table: &HashMap<u32, Interface>) -> (walked: Vec<Interface>)
    ensures
        exists|radios: Seq<u32>|
            #[trigger] names_each_once(radios, interface_map(table@)) && interface_views(walked@)
                == along(interface_map(table@), radios),
{
    broadcast use vstd::std_specs::hash::group_hash_axioms;

    let ghost views = interface_map(table@);
    let mut walked: Vec<Interface> = Vec::new();
    for radio in iter: table.keys()
        invariant
            views == interface_map(table@),
            walked@.len() == iter.index(),
            forall|i: int|
                0 <= i < walked@.len() ==> (#[trigger] walked@[i])@ == views[*iter.seq()[i]],
    {
        assert(table@.contains_key(*radio)) by {
            assert(iter.seq().unref().to_set().contains(*radio)) by {
                assert(iter.seq().unref()[iter.index()] == *radio);
            }
        }
        match table.get(radio) {
            Some(interface) => walked.push(interface.snapshot()),
            None => {},
        }
    }
    proof {
        let radios = table.keys().remaining().unref();
        assert(names_each_once(radios, views)) by {
            assert(radios.to_set() == views.dom());
        }
        assert(interface_views(walked@) == along(views, radios));
    }
    walked
}

} // verus!
