//! The identifiers of the `nl80211` protocol: attributes, interface
//! types, channel widths and the like, each with its code on the wire.
//! The codes are those of the kernel's `nl80211.h` and `if.h`.

use vstd::prelude::*;

verus! {

/// The top-level attributes that this crate reads or writes.
#[derive(Debug, Clone, Copy, PartialEq, Eq, Structural)]
pub enum Nl80211Attr {
    AttrWiphy,
    AttrWiphyName,
    AttrIfindex,
    AttrIfname,
    AttrIftype,
    AttrMac,
    AttrWiphyBands,
    AttrMntrFlags,
    AttrSupportedIftypes,
    AttrWiphyFreq,
    AttrWiphyChannelType,
    AttrSsid,
    AttrPsState,
    AttrWiphyTxPowerLevel,
    AttrFeatureFlags,
    AttrWdev,
    AttrChannelWidth,
    AttrCenterFreq1,
    AttrSplitWiphyDump,
}

impl Nl80211Attr {
    /// The integer that stands for the variant on the wire.
    pub open spec fn code(self) -> u16 {
        match self {
            Nl80211Attr::AttrWiphy => 1,
            Nl80211Attr::AttrWiphyName => 2,
            Nl80211Attr::AttrIfindex => 3,
            Nl80211Attr::AttrIfname => 4,
            Nl80211Attr::AttrIftype => 5,
            Nl80211Attr::AttrMac => 6,
            Nl80211Attr::AttrWiphyBands => 22,
            Nl80211Attr::AttrMntrFlags => 23,
            Nl80211Attr::AttrSupportedIftypes => 32,
            Nl80211Attr::AttrWiphyFreq => 38,
            Nl80211Attr::AttrWiphyChannelType => 39,
            Nl80211Attr::AttrSsid => 52,
            Nl80211Attr::AttrPsState => 93,
            Nl80211Attr::AttrWiphyTxPowerLevel => 98,
            Nl80211Attr::AttrFeatureFlags => 143,
            Nl80211Attr::AttrWdev => 153,
            Nl80211Attr::AttrChannelWidth => 159,
            Nl80211Attr::AttrCenterFreq1 => 160,
            Nl80211Attr::AttrSplitWiphyDump => 174,
        }
    }

    /// The variant that a wire code stands for, if any.
    pub open spec fn of_code(code: u16) -> Option<Nl80211Attr> {
        if code == 1 {
            Some(Nl80211Attr::AttrWiphy)
        } else if code == 2 {
            Some(Nl80211Attr::AttrWiphyName)
        } else if code == 3 {
            Some(Nl80211Attr::AttrIfindex)
        } else if code == 4 {
            Some(Nl80211Attr::AttrIfname)
        } else if code == 5 {
            Some(Nl80211Attr::AttrIftype)
        } else if code == 6 {
            Some(Nl80211Attr::AttrMac)
        } else if code == 22 {
            Some(Nl80211Attr::AttrWiphyBands)
        } else if code == 23 {
            Some(Nl80211Attr::AttrMntrFlags)
        } else if code == 32 {
            Some(Nl80211Attr::AttrSupportedIftypes)
        } else if code == 38 {
            Some(Nl80211Attr::AttrWiphyFreq)
        } else if code == 39 {
            Some(Nl80211Attr::AttrWiphyChannelType)
        } else if code == 52 {
            Some(Nl80211Attr::AttrSsid)
        } else if code == 93 {
            Some(Nl80211Attr::AttrPsState)
        } else if code == 98 {
            Some(Nl80211Attr::AttrWiphyTxPowerLevel)
        } else if code == 143 {
            Some(Nl80211Attr::AttrFeatureFlags)
        } else if code == 153 {
            Some(Nl80211Attr::AttrWdev)
        } else if code == 159 {
            Some(Nl80211Attr::AttrChannelWidth)
        } else if code == 160 {
            Some(Nl80211Attr::AttrCenterFreq1)
        } else if code == 174 {
            Some(Nl80211Attr::AttrSplitWiphyDump)
        } else {
            None
        }
    }

    pub fn to_u16(self) -> (code: u16)
        ensures
            code == self.code(),
    {
        match self {
            Nl80211Attr::AttrWiphy => 1,
            Nl80211Attr::AttrWiphyName => 2,
            Nl80211Attr::AttrIfindex => 3,
            Nl80211Attr::AttrIfname => 4,
            Nl80211Attr::AttrIftype => 5,
            Nl80211Attr::AttrMac => 6,
            Nl80211Attr::AttrWiphyBands => 22,
            Nl80211Attr::AttrMntrFlags => 23,
            Nl80211Attr::AttrSupportedIftypes => 32,
            Nl80211Attr::AttrWiphyFreq => 38,
            Nl80211Attr::AttrWiphyChannelType => 39,
            Nl80211Attr::AttrSsid => 52,
            Nl80211Attr::AttrPsState => 93,
            Nl80211Attr::AttrWiphyTxPowerLevel => 98,
            Nl80211Attr::AttrFeatureFlags => 143,
            Nl80211Attr::AttrWdev => 153,
            Nl80211Attr::AttrChannelWidth => 159,
            Nl80211Attr::AttrCenterFreq1 => 160,
            Nl80211Attr::AttrSplitWiphyDump => 174,
        }
    }

    pub fn from_u16(code: u16) -> (r: Option<Nl80211Attr>)
        ensures
            r == Nl80211Attr::of_code(code),
    {
        match code {
            1 => Some(Nl80211Attr::AttrWiphy),
            2 => Some(Nl80211Attr::AttrWiphyName),
            3 => Some(Nl80211Attr::AttrIfindex),
            4 => Some(Nl80211Attr::AttrIfname),
            5 => Some(Nl80211Attr::AttrIftype),
            6 => Some(Nl80211Attr::AttrMac),
            22 => Some(Nl80211Attr::AttrWiphyBands),
            23 => Some(Nl80211Attr::AttrMntrFlags),
            32 => Some(Nl80211Attr::AttrSupportedIftypes),
            38 => Some(Nl80211Attr::AttrWiphyFreq),
            39 => Some(Nl80211Attr::AttrWiphyChannelType),
            52 => Some(Nl80211Attr::AttrSsid),
            93 => Some(Nl80211Attr::AttrPsState),
            98 => Some(Nl80211Attr::AttrWiphyTxPowerLevel),
            143 => Some(Nl80211Attr::AttrFeatureFlags),
            153 => Some(Nl80211Attr::AttrWdev),
            159 => Some(Nl80211Attr::AttrChannelWidth),
            160 => Some(Nl80211Attr::AttrCenterFreq1),
            174 => Some(Nl80211Attr::AttrSplitWiphyDump),
            _ => None,
        }
    }
}

/// An attribute is the one that its code stands for.
pub proof fn lemma_attr_code_round_trip(v: Nl80211Attr)
    ensures
        Nl80211Attr::of_code(v.code()) == Some(v),
{
}

/// The operating mode of an interface.
#[derive(Debug, Clone, Copy, PartialEq, Eq, Structural)]
pub enum Nl80211Iftype {
    IftypeUnspecified,
    IftypeAdhoc,
    IftypeStation,
    IftypeAp,
    IftypeApVlan,
    IftypeMonitor,
    IftypeMeshPoint,
    IftypeP2pClient,
    IftypeP2pGo,
    IftypeP2pDevice,
    IftypeOcb,
    IftypeNan,
}

impl Nl80211Iftype {
    /// The integer that stands for the variant on the wire.
    pub open spec fn code(self) -> u8 {
        match self {
            Nl80211Iftype::IftypeUnspecified => 0,
            Nl80211Iftype::IftypeAdhoc => 1,
            Nl80211Iftype::IftypeStation => 2,
            Nl80211Iftype::IftypeAp => 3,
            Nl80211Iftype::IftypeApVlan => 4,
            Nl80211Iftype::IftypeMonitor => 6,
            Nl80211Iftype::IftypeMeshPoint => 7,
            Nl80211Iftype::IftypeP2pClient => 8,
            Nl80211Iftype::IftypeP2pGo => 9,
            Nl80211Iftype::IftypeP2pDevice => 10,
            Nl80211Iftype::IftypeOcb => 11,
            Nl80211Iftype::IftypeNan => 12,
        }
    }

    /// The variant that a wire code stands for, if any.
    pub open spec fn of_code(code: u8) -> Option<Nl80211Iftype> {
        if code == 0 {
            Some(Nl80211Iftype::IftypeUnspecified)
        } else if code == 1 {
            Some(Nl80211Iftype::IftypeAdhoc)
        } else if code == 2 {
            Some(Nl80211Iftype::IftypeStation)
        } else if code == 3 {
            Some(Nl80211Iftype::IftypeAp)
        } else if code == 4 {
            Some(Nl80211Iftype::IftypeApVlan)
        } else if code == 6 {
            Some(Nl80211Iftype::IftypeMonitor)
        } else if code == 7 {
            Some(Nl80211Iftype::IftypeMeshPoint)
        } else if code == 8 {
            Some(Nl80211Iftype::IftypeP2pClient)
        } else if code == 9 {
            Some(Nl80211Iftype::IftypeP2pGo)
        } else if code == 10 {
            Some(Nl80211Iftype::IftypeP2pDevice)
        } else if code == 11 {
            Some(Nl80211Iftype::IftypeOcb)
        } else if code == 12 {
            Some(Nl80211Iftype::IftypeNan)
        } else {
            None
        }
    }

    pub fn to_u8(self) -> (code: u8)
        ensures
            code == self.code(),
    {
        match self {
            Nl80211Iftype::IftypeUnspecified => 0,
            Nl80211Iftype::IftypeAdhoc => 1,
            Nl80211Iftype::IftypeStation => 2,
            Nl80211Iftype::IftypeAp => 3,
            Nl80211Iftype::IftypeApVlan => 4,
            Nl80211Iftype::IftypeMonitor => 6,
            Nl80211Iftype::IftypeMeshPoint => 7,
            Nl80211Iftype::IftypeP2pClient => 8,
            Nl80211Iftype::IftypeP2pGo => 9,
            Nl80211Iftype::IftypeP2pDevice => 10,
            Nl80211Iftype::IftypeOcb => 11,
            Nl80211Iftype::IftypeNan => 12,
        }
    }

    pub fn from_u8(code: u8) -> (r: Option<Nl80211Iftype>)
        ensures
            r == Nl80211Iftype::of_code(code),
    {
        match code {
            0 => Some(Nl80211Iftype::IftypeUnspecified),
            1 => Some(Nl80211Iftype::IftypeAdhoc),
            2 => Some(Nl80211Iftype::IftypeStation),
            3 => Some(Nl80211Iftype::IftypeAp),
            4 => Some(Nl80211Iftype::IftypeApVlan),
            6 => Some(Nl80211Iftype::IftypeMonitor),
            7 => Some(Nl80211Iftype::IftypeMeshPoint),
            8 => Some(Nl80211Iftype::IftypeP2pClient),
            9 => Some(Nl80211Iftype::IftypeP2pGo),
            10 => Some(Nl80211Iftype::IftypeP2pDevice),
            11 => Some(Nl80211Iftype::IftypeOcb),
            12 => Some(Nl80211Iftype::IftypeNan),
            _ => None,
        }
    }

    /// The variant's name in text.
    pub open spec fn name(self) -> Seq<char> {
        match self {
            Nl80211Iftype::IftypeUnspecified => "Unspecified"@,
            Nl80211Iftype::IftypeAdhoc => "Adhoc"@,
            Nl80211Iftype::IftypeStation => "Station"@,
            Nl80211Iftype::IftypeAp => "Ap"@,
            Nl80211Iftype::IftypeApVlan => "ApVlan"@,
            Nl80211Iftype::IftypeMonitor => "Monitor"@,
            Nl80211Iftype::IftypeMeshPoint => "MeshPoint"@,
            Nl80211Iftype::IftypeP2pClient => "P2pClient"@,
            Nl80211Iftype::IftypeP2pGo => "P2pGo"@,
            Nl80211Iftype::IftypeP2pDevice => "P2pDevice"@,
            Nl80211Iftype::IftypeOcb => "Ocb"@,
            Nl80211Iftype::IftypeNan => "Nan"@,
        }
    }

    pub fn string(&self) -> (s: &'static str)
        ensures
            s@ == self.name(),
    {
        match self {
            Nl80211Iftype::IftypeUnspecified => "Unspecified",
            Nl80211Iftype::IftypeAdhoc => "Adhoc",
            Nl80211Iftype::IftypeStation => "Station",
            Nl80211Iftype::IftypeAp => "Ap",
            Nl80211Iftype::IftypeApVlan => "ApVlan",
            Nl80211Iftype::IftypeMonitor => "Monitor",
            Nl80211Iftype::IftypeMeshPoint => "MeshPoint",
            Nl80211Iftype::IftypeP2pClient => "P2pClient",
            Nl80211Iftype::IftypeP2pGo => "P2pGo",
            Nl80211Iftype::IftypeP2pDevice => "P2pDevice",
            Nl80211Iftype::IftypeOcb => "Ocb",
            Nl80211Iftype::IftypeNan => "Nan",
        }
    }

    /// The variant's identifier in text.
    pub open spec fn variant(self) -> Seq<char> {
        match self {
            Nl80211Iftype::IftypeUnspecified => "IftypeUnspecified"@,
            Nl80211Iftype::IftypeAdhoc => "IftypeAdhoc"@,
            Nl80211Iftype::IftypeStation => "IftypeStation"@,
            Nl80211Iftype::IftypeAp => "IftypeAp"@,
            Nl80211Iftype::IftypeApVlan => "IftypeApVlan"@,
            Nl80211Iftype::IftypeMonitor => "IftypeMonitor"@,
            Nl80211Iftype::IftypeMeshPoint => "IftypeMeshPoint"@,
            Nl80211Iftype::IftypeP2pClient => "IftypeP2pClient"@,
            Nl80211Iftype::IftypeP2pGo => "IftypeP2pGo"@,
            Nl80211Iftype::IftypeP2pDevice => "IftypeP2pDevice"@,
            Nl80211Iftype::IftypeOcb => "IftypeOcb"@,
            Nl80211Iftype::IftypeNan => "IftypeNan"@,
        }
    }

    pub fn variant_str(&self) -> (s: &'static str)
        ensures
            s@ == self.variant(),
    {
        match self {
            Nl80211Iftype::IftypeUnspecified => "IftypeUnspecified",
            Nl80211Iftype::IftypeAdhoc => "IftypeAdhoc",
            Nl80211Iftype::IftypeStation => "IftypeStation",
            Nl80211Iftype::IftypeAp => "IftypeAp",
            Nl80211Iftype::IftypeApVlan => "IftypeApVlan",
            Nl80211Iftype::IftypeMonitor => "IftypeMonitor",
            Nl80211Iftype::IftypeMeshPoint => "IftypeMeshPoint",
            Nl80211Iftype::IftypeP2pClient => "IftypeP2pClient",
            Nl80211Iftype::IftypeP2pGo => "IftypeP2pGo",
            Nl80211Iftype::IftypeP2pDevice => "IftypeP2pDevice",
            Nl80211Iftype::IftypeOcb => "IftypeOcb",
            Nl80211Iftype::IftypeNan => "IftypeNan",
        }
    }
}

/// An interface type is the one that its code stands for.
pub proof fn lemma_iftype_code_round_trip(v: Nl80211Iftype)
    ensures
        Nl80211Iftype::of_code(v.code()) == Some(v),
{
}

/// The width of a channel.
#[derive(Debug, Clone, Copy, PartialEq, Eq, Structural)]
pub enum Nl80211ChanWidth {
    ChanWidth20Noht,
    ChanWidth20,
    ChanWidth40,
    ChanWidth80,
    ChanWidth80p80,
    ChanWidth160,
    ChanWidth5,
    ChanWidth10,
}

impl Nl80211ChanWidth {
    /// The integer that stands for the variant on the wire.
    pub open spec fn code(self) -> u32 {
        match self {
            Nl80211ChanWidth::ChanWidth20Noht => 0,
            Nl80211ChanWidth::ChanWidth20 => 1,
            Nl80211ChanWidth::ChanWidth40 => 2,
            Nl80211ChanWidth::ChanWidth80 => 3,
            Nl80211ChanWidth::ChanWidth80p80 => 4,
            Nl80211ChanWidth::ChanWidth160 => 5,
            Nl80211ChanWidth::ChanWidth5 => 6,
            Nl80211ChanWidth::ChanWidth10 => 7,
        }
    }

    /// The variant that a wire code stands for, if any.
    pub open spec fn of_code(code: u32) -> Option<Nl80211ChanWidth> {
        if code == 0 {
            Some(Nl80211ChanWidth::ChanWidth20Noht)
        } else if code == 1 {
            Some(Nl80211ChanWidth::ChanWidth20)
        } else if code == 2 {
            Some(Nl80211ChanWidth::ChanWidth40)
        } else if code == 3 {
            Some(Nl80211ChanWidth::ChanWidth80)
        } else if code == 4 {
            Some(Nl80211ChanWidth::ChanWidth80p80)
        } else if code == 5 {
            Some(Nl80211ChanWidth::ChanWidth160)
        } else if code == 6 {
            Some(Nl80211ChanWidth::ChanWidth5)
        } else if code == 7 {
            Some(Nl80211ChanWidth::ChanWidth10)
        } else {
            None
        }
    }

    pub fn to_u32(self) -> (code: u32)
        ensures
            code == self.code(),
    {
        match self {
            Nl80211ChanWidth::ChanWidth20Noht => 0,
            Nl80211ChanWidth::ChanWidth20 => 1,
            Nl80211ChanWidth::ChanWidth40 => 2,
            Nl80211ChanWidth::ChanWidth80 => 3,
            Nl80211ChanWidth::ChanWidth80p80 => 4,
            Nl80211ChanWidth::ChanWidth160 => 5,
            Nl80211ChanWidth::ChanWidth5 => 6,
            Nl80211ChanWidth::ChanWidth10 => 7,
        }
    }

    pub fn from_u32(code: u32) -> (r: Option<Nl80211ChanWidth>)
        ensures
            r == Nl80211ChanWidth::of_code(code),
    {
        match code {
            0 => Some(Nl80211ChanWidth::ChanWidth20Noht),
            1 => Some(Nl80211ChanWidth::ChanWidth20),
            2 => Some(Nl80211ChanWidth::ChanWidth40),
            3 => Some(Nl80211ChanWidth::ChanWidth80),
            4 => Some(Nl80211ChanWidth::ChanWidth80p80),
            5 => Some(Nl80211ChanWidth::ChanWidth160),
            6 => Some(Nl80211ChanWidth::ChanWidth5),
            7 => Some(Nl80211ChanWidth::ChanWidth10),
            _ => None,
        }
    }
}

/// A channel width is the one that its code stands for.
pub proof fn lemma_chan_width_code_round_trip(v: Nl80211ChanWidth)
    ensures
        Nl80211ChanWidth::of_code(v.code()) == Some(v),
{
}

/// The HT mode of a channel.
#[derive(Debug, Clone, Copy, PartialEq, Eq, Structural)]
pub enum Nl80211ChannelType {
    ChanNoHt,
    ChanHt20,
    ChanHt40minus,
    ChanHt40plus,
}

impl Nl80211ChannelType {
    /// The integer that stands for the variant on the wire.
    pub open spec fn code(self) -> u32 {
        match self {
            Nl80211ChannelType::ChanNoHt => 0,
            Nl80211ChannelType::ChanHt20 => 1,
            Nl80211ChannelType::ChanHt40minus => 2,
            Nl80211ChannelType::ChanHt40plus => 3,
        }
    }

    /// The variant that a wire code stands for, if any.
    pub open spec fn of_code(code: u32) -> Option<Nl80211ChannelType> {
        if code == 0 {
            Some(Nl80211ChannelType::ChanNoHt)
        } else if code == 1 {
            Some(Nl80211ChannelType::ChanHt20)
        } else if code == 2 {
            Some(Nl80211ChannelType::ChanHt40minus)
        } else if code == 3 {
            Some(Nl80211ChannelType::ChanHt40plus)
        } else {
            None
        }
    }

    pub fn to_u32(self) -> (code: u32)
        ensures
            code == self.code(),
    {
        match self {
            Nl80211ChannelType::ChanNoHt => 0,
            Nl80211ChannelType::ChanHt20 => 1,
            Nl80211ChannelType::ChanHt40minus => 2,
            Nl80211ChannelType::ChanHt40plus => 3,
        }
    }

    pub fn from_u32(code: u32) -> (r: Option<Nl80211ChannelType>)
        ensures
            r == Nl80211ChannelType::of_code(code),
    {
        match code {
            0 => Some(Nl80211ChannelType::ChanNoHt),
            1 => Some(Nl80211ChannelType::ChanHt20),
            2 => Some(Nl80211ChannelType::ChanHt40minus),
            3 => Some(Nl80211ChannelType::ChanHt40plus),
            _ => None,
        }
    }
}

/// A channel type is the one that its code stands for.
pub proof fn lemma_channel_type_code_round_trip(v: Nl80211ChannelType)
    ensures
        Nl80211ChannelType::of_code(v.code()) == Some(v),
{
}

/// The marker of a band inside `AttrWiphyBands`.
#[derive(Debug, Clone, Copy, PartialEq, Eq, Structural)]
pub enum Nl80211Bandc {
    Band2ghz,
    Band5ghz,
    Band60ghz,
    Band6ghz,
    BandS1ghz,
    BandLC,
}

impl Nl80211Bandc {
    /// The integer that stands for the variant on the wire.
    pub open spec fn code(self) -> u16 {
        match self {
            Nl80211Bandc::Band2ghz => 0,
            Nl80211Bandc::Band5ghz => 1,
            Nl80211Bandc::Band60ghz => 2,
            Nl80211Bandc::Band6ghz => 3,
            Nl80211Bandc::BandS1ghz => 4,
            Nl80211Bandc::BandLC => 5,
        }
    }

    /// The variant that a wire code stands for, if any.
    pub open spec fn of_code(code: u16) -> Option<Nl80211Bandc> {
        if code == 0 {
            Some(Nl80211Bandc::Band2ghz)
        } else if code == 1 {
            Some(Nl80211Bandc::Band5ghz)
        } else if code == 2 {
            Some(Nl80211Bandc::Band60ghz)
        } else if code == 3 {
            Some(Nl80211Bandc::Band6ghz)
        } else if code == 4 {
            Some(Nl80211Bandc::BandS1ghz)
        } else if code == 5 {
            Some(Nl80211Bandc::BandLC)
        } else {
            None
        }
    }

    pub fn to_u16(self) -> (code: u16)
        ensures
            code == self.code(),
    {
        match self {
            Nl80211Bandc::Band2ghz => 0,
            Nl80211Bandc::Band5ghz => 1,
            Nl80211Bandc::Band60ghz => 2,
            Nl80211Bandc::Band6ghz => 3,
            Nl80211Bandc::BandS1ghz => 4,
            Nl80211Bandc::BandLC => 5,
        }
    }

    pub fn from_u16(code: u16) -> (r: Option<Nl80211Bandc>)
        ensures
            r == Nl80211Bandc::of_code(code),
    {
        match code {
            0 => Some(Nl80211Bandc::Band2ghz),
            1 => Some(Nl80211Bandc::Band5ghz),
            2 => Some(Nl80211Bandc::Band60ghz),
            3 => Some(Nl80211Bandc::Band6ghz),
            4 => Some(Nl80211Bandc::BandS1ghz),
            5 => Some(Nl80211Bandc::BandLC),
            _ => None,
        }
    }
}

/// The attributes of one band.
#[derive(Debug, Clone, Copy, PartialEq, Eq, Structural)]
pub enum Nl80211BandAttr {
    BandAttrInvalid,
    BandAttrFreqs,
    BandAttrRates,
    BandAttrHtMcsSet,
    BandAttrHtCapa,
    BandAttrHtAmpduFactor,
    BandAttrHtAmpduDensity,
    BandAttrVhtMcsSet,
    BandAttrVhtCapa,
}

impl Nl80211BandAttr {
    /// The integer that stands for the variant on the wire.
    pub open spec fn code(self) -> u16 {
        match self {
            Nl80211BandAttr::BandAttrInvalid => 0,
            Nl80211BandAttr::BandAttrFreqs => 1,
            Nl80211BandAttr::BandAttrRates => 2,
            Nl80211BandAttr::BandAttrHtMcsSet => 3,
            Nl80211BandAttr::BandAttrHtCapa => 4,
            Nl80211BandAttr::BandAttrHtAmpduFactor => 5,
            Nl80211BandAttr::BandAttrHtAmpduDensity => 6,
            Nl80211BandAttr::BandAttrVhtMcsSet => 7,
            Nl80211BandAttr::BandAttrVhtCapa => 8,
        }
    }

    /// The variant that a wire code stands for, if any.
    pub open spec fn of_code(code: u16) -> Option<Nl80211BandAttr> {
        if code == 0 {
            Some(Nl80211BandAttr::BandAttrInvalid)
        } else if code == 1 {
            Some(Nl80211BandAttr::BandAttrFreqs)
        } else if code == 2 {
            Some(Nl80211BandAttr::BandAttrRates)
        } else if code == 3 {
            Some(Nl80211BandAttr::BandAttrHtMcsSet)
        } else if code == 4 {
            Some(Nl80211BandAttr::BandAttrHtCapa)
        } else if code == 5 {
            Some(Nl80211BandAttr::BandAttrHtAmpduFactor)
        } else if code == 6 {
            Some(Nl80211BandAttr::BandAttrHtAmpduDensity)
        } else if code == 7 {
            Some(Nl80211BandAttr::BandAttrVhtMcsSet)
        } else if code == 8 {
            Some(Nl80211BandAttr::BandAttrVhtCapa)
        } else {
            None
        }
    }

    pub fn to_u16(self) -> (code: u16)
        ensures
            code == self.code(),
    {
        match self {
            Nl80211BandAttr::BandAttrInvalid => 0,
            Nl80211BandAttr::BandAttrFreqs => 1,
            Nl80211BandAttr::BandAttrRates => 2,
            Nl80211BandAttr::BandAttrHtMcsSet => 3,
            Nl80211BandAttr::BandAttrHtCapa => 4,
            Nl80211BandAttr::BandAttrHtAmpduFactor => 5,
            Nl80211BandAttr::BandAttrHtAmpduDensity => 6,
            Nl80211BandAttr::BandAttrVhtMcsSet => 7,
            Nl80211BandAttr::BandAttrVhtCapa => 8,
        }
    }

    pub fn from_u16(code: u16) -> (r: Option<Nl80211BandAttr>)
        ensures
            r == Nl80211BandAttr::of_code(code),
    {
        match code {
            0 => Some(Nl80211BandAttr::BandAttrInvalid),
            1 => Some(Nl80211BandAttr::BandAttrFreqs),
            2 => Some(Nl80211BandAttr::BandAttrRates),
            3 => Some(Nl80211BandAttr::BandAttrHtMcsSet),
            4 => Some(Nl80211BandAttr::BandAttrHtCapa),
            5 => Some(Nl80211BandAttr::BandAttrHtAmpduFactor),
            6 => Some(Nl80211BandAttr::BandAttrHtAmpduDensity),
            7 => Some(Nl80211BandAttr::BandAttrVhtMcsSet),
            8 => Some(Nl80211BandAttr::BandAttrVhtCapa),
            _ => None,
        }
    }
}

/// The attributes of one frequency of a band that this crate reads.
#[derive(Debug, Clone, Copy, PartialEq, Eq, Structural)]
pub enum Nl80211FrequencyAttr {
    FrequencyAttrFreq,
    FrequencyAttrDisabled,
    FrequencyAttrMaxTxPower,
}

impl Nl80211FrequencyAttr {
    /// The integer that stands for the variant on the wire.
    pub open spec fn code(self) -> u16 {
        match self {
            Nl80211FrequencyAttr::FrequencyAttrFreq => 1,
            Nl80211FrequencyAttr::FrequencyAttrDisabled => 2,
            Nl80211FrequencyAttr::FrequencyAttrMaxTxPower => 6,
        }
    }

    /// The variant that a wire code stands for, if any.
    pub open spec fn of_code(code: u16) -> Option<Nl80211FrequencyAttr> {
        if code == 1 {
            Some(Nl80211FrequencyAttr::FrequencyAttrFreq)
        } else if code == 2 {
            Some(Nl80211FrequencyAttr::FrequencyAttrDisabled)
        } else if code == 6 {
            Some(Nl80211FrequencyAttr::FrequencyAttrMaxTxPower)
        } else {
            None
        }
    }

    pub fn to_u16(self) -> (code: u16)
        ensures
            code == self.code(),
    {
        match self {
            Nl80211FrequencyAttr::FrequencyAttrFreq => 1,
            Nl80211FrequencyAttr::FrequencyAttrDisabled => 2,
            Nl80211FrequencyAttr::FrequencyAttrMaxTxPower => 6,
        }
    }

    pub fn from_u16(code: u16) -> (r: Option<Nl80211FrequencyAttr>)
        ensures
            r == Nl80211FrequencyAttr::of_code(code),
    {
        match code {
            1 => Some(Nl80211FrequencyAttr::FrequencyAttrFreq),
            2 => Some(Nl80211FrequencyAttr::FrequencyAttrDisabled),
            6 => Some(Nl80211FrequencyAttr::FrequencyAttrMaxTxPower),
            _ => None,
        }
    }
}

/// The flags of monitor mode.
#[derive(Debug, Clone, Copy, PartialEq, Eq, Structural)]
pub enum Nl80211MntrFlags {
    MntrFlagFcsfail,
    MntrFlagPlcpfail,
    MntrFlagControl,
    MntrFlagOtherBss,
    MntrFlagCookFrames,
    MntrFlagActive,
}

impl Nl80211MntrFlags {
    /// The integer that stands for the variant on the wire.
    pub open spec fn code(self) -> u16 {
        match self {
            Nl80211MntrFlags::MntrFlagFcsfail => 1,
            Nl80211MntrFlags::MntrFlagPlcpfail => 2,
            Nl80211MntrFlags::MntrFlagControl => 3,
            Nl80211MntrFlags::MntrFlagOtherBss => 4,
            Nl80211MntrFlags::MntrFlagCookFrames => 5,
            Nl80211MntrFlags::MntrFlagActive => 6,
        }
    }

    /// The variant that a wire code stands for, if any.
    pub open spec fn of_code(code: u16) -> Option<Nl80211MntrFlags> {
        if code == 1 {
            Some(Nl80211MntrFlags::MntrFlagFcsfail)
        } else if code == 2 {
            Some(Nl80211MntrFlags::MntrFlagPlcpfail)
        } else if code == 3 {
            Some(Nl80211MntrFlags::MntrFlagControl)
        } else if code == 4 {
            Some(Nl80211MntrFlags::MntrFlagOtherBss)
        } else if code == 5 {
            Some(Nl80211MntrFlags::MntrFlagCookFrames)
        } else if code == 6 {
            Some(Nl80211MntrFlags::MntrFlagActive)
        } else {
            None
        }
    }

    pub fn to_u16(self) -> (code: u16)
        ensures
            code == self.code(),
    {
        match self {
            Nl80211MntrFlags::MntrFlagFcsfail => 1,
            Nl80211MntrFlags::MntrFlagPlcpfail => 2,
            Nl80211MntrFlags::MntrFlagControl => 3,
            Nl80211MntrFlags::MntrFlagOtherBss => 4,
            Nl80211MntrFlags::MntrFlagCookFrames => 5,
            Nl80211MntrFlags::MntrFlagActive => 6,
        }
    }

    pub fn from_u16(code: u16) -> (r: Option<Nl80211MntrFlags>)
        ensures
            r == Nl80211MntrFlags::of_code(code),
    {
        match code {
            1 => Some(Nl80211MntrFlags::MntrFlagFcsfail),
            2 => Some(Nl80211MntrFlags::MntrFlagPlcpfail),
            3 => Some(Nl80211MntrFlags::MntrFlagControl),
            4 => Some(Nl80211MntrFlags::MntrFlagOtherBss),
            5 => Some(Nl80211MntrFlags::MntrFlagCookFrames),
            6 => Some(Nl80211MntrFlags::MntrFlagActive),
            _ => None,
        }
    }
}

/// The power-save state of a radio.
#[derive(Debug, Clone, Copy, PartialEq, Eq, Structural)]
pub enum Nl80211PsState {
    PsDisabled,
    PsEnabled,
}

impl Nl80211PsState {
    /// The integer that stands for the variant on the wire.
    pub open spec fn code(self) -> u32 {
        match self {
            Nl80211PsState::PsDisabled => 0,
            Nl80211PsState::PsEnabled => 1,
        }
    }

    /// The variant that a wire code stands for, if any.
    pub open spec fn of_code(code: u32) -> Option<Nl80211PsState> {
        if code == 0 {
            Some(Nl80211PsState::PsDisabled)
        } else if code == 1 {
            Some(Nl80211PsState::PsEnabled)
        } else {
            None
        }
    }

    pub fn to_u32(self) -> (code: u32)
        ensures
            code == self.code(),
    {
        match self {
            Nl80211PsState::PsDisabled => 0,
            Nl80211PsState::PsEnabled => 1,
        }
    }

    pub fn from_u32(code: u32) -> (r: Option<Nl80211PsState>)
        ensures
            r == Nl80211PsState::of_code(code),
    {
        match code {
            0 => Some(Nl80211PsState::PsDisabled),
            1 => Some(Nl80211PsState::PsEnabled),
            _ => None,
        }
    }
}

/// The operational state of a link.
#[derive(Debug, Clone, Copy, PartialEq, Eq, Structural)]
pub enum Operstate {
    Unknown,
    NotPresent,
    Down,
    LowerLayerDown,
    Testing,
    Dormant,
    Up,
}

impl Operstate {
    /// The integer that stands for the variant on the wire.
    pub open spec fn code(self) -> u8 {
        match self {
            Operstate::Unknown => 0,
            Operstate::NotPresent => 1,
            Operstate::Down => 2,
            Operstate::LowerLayerDown => 3,
            Operstate::Testing => 4,
            Operstate::Dormant => 5,
            Operstate::Up => 6,
        }
    }

    /// The variant that a wire code stands for, if any.
    pub open spec fn of_code(code: u8) -> Option<Operstate> {
        if code == 0 {
            Some(Operstate::Unknown)
        } else if code == 1 {
            Some(Operstate::NotPresent)
        } else if code == 2 {
            Some(Operstate::Down)
        } else if code == 3 {
            Some(Operstate::LowerLayerDown)
        } else if code == 4 {
            Some(Operstate::Testing)
        } else if code == 5 {
            Some(Operstate::Dormant)
        } else if code == 6 {
            Some(Operstate::Up)
        } else {
            None
        }
    }

    pub fn to_u8(self) -> (code: u8)
        ensures
            code == self.code(),
    {
        match self {
            Operstate::Unknown => 0,
            Operstate::NotPresent => 1,
            Operstate::Down => 2,
            Operstate::LowerLayerDown => 3,
            Operstate::Testing => 4,
            Operstate::Dormant => 5,
            Operstate::Up => 6,
        }
    }

    pub fn from_u8(code: u8) -> (r: Option<Operstate>)
        ensures
            r == Operstate::of_code(code),
    {
        match code {
            0 => Some(Operstate::Unknown),
            1 => Some(Operstate::NotPresent),
            2 => Some(Operstate::Down),
            3 => Some(Operstate::LowerLayerDown),
            4 => Some(Operstate::Testing),
            5 => Some(Operstate::Dormant),
            6 => Some(Operstate::Up),
            _ => None,
        }
    }

    /// The variant's name in text.
    pub open spec fn name(self) -> Seq<char> {
        match self {
            Operstate::Unknown => "Unknown"@,
            Operstate::NotPresent => "NotPresent"@,
            Operstate::Down => "Down"@,
            Operstate::LowerLayerDown => "LowerLayerDown"@,
            Operstate::Testing => "Testing"@,
            Operstate::Dormant => "Dormant"@,
            Operstate::Up => "Up"@,
        }
    }

    pub fn string(&self) -> (s: &'static str)
        ensures
            s@ == self.name(),
    {
        match self {
            Operstate::Unknown => "Unknown",
            Operstate::NotPresent => "NotPresent",
            Operstate::Down => "Down",
            Operstate::LowerLayerDown => "LowerLayerDown",
            Operstate::Testing => "Testing",
            Operstate::Dormant => "Dormant",
            Operstate::Up => "Up",
        }
    }
}

/// An operational state is the one that its code stands for.
pub proof fn lemma_operstate_code_round_trip(v: Operstate)
    ensures
        Operstate::of_code(v.code()) == Some(v),
{
}

/// The bit of `AttrFeatureFlags` that says the radio can acknowledge
/// frames while it monitors.
pub const NL80211_FEATURE_ACTIVE_MONITOR: u32 = 0x20000;

} // verus!
