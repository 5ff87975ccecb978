//! The generic-netlink side of the protocol: the requests of the
//! `nl80211` family, and the reading of the responses to them.
//!
//! A request is a plain value that a driver serialises and sends. The
//! responses it receives come back as plain values too, and an
//! [`Exchange`] takes them in one by one until it says to stop.

use crate::attr::{
    Nl80211Attr, Nl80211ChanWidth, Nl80211ChannelType, Nl80211Iftype, Nl80211MntrFlags,
    Nl80211PsState, Operstate,
};
use crate::cmd::Nl80211Cmd;
use crate::codec::{
    attr_views, find_attr, first_of, payload_u32, Attr, AttrView, ByteOrder, DecodeFault,
};
use crate::error::{ErrorKind, Failure, Nl80211Error};
use crate::interface::{
    interface_from, interface_map, keyed_by_radio, Interface, InterfaceView,
};
use crate::phy::{
    lemma_phy_with_message_wf, phy_take_message, phy_with_message, WirelessPhy, WirelessPhyView,
};
use crate::rtsocket::{operstate_from, RtSocket};
use std::collections::HashMap;
use vstd::prelude::*;

verus! {

/// The version of the `nl80211` family that the requests speak.
pub const NL_80211_GENL_VERSION: u8 = 1;

/// The port number in the header of a request for one radio, by which
/// the parts of its answer are told from other traffic.
pub const WIPHY_DUMP_PID: u32 = 42069;

/// A flag in the header of a netlink request.
#[derive(Debug, Clone, Copy, PartialEq, Eq, Structural)]
pub enum NlmFlag {
    Request,
    Ack,
    Root,
    Match,
    Dump,
}

impl NlmFlag {
    /// The bits of the flag in the header.
    pub open spec fn code(self) -> u16 {
        match self {
            NlmFlag::Request => 0x1,
            NlmFlag::Ack => 0x4,
            NlmFlag::Root => 0x100,
            NlmFlag::Match => 0x200,
            NlmFlag::Dump => 0x300,
        }
    }

    pub fn to_u16(self) -> (code: u16)
        ensures
            code == self.code(),
    {
        match self {
            NlmFlag::Request => 0x1,
            NlmFlag::Ack => 0x4,
            NlmFlag::Root => 0x100,
            NlmFlag::Match => 0x200,
            NlmFlag::Dump => 0x300,
        }
    }
}

/// What an attribute of a request carries.
#[derive(Debug, Clone, PartialEq, Eq)]
pub enum AttrValue {
    /// Nothing: the attribute is a marker.
    Marker,
    /// An integer of 32 bits.
    U32(u32),
    /// Nested attributes without a payload, one for each monitor flag.
    MonitorFlags(Vec<Nl80211MntrFlags>),
}

/// The value of an attribute in specifications.
pub enum AttrValueView {
    Marker,
    U32(u32),
    MonitorFlags(Seq<Nl80211MntrFlags>),
}

impl View for AttrValue {
    type V = AttrValueView;

    open spec fn view(&self) -> AttrValueView {
        match self {
            AttrValue::Marker => AttrValueView::Marker,
            AttrValue::U32(v) => AttrValueView::U32(*v),
            AttrValue::MonitorFlags(flags) => AttrValueView::MonitorFlags(flags@),
        }
    }
}

/// One attribute of a request.
#[derive(Debug, Clone, PartialEq, Eq)]
pub struct RequestAttr {
    pub kind: Nl80211Attr,
    pub value: AttrValue,
}

/// An attribute of a request in specifications.
pub struct RequestAttrView {
    pub kind: Nl80211Attr,
    pub value: AttrValueView,
}

impl View for RequestAttr {
    type V = RequestAttrView;

    open spec fn view(&self) -> RequestAttrView {
        RequestAttrView { kind: self.kind, value: self.value@ }
    }
}

/// A request to the `nl80211` family.
#[derive(Debug, Clone, PartialEq, Eq)]
pub struct Request {
    /// The number under which the kernel registered the family.
    pub family: u16,
    pub cmd: Nl80211Cmd,
    pub version: u8,
    pub flags: Vec<NlmFlag>,
    /// The port number of the header, where the request sets one.
    pub pid: Option<u32>,
    pub attrs: Vec<RequestAttr>,
}

/// A request in specifications.
pub struct RequestView {
    pub family: u16,
    pub cmd: Nl80211Cmd,
    pub version: u8,
    pub flags: Seq<NlmFlag>,
    pub pid: Option<u32>,
    pub attrs: Seq<RequestAttrView>,
}

impl View for Request {
    type V = RequestView;

    open spec fn view(&self) -> RequestView {
        RequestView {
            family: self.family,
            cmd: self.cmd,
            version: self.version,
            flags: self.flags@,
            pid: self.pid,
            attrs: Seq::new(self.attrs@.len(), |i: int| self.attrs@[i]@),
        }
    }
}

/// An attribute that carries an integer.
pub open spec fn u32_attr(kind: Nl80211Attr, value: u32) -> RequestAttrView {
    RequestAttrView { kind, value: AttrValueView::U32(value) }
}

/// The request that lists the interfaces.
pub open spec fn get_interfaces_request(family: u16) -> RequestView {
    RequestView {
        family,
        cmd: Nl80211Cmd::CmdGetInterface,
        version: NL_80211_GENL_VERSION,
        flags: seq![NlmFlag::Request, NlmFlag::Dump],
        pid: None,
        attrs: Seq::empty(),
    }
}

/// The request that lists the radios.
pub open spec fn get_all_wiphy_request(family: u16) -> RequestView {
    RequestView {
        family,
        cmd: Nl80211Cmd::CmdGetWiphy,
        version: NL_80211_GENL_VERSION,
        flags: seq![NlmFlag::Request, NlmFlag::Dump],
        pid: None,
        attrs: Seq::empty(),
    }
}

/// The request for all of one radio: it names the radio and asks for the
/// answer in parts.
pub open spec fn get_wiphy_request(family: u16, phy: u32) -> RequestView {
    RequestView {
        family,
        cmd: Nl80211Cmd::CmdGetWiphy,
        version: NL_80211_GENL_VERSION,
        flags: seq![NlmFlag::Request, NlmFlag::Ack, NlmFlag::Root, NlmFlag::Match],
        pid: Some(WIPHY_DUMP_PID),
        attrs: seq![
            u32_attr(Nl80211Attr::AttrWiphy, phy),
            RequestAttrView { kind: Nl80211Attr::AttrSplitWiphyDump, value: AttrValueView::Marker },
        ],
    }
}

/// The request that sets the type of an interface. Active monitoring is
/// asked for only together with the monitor type.
pub open spec fn set_type_request(family: u16, index: u32, iftype: Nl80211Iftype, active: bool)
    -> RequestView {
    let base = seq![
        u32_attr(Nl80211Attr::AttrIfindex, index),
        u32_attr(Nl80211Attr::AttrIftype, iftype.code() as u32),
    ];
    RequestView {
        family,
        cmd: Nl80211Cmd::CmdSetInterface,
        version: NL_80211_GENL_VERSION,
        flags: seq![NlmFlag::Request, NlmFlag::Ack],
        pid: None,
        attrs: if iftype == Nl80211Iftype::IftypeMonitor && active {
            base.push(
                RequestAttrView {
                    kind: Nl80211Attr::AttrMntrFlags,
                    value: AttrValueView::MonitorFlags(seq![Nl80211MntrFlags::MntrFlagActive]),
                },
            )
        } else {
            base
        },
    }
}

/// The request that switches power saving off.
pub open spec fn set_powersave_off_request(family: u16, index: u32) -> RequestView {
    RequestView {
        family,
        cmd: Nl80211Cmd::CmdSetWiphy,
        version: NL_80211_GENL_VERSION,
        flags: seq![NlmFlag::Request, NlmFlag::Ack],
        pid: None,
        attrs: seq![
            u32_attr(Nl80211Attr::AttrIfindex, index),
            u32_attr(Nl80211Attr::AttrPsState, Nl80211PsState::PsDisabled.code()),
        ],
    }
}

/// The request that tunes an interface to a frequency, which is also the
/// first centre frequency.
pub open spec fn set_frequency_request(
    family: u16,
    index: u32,
    frequency: u32,
    width: Nl80211ChanWidth,
    chan_type: Nl80211ChannelType,
) -> RequestView {
    RequestView {
        family,
        cmd: Nl80211Cmd::CmdSetChannel,
        version: NL_80211_GENL_VERSION,
        flags: seq![NlmFlag::Request, NlmFlag::Ack],
        pid: None,
        attrs: seq![
            u32_attr(Nl80211Attr::AttrIfindex, index),
            u32_attr(Nl80211Attr::AttrWiphyFreq, frequency),
            u32_attr(Nl80211Attr::AttrChannelWidth, width.code()),
            u32_attr(Nl80211Attr::AttrWiphyChannelType, chan_type.code()),
            u32_attr(Nl80211Attr::AttrCenterFreq1, frequency),
        ],
    }
}

fn u32_attribute(kind: Nl80211Attr, value: u32) -> (attr: RequestAttr)
    ensures
        attr@ == u32_attr(kind, value),
{
    RequestAttr { kind, value: AttrValue::U32(value) }
}

fn request_flags(ack: bool, dump: bool, root_match: bool) -> (flags: Vec<NlmFlag>)
    ensures
        flags@ == seq![NlmFlag::Request] + (if ack {
            seq![NlmFlag::Ack]
        } else {
            Seq::empty()
        }) + (if dump {
            seq![NlmFlag::Dump]
        } else {
            Seq::empty()
        }) + (if root_match {
            seq![NlmFlag::Root, NlmFlag::Match]
        } else {
            Seq::empty()
        }),
{
    let mut flags: Vec<NlmFlag> = Vec::new();
    flags.push(NlmFlag::Request);
    if ack {
        flags.push(NlmFlag::Ack);
    }
    if dump {
        flags.push(NlmFlag::Dump);
    }
    if root_match {
        flags.push(NlmFlag::Root);
        flags.push(NlmFlag::Match);
    }
    flags
}

/// The generic-netlink endpoint of the `nl80211` family: what is known
/// of it once a socket is connected.
#[derive(Debug, Clone, Copy, PartialEq, Eq)]
pub struct NtSocket {
    /// The number under which the kernel registered the family.
    pub family_id: u16,
}

impl NtSocket {
    pub fn new(family_id: u16) -> (r: NtSocket)
        ensures
            r.family_id == family_id,
    {
        NtSocket { family_id }
    }

    /// The request that lists the interfaces.
    pub fn cmd_get_interfaces(&self) -> (r: Request)
        ensures
            r@ == get_interfaces_request(self.family_id),
    {
        let r = Request {
            family: self.family_id,
            cmd: Nl80211Cmd::CmdGetInterface,
            version: NL_80211_GENL_VERSION,
            flags: request_flags(false, true, false),
            pid: None,
            attrs: Vec::new(),
        };
        assert(r@.flags == seq![NlmFlag::Request, NlmFlag::Dump]);
        assert(r@.attrs == Seq::<RequestAttrView>::empty());
        r
    }

    /// The request that lists the radios.
    pub fn cmd_get_all_wiphy(&self) -> (r: Request)
        ensures
            r@ == get_all_wiphy_request(self.family_id),
    {
        let r = Request {
            family: self.family_id,
            cmd: Nl80211Cmd::CmdGetWiphy,
            version: NL_80211_GENL_VERSION,
            flags: request_flags(false, true, false),
            pid: None,
            attrs: Vec::new(),
        };
        assert(r@.flags == seq![NlmFlag::Request, NlmFlag::Dump]);
        assert(r@.attrs == Seq::<RequestAttrView>::empty());
        r
    }

    /// The request for all of radio `phy`.
    pub fn cmd_get_wiphy(&self, phy: u32) -> (r: Request)
        ensures
            r@ == get_wiphy_request(self.family_id, phy),
    {
        let mut attrs: Vec<RequestAttr> = Vec::new();
        attrs.push(u32_attribute(Nl80211Attr::AttrWiphy, phy));
        attrs.push(RequestAttr { kind: Nl80211Attr::AttrSplitWiphyDump, value: AttrValue::Marker });
        let r = Request {
            family: self.family_id,
            cmd: Nl80211Cmd::CmdGetWiphy,
            version: NL_80211_GENL_VERSION,
            flags: request_flags(true, false, true),
            pid: Some(WIPHY_DUMP_PID),
            attrs,
        };
        assert(r@.flags == get_wiphy_request(self.family_id, phy).flags);
        assert(r@.attrs == get_wiphy_request(self.family_id, phy).attrs);
        r
    }

    /// The request that sets the type of the interface `interface_index`.
    pub fn set_type_vec(&self, interface_index: u32, iftype: Nl80211Iftype, active: bool) -> (r:
        Request)
        ensures
            r@ == set_type_request(self.family_id, interface_index, iftype, active),
    {
        let mut attrs: Vec<RequestAttr> = Vec::new();
        attrs.push(u32_attribute(Nl80211Attr::AttrIfindex, interface_index));
        attrs.push(u32_attribute(Nl80211Attr::AttrIftype, iftype.to_u8() as u32));
        if iftype == Nl80211Iftype::IftypeMonitor && active {
            let mut flags: Vec<Nl80211MntrFlags> = Vec::new();
            flags.push(Nl80211MntrFlags::MntrFlagActive);
            attrs.push(
                RequestAttr { kind: Nl80211Attr::AttrMntrFlags, value: AttrValue::MonitorFlags(flags) },
            );
        }
        let r = Request {
            family: self.family_id,
            cmd: Nl80211Cmd::CmdSetInterface,
            version: NL_80211_GENL_VERSION,
            flags: request_flags(true, false, false),
            pid: None,
            attrs,
        };
        let ghost want = set_type_request(self.family_id, interface_index, iftype, active);
        assert(r@.flags == want.flags);
        assert(r@.attrs == want.attrs);
        r
    }

    /// The request that switches power saving off on the interface
    /// `interface_index`.
    pub fn set_powersave_off(&self, interface_index: u32) -> (r: Request)
        ensures
            r@ == set_powersave_off_request(self.family_id, interface_index),
    {
        let mut attrs: Vec<RequestAttr> = Vec::new();
        attrs.push(u32_attribute(Nl80211Attr::AttrIfindex, interface_index));
        attrs.push(u32_attribute(Nl80211Attr::AttrPsState, Nl80211PsState::PsDisabled.to_u32()));
        let r = Request {
            family: self.family_id,
            cmd: Nl80211Cmd::CmdSetWiphy,
            version: NL_80211_GENL_VERSION,
            flags: request_flags(true, false, false),
            pid: None,
            attrs,
        };
        let ghost want = set_powersave_off_request(self.family_id, interface_index);
        assert(r@.flags == want.flags);
        assert(r@.attrs == want.attrs);
        r
    }

    /// The request that tunes the interface `interface_index` to
    /// `frequency`.
    pub fn set_frequency(
        &self,
        interface_index: u32,
        frequency: u32,
        chan_width: Nl80211ChanWidth,
        chan_type: Nl80211ChannelType,
    ) -> (r: Request)
        ensures
            r@ == set_frequency_request(
                self.family_id,
                interface_index,
                frequency,
                chan_width,
                chan_type,
            ),
    {
        let mut attrs: Vec<RequestAttr> = Vec::new();
        attrs.push(u32_attribute(Nl80211Attr::AttrIfindex, interface_index));
        attrs.push(u32_attribute(Nl80211Attr::AttrWiphyFreq, frequency));
        attrs.push(u32_attribute(Nl80211Attr::AttrChannelWidth, chan_width.to_u32()));
        attrs.push(u32_attribute(Nl80211Attr::AttrWiphyChannelType, chan_type.to_u32()));
        attrs.push(u32_attribute(Nl80211Attr::AttrCenterFreq1, frequency));
        let r = Request {
            family: self.family_id,
            cmd: Nl80211Cmd::CmdSetChannel,
            version: NL_80211_GENL_VERSION,
            flags: request_flags(true, false, false),
            pid: None,
            attrs,
        };
        let ghost want = set_frequency_request(
            self.family_id,
            interface_index,
            frequency,
            chan_width,
            chan_type,
        );
        assert(r@.flags == want.flags);
        assert(r@.attrs == want.attrs);
        r
    }
}

/// The kind of a netlink message, from the type in its header.
#[derive(Debug, Clone, Copy, PartialEq, Eq, Structural)]
pub enum MessageKind {
    Noop,
    Error,
    Done,
    /// Any other type: a message of the family.
    Other,
}

/// What a received message carries.
#[derive(Debug, Clone, PartialEq, Eq)]
pub enum Payload {
    Empty,
    /// An acknowledgement.
    Ack,
    /// A negative acknowledgement, with the kernel's code and message.
    Nack { code: i32, message: String },
    /// A message of the family, with its command and its attributes, or a
    /// message about a link, with the command 0 and its attributes.
    Genl { cmd: u8, attrs: Vec<Attr> },
}

/// A payload in specifications.
pub enum PayloadView {
    Empty,
    Ack,
    Nack { code: i32, message: Seq<char> },
    Genl { cmd: u8, attrs: Seq<AttrView> },
}

impl View for Payload {
    type V = PayloadView;

    open spec fn view(&self) -> PayloadView {
        match self {
            Payload::Empty => PayloadView::Empty,
            Payload::Ack => PayloadView::Ack,
            Payload::Nack { code, message } => PayloadView::Nack { code: *code, message: message@ },
            Payload::Genl { cmd, attrs } => PayloadView::Genl {
                cmd: *cmd,
                attrs: attr_views(attrs@),
            },
        }
    }
}

/// One received message.
#[derive(Debug, Clone, PartialEq, Eq)]
pub struct Response {
    pub kind: MessageKind,
    pub payload: Payload,
}

/// A received message in specifications.
pub struct ResponseView {
    pub kind: MessageKind,
    pub payload: PayloadView,
}

impl View for Response {
    type V = ResponseView;

    open spec fn view(&self) -> ResponseView {
        ResponseView { kind: self.kind, payload: self.payload@ }
    }
}

/// The views of a sequence of received messages.
pub open spec fn response_views(responses: Seq<Response>) -> Seq<ResponseView> {
    Seq::new(responses.len(), |i: int| responses[i]@)
}

/// Whether more messages are to be read.
#[derive(Debug, Clone, Copy, PartialEq, Eq, Structural)]
pub enum Flow {
    Continue,
    Stop,
}

/// What is being read from the responses to one request, and how far it
/// has come.
#[derive(Debug, Clone, PartialEq, Eq)]
pub enum Exchange {
    /// The interfaces listed so far, by the number of the radio.
    Interfaces(HashMap<u32, Interface>),
    /// The numbers of the radios listed so far.
    WiphyIds(Vec<u32>),
    /// One radio, as far as its parts have come in.
    Wiphy(WirelessPhy),
    /// The acknowledgements of a request that changes something.
    Acks,
    /// The operational state of a link, as the last message about the
    /// link gave it.
    Link(Operstate),
}

/// An exchange in specifications.
pub enum ExchangeView {
    Interfaces(Map<u32, InterfaceView>),
    WiphyIds(Seq<u32>),
    Wiphy(WirelessPhyView),
    Acks,
    Link(Operstate),
}

impl View for Exchange {
    type V = ExchangeView;

    open spec fn view(&self) -> ExchangeView {
        match self {
            Exchange::Interfaces(table) => ExchangeView::Interfaces(interface_map(table@)),
            Exchange::WiphyIds(ids) => ExchangeView::WiphyIds(ids@),
            Exchange::Wiphy(phy) => ExchangeView::Wiphy(phy@),
            Exchange::Acks => ExchangeView::Acks,
            Exchange::Link(state) => ExchangeView::Link(*state),
        }
    }
}

impl ExchangeView {
    /// Each interface listed stands under the number of its radio, and
    /// the radio that is read has no band twice and each channel on its
    /// frequency.
    pub open spec fn wf(self) -> bool {
        match self {
            ExchangeView::Interfaces(table) => keyed_by_radio(table),
            ExchangeView::Wiphy(phy) => phy.wf(),
            _ => true,
        }
    }
}

/// A decoding fault as an error of kind `decode`.
pub open spec fn decode_failure(fault: DecodeFault) -> Failure {
    Failure { kind: ErrorKind::Decode, message: fault.message() }
}

/// The error that an exchange reports of a message of kind `Error`. A
/// request that changes something and a request about a link report the
/// kernel's message; a listing reports that it failed.
pub open spec fn error_failure(state: ExchangeView, payload: PayloadView) -> Failure {
    match state {
        ExchangeView::Acks | ExchangeView::Link(_) => match payload {
            PayloadView::Nack { code, message } => Failure { kind: ErrorKind::Protocol, message },
            PayloadView::Empty => Failure {
                kind: ErrorKind::Protocol,
                message: "Payload was empty"@,
            },
            _ => Failure { kind: ErrorKind::Protocol, message: "Unexpected payload"@ },
        },
        ExchangeView::Interfaces(_) => Failure {
            kind: ErrorKind::Protocol,
            message: "Error (CMD_GET_INTERFACES)"@,
        },
        _ => Failure { kind: ErrorKind::Protocol, message: "Error (CMD_GET_WIPHY)"@ },
    }
}

/// What a message of the family does to an exchange. A listing takes in
/// the messages of the command that answers it and passes over all
/// others; a request about a link takes the state from every message.
pub open spec fn exchange_payload(
    state: ExchangeView,
    cmd: u8,
    attrs: Seq<AttrView>,
    order: ByteOrder,
) -> Result<ExchangeView, Failure> {
    match state {
        ExchangeView::Interfaces(table) => if cmd == Nl80211Cmd::CmdNewInterface.code() {
            match interface_from(attrs, order) {
                Ok(interface) => Ok(
                    ExchangeView::Interfaces(table.insert(interface.phy_name, interface)),
                ),
                Err(fault) => Err(decode_failure(fault)),
            }
        } else {
            Ok(state)
        },
        ExchangeView::WiphyIds(ids) => if cmd == Nl80211Cmd::CmdNewWiphy.code() {
            match first_of(attrs, Nl80211Attr::AttrWiphy.code()) {
                Some(attr) => match payload_u32(attr.payload, order) {
                    Ok(id) => Ok(ExchangeView::WiphyIds(ids.push(id))),
                    Err(fault) => Err(decode_failure(fault)),
                },
                None => Err(decode_failure(DecodeFault::Missing)),
            }
        } else {
            Ok(state)
        },
        ExchangeView::Wiphy(phy) => if cmd == Nl80211Cmd::CmdNewWiphy.code() {
            match phy_with_message(phy, attrs, order) {
                Ok(next) => Ok(ExchangeView::Wiphy(next)),
                Err(fault) => Err(decode_failure(fault)),
            }
        } else {
            Ok(state)
        },
        ExchangeView::Acks => Ok(state),
        ExchangeView::Link(_) => Ok(ExchangeView::Link(operstate_from(attrs))),
    }
}

/// What one received message does to an exchange: `Noop` is passed over,
/// `Done` ends the exchange, `Error` fails it unless it acknowledges a
/// request that changes something, and any other message is taken in.
#[verifier::opaque]
pub open spec fn exchange_step(state: ExchangeView, msg: ResponseView, order: ByteOrder) -> Result<
    (ExchangeView, Flow),
    Failure,
> {
    match msg.kind {
        MessageKind::Noop => Ok((state, Flow::Continue)),
        MessageKind::Done => Ok((state, Flow::Stop)),
        MessageKind::Error => if state is Acks && msg.payload is Ack {
            Ok((state, Flow::Continue))
        } else {
            Err(error_failure(state, msg.payload))
        },
        MessageKind::Other => match msg.payload {
            PayloadView::Genl { cmd, attrs } => match exchange_payload(state, cmd, attrs, order) {
                Ok(next) => Ok((next, Flow::Continue)),
                Err(failure) => Err(failure),
            },
            _ => Ok((state, Flow::Continue)),
        },
    }
}

/// The exchange after the first `n` messages: each is taken in until one
/// ends the exchange or fails it, and the rest is not read.
pub open spec fn exchange_after(
    start: ExchangeView,
    msgs: Seq<ResponseView>,
    n: nat,
    order: ByteOrder,
) -> Result<(ExchangeView, Flow), Failure>
    decreases n,
{
    if n == 0 {
        Ok((start, Flow::Continue))
    } else {
        match exchange_after(start, msgs, (n - 1) as nat, order) {
            Ok((state, Flow::Continue)) => exchange_step(state, msgs[n - 1], order),
            settled => settled,
        }
    }
}

/// The exchange after all of the messages.
pub open spec fn exchange_of(start: ExchangeView, msgs: Seq<ResponseView>, order: ByteOrder)
    -> Result<ExchangeView, Failure> {
    match exchange_after(start, msgs, msgs.len(), order) {
        Ok((state, _)) => Ok(state),
        Err(failure) => Err(failure),
    }
}

/// An exchange that has ended or failed stays as it is.
pub proof fn lemma_exchange_settled(
    start: ExchangeView,
    msgs: Seq<ResponseView>,
    k: nat,
    n: nat,
    order: ByteOrder,
)
    requires
        k <= n,
        !(exchange_after(start, msgs, k, order) matches Ok((_, Flow::Continue))),
    ensures
        exchange_after(start, msgs, n, order) == exchange_after(start, msgs, k, order),
    decreases n,
{
    if k < n {
        lemma_exchange_settled(start, msgs, k, (n - 1) as nat, order);
    }
}

/// What stands behind a `Done` that is read is not read.
pub proof fn lemma_done_ends(
    start: ExchangeView,
    msgs: Seq<ResponseView>,
    k: nat,
    order: ByteOrder,
)
    requires
        k < msgs.len(),
        msgs[k as int].kind == MessageKind::Done,
        exchange_after(start, msgs, k, order) matches Ok((_, Flow::Continue)),
    ensures
        exchange_after(start, msgs, k, order) matches Ok((state, _)) && exchange_of(
            start,
            msgs,
            order,
        ) == Ok::<_, Failure>(state),
{
    reveal(exchange_step);
    lemma_exchange_settled(start, msgs, k + 1, msgs.len(), order);
}

/// A `Noop` that is read changes nothing.
pub proof fn lemma_noop_is_passed_over(state: ExchangeView, msg: ResponseView, order: ByteOrder)
    requires
        msg.kind == MessageKind::Noop,
    ensures
        exchange_step(state, msg, order) == Ok::<_, Failure>((state, Flow::Continue)),
{
    reveal(exchange_step);
}

/// A listing passes over every message of the family but those of the
/// command that answers it, and a request that changes something passes
/// over them all.
pub proof fn lemma_other_commands_are_passed_over(
    state: ExchangeView,
    cmd: u8,
    attrs: Seq<AttrView>,
    order: ByteOrder,
)
    requires
        match state {
            ExchangeView::Interfaces(_) => cmd != Nl80211Cmd::CmdNewInterface.code(),
            ExchangeView::Acks => true,
            ExchangeView::Link(_) => false,
            _ => cmd != Nl80211Cmd::CmdNewWiphy.code(),
        },
    ensures
        exchange_payload(state, cmd, attrs, order) == Ok::<_, Failure>(state),
{
}

/// An exchange stays of its kind: a listing of interfaces does not turn
/// into anything else, and so for the others.
pub proof fn lemma_exchange_kind(
    start: ExchangeView,
    msgs: Seq<ResponseView>,
    n: nat,
    order: ByteOrder,
)
    ensures
        exchange_after(start, msgs, n, order) matches Ok((state, _)) ==> {
            &&& start is Interfaces <==> state is Interfaces
            &&& start is WiphyIds <==> state is WiphyIds
            &&& start is Wiphy <==> state is Wiphy
            &&& start is Acks <==> state is Acks
            &&& start is Link <==> state is Link
        },
    decreases n,
{
    reveal(exchange_step);
    if n > 0 {
        lemma_exchange_kind(start, msgs, (n - 1) as nat, order);
    }
}

/// Whatever is received, no radio comes to carry two interfaces in a
/// listing, and the radio that is read keeps its bands distinct and its
/// channels on their frequencies.
pub proof fn lemma_exchange_wf(
    start: ExchangeView,
    msgs: Seq<ResponseView>,
    n: nat,
    order: ByteOrder,
)
    requires
        start.wf(),
    ensures
        exchange_after(start, msgs, n, order) matches Ok((state, _)) ==> state.wf(),
    decreases n,
{
    reveal(exchange_step);
    if n > 0 {
        lemma_exchange_wf(start, msgs, (n - 1) as nat, order);
        match exchange_after(start, msgs, (n - 1) as nat, order) {
            Ok((state, Flow::Continue)) => {
                match msgs[n - 1].payload {
                    PayloadView::Genl { cmd, attrs } => {
                        match state {
                            ExchangeView::Wiphy(phy) => {
                                lemma_phy_with_message_wf(phy, attrs, order);
                            },
                            _ => {},
                        }
                    },
                    _ => {},
                }
            },
            _ => {},
        }
    }
}

fn failure_of(fault: DecodeFault) -> (e: Nl80211Error)
    ensures
        e@ == decode_failure(fault),
{
    Nl80211Error::new(ErrorKind::Decode, fault.string())
}

impl Exchange {
    fn take_error(&self, payload: &Payload) -> (e: Nl80211Error)
        ensures
            e@ == error_failure(self@, payload@),
    {
        match self {
            Exchange::Acks | Exchange::Link(_) => match payload {
                Payload::Nack { code, message } => Nl80211Error {
                    kind: ErrorKind::Protocol,
                    message: message.clone(),
                },
                Payload::Empty => Nl80211Error::new(ErrorKind::Protocol, "Payload was empty"),
                _ => Nl80211Error::new(ErrorKind::Protocol, "Unexpected payload"),
            },
            Exchange::Interfaces(_) => Nl80211Error::new(
                ErrorKind::Protocol,
                "Error (CMD_GET_INTERFACES)",
            ),
            _ => Nl80211Error::new(ErrorKind::Protocol, "Error (CMD_GET_WIPHY)"),
        }
    }

    fn take_payload(self, cmd: u8, attrs: &Vec<Attr>, order: ByteOrder) -> (r: Result<
        Exchange,
        Nl80211Error,
    >)
        ensures
            match r {
                Ok(next) => exchange_payload(self@, cmd, attr_views(attrs@), order) == Ok::<
                    _,
                    Failure,
                >(next@),
                Err(e) => exchange_payload(self@, cmd, attr_views(attrs@), order) == Err::<
                    ExchangeView,
                    _,
                >(e@),
            },
    {
        match self {
            Exchange::Interfaces(table) => {
                if cmd == Nl80211Cmd::CmdNewInterface.to_u8() {
                    match Interface::from_message(attrs.as_slice(), order) {
                        Ok(interface) => {
                            let mut table = table;
                            let ghost before = interface_map(table@);
                            let ghost put = interface@;
                            table.insert(interface.phy_name, interface);
                            assert(interface_map(table@) == before.insert(put.phy_name, put));
                            Ok(Exchange::Interfaces(table))
                        },
                        Err(fault) => Err(failure_of(fault)),
                    }
                } else {
                    Ok(Exchange::Interfaces(table))
                }
            },
            Exchange::WiphyIds(ids) => {
                if cmd == Nl80211Cmd::CmdNewWiphy.to_u8() {
                    match find_attr(attrs.as_slice(), Nl80211Attr::AttrWiphy.to_u16()) {
                        Some(attr) => match attr.as_u32(order) {
                            Ok(id) => {
                                let mut ids = ids;
                                ids.push(id);
                                Ok(Exchange::WiphyIds(ids))
                            },
                            Err(fault) => Err(failure_of(fault)),
                        },
                        None => Err(failure_of(DecodeFault::Missing)),
                    }
                } else {
                    Ok(Exchange::WiphyIds(ids))
                }
            },
            Exchange::Wiphy(phy) => {
                if cmd == Nl80211Cmd::CmdNewWiphy.to_u8() {
                    match phy_take_message(phy, attrs.as_slice(), order) {
                        Ok(next) => Ok(Exchange::Wiphy(next)),
                        Err(fault) => Err(failure_of(fault)),
                    }
                } else {
                    Ok(Exchange::Wiphy(phy))
                }
            },
            Exchange::Acks => Ok(Exchange::Acks),
            Exchange::Link(_) => Ok(
                Exchange::Link(RtSocket::new().read_interface_status(attrs.as_slice())),
            ),
        }
    }

    /// Takes one received message into the exchange, and says whether
    /// more are to be read.
    pub fn step(self, msg: &Response, order: ByteOrder) -> (r: Result<
        (Exchange, Flow),
        Nl80211Error,
    >)
        ensures
            match r {
                Ok((next, flow)) => exchange_step(self@, msg@, order) == Ok::<_, Failure>(
                    (next@, flow),
                ),
                Err(e) => exchange_step(self@, msg@, order) == Err::<(ExchangeView, Flow), _>(e@),
            },
    {
        reveal(exchange_step);
        match msg.kind {
            MessageKind::Noop => Ok((self, Flow::Continue)),
            MessageKind::Done => Ok((self, Flow::Stop)),
            MessageKind::Error => {
                let acked = match (&self, &msg.payload) {
                    (Exchange::Acks, Payload::Ack) => true,
                    _ => false,
                };
                if acked {
                    Ok((self, Flow::Continue))
                } else {
                    Err(self.take_error(&msg.payload))
                }
            },
            MessageKind::Other => match &msg.payload {
                Payload::Genl { cmd, attrs } => match self.take_payload(*cmd, attrs, order) {
                    Ok(next) => Ok((next, Flow::Continue)),
                    Err(e) => Err(e),
                },
                _ => Ok((self, Flow::Continue)),
            },
        }
    }

    /// Takes the received messages into the exchange, in their order,
    /// until one ends the exchange or fails it.
    pub fn run(self, msgs: &[Response], order: ByteOrder) -> (r: Result<Exchange, Nl80211Error>)
        ensures
            match r {
                Ok(end) => exchange_of(self@, response_views(msgs@), order) == Ok::<_, Failure>(
                    end@,
                ),
                Err(e) => exchange_of(self@, response_views(msgs@), order) == Err::<
                    ExchangeView,
                    _,
                >(e@),
            },
    {
        let ghost views = response_views(msgs@);
        let ghost start = self@;
        let mut state = self;
        let mut i: usize = 0;
        while i < msgs.len()
            invariant
                i <= msgs@.len(),
                views == response_views(msgs@),
                start == self@,
                exchange_after(start, views, i as nat, order) == Ok::<_, Failure>(
                    (state@, Flow::Continue),
                ),
            decreases msgs@.len() - i,
        {
            match state.step(&msgs[i], order) {
                Ok((next, flow)) => {
                    state = next;
                    match flow {
                        Flow::Stop => {
                            proof {
                                lemma_exchange_settled(
                                    start,
                                    views,
                                    (i + 1) as nat,
                                    views.len(),
                                    order,
                                );
                            }
                            return Ok(state);
                        },
                        Flow::Continue => {},
                    }
                },
                Err(e) => {
                    proof {
                        lemma_exchange_settled(start, views, (i + 1) as nat, views.len(), order);
                    }
                    return Err(e);
                },
            }
            i = i + 1;
        }
        Ok(state)
    }
}

/// The interfaces that the responses to a listing of interfaces
/// describe.
pub open spec fn interfaces_of(msgs: Seq<ResponseView>, order: ByteOrder) -> Result<
    Map<u32, InterfaceView>,
    Failure,
> {
    match exchange_of(ExchangeView::Interfaces(Map::empty()), msgs, order) {
        Ok(ExchangeView::Interfaces(table)) => Ok(table),
        Ok(_) => Ok(Map::empty()),
        Err(failure) => Err(failure),
    }
}

/// The numbers of the radios that the responses to a listing of radios
/// name.
pub open spec fn wiphy_ids_of(msgs: Seq<ResponseView>, order: ByteOrder) -> Result<
    Seq<u32>,
    Failure,
> {
    match exchange_of(ExchangeView::WiphyIds(Seq::empty()), msgs, order) {
        Ok(ExchangeView::WiphyIds(ids)) => Ok(ids),
        Ok(_) => Ok(Seq::empty()),
        Err(failure) => Err(failure),
    }
}

/// The radio that the responses to a request for one radio describe.
pub open spec fn wiphy_of(msgs: Seq<ResponseView>, order: ByteOrder) -> Result<
    WirelessPhyView,
    Failure,
> {
    match exchange_of(ExchangeView::Wiphy(WirelessPhyView::empty()), msgs, order) {
        Ok(ExchangeView::Wiphy(phy)) => Ok(phy),
        Ok(_) => Ok(WirelessPhyView::empty()),
        Err(failure) => Err(failure),
    }
}

/// Whether the responses to a request that changes something
/// acknowledge it, and the failure where they do not.
pub open spec fn acks_of(msgs: Seq<ResponseView>) -> Result<(), Failure> {
    match exchange_of(ExchangeView::Acks, msgs, ByteOrder::Little) {
        Ok(_) => Ok(()),
        Err(failure) => Err(failure),
    }
}

/// The operational state that the responses to a request about a link
/// report: that of the last message about the link, and `Unknown` where
/// there is none.
pub open spec fn link_state_of(msgs: Seq<ResponseView>) -> Result<Operstate, Failure> {
    match exchange_of(ExchangeView::Link(Operstate::Unknown), msgs, ByteOrder::Little) {
        Ok(ExchangeView::Link(state)) => Ok(state),
        Ok(_) => Ok(Operstate::Unknown),
        Err(failure) => Err(failure),
    }
}

/// Reads the responses to a listing of interfaces: the interfaces by
/// the number of the radio. Of two on one radio the later counts.
pub fn read_interfaces(msgs: &[Response], order: ByteOrder) -> (r: Result<
    HashMap<u32, Interface>,
    Nl80211Error,
>)
    ensures
        match r {
            Ok(table) => interfaces_of(response_views(msgs@), order) == Ok::<_, Failure>(
                interface_map(table@),
            ) && keyed_by_radio(interface_map(table@)),
            Err(e) => interfaces_of(response_views(msgs@), order) == Err::<
                Map<u32, InterfaceView>,
                _,
            >(e@),
        },
{
    broadcast use vstd::std_specs::hash::group_hash_axioms;

    let start = Exchange::Interfaces(HashMap::new());
    assert(start@ == ExchangeView::Interfaces(Map::empty())) by {
        assert(interface_map(Map::<u32, Interface>::empty()) == Map::<u32, InterfaceView>::empty());
    }
    proof {
        lemma_exchange_wf(start@, response_views(msgs@), msgs@.len(), order);
    }
    match start.run(msgs, order) {
        Ok(Exchange::Interfaces(table)) => Ok(table),
        Ok(_) => Ok(HashMap::new()),
        Err(e) => Err(e),
    }
}

/// Reads the responses to a listing of radios.
pub fn read_wiphy_ids(msgs: &[Response], order: ByteOrder) -> (r: Result<Vec<u32>, Nl80211Error>)
    ensures
        match r {
            Ok(ids) => wiphy_ids_of(response_views(msgs@), order) == Ok::<_, Failure>(ids@),
            Err(e) => wiphy_ids_of(response_views(msgs@), order) == Err::<Seq<u32>, _>(e@),
        },
{
    let start = Exchange::WiphyIds(Vec::new());
    match start.run(msgs, order) {
        Ok(Exchange::WiphyIds(ids)) => Ok(ids),
        Ok(_) => Ok(Vec::new()),
        Err(e) => Err(e),
    }
}

/// Reads the responses to a request for one radio.
pub fn read_wiphy(msgs: &[Response], order: ByteOrder) -> (r: Result<WirelessPhy, Nl80211Error>)
    ensures
        match r {
            Ok(phy) => wiphy_of(response_views(msgs@), order) == Ok::<_, Failure>(phy@)
                && phy@.wf(),
            Err(e) => wiphy_of(response_views(msgs@), order) == Err::<WirelessPhyView, _>(e@),
        },
{
    let start = Exchange::Wiphy(WirelessPhy::default());
    proof {
        lemma_exchange_wf(start@, response_views(msgs@), msgs@.len(), order);
    }
    match start.run(msgs, order) {
        Ok(Exchange::Wiphy(phy)) => Ok(phy),
        Ok(_) => Ok(WirelessPhy::default()),
        Err(e) => Err(e),
    }
}

/// Reads the responses to a request that changes something.
pub fn read_acks(msgs: &[Response]) -> (r: Result<(), Nl80211Error>)
    ensures
        match r {
            Ok(_) => acks_of(response_views(msgs@)).is_ok(),
            Err(e) => acks_of(response_views(msgs@)) == Err::<(), _>(e@),
        },
{
    match Exchange::Acks.run(msgs, ByteOrder::Little) {
        Ok(_) => Ok(()),
        Err(e) => Err(e),
    }
}

/// Reads the responses to a request about a link.
pub fn read_link_state(msgs: &[Response]) -> (r: Result<Operstate, Nl80211Error>)
    ensures
        match r {
            Ok(state) => link_state_of(response_views(msgs@)) == Ok::<_, Failure>(state),
            Err(e) => link_state_of(response_views(msgs@)) == Err::<Operstate, _>(e@),
        },
{
    match Exchange::Link(Operstate::Unknown).run(msgs, ByteOrder::Little) {
        Ok(Exchange::Link(state)) => Ok(state),
        Ok(_) => Ok(Operstate::Unknown),
        Err(e) => Err(e),
    }
}

} // verus!
