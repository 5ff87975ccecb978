//! The netlink attribute codec: integers in either byte order, and the
//! walk over a buffer of type-length-value attributes.
//!
//! An attribute starts with a header of four bytes, its length (header
//! included) and its type, each in 16 bits in the byte order of the
//! machine that wrote them. The two high bits of the type are flags. The
//! payload follows, and then padding up to the next multiple of four.

use vstd::prelude::*;

verus! {

/// Why a buffer or a payload could not be decoded.
#[derive(Debug, Clone, Copy, PartialEq, Eq, Structural)]
pub enum DecodeFault {
    /// A buffer of attributes ends inside an attribute, or a header gives
    /// a length that cannot be.
    Truncated,
    /// A payload has not the length of the type it is read as.
    WrongLength,
    /// A payload read as text is empty or is not UTF-8.
    NotText,
    /// An attribute that must be there is not.
    Missing,
}

impl DecodeFault {
    /// The fault in words.
    pub open spec fn message(self) -> Seq<char> {
        match self {
            DecodeFault::Truncated => "truncated attribute"@,
            DecodeFault::WrongLength => "attribute of the wrong length"@,
            DecodeFault::NotText => "attribute is not text"@,
            DecodeFault::Missing => "missing attribute"@,
        }
    }

    pub fn string(&self) -> (s: &'static str)
        ensures
            s@ == self.message(),
    {
        match self {
            DecodeFault::Truncated => "truncated attribute",
            DecodeFault::WrongLength => "attribute of the wrong length",
            DecodeFault::NotText => "attribute is not text",
            DecodeFault::Missing => "missing attribute",
        }
    }
}

/// The order in which the bytes of an integer stand in a buffer.
#[derive(Debug, Clone, Copy, PartialEq, Eq, Structural)]
pub enum ByteOrder {
    Little,
    Big,
}

/// The integer that the two bytes from `at` write.
pub open spec fn u16_at(bytes: Seq<u8>, at: int, order: ByteOrder) -> int {
    match order {
        ByteOrder::Little => bytes[at] + 0x100 * bytes[at + 1],
        ByteOrder::Big => 0x100 * bytes[at] + bytes[at + 1],
    }
}

/// The integer that the four bytes from `at` write.
pub open spec fn u32_at(bytes: Seq<u8>, at: int, order: ByteOrder) -> int {
    match order {
        ByteOrder::Little => bytes[at] + 0x100 * bytes[at + 1] + 0x1_0000 * bytes[at + 2]
            + 0x100_0000 * bytes[at + 3],
        ByteOrder::Big => 0x100_0000 * bytes[at] + 0x1_0000 * bytes[at + 1] + 0x100 * bytes[at + 2]
            + bytes[at + 3],
    }
}

/// The integer that the eight bytes from `at` write.
pub open spec fn u64_at(bytes: Seq<u8>, at: int, order: ByteOrder) -> int {
    match order {
        ByteOrder::Little => u32_at(bytes, at, order) + 0x1_0000_0000 * u32_at(
            bytes,
            at + 4,
            order,
        ),
        ByteOrder::Big => 0x1_0000_0000 * u32_at(bytes, at, order) + u32_at(bytes, at + 4, order),
    }
}

pub fn read_u16(bytes: &[u8], at: usize, order: ByteOrder) -> (v: u16)
    requires
        at + 2 <= bytes@.len(),
    ensures
        v == u16_at(bytes@, at as int, order),
{
    let b0 = bytes[at] as u16;
    let b1 = bytes[at + 1] as u16;
    match order {
        ByteOrder::Little => b0 + 0x100 * b1,
        ByteOrder::Big => 0x100 * b0 + b1,
    }
}

pub fn read_u32(bytes: &[u8], at: usize, order: ByteOrder) -> (v: u32)
    requires
        at + 4 <= bytes@.len(),
    ensures
        v == u32_at(bytes@, at as int, order),
{
    let b0 = bytes[at] as u32;
    let b1 = bytes[at + 1] as u32;
    let b2 = bytes[at + 2] as u32;
    let b3 = bytes[at + 3] as u32;
    match order {
        ByteOrder::Little => b0 + 0x100 * b1 + 0x1_0000 * b2 + 0x100_0000 * b3,
        ByteOrder::Big => 0x100_0000 * b0 + 0x1_0000 * b1 + 0x100 * b2 + b3,
    }
}

pub fn read_u64(bytes: &[u8], at: usize, order: ByteOrder) -> (v: u64)
    requires
        at + 8 <= bytes@.len(),
    ensures
        v == u64_at(bytes@, at as int, order),
{
    let n = bytes.len();
    let first = read_u32(bytes, at, order) as u64;
    let second = read_u32(bytes, at + 4, order) as u64;
    match order {
        ByteOrder::Little => first + 0x1_0000_0000 * second,
        ByteOrder::Big => 0x1_0000_0000 * first + second,
    }
}

/// `u16::from_ne_bytes`: the two bytes read in the order of the machine
/// that runs the call, which is one of the two orders.
#[verifier::external_body]
fn host_u16(bytes: [u8; 2]) -> (v: u16)
    ensures
        v == u16_at(bytes@, 0, ByteOrder::Little) || v == u16_at(bytes@, 0, ByteOrder::Big),
{
    u16::from_ne_bytes(bytes)
}

impl ByteOrder {
    /// The byte order of the machine that runs the call, which is the
    /// order of every netlink message that it exchanges with its kernel.
    pub fn host() -> ByteOrder {
        ByteOrder::of_probe(host_u16([1, 0]))
    }

    /// The order that a probe tells: the bytes 1 and 0 were read as two
    /// bytes of an integer, and `probe` is what came of it. They read as
    /// 1 where the first byte counts least, and as 256 where it counts
    /// most.
    pub open spec fn told_by(probe: u16) -> ByteOrder {
        if probe == 1 {
            ByteOrder::Little
        } else {
            ByteOrder::Big
        }
    }

    /// The order that a probe tells.
    pub fn of_probe(probe: u16) -> (order: ByteOrder)
        ensures
            order == ByteOrder::told_by(probe),
    {
        if probe == 1 {
            ByteOrder::Little
        } else {
            ByteOrder::Big
        }
    }
}

/// The probe bytes read in an order tell that order.
pub proof fn lemma_probe_tells_order(order: ByteOrder)
    ensures
        ByteOrder::told_by(u16_at(seq![1u8, 0u8], 0, order) as u16) == order,
{
}

/// One attribute as it stands in a buffer.
#[derive(Debug, Clone, PartialEq, Eq)]
pub struct Attr {
    /// The type, without its two flag bits.
    pub kind: u16,
    /// The flag that says the payload holds attributes.
    pub nested: bool,
    /// The flag that says the payload is in network byte order.
    pub network_order: bool,
    pub payload: Vec<u8>,
}

/// An attribute in specifications.
pub struct AttrView {
    pub kind: u16,
    pub nested: bool,
    pub network_order: bool,
    pub payload: Seq<u8>,
}

impl View for Attr {
    type V = AttrView;

    open spec fn view(&self) -> AttrView {
        AttrView {
            kind: self.kind,
            nested: self.nested,
            network_order: self.network_order,
            payload: self.payload@,
        }
    }
}

/// The views of a sequence of attributes.
pub open spec fn attr_views(attrs: Seq<Attr>) -> Seq<AttrView> {
    Seq::new(attrs.len(), |i: int| attrs[i]@)
}

/// `len` rounded up to a multiple of four.
pub open spec fn aligned(len: int) -> int {
    (len + 3) / 4 * 4
}

/// The attribute whose header stands at the head of `bytes`, with the
/// `len` of that header.
pub open spec fn first_attr(bytes: Seq<u8>, len: int, order: ByteOrder) -> AttrView {
    let ty = u16_at(bytes, 2, order);
    AttrView {
        kind: (ty % 0x4000) as u16,
        nested: ty >= 0x8000,
        network_order: ty / 0x4000 % 2 == 1,
        payload: bytes.subrange(4, len),
    }
}

/// The attributes that a buffer holds. The buffer is truncated where a
/// header is cut short, or gives a length under four or beyond the end of
/// the buffer. The padding behind the last attribute may be missing.
pub open spec fn attrs_of(bytes: Seq<u8>, order: ByteOrder) -> Result<Seq<AttrView>, DecodeFault>
    decreases bytes.len(),
{
    if bytes.len() == 0 {
        Ok(Seq::empty())
    } else if bytes.len() < 4 {
        Err(DecodeFault::Truncated)
    } else {
        let len = u16_at(bytes, 0, order);
        if len < 4 || len > bytes.len() {
            Err(DecodeFault::Truncated)
        } else {
            let next = if aligned(len) <= bytes.len() {
                aligned(len)
            } else {
                bytes.len() as int
            };
            match attrs_of(bytes.skip(next), order) {
                Ok(rest) => Ok(seq![first_attr(bytes, len, order)] + rest),
                Err(fault) => Err(fault),
            }
        }
    }
}

/// A buffer of `n` bytes holds at most `n / 4` attributes.
pub proof fn lemma_attrs_count(bytes: Seq<u8>, order: ByteOrder)
    ensures
        attrs_of(bytes, order) matches Ok(attrs) ==> attrs.len() * 4 <= bytes.len(),
    decreases bytes.len(),
{
    if bytes.len() >= 4 {
        let len = u16_at(bytes, 0, order);
        if 4 <= len <= bytes.len() {
            let next = if aligned(len) <= bytes.len() {
                aligned(len)
            } else {
                bytes.len() as int
            };
            lemma_attrs_count(bytes.skip(next), order);
        }
    }
}

fn copy_range(bytes: &[u8], from: usize, to: usize) -> (out: Vec<u8>)
    requires
        from <= to <= bytes@.len(),
    ensures
        out@ == bytes@.subrange(from as int, to as int),
{
    let mut out: Vec<u8> = Vec::new();
    let mut i = from;
    while i < to
        invariant
            from <= i <= to <= bytes@.len(),
            out@ == bytes@.subrange(from as int, i as int),
        decreases to - i,
    {
        out.push(bytes[i]);
        i = i + 1;
    }
    out
}

/// Walks a buffer of attributes and returns them in order.
pub fn parse_attrs(bytes: &[u8], order: ByteOrder) -> (r: Result<Vec<Attr>, DecodeFault>)
    ensures
        match r {
            Ok(attrs) => attrs_of(bytes@, order) == Ok::<_, DecodeFault>(attr_views(attrs@)),
            Err(fault) => attrs_of(bytes@, order) == Err::<Seq<AttrView>, _>(fault),
        },
{
    let mut out: Vec<Attr> = Vec::new();
    let mut at: usize = 0;
    let n = bytes.len();
    assert(bytes@.skip(0) == bytes@);
    while at < n
        invariant
            at <= n == bytes@.len(),
            attrs_of(bytes@, order) == match attrs_of(bytes@.skip(at as int), order) {
                Ok(rest) => Ok(attr_views(out@) + rest),
                Err(fault) => Err(fault),
            },
        decreases n - at,
    {
        let ghost tail = bytes@.skip(at as int);
        if n - at < 4 {
            return Err(DecodeFault::Truncated);
        }
        let len = read_u16(bytes, at, order) as usize;
        let ty = read_u16(bytes, at + 2, order);
        assert(len == u16_at(tail, 0, order));
        assert(ty == u16_at(tail, 2, order));
        if len < 4 || len > n - at {
            return Err(DecodeFault::Truncated);
        }
        let payload = copy_range(bytes, at + 4, at + len);
        assert(payload@ == tail.subrange(4, len as int));
        let attr = Attr {
            kind: ty % 0x4000,
            nested: ty >= 0x8000,
            network_order: ty / 0x4000 % 2 == 1,
            payload,
        };
        assert(attr@ == first_attr(tail, len as int, order));
        let padded = (len + 3) / 4 * 4;
        let next = if padded <= n - at {
            padded
        } else {
            n - at
        };
        proof {
            assert(tail.skip(next as int) == bytes@.skip(at + next));
            let before = attr_views(out@);
            let after = attr_views(out@.push(attr));
            assert(after == before + seq![attr@]);
            match attrs_of(bytes@.skip(at + next), order) {
                Ok(rest) => {
                    assert(after + rest == before + (seq![attr@] + rest));
                },
                Err(_) => {},
            }
        }
        out.push(attr);
        at = at + next;
    }
    assert(attr_views(out@) + Seq::<AttrView>::empty() == attr_views(out@));
    Ok(out)
}

/// A payload of one byte read as an integer.
pub open spec fn payload_u8(payload: Seq<u8>) -> Result<u8, DecodeFault> {
    if payload.len() == 1 {
        Ok(payload[0])
    } else {
        Err(DecodeFault::WrongLength)
    }
}

/// A payload of two bytes read as an integer.
pub open spec fn payload_u16(payload: Seq<u8>, order: ByteOrder) -> Result<u16, DecodeFault> {
    if payload.len() == 2 {
        Ok(u16_at(payload, 0, order) as u16)
    } else {
        Err(DecodeFault::WrongLength)
    }
}

/// A payload of four bytes read as an integer.
pub open spec fn payload_u32(payload: Seq<u8>, order: ByteOrder) -> Result<u32, DecodeFault> {
    if payload.len() == 4 {
        Ok(u32_at(payload, 0, order) as u32)
    } else {
        Err(DecodeFault::WrongLength)
    }
}

/// A payload of eight bytes read as an integer.
pub open spec fn payload_u64(payload: Seq<u8>, order: ByteOrder) -> Result<u64, DecodeFault> {
    if payload.len() == 8 {
        Ok(u64_at(payload, 0, order) as u64)
    } else {
        Err(DecodeFault::WrongLength)
    }
}

/// A payload read as text that a NUL byte ends: the payload without its
/// last byte, read as UTF-8. The last byte is taken for the NUL and is
/// not looked at.
pub open spec fn payload_text(payload: Seq<u8>) -> Result<Seq<char>, DecodeFault> {
    if payload.len() >= 1 && vstd::utf8::valid_utf8(payload.drop_last()) {
        Ok(vstd::utf8::decode_utf8(payload.drop_last()))
    } else {
        Err(DecodeFault::NotText)
    }
}

/// The error that neli returns of a payload that it cannot read.
#[verifier::external_type_specification]
#[verifier::external_body]
pub struct ExDeError(neli::err::DeError);

/// neli's `String::from_bytes_with_input` over a whole payload: the
/// payload without its last byte becomes the text, and the call fails
/// where those bytes are not UTF-8. An empty payload is left out, for
/// neli subtracts one from its length.
#[verifier::external_body]
fn text_from_payload(payload: &[u8]) -> (r: Result<String, neli::err::DeError>)
    requires
        payload@.len() >= 1,
    ensures
        r is Ok <==> vstd::utf8::valid_utf8(payload@.drop_last()),
        r matches Ok(s) ==> s@ == vstd::utf8::decode_utf8(payload@.drop_last()),
{
    <String as neli::FromBytesWithInput>::from_bytes_with_input(
        &mut std::io::Cursor::new(payload),
        payload.len(),
    )
}

impl Attr {
    pub fn as_u8(&self) -> (r: Result<u8, DecodeFault>)
        ensures
            r == payload_u8(self.payload@),
    {
        if self.payload.len() == 1 {
            Ok(self.payload[0])
        } else {
            Err(DecodeFault::WrongLength)
        }
    }

    pub fn as_u16(&self, order: ByteOrder) -> (r: Result<u16, DecodeFault>)
        ensures
            r == payload_u16(self.payload@, order),
    {
        if self.payload.len() == 2 {
            Ok(read_u16(self.payload.as_slice(), 0, order))
        } else {
            Err(DecodeFault::WrongLength)
        }
    }

    pub fn as_u32(&self, order: ByteOrder) -> (r: Result<u32, DecodeFault>)
        ensures
            r == payload_u32(self.payload@, order),
    {
        if self.payload.len() == 4 {
            Ok(read_u32(self.payload.as_slice(), 0, order))
        } else {
            Err(DecodeFault::WrongLength)
        }
    }

    pub fn as_u64(&self, order: ByteOrder) -> (r: Result<u64, DecodeFault>)
        ensures
            r == payload_u64(self.payload@, order),
    {
        if self.payload.len() == 8 {
            Ok(read_u64(self.payload.as_slice(), 0, order))
        } else {
            Err(DecodeFault::WrongLength)
        }
    }

    /// The payload as it stands.
    pub fn as_bytes(&self) -> (r: Vec<u8>)
        ensures
            r@ == self.payload@,
    {
        let r = copy_range(self.payload.as_slice(), 0, self.payload.len());
        r
    }

    /// The payload as text that a NUL byte ends.
    pub fn as_nul_string(&self) -> (r: Result<String, DecodeFault>)
        ensures
            match r {
                Ok(s) => payload_text(self.payload@) == Ok::<_, DecodeFault>(s@),
                Err(fault) => payload_text(self.payload@) == Err::<Seq<char>, _>(fault),
            },
    {
        if self.payload.len() == 0 {
            return Err(DecodeFault::NotText);
        }
        match text_from_payload(self.payload.as_slice()) {
            Ok(s) => Ok(s),
            Err(_) => Err(DecodeFault::NotText),
        }
    }

    /// The attributes that the payload holds.
    pub fn as_nested(&self, order: ByteOrder) -> (r: Result<Vec<Attr>, DecodeFault>)
        ensures
            match r {
                Ok(attrs) => attrs_of(self.payload@, order) == Ok::<_, DecodeFault>(
                    attr_views(attrs@),
                ),
                Err(fault) => attrs_of(self.payload@, order) == Err::<Seq<AttrView>, _>(fault),
            },
    {
        parse_attrs(self.payload.as_slice(), order)
    }
}

/// The first attribute of `kind` among `attrs`.
pub open spec fn first_of(attrs: Seq<AttrView>, kind: u16) -> Option<AttrView>
    decreases attrs.len(),
{
    if attrs.len() == 0 {
        None
    } else {
        match first_of(attrs.drop_last(), kind) {
            Some(attr) => Some(attr),
            None => if attrs.last().kind == kind {
                Some(attrs.last())
            } else {
                None
            },
        }
    }
}

/// The first attribute of a kind is of that kind and stands among the
/// attributes, with none of the kind before it; there is none where no
/// attribute is of the kind.
pub proof fn lemma_first_of(attrs: Seq<AttrView>, kind: u16)
    ensures
        match first_of(attrs, kind) {
            Some(attr) => exists|i: int|
                0 <= i < attrs.len() && attrs[i] == attr && attr.kind == kind && forall|j: int|
                    0 <= j < i ==> (#[trigger] attrs[j]).kind != kind,
            None => forall|j: int| 0 <= j < attrs.len() ==> (#[trigger] attrs[j]).kind != kind,
        },
    decreases attrs.len(),
{
    if attrs.len() > 0 {
        let front = attrs.drop_last();
        lemma_first_of(front, kind);
        match first_of(front, kind) {
            Some(attr) => {
                let i = choose|i: int|
                    0 <= i < front.len() && front[i] == attr && attr.kind == kind && forall|j: int|
                        0 <= j < i ==> (#[trigger] front[j]).kind != kind;
                assert forall|j: int| 0 <= j < i implies (#[trigger] attrs[j]).kind != kind by {
                    assert(front[j] == attrs[j]);
                }
            },
            None => {
                assert forall|j: int| 0 <= j < attrs.len() - 1 implies (#[trigger] attrs[j]).kind
                    != kind by {
                    assert(front[j] == attrs[j]);
                }
            },
        }
    }
}

/// Finds the first attribute of `kind`.
pub fn find_attr(attrs: &[Attr], kind: u16) -> (r: Option<&Attr>)
    ensures
        match r {
            Some(attr) => first_of(attr_views(attrs@), kind) == Some(attr@),
            None => first_of(attr_views(attrs@), kind).is_none(),
        },
{
    let mut i: usize = 0;
    let ghost views = attr_views(attrs@);
    while i < attrs.len()
        invariant
            i <= attrs@.len(),
            views == attr_views(attrs@),
            first_of(views.take(i as int), kind).is_none(),
        decreases attrs@.len() - i,
    {
        assert(views.take(i + 1).drop_last() == views.take(i as int));
        if attrs[i].kind == kind {
            proof {
                lemma_first_of_prefix(views, i + 1, kind);
            }
            return Some(&attrs[i]);
        }
        i = i + 1;
    }
    assert(views.take(i as int) == views);
    None
}

/// What is first of its kind in a prefix is first of its kind in the
/// whole.
pub proof fn lemma_first_of_prefix(attrs: Seq<AttrView>, k: int, kind: u16)
    requires
        0 <= k <= attrs.len(),
        first_of(attrs.take(k), kind).is_some(),
    ensures
        first_of(attrs, kind) == first_of(attrs.take(k), kind),
    decreases attrs.len(),
{
    if k < attrs.len() {
        assert(attrs.drop_last().take(k) == attrs.take(k));
        lemma_first_of_prefix(attrs.drop_last(), k, kind);
    } else {
        assert(attrs.take(k) == attrs);
    }
}

} // verus!
