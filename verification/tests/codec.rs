use neli::genl::Nlattr;
use neli::types::{Buffer, GenlBuffer};
use neli::{FromBytesWithInput, ToBytes};
use nl80211::codec::{
    find_attr, parse_attrs, read_u16, read_u32, read_u64, Attr, ByteOrder, DecodeFault,
};
use std::io::Cursor;

fn attr(kind: u16, payload: &[u8]) -> Attr {
    Attr { kind, nested: false, network_order: false, payload: payload.to_vec() }
}

fn host_is_little() -> bool {
    u16::from_ne_bytes([1, 0]) == 1
}

#[test]
fn reads_integers_in_both_orders() {
    let bytes = [0x01u8, 0x02, 0x03, 0x04, 0x05, 0x06, 0x07, 0x08, 0x09];
    assert_eq!(read_u16(&bytes, 0, ByteOrder::Little), 0x0201);
    assert_eq!(read_u16(&bytes, 0, ByteOrder::Big), 0x0102);
    assert_eq!(read_u16(&bytes, 7, ByteOrder::Little), 0x0908);
    assert_eq!(read_u32(&bytes, 1, ByteOrder::Little), 0x05040302);
    assert_eq!(read_u32(&bytes, 1, ByteOrder::Big), 0x02030405);
    assert_eq!(read_u64(&bytes, 0, ByteOrder::Little), 0x0807060504030201);
    assert_eq!(read_u64(&bytes, 1, ByteOrder::Big), 0x0203040506070809);
    assert_eq!(read_u32(&[0xff; 4], 0, ByteOrder::Little), u32::MAX);
    assert_eq!(read_u64(&[0xff; 8], 0, ByteOrder::Big), u64::MAX);
}

#[test]
fn host_order_is_that_of_the_machine() {
    let expected = if host_is_little() { ByteOrder::Little } else { ByteOrder::Big };
    assert_eq!(ByteOrder::host(), expected);
    assert_eq!(read_u32(&7u32.to_ne_bytes(), 0, ByteOrder::host()), 7);
}

#[test]
fn a_probe_tells_the_order() {
    assert_eq!(ByteOrder::of_probe(u16::from_le_bytes([1, 0])), ByteOrder::Little);
    assert_eq!(ByteOrder::of_probe(u16::from_be_bytes([1, 0])), ByteOrder::Big);
    assert_eq!(ByteOrder::of_probe(1), ByteOrder::Little);
    assert_eq!(ByteOrder::of_probe(256), ByteOrder::Big);
    assert_eq!(ByteOrder::of_probe(u16::from_ne_bytes([1, 0])), ByteOrder::host());
}

#[test]
fn walks_a_buffer_of_attributes() {
    let bytes = [8u8, 0, 1, 0, 7, 0, 0, 0, 5, 0, 4, 0, b'w', 0, 0, 0, 4, 0, 174, 0];
    let attrs = parse_attrs(&bytes, ByteOrder::Little).unwrap();
    assert_eq!(attrs, vec![attr(1, &[7, 0, 0, 0]), attr(4, &[b'w']), attr(174, &[])]);
    assert_eq!(attrs[0].as_u32(ByteOrder::Little), Ok(7));
    assert_eq!(attrs[1].as_u8(), Ok(b'w'));
    assert_eq!(parse_attrs(&[], ByteOrder::Little), Ok(vec![]));
}

#[test]
fn walks_a_big_endian_buffer() {
    let bytes = [0u8, 8, 0, 1, 0, 0, 0, 7, 0, 6, 0, 4, 1, 2, 0, 0];
    let attrs = parse_attrs(&bytes, ByteOrder::Big).unwrap();
    assert_eq!(attrs, vec![attr(1, &[0, 0, 0, 7]), attr(4, &[1, 2])]);
    assert_eq!(attrs[0].as_u32(ByteOrder::Big), Ok(7));
    assert_eq!(attrs[1].as_u16(ByteOrder::Big), Ok(0x0102));
    assert_eq!(attrs[1].as_u16(ByteOrder::Little), Ok(0x0201));
}

#[test]
fn splits_the_flags_off_the_type() {
    let bytes = [4u8, 0, 0x16, 0x80, 4, 0, 0x17, 0x40, 4, 0, 0xff, 0xff];
    let attrs = parse_attrs(&bytes, ByteOrder::Little).unwrap();
    assert_eq!(attrs.len(), 3);
    assert_eq!((attrs[0].kind, attrs[0].nested, attrs[0].network_order), (0x16, true, false));
    assert_eq!((attrs[1].kind, attrs[1].nested, attrs[1].network_order), (0x17, false, true));
    assert_eq!((attrs[2].kind, attrs[2].nested, attrs[2].network_order), (0x3fff, true, true));
}

#[test]
fn tolerates_missing_padding_at_the_end() {
    let attrs = parse_attrs(&[5, 0, 4, 0, b'w'], ByteOrder::Little).unwrap();
    assert_eq!(attrs, vec![attr(4, &[b'w'])]);
    let attrs = parse_attrs(&[5, 0, 4, 0, b'w', 0, 0], ByteOrder::Little).unwrap();
    assert_eq!(attrs, vec![attr(4, &[b'w'])]);
}

#[test]
fn rejects_truncated_buffers() {
    for bytes in [
        &[8u8, 0][..],
        &[8, 0, 1][..],
        &[3, 0, 1, 0][..],
        &[0, 0, 1, 0][..],
        &[8, 0, 1, 0, 7, 0][..],
        &[8, 0, 1, 0, 7, 0, 0, 0, 9][..],
        &[8, 0, 1, 0, 7, 0, 0, 0, 9, 0, 1, 0, 1, 2, 3, 4][..],
    ] {
        assert_eq!(parse_attrs(bytes, ByteOrder::Little), Err(DecodeFault::Truncated));
    }
}

#[test]
fn holds_at_most_a_quarter_as_many_attributes_as_bytes() {
    let bytes = [4u8, 0, 1, 0, 4, 0, 2, 0, 4, 0, 3, 0];
    assert_eq!(parse_attrs(&bytes, ByteOrder::Little).unwrap().len(), 3);
}

#[test]
fn typed_accessors_demand_the_exact_length() {
    assert_eq!(attr(1, &[]).as_u8(), Err(DecodeFault::WrongLength));
    assert_eq!(attr(1, &[1, 2]).as_u8(), Err(DecodeFault::WrongLength));
    assert_eq!(attr(1, &[1]).as_u16(ByteOrder::Little), Err(DecodeFault::WrongLength));
    assert_eq!(attr(1, &[1, 2, 3]).as_u32(ByteOrder::Little), Err(DecodeFault::WrongLength));
    assert_eq!(attr(1, &[1, 2, 3, 4, 5]).as_u32(ByteOrder::Little), Err(DecodeFault::WrongLength));
    assert_eq!(attr(1, &[1, 2, 3, 4]).as_u64(ByteOrder::Little), Err(DecodeFault::WrongLength));
    assert_eq!(attr(1, &[1, 0, 0, 0, 0, 0, 0, 0]).as_u64(ByteOrder::Little), Ok(1));
    assert_eq!(attr(1, &[9, 8, 7]).as_bytes(), vec![9, 8, 7]);
}

#[test]
fn reads_text_that_a_nul_ends() {
    assert_eq!(attr(2, b"phy0\0").as_nul_string(), Ok("phy0".to_string()));
    assert_eq!(attr(2, b"\0").as_nul_string(), Ok(String::new()));
    assert_eq!(attr(2, "wl\u{e4}n\0".as_bytes()).as_nul_string(), Ok("wl\u{e4}n".to_string()));
    // The last byte goes whatever it is.
    assert_eq!(attr(2, b"phy0").as_nul_string(), Ok("phy".to_string()));
    assert_eq!(attr(2, &[]).as_nul_string(), Err(DecodeFault::NotText));
    assert_eq!(attr(2, &[0xff, 0]).as_nul_string(), Err(DecodeFault::NotText));
    assert_eq!(attr(2, &[0xc3, 0]).as_nul_string(), Err(DecodeFault::NotText));
}

#[test]
fn nested_attributes() {
    let inner = [8u8, 0, 1, 0, 0x85, 0x09, 0, 0, 4, 0, 2, 0];
    let outer = attr(1, &inner);
    let nested = outer.as_nested(ByteOrder::Little).unwrap();
    assert_eq!(nested, vec![attr(1, &[0x85, 0x09, 0, 0]), attr(2, &[])]);
    assert_eq!(nested[0].as_u32(ByteOrder::Little), Ok(2437));
    assert_eq!(attr(1, &[1, 2, 3]).as_nested(ByteOrder::Little), Err(DecodeFault::Truncated));
    assert_eq!(attr(1, &[]).as_nested(ByteOrder::Little), Ok(vec![]));
}

#[test]
fn finds_the_first_attribute_of_a_kind() {
    let attrs = vec![attr(3, &[1]), attr(5, &[2]), attr(3, &[3])];
    assert_eq!(find_attr(&attrs, 3), Some(&attrs[0]));
    assert_eq!(find_attr(&attrs, 5), Some(&attrs[1]));
    assert_eq!(find_attr(&attrs, 4), None);
    assert_eq!(find_attr(&[], 3), None);
}

#[test]
fn reads_what_neli_writes() {
    let order = ByteOrder::host();
    let mut buffer = Cursor::new(Vec::new());
    let first: Nlattr<u16, Buffer> = Nlattr::new(false, false, 3u16, 7u32).unwrap();
    let second: Nlattr<u16, Buffer> = Nlattr::new(false, false, 4u16, "wlan0").unwrap();
    let third: Nlattr<u16, Buffer> = Nlattr::new(true, false, 22u16, 2437u32).unwrap();
    let fourth: Nlattr<u16, Buffer> = Nlattr::new(false, false, 153u16, 0x1_0000_0001u64).unwrap();
    first.to_bytes(&mut buffer).unwrap();
    second.to_bytes(&mut buffer).unwrap();
    third.to_bytes(&mut buffer).unwrap();
    fourth.to_bytes(&mut buffer).unwrap();
    let bytes = buffer.into_inner();
    let attrs = parse_attrs(&bytes, order).unwrap();
    assert_eq!(attrs.len(), 4);
    assert_eq!(attrs[0].kind, 3);
    assert_eq!(attrs[0].as_u32(order), Ok(7));
    assert_eq!(attrs[1].kind, 4);
    assert_eq!(attrs[1].payload, b"wlan0\0".to_vec());
    assert_eq!(attrs[1].as_nul_string(), Ok("wlan0".to_string()));
    assert_eq!((attrs[2].kind, attrs[2].nested), (22, true));
    assert_eq!(attrs[2].as_u32(order), Ok(2437));
    assert_eq!(attrs[3].as_u64(order), Ok(0x1_0000_0001));
}

#[test]
fn reads_as_neli_reads() {
    let order = ByteOrder::host();
    let mut bytes: Vec<u8> = Vec::new();
    for (kind, payload) in [
        (1u16, vec![7u8, 0, 0, 0]),
        (4, b"wlan0\0".to_vec()),
        (174, vec![]),
        (52, vec![1, 2, 3]),
        (153, vec![1, 2, 3, 4, 5, 6, 7, 8]),
    ] {
        bytes.extend(((payload.len() + 4) as u16).to_ne_bytes());
        bytes.extend(kind.to_ne_bytes());
        bytes.extend(&payload);
        while bytes.len() % 4 != 0 {
            bytes.push(0);
        }
    }
    let theirs =
        GenlBuffer::<u16, Buffer>::from_bytes_with_input(&mut Cursor::new(&bytes[..]), bytes.len())
            .unwrap();
    let theirs: Vec<(u16, Vec<u8>)> =
        theirs.iter().map(|a| (a.nla_type.nla_type, a.nla_payload.as_ref().to_vec())).collect();
    let ours: Vec<(u16, Vec<u8>)> =
        parse_attrs(&bytes, order).unwrap().iter().map(|a| (a.kind, a.payload.clone())).collect();
    assert_eq!(ours, theirs);
    assert_eq!(ours.len(), 5);
}

#[test]
fn fault_messages() {
    assert_eq!(DecodeFault::Truncated.string(), "truncated attribute");
    assert_eq!(DecodeFault::WrongLength.string(), "attribute of the wrong length");
    assert_eq!(DecodeFault::NotText.string(), "attribute is not text");
    assert_eq!(DecodeFault::Missing.string(), "missing attribute");
}
