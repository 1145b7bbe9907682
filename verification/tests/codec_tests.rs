use ldr_plc::codec::{be_bytes_to_pair, decode_dint, encode_dint, pair_to_be_bytes, ByteOrder};

#[test]
fn parse_known_orders_ignoring_case_and_spaces() {
    assert_eq!(ByteOrder::parse("ABCD"), ByteOrder::Abcd);
    assert_eq!(ByteOrder::parse(" abcd "), ByteOrder::Abcd);
    assert_eq!(ByteOrder::parse("bAdC"), ByteOrder::Badc);
    assert_eq!(ByteOrder::parse("\tdcba\n"), ByteOrder::Dcba);
    assert_eq!(ByteOrder::parse("CDAB"), ByteOrder::Cdab);
    assert_eq!(ByteOrder::parse("\u{3000}ABCD\u{a0}"), ByteOrder::Abcd);
}

#[test]
fn parse_unknown_falls_back_to_cdab() {
    assert_eq!(ByteOrder::parse(""), ByteOrder::Cdab);
    assert_eq!(ByteOrder::parse("xyz"), ByteOrder::Cdab);
    assert_eq!(ByteOrder::parse("AB CD"), ByteOrder::Cdab);
    assert_eq!(ByteOrder::parse("ＡＢＣＤ"), ByteOrder::Cdab);
}

#[test]
fn register_pair_bytes_in_each_order() {
    let regs = [0x4049u16, 0x0FDB];
    assert_eq!(pair_to_be_bytes(regs, ByteOrder::Abcd), [0x40, 0x49, 0x0F, 0xDB]);
    assert_eq!(pair_to_be_bytes(regs, ByteOrder::Cdab), [0x0F, 0xDB, 0x40, 0x49]);
    assert_eq!(pair_to_be_bytes(regs, ByteOrder::Badc), [0x49, 0x40, 0xDB, 0x0F]);
    assert_eq!(pair_to_be_bytes(regs, ByteOrder::Dcba), [0xDB, 0x0F, 0x49, 0x40]);
}

#[test]
fn real_value_from_registers() {
    let pi = f32::from_be_bytes(pair_to_be_bytes([0x4049, 0x0FDB], ByteOrder::Abcd));
    assert!((pi - 3.14159).abs() < 1e-5);
    let same = f32::from_be_bytes(pair_to_be_bytes([0x0FDB, 0x4049], ByteOrder::Cdab));
    assert_eq!(pi, same);
}

#[test]
fn bytes_to_pair_in_each_order() {
    let b = 1.5f32.to_be_bytes();
    assert_eq!(be_bytes_to_pair(b, ByteOrder::Abcd), [0x3FC0, 0x0000]);
    assert_eq!(be_bytes_to_pair(b, ByteOrder::Cdab), [0x0000, 0x3FC0]);
    assert_eq!(be_bytes_to_pair(b, ByteOrder::Badc), [0xC03F, 0x0000]);
    assert_eq!(be_bytes_to_pair(b, ByteOrder::Dcba), [0x0000, 0xC03F]);
}

#[test]
fn bytes_roundtrip_every_order() {
    let orders = [ByteOrder::Abcd, ByteOrder::Cdab, ByteOrder::Badc, ByteOrder::Dcba];
    for o in orders {
        for b in [[1u8, 2, 3, 4], [0xFF, 0, 0x80, 0x7F], 12.25f32.to_be_bytes()] {
            assert_eq!(pair_to_be_bytes(be_bytes_to_pair(b, o), o), b);
        }
        for r in [[0u16, 0], [0x1234, 0xABCD], [0xFFFF, 1]] {
            assert_eq!(be_bytes_to_pair(pair_to_be_bytes(r, o), o), r);
        }
    }
}

#[test]
fn dint_encoding_exact() {
    assert_eq!(encode_dint(100000, ByteOrder::Abcd), [0x0001, 0x86A0]);
    assert_eq!(encode_dint(100000, ByteOrder::Cdab), [0x86A0, 0x0001]);
    assert_eq!(encode_dint(-1, ByteOrder::Abcd), [0xFFFF, 0xFFFF]);
    assert_eq!(encode_dint(-2, ByteOrder::Dcba), [0xFEFF, 0xFFFF]);
    assert_eq!(decode_dint([0x0001, 0x86A0], ByteOrder::Abcd), 100000);
    assert_eq!(decode_dint([0x8000, 0x0000], ByteOrder::Abcd), i32::MIN);
    assert_eq!(decode_dint([0xFFFF, 0x7FFF], ByteOrder::Cdab), i32::MAX);
}

#[test]
fn dint_roundtrip_every_order() {
    let orders = [ByteOrder::Abcd, ByteOrder::Cdab, ByteOrder::Badc, ByteOrder::Dcba];
    for o in orders {
        for v in [0, 1, -1, 500, -123456, i32::MAX, i32::MIN] {
            assert_eq!(decode_dint(encode_dint(v, o), o), v);
            assert_eq!(i32::from_be_bytes(pair_to_be_bytes(encode_dint(v, o), o)), v);
        }
    }
}
