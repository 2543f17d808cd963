use yodesk::local_types::{to_u16, to_u16le, to_u32, to_u32le};

#[test]
fn be_two_bytes() {
    assert_eq!(to_u32(&vec![0x12, 0x34]), 0x1234);
    assert_eq!(to_u16(&vec![0x12, 0x34]), 0x1234);
}

#[test]
fn be_four_bytes() {
    assert_eq!(to_u32(&vec![0x12, 0x34, 0x56, 0x78]), 0x12345678);
    assert_eq!(to_u32(&vec![0x00, 0x00, 0x00, 0x01]), 1);
    assert_eq!(to_u32(&vec![0xFF, 0xFF, 0xFF, 0xFF]), 0xFFFF_FFFF);
}

#[test]
fn le_two_bytes() {
    assert_eq!(to_u16le(&vec![0x34, 0x12]), 0x1234);
    assert_eq!(to_u32le(&vec![0x34, 0x12]), 0x1234);
}

#[test]
fn le_four_bytes() {
    assert_eq!(to_u32le(&vec![0x78, 0x56, 0x34, 0x12]), 0x12345678);
    assert_eq!(to_u32le(&vec![0x08, 0x00, 0x00, 0x00]), 8);
}

#[test]
fn decoders_are_deterministic() {
    let bytes = vec![0xAB, 0xCD, 0xEF, 0x01];
    assert_eq!(to_u32(&bytes), to_u32(&bytes));
    assert_eq!(to_u32le(&bytes), to_u32le(&bytes));
    let two = vec![0xAB, 0xCD];
    assert_eq!(to_u16(&two), to_u16(&two));
    assert_eq!(to_u16le(&two), to_u16le(&two));
}

#[test]
fn both_orders_disagree_in_general() {
    assert_eq!(to_u32(&vec![0x01, 0x02]), 0x0102);
    assert_eq!(to_u32le(&vec![0x01, 0x02]), 0x0201);
}
