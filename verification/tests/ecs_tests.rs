use dnssrc::ecs::decode_ecs;
use dnssrc::ecs::ecs_text;
use dnssrc::ecs::EcsValue;

#[test]
fn decode_v4_byte_aligned() {
    let bytes = vec![0x00u8, 0x01, 24, 192, 0, 2];
    match decode_ecs(&bytes) {
        Some(EcsValue::V4 { addr, prefix }) => {
            assert_eq!(addr, vec![192u8, 0, 2, 0]);
            assert_eq!(prefix, 24);
        },
        other => panic!("expected an IPv4 network, got {:?}", other),
    }
}

#[test]
fn decode_v4_truncated_is_zero_padded() {
    let bytes = vec![0x00u8, 0x01, 16, 10];
    match decode_ecs(&bytes) {
        Some(EcsValue::V4 { addr, prefix }) => {
            assert_eq!(addr, vec![10u8, 0, 0, 0]);
            assert_eq!(prefix, 16);
        },
        other => panic!("expected an IPv4 network, got {:?}", other),
    }
}

#[test]
fn decode_v6_truncated_is_zero_padded() {
    let bytes = vec![0x00u8, 0x02, 56, 0x20, 0x01, 0x0d, 0xb8, 0xff];
    match decode_ecs(&bytes) {
        Some(EcsValue::V6 { addr, prefix }) => {
            let mut expected = vec![0x20u8, 0x01, 0x0d, 0xb8, 0xff];
            expected.resize(16, 0);
            assert_eq!(addr, expected);
            assert_eq!(prefix, 56);
        },
        other => panic!("expected an IPv6 network, got {:?}", other),
    }
}

#[test]
fn decode_unknown_family_fails() {
    let bytes = vec![0x00u8, 5, 24, 192, 0, 2];
    assert!(decode_ecs(&bytes).is_none());
}

#[test]
fn decode_v4_prefix_too_long_fails() {
    let bytes = vec![0x00u8, 0x01, 33, 192, 0, 2];
    assert!(decode_ecs(&bytes).is_none());
}

#[test]
fn decode_v6_prefix_too_long_fails() {
    let bytes = vec![0x00u8, 0x02, 129];
    assert!(decode_ecs(&bytes).is_none());
}

#[test]
fn decode_short_header_fails() {
    assert!(decode_ecs(&vec![]).is_none());
    assert!(decode_ecs(&vec![0x00u8]).is_none());
    assert!(decode_ecs(&vec![0x00u8, 0x01]).is_none());
}

#[test]
fn decode_family_zero_is_no_subnet() {
    let bytes = vec![0x00u8, 0x00, 0];
    match decode_ecs(&bytes) {
        Some(EcsValue::NoSubnet) => {},
        other => panic!("expected the no-subnet outcome, got {:?}", other),
    }
}

#[test]
fn decode_twice_gives_the_same_network() {
    let bytes = vec![0x00u8, 0x01, 24, 192, 0, 2];
    let first = decode_ecs(&bytes);
    let second = decode_ecs(&bytes);
    assert_eq!(first, second);
    let first_text = ecs_text(&first.unwrap());
    let second_text = ecs_text(&second.unwrap());
    assert_eq!(first_text, second_text);
}

#[test]
fn network_text_v4() {
    let v = decode_ecs(&vec![0x00u8, 0x01, 24, 192, 0, 2]).unwrap();
    assert_eq!(ecs_text(&v), "192.0.2.0/24");
}

#[test]
fn network_text_v6() {
    let v = decode_ecs(&vec![0x00u8, 0x02, 32, 0x20, 0x01, 0x0d, 0xb8]).unwrap();
    assert_eq!(ecs_text(&v), "2001:db8::/32");
}

#[test]
fn network_text_no_subnet() {
    let v = decode_ecs(&vec![0x00u8, 0x00, 0]).unwrap();
    assert_eq!(ecs_text(&v), "no subnet");
}
