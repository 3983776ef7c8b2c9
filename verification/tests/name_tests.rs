use dnssrc::name::parse_name;
use dnssrc::text::ipv4_text;
use dnssrc::text::ipv6_text;
use dnssrc::text::u16_hex;
use dnssrc::text::u64_dec;

#[test]
fn parse_two_labels() {
    let n = parse_name("example.com").unwrap();
    assert_eq!(n.labels, vec![b"example".to_vec(), b"com".to_vec()]);
}

#[test]
fn parse_folds_uppercase() {
    let a = parse_name("Example.COM").unwrap();
    let b = parse_name("example.com").unwrap();
    assert_eq!(a, b);
}

#[test]
fn parse_allows_one_trailing_dot() {
    let a = parse_name("example.com.").unwrap();
    let b = parse_name("example.com").unwrap();
    assert_eq!(a, b);
}

#[test]
fn parse_rejects_empty_text() {
    assert!(parse_name("").is_none());
    assert!(parse_name(".").is_none());
}

#[test]
fn parse_rejects_empty_label() {
    assert!(parse_name("a..b").is_none());
    assert!(parse_name(".example.com").is_none());
    assert!(parse_name("example.com..").is_none());
}

#[test]
fn parse_rejects_bad_characters() {
    assert!(parse_name("exa mple.com").is_none());
    assert!(parse_name("exam!ple.com").is_none());
    assert!(parse_name("caf\u{00e9}.com").is_none());
}

#[test]
fn parse_label_length_limit() {
    let label_63: String = "a".repeat(63);
    let label_64: String = "a".repeat(64);
    assert!(parse_name(&format!("{label_63}.com")).is_some());
    assert!(parse_name(&format!("{label_64}.com")).is_none());
}

#[test]
fn parse_name_length_limit() {
    // Four 61-byte labels encode to 249 octets with the root octet: fine.
    let l = "b".repeat(61);
    let fits = format!("{l}.{l}.{l}.{l}");
    assert!(parse_name(&fits).is_some());
    // A fifth pushes the encoding over 255 octets.
    let too_long = format!("{l}.{l}.{l}.{l}.{l}");
    assert!(parse_name(&too_long).is_none());
}

#[test]
fn zone_of_is_suffix_matching() {
    let zone = parse_name("example.com").unwrap();
    let inside = parse_name("myip.example.com").unwrap();
    let outside = parse_name("example.org").unwrap();
    let tricky = parse_name("notexample.com").unwrap();
    assert!(zone.zone_of(&inside));
    assert!(zone.zone_of(&zone));
    assert!(!zone.zone_of(&outside));
    // Label-wise matching, not substring matching.
    assert!(!zone.zone_of(&tricky));
    assert!(!inside.zone_of(&zone));
}

#[test]
fn decimal_text() {
    assert_eq!(u64_dec(0), "0");
    assert_eq!(u64_dec(7), "7");
    assert_eq!(u64_dec(5353), "5353");
    assert_eq!(u64_dec(u64::MAX), "18446744073709551615");
}

#[test]
fn hexadecimal_text() {
    assert_eq!(u16_hex(0), "0");
    assert_eq!(u16_hex(0x20ab), "20ab");
    assert_eq!(u16_hex(0xffff), "ffff");
}

#[test]
fn ipv4_address_text() {
    assert_eq!(ipv4_text(&vec![203, 0, 113, 7]), "203.0.113.7");
    assert_eq!(ipv4_text(&vec![0, 0, 0, 0]), "0.0.0.0");
}

#[test]
fn ipv6_address_text_compresses_the_longest_zero_run() {
    let mut addr = vec![0x20u8, 0x01, 0x0d, 0xb8];
    addr.resize(15, 0);
    addr.push(1);
    assert_eq!(ipv6_text(&addr), "2001:db8::1");
}

#[test]
fn ipv6_address_text_all_zeros() {
    assert_eq!(ipv6_text(&vec![0u8; 16]), "::");
}

#[test]
fn ipv6_address_text_loopback() {
    let mut addr = vec![0u8; 15];
    addr.push(1);
    assert_eq!(ipv6_text(&addr), "::1");
}

#[test]
fn ipv6_address_text_single_zero_group_stays() {
    // 2001:db8:0:1:1:1:1:1 has no run of two zero groups.
    let addr = vec![
        0x20u8, 0x01, 0x0d, 0xb8, 0, 0, 0, 1, 0, 1, 0, 1, 0, 1, 0, 1,
    ];
    assert_eq!(ipv6_text(&addr), "2001:db8:0:1:1:1:1:1");
}

#[test]
fn ipv6_address_text_leftmost_run_wins_a_tie() {
    // 0:0:1:0:0:1:2:3 -> ::1:0:0:1:2:3
    let addr = vec![
        0u8, 0, 0, 0, 0, 1, 0, 0, 0, 0, 0, 1, 0, 2, 0, 3,
    ];
    assert_eq!(ipv6_text(&addr), "::1:0:0:1:2:3");
}
