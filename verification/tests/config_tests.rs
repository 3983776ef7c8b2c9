use dnssrc::config::build;
use dnssrc::config::BuildError;
use dnssrc::name::parse_name;

fn ns() -> Vec<String> {
    vec!["ns1.example.com".to_string(), "ns2.example.com".to_string()]
}

fn soa() -> Vec<String> {
    vec!["ns1.example.com".to_string(), "hostmaster.example.com".to_string()]
}

#[test]
fn build_derives_zone_names() {
    let c = build("example.com", 1, &ns(), &soa(), 1000, 60, 60, 31356000, 0).unwrap();
    assert_eq!(c.root_zone, parse_name("example.com").unwrap());
    assert_eq!(c.counter_zone, parse_name("counter.example.com").unwrap());
    assert_eq!(c.myip_zone, parse_name("myip.example.com").unwrap());
    assert_eq!(c.myport_zone, parse_name("myport.example.com").unwrap());
    assert_eq!(c.myaddr_zone, parse_name("myaddr.example.com").unwrap());
    assert_eq!(c.help_zone, parse_name("help.example.com").unwrap());
    assert_eq!(c.random_zone, parse_name("random.example.com").unwrap());
    assert_eq!(c.edns_zone, parse_name("edns.example.com").unwrap());
    assert_eq!(c.ednscs_zone, parse_name("edns-cs.example.com").unwrap());
    assert_eq!(c.timestamp_zone, parse_name("timestamp.example.com").unwrap());
    assert_eq!(c.timestamp0_zone, parse_name("timestamp0.example.com").unwrap());
    assert_eq!(c.protocol_zone, parse_name("protocol.example.com").unwrap());
    assert_eq!(c.version_zone, parse_name("version.example.com").unwrap());
    assert_eq!(c.ttl, 1);
    assert_eq!(c.ns_names.len(), 2);
    assert_eq!(c.ns_names[0], parse_name("ns1.example.com").unwrap());
    assert_eq!(c.ns_names[1], parse_name("ns2.example.com").unwrap());
    assert_eq!(c.soa_mname, parse_name("ns1.example.com").unwrap());
    assert_eq!(c.soa_rname, parse_name("hostmaster.example.com").unwrap());
    assert_eq!(c.soa_serial, 1000);
    assert_eq!(c.soa_refresh, 60);
    assert_eq!(c.soa_retry, 60);
    assert_eq!(c.soa_expire, 31356000);
    assert_eq!(c.soa_minimum, 0);
}

#[test]
fn build_canonicalizes_the_base_domain() {
    let c = build("Example.COM.", 5, &ns(), &soa(), 1, 0, 0, 0, 0).unwrap();
    assert_eq!(c.root_zone, parse_name("example.com").unwrap());
}

#[test]
fn build_rejects_invalid_base_domain() {
    let r = build("not a domain", 1, &ns(), &soa(), 1, 0, 0, 0, 0);
    assert_eq!(r.unwrap_err(), BuildError::InvalidBaseDomain);
    let r = build("", 1, &ns(), &soa(), 1, 0, 0, 0, 0);
    assert_eq!(r.unwrap_err(), BuildError::InvalidBaseDomain);
}

#[test]
fn build_rejects_a_base_domain_leaving_no_room() {
    // Four 61-byte labels encode to 249 octets; prepending the longest
    // zone label (ten bytes plus its length octet) would exceed 255.
    let l = "b".repeat(61);
    let base = format!("{l}.{l}.{l}.{l}");
    let r = build(&base, 1, &ns(), &soa(), 1, 0, 0, 0, 0);
    assert_eq!(r.unwrap_err(), BuildError::NameTooLong);
}

#[test]
fn build_rejects_invalid_ns_name() {
    let bad = vec!["ns1.example.com".to_string(), "bad..name".to_string()];
    let r = build("example.com", 1, &bad, &soa(), 1, 0, 0, 0, 0);
    assert_eq!(r.unwrap_err(), BuildError::InvalidNsName);
}

#[test]
fn build_rejects_wrong_soa_count() {
    let one = vec!["ns1.example.com".to_string()];
    let r = build("example.com", 1, &ns(), &one, 1, 0, 0, 0, 0);
    assert_eq!(r.unwrap_err(), BuildError::SoaNameCount);
}

#[test]
fn build_rejects_invalid_soa_name() {
    let bad = vec!["ns1.example.com".to_string(), "bad..name".to_string()];
    let r = build("example.com", 1, &ns(), &bad, 1, 0, 0, 0, 0);
    assert_eq!(r.unwrap_err(), BuildError::InvalidSoaName);
}
