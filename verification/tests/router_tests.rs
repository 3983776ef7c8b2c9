use dnssrc::config::build;
use dnssrc::config::RouterConfig;
use dnssrc::counter::QueryCounter;
use dnssrc::name::parse_name;
use dnssrc::records::Record;
use dnssrc::records::RecordData;
use dnssrc::request::EdnsInfo;
use dnssrc::request::IpAddress;
use dnssrc::request::MessageType;
use dnssrc::request::OpCode;
use dnssrc::request::RecordType;
use dnssrc::request::RequestContext;
use dnssrc::request::RouterError;
use dnssrc::request::Transport;
use dnssrc::router::route;

const NOW: u64 = 1234567890123;

fn config() -> RouterConfig {
    let ns = vec!["ns1.example.com".to_string(), "ns2.example.com".to_string()];
    let soa = vec!["ns1.example.com".to_string(), "hostmaster.example.com".to_string()];
    build("example.com", 1, &ns, &soa, 1000, 60, 60, 31356000, 0).unwrap()
}

fn ctx(name: &str, qtype: RecordType) -> RequestContext {
    RequestContext {
        op_code: OpCode::Query,
        message_type: MessageType::Query,
        name: parse_name(name).unwrap(),
        query_type: qtype,
        transport: Transport::Udp,
        src_ip: IpAddress::V4 { octets: vec![203, 0, 113, 7] },
        src_port: 5353,
        edns: None,
    }
}

fn single_txt_strings(records: &[Record]) -> Vec<String> {
    assert_eq!(records.len(), 1);
    match &records[0].data {
        RecordData::Txt { texts } => texts.clone(),
        other => panic!("expected a TXT record, got {:?}", other),
    }
}

#[test]
fn myip_returns_source_a_record() {
    let c = config();
    let mut counter = QueryCounter::new();
    let q = ctx("myip.example.com", RecordType::A);
    let records = route(&c, &mut counter, &q, NOW).unwrap();
    assert_eq!(records.len(), 1);
    assert_eq!(records[0].owner, q.name);
    assert_eq!(records[0].ttl, 1);
    match &records[0].data {
        RecordData::A { addr } => assert_eq!(addr, &vec![203u8, 0, 113, 7]),
        other => panic!("expected an A record, got {:?}", other),
    }
}

#[test]
fn myip_returns_source_aaaa_record_for_v6() {
    let c = config();
    let mut counter = QueryCounter::new();
    let mut q = ctx("myip.example.com", RecordType::Aaaa);
    let mut v6 = vec![0x20u8, 0x01, 0x0d, 0xb8];
    v6.resize(15, 0);
    v6.push(1);
    q.src_ip = IpAddress::V6 { octets: v6.clone() };
    let records = route(&c, &mut counter, &q, NOW).unwrap();
    match &records[0].data {
        RecordData::Aaaa { addr } => assert_eq!(addr, &v6),
        other => panic!("expected an AAAA record, got {:?}", other),
    }
}

#[test]
fn myport_returns_source_port_text() {
    let c = config();
    let mut counter = QueryCounter::new();
    let q = ctx("myport.example.com", RecordType::Txt);
    let records = route(&c, &mut counter, &q, NOW).unwrap();
    assert_eq!(single_txt_strings(&records), vec!["5353".to_string()]);
}

#[test]
fn myaddr_returns_address_and_port() {
    let c = config();
    let mut counter = QueryCounter::new();
    let q = ctx("myaddr.example.com", RecordType::Txt);
    let records = route(&c, &mut counter, &q, NOW).unwrap();
    assert_eq!(
        single_txt_strings(&records),
        vec!["203.0.113.7".to_string(), "5353".to_string()]
    );
}

#[test]
fn counter_zone_observes_routed_queries() {
    let c = config();
    let mut counter = QueryCounter::new();
    let q = ctx("counter.example.com", RecordType::Txt);
    let mut observed = Vec::new();
    for _ in 0..3 {
        let records = route(&c, &mut counter, &q, NOW).unwrap();
        let value: u64 = single_txt_strings(&records)[0].parse().unwrap();
        observed.push(value);
    }
    // Each query reports the number of queries routed before it.
    assert_eq!(observed, vec![0, 1, 2]);
    assert!(observed.windows(2).all(|w| w[0] <= w[1]));
    assert_eq!(counter.count, 3);
}

#[test]
fn counter_counts_other_routed_queries_too() {
    let c = config();
    let mut counter = QueryCounter::new();
    let other = ctx("myip.example.com", RecordType::A);
    route(&c, &mut counter, &other, NOW).unwrap();
    route(&c, &mut counter, &other, NOW).unwrap();
    let q = ctx("counter.example.com", RecordType::Txt);
    let records = route(&c, &mut counter, &q, NOW).unwrap();
    assert_eq!(single_txt_strings(&records), vec!["2".to_string()]);
}

#[test]
fn counter_is_untouched_by_refused_queries() {
    let c = config();
    let mut counter = QueryCounter::new();
    let q = ctx("nowhere.example.org", RecordType::A);
    assert!(route(&c, &mut counter, &q, NOW).is_err());
    assert_eq!(counter.count, 0);
}

#[test]
fn help_lists_the_queries() {
    let c = config();
    let mut counter = QueryCounter::new();
    let q = ctx("help.example.com", RecordType::Txt);
    let records = route(&c, &mut counter, &q, NOW).unwrap();
    let text = &single_txt_strings(&records)[0];
    assert!(text.starts_with("Available queries are:"));
    assert!(text.contains("myip"));
    assert!(text.contains("edns-cs"));
}

#[test]
fn root_ns_query_returns_one_record_per_ns_name() {
    let c = config();
    let mut counter = QueryCounter::new();
    let q = ctx("example.com", RecordType::Ns);
    let records = route(&c, &mut counter, &q, NOW).unwrap();
    assert_eq!(records.len(), 2);
    let expected = ["ns1.example.com", "ns2.example.com"];
    for (record, want) in records.iter().zip(expected) {
        assert_eq!(record.owner, q.name);
        assert_eq!(record.ttl, 60);
        match &record.data {
            RecordData::Ns { target } => assert_eq!(*target, parse_name(want).unwrap()),
            other => panic!("expected an NS record, got {:?}", other),
        }
    }
}

#[test]
fn root_soa_query_returns_the_configured_record() {
    let c = config();
    let mut counter = QueryCounter::new();
    let q = ctx("example.com", RecordType::Soa);
    let records = route(&c, &mut counter, &q, NOW).unwrap();
    assert_eq!(records.len(), 1);
    assert_eq!(records[0].owner, q.name);
    assert_eq!(records[0].ttl, 60);
    match &records[0].data {
        RecordData::Soa { mname, rname, serial, refresh, retry, expire, minimum } => {
            assert_eq!(*mname, parse_name("ns1.example.com").unwrap());
            assert_eq!(*rname, parse_name("hostmaster.example.com").unwrap());
            assert_eq!(*serial, 1000);
            assert_eq!(*refresh, 60);
            assert_eq!(*retry, 60);
            assert_eq!(*expire, 31356000);
            assert_eq!(*minimum, 0);
        },
        other => panic!("expected an SOA record, got {:?}", other),
    }
}

#[test]
fn root_other_query_returns_no_records_and_no_error() {
    let c = config();
    let mut counter = QueryCounter::new();
    for qtype in [RecordType::A, RecordType::Txt, RecordType::Other(255)] {
        let q = ctx("example.com", qtype);
        let records = route(&c, &mut counter, &q, NOW).unwrap();
        assert!(records.is_empty());
    }
}

#[test]
fn unmatched_subdomain_falls_to_the_root_zone() {
    let c = config();
    let mut counter = QueryCounter::new();
    let q = ctx("unknown.example.com", RecordType::A);
    let records = route(&c, &mut counter, &q, NOW).unwrap();
    assert!(records.is_empty());
}

#[test]
fn name_outside_base_domain_is_invalid_zone() {
    let c = config();
    let mut counter = QueryCounter::new();
    let q = ctx("myip.example.org", RecordType::A);
    match route(&c, &mut counter, &q, NOW) {
        Err(RouterError::InvalidZone(name)) => assert_eq!(name, q.name),
        other => panic!("expected an invalid-zone error, got {:?}", other),
    }
}

#[test]
fn each_zone_name_routes_to_its_own_zone() {
    let c = config();
    let mut counter = QueryCounter::new();
    // The counter zone answers with a decimal TXT even for an A query.
    let q = ctx("counter.example.com", RecordType::A);
    let records = route(&c, &mut counter, &q, NOW).unwrap();
    let value: Result<u64, _> = single_txt_strings(&records)[0].parse();
    assert!(value.is_ok());
    // A name deeper under a zone still routes to that zone.
    let q = ctx("x.y.myip.example.com", RecordType::A);
    let records = route(&c, &mut counter, &q, NOW).unwrap();
    assert!(matches!(records[0].data, RecordData::A { .. }));
    // Matching is on the canonicalized name.
    let q = ctx("MyPort.Example.Com", RecordType::Txt);
    let records = route(&c, &mut counter, &q, NOW).unwrap();
    assert_eq!(single_txt_strings(&records), vec!["5353".to_string()]);
    // timestamp0 is not shadowed by timestamp.
    let q = ctx("timestamp0.example.com", RecordType::Txt);
    let records = route(&c, &mut counter, &q, NOW).unwrap();
    assert_eq!(records[0].ttl, 0);
}

#[test]
fn timestamp_reports_the_supplied_clock() {
    let c = config();
    let mut counter = QueryCounter::new();
    let q = ctx("timestamp.example.com", RecordType::Txt);
    let records = route(&c, &mut counter, &q, NOW).unwrap();
    assert_eq!(single_txt_strings(&records), vec!["1234567890123".to_string()]);
    assert_eq!(records[0].ttl, 1);
    let q = ctx("timestamp0.example.com", RecordType::Txt);
    let records = route(&c, &mut counter, &q, NOW).unwrap();
    assert_eq!(single_txt_strings(&records), vec!["1234567890123".to_string()]);
    assert_eq!(records[0].ttl, 0);
}

#[test]
fn invalid_opcode_is_refused() {
    let c = config();
    let mut counter = QueryCounter::new();
    let mut q = ctx("myip.example.com", RecordType::A);
    q.op_code = OpCode::Status;
    match route(&c, &mut counter, &q, NOW) {
        Err(RouterError::InvalidOpCode(op)) => assert_eq!(op, OpCode::Status),
        other => panic!("expected an invalid-opcode error, got {:?}", other),
    }
    assert_eq!(counter.count, 0);
}

#[test]
fn non_query_message_is_refused() {
    let c = config();
    let mut counter = QueryCounter::new();
    let mut q = ctx("myip.example.com", RecordType::A);
    q.message_type = MessageType::Response;
    match route(&c, &mut counter, &q, NOW) {
        Err(RouterError::InvalidMessageType(mt)) => assert_eq!(mt, MessageType::Response),
        other => panic!("expected an invalid-message-type error, got {:?}", other),
    }
}

#[test]
fn edns_zone_without_edns_is_invalid_zone() {
    let c = config();
    let mut counter = QueryCounter::new();
    let q = ctx("edns.example.com", RecordType::Txt);
    match route(&c, &mut counter, &q, NOW) {
        Err(RouterError::InvalidZone(name)) => assert_eq!(name, q.name),
        other => panic!("expected an invalid-zone error, got {:?}", other),
    }
}

#[test]
fn edns_zone_dumps_the_metadata() {
    let c = config();
    let mut counter = QueryCounter::new();
    let mut q = ctx("edns.example.com", RecordType::Txt);
    q.edns = Some(EdnsInfo { version: 0, dnssec_ok: true, max_payload: 1232, client_subnet: None });
    let records = route(&c, &mut counter, &q, NOW).unwrap();
    assert_eq!(
        single_txt_strings(&records),
        vec!["version=0 dnssec_ok=true max_payload=1232 client_subnet=absent".to_string()]
    );
}

#[test]
fn ednscs_zone_echoes_the_decoded_network() {
    let c = config();
    let mut counter = QueryCounter::new();
    let mut q = ctx("edns-cs.example.com", RecordType::Txt);
    q.edns = Some(EdnsInfo {
        version: 0,
        dnssec_ok: false,
        max_payload: 1232,
        client_subnet: Some(vec![0x00, 0x01, 24, 192, 0, 2]),
    });
    let records = route(&c, &mut counter, &q, NOW).unwrap();
    assert_eq!(single_txt_strings(&records), vec!["192.0.2.0/24".to_string()]);
}

#[test]
fn ednscs_zone_with_malformed_option_is_decode_failure() {
    let c = config();
    let mut counter = QueryCounter::new();
    let mut q = ctx("edns-cs.example.com", RecordType::Txt);
    q.edns = Some(EdnsInfo {
        version: 0,
        dnssec_ok: false,
        max_payload: 1232,
        client_subnet: Some(vec![0x00, 0x05, 24]),
    });
    match route(&c, &mut counter, &q, NOW) {
        Err(RouterError::DecodeFailure) => {},
        other => panic!("expected a decode failure, got {:?}", other),
    }
    assert_eq!(counter.count, 0);
}

#[test]
fn ednscs_zone_without_option_is_invalid_zone() {
    let c = config();
    let mut counter = QueryCounter::new();
    let mut q = ctx("edns-cs.example.com", RecordType::Txt);
    q.edns = Some(EdnsInfo { version: 0, dnssec_ok: false, max_payload: 1232, client_subnet: None });
    assert!(matches!(
        route(&c, &mut counter, &q, NOW),
        Err(RouterError::InvalidZone(_))
    ));
    q.edns = None;
    assert!(matches!(
        route(&c, &mut counter, &q, NOW),
        Err(RouterError::InvalidZone(_))
    ));
}

#[test]
fn random_zone_matches_the_queried_type() {
    let c = config();
    let mut counter = QueryCounter::new();
    let q = ctx("random.example.com", RecordType::A);
    let records = route(&c, &mut counter, &q, NOW).unwrap();
    match &records[0].data {
        RecordData::A { addr } => assert_eq!(addr.len(), 4),
        other => panic!("expected an A record, got {:?}", other),
    }
    let q = ctx("random.example.com", RecordType::Aaaa);
    let records = route(&c, &mut counter, &q, NOW).unwrap();
    match &records[0].data {
        RecordData::Aaaa { addr } => assert_eq!(addr.len(), 16),
        other => panic!("expected an AAAA record, got {:?}", other),
    }
    let q = ctx("random.example.com", RecordType::Txt);
    let records = route(&c, &mut counter, &q, NOW).unwrap();
    let text = &single_txt_strings(&records)[0];
    assert_eq!(text.len(), 30);
    assert!(text.chars().all(|ch| ch.is_ascii_alphanumeric()));
    let q = ctx("random.example.com", RecordType::Ns);
    let records = route(&c, &mut counter, &q, NOW).unwrap();
    assert_eq!(
        single_txt_strings(&records),
        vec!["Unsupported RR type. Supported are A/AAAA/TXT".to_string()]
    );
}

#[test]
fn protocol_zone_names_transport_and_family() {
    let c = config();
    let mut counter = QueryCounter::new();
    let q = ctx("protocol.example.com", RecordType::Txt);
    let records = route(&c, &mut counter, &q, NOW).unwrap();
    assert_eq!(single_txt_strings(&records), vec!["UDP IPv4".to_string()]);
    let mut q = ctx("protocol.example.com", RecordType::Txt);
    q.transport = Transport::Tcp;
    q.src_ip = IpAddress::V6 { octets: vec![0; 16] };
    let records = route(&c, &mut counter, &q, NOW).unwrap();
    assert_eq!(single_txt_strings(&records), vec!["TCP IPv6".to_string()]);
}

#[test]
fn version_zone_reports_the_build() {
    let c = config();
    let mut counter = QueryCounter::new();
    let q = ctx("version.example.com", RecordType::Txt);
    let records = route(&c, &mut counter, &q, NOW).unwrap();
    assert_eq!(single_txt_strings(&records), vec!["dnssrc 0.1.0".to_string()]);
}
