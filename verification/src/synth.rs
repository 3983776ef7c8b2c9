//! Record synthesizers: one pure function per zone, from the request
//! context and the configuration to record data. The randomness the
//! random zone needs comes from the `rand` crate behind trusted
//! wrappers; everything built on top of it is verified.

use vstd::prelude::*;

use rand::Rng;

use crate::config::RouterConfig;
use crate::ecs::ecs_chars;
use crate::ecs::ecs_decode_spec;
use crate::ecs::ecs_text;
use crate::ecs::decode_ecs;
use crate::name::copy_bytes;
use crate::records::is_single_txt;
use crate::records::is_txt_record;
use crate::records::single_txt;
use crate::records::Record;
use crate::records::RecordData;
use crate::request::EdnsInfo;
use crate::request::IpAddress;
use crate::request::RecordType;
use crate::request::RequestContext;
use crate::request::RouterError;
use crate::request::Transport;
use crate::text::dec_chars;
use crate::text::ipv4_chars;
use crate::text::ipv4_text;
use crate::text::ipv6_chars;
use crate::text::ipv6_text;
use crate::text::u64_dec;

verus! {

/// The static help text: the query names the responder supports.
pub open spec fn help_chars() -> Seq<char> {
    "Available queries are: myip/A/AAAA/TXT, myport/TXT, myaddr/ANY, counter/TXT, random/A/AAAA/TXT, edns/A/AAAA/TXT, edns-cs/A/AAAA, timestamp/TXT, timestamp0/TXT, protocol/TXT, version/TXT, help/ANY"@
}

/// The running build's version text.
pub open spec fn version_chars() -> Seq<char> {
    "dnssrc 0.1.0"@
}

/// The answer of the random zone to a record type it does not serve.
pub open spec fn unsupported_chars() -> Seq<char> {
    "Unsupported RR type. Supported are A/AAAA/TXT"@
}

/// Text of a transport tag.
pub open spec fn transport_chars(t: Transport) -> Seq<char> {
    match t {
        Transport::Udp => "UDP"@,
        Transport::Tcp => "TCP"@,
        Transport::Tls => "TLS"@,
        Transport::Https => "HTTPS"@,
        Transport::Quic => "QUIC"@,
    }
}

/// Text of a source address family.
pub open spec fn family_chars(ip: IpAddress) -> Seq<char> {
    match ip {
        IpAddress::V4 { .. } => "IPv4"@,
        IpAddress::V6 { .. } => "IPv6"@,
    }
}

/// Text of the protocol zone's answer: transport tag and address family.
pub open spec fn protocol_chars(t: Transport, ip: IpAddress) -> Seq<char> {
    transport_chars(t) + " "@ + family_chars(ip)
}

/// Text of a source address: dotted quad, or the canonical IPv6 form.
pub open spec fn ip_chars(ip: IpAddress) -> Seq<char> {
    match ip {
        IpAddress::V4 { octets } => ipv4_chars(octets@),
        IpAddress::V6 { octets } => ipv6_chars(octets@),
    }
}

/// Text of a truth value.
pub open spec fn bool_chars(b: bool) -> Seq<char> {
    if b {
        "true"@
    } else {
        "false"@
    }
}

/// The human-readable dump of a query's EDNS metadata.
pub open spec fn edns_dump_chars(e: EdnsInfo) -> Seq<char> {
    "version="@ + dec_chars(e.version as nat) + " dnssec_ok="@ + bool_chars(e.dnssec_ok)
        + " max_payload="@ + dec_chars(e.max_payload as nat) + " client_subnet="@ + (
    if e.client_subnet is Some {
        "present"@
    } else {
        "absent"@
    })
}

/// An ASCII letter or digit.
pub open spec fn is_alnum_char(c: char) -> bool {
    ('a' <= c && c <= 'z') || ('A' <= c && c <= 'Z') || ('0' <= c && c <= '9')
}

/// Relies on `rand::Rng::gen` for `u8`: draws one byte from the thread's
/// generator. Nothing is promised of the value.
#[verifier::external_body]
fn random_byte() -> u8 {
    rand::thread_rng().gen()
}

/// Relies on `rand::distributions::Alphanumeric`: every sampled byte is
/// an ASCII letter or digit.
#[verifier::external_body]
fn random_alnum_char_text() -> (r: String)
    ensures
        r@.len() == 1,
        is_alnum_char(r@[0]),
{
    let b: u8 = rand::thread_rng().sample(rand::distributions::Alphanumeric);
    String::from(b as char)
}

/// `width` bytes from the thread's random generator.
fn random_octets(width: usize) -> (r: Vec<u8>)
    ensures
        r@.len() == width,
{
    let mut r: Vec<u8> = Vec::new();
    let mut i: usize = 0;
    while i < width
        invariant
            r@.len() == i,
            0 <= i <= width,
        decreases width - i,
    {
        r.push(random_byte());
        i = i + 1;
    }
    r
}

/// Thirty random ASCII letters or digits.
fn random_alnum_text() -> (r: String)
    ensures
        r@.len() == 30,
        forall|i: int| 0 <= i < r@.len() ==> is_alnum_char(#[trigger] r@[i]),
{
    let mut s = String::new();
    let mut i: usize = 0;
    while i < 30
        invariant
            s@.len() == i,
            0 <= i <= 30,
            forall|j: int| 0 <= j < s@.len() ==> is_alnum_char(#[trigger] s@[j]),
        decreases 30 - i,
    {
        let c = random_alnum_char_text();
        s.append(c.as_str());
        i = i + 1;
    }
    s
}

/// The answer of the source-address zone: one A or AAAA record carrying
/// the query's source address, family-matched.
pub open spec fn myip_records_ok(rs: Seq<Record>, ctx: RequestContext, c: RouterConfig) -> bool {
    &&& rs.len() == 1
    &&& rs[0].owner@ == ctx.name@
    &&& rs[0].ttl == c.ttl
    &&& match ctx.src_ip {
        IpAddress::V4 { octets } => rs[0].data matches RecordData::A { addr } && addr@ == octets@,
        IpAddress::V6 { octets } => rs[0].data matches RecordData::Aaaa { addr } && addr@
            == octets@,
    }
}

/// One A (IPv4 source) or AAAA (IPv6 source) record of the source
/// address, as `myip_records_ok` describes.
pub fn synth_myip(ctx: &RequestContext, config: &RouterConfig) -> (rs: Vec<Record>)
    ensures
        myip_records_ok(rs@, *ctx, *config),
{
    let data = match &ctx.src_ip {
        IpAddress::V4 { octets } => RecordData::A { addr: copy_bytes(octets) },
        IpAddress::V6 { octets } => RecordData::Aaaa { addr: copy_bytes(octets) },
    };
    let rec = Record { owner: ctx.name.duplicate(), ttl: config.ttl, data };
    let mut rs: Vec<Record> = Vec::new();
    rs.push(rec);
    rs
}

/// One TXT record of the source port in decimal.
pub fn synth_myport(ctx: &RequestContext, config: &RouterConfig) -> (rs: Vec<Record>)
    ensures
        is_single_txt(rs@, ctx.name@, config.ttl, dec_chars(ctx.src_port as nat)),
{
    single_txt(&ctx.name, config.ttl, u64_dec(ctx.src_port as u64))
}

/// The answer of the source-address-and-port zone: one TXT record with
/// two character strings, the source address and the source port.
pub open spec fn myaddr_records_ok(rs: Seq<Record>, ctx: RequestContext, c: RouterConfig) -> bool {
    &&& rs.len() == 1
    &&& is_txt_record(
        rs[0],
        ctx.name@,
        c.ttl,
        seq![ip_chars(ctx.src_ip), dec_chars(ctx.src_port as nat)],
    )
}

/// One TXT record with the source address and the source port, as
/// `myaddr_records_ok` describes.
pub fn synth_myaddr(ctx: &RequestContext, config: &RouterConfig) -> (rs: Vec<Record>)
    requires
        ctx.wf(),
    ensures
        myaddr_records_ok(rs@, *ctx, *config),
{
    let ip_text = match &ctx.src_ip {
        IpAddress::V4 { octets } => ipv4_text(octets),
        IpAddress::V6 { octets } => ipv6_text(octets),
    };
    let ghost t0 = ip_text@;
    let ghost t1 = dec_chars(ctx.src_port as nat);
    let mut texts: Vec<String> = Vec::new();
    texts.push(ip_text);
    texts.push(u64_dec(ctx.src_port as u64));
    let rec = Record { owner: ctx.name.duplicate(), ttl: config.ttl, data: RecordData::Txt { texts } };
    let mut rs: Vec<Record> = Vec::new();
    rs.push(rec);
    proof {
        let m = rs@[0].data->Txt_texts@.map_values(|s: String| s@);
        assert(m =~= seq![t0, t1]);
    }
    rs
}

/// One TXT record with the static help text.
pub fn synth_help(ctx: &RequestContext, config: &RouterConfig) -> (rs: Vec<Record>)
    ensures
        is_single_txt(rs@, ctx.name@, config.ttl, help_chars()),
{
    single_txt(
        &ctx.name,
        config.ttl,
        "Available queries are: myip/A/AAAA/TXT, myport/TXT, myaddr/ANY, counter/TXT, random/A/AAAA/TXT, edns/A/AAAA/TXT, edns-cs/A/AAAA, timestamp/TXT, timestamp0/TXT, protocol/TXT, version/TXT, help/ANY".to_owned(),
    )
}

/// One TXT record of a counter value in decimal.
pub fn synth_counter(ctx: &RequestContext, config: &RouterConfig, value: u64) -> (rs: Vec<Record>)
    ensures
        is_single_txt(rs@, ctx.name@, config.ttl, dec_chars(value as nat)),
{
    single_txt(&ctx.name, config.ttl, u64_dec(value))
}

/// One TXT record of the given Unix epoch milliseconds in decimal; the
/// zero-TTL variant pins the record's TTL to zero.
pub fn synth_timestamp(
    ctx: &RequestContext,
    config: &RouterConfig,
    now_millis: u64,
    zero_ttl: bool,
) -> (rs: Vec<Record>)
    ensures
        is_single_txt(
            rs@,
            ctx.name@,
            if zero_ttl {
                0u32
            } else {
                config.ttl
            },
            dec_chars(now_millis as nat),
        ),
{
    let ttl: u32 = if zero_ttl {
        0
    } else {
        config.ttl
    };
    single_txt(&ctx.name, ttl, u64_dec(now_millis))
}

/// The dump text of the request's EDNS metadata.
fn edns_dump_text(e: &EdnsInfo) -> (r: String)
    ensures
        r@ == edns_dump_chars(*e),
{
    let mut s = "version=".to_owned();
    s.append(u64_dec(e.version as u64).as_str());
    s.append(" dnssec_ok=");
    if e.dnssec_ok {
        s.append("true");
    } else {
        s.append("false");
    }
    s.append(" max_payload=");
    s.append(u64_dec(e.max_payload as u64).as_str());
    s.append(" client_subnet=");
    match &e.client_subnet {
        Some(_) => s.append("present"),
        None => s.append("absent"),
    }
    s
}

/// The outcome of the EDNS-dump zone: the dump of the query's EDNS
/// metadata, or — when the query carries none — the same refusal an
/// unrecognized zone gets.
pub open spec fn edns_outcome_ok(
    r: Result<Vec<Record>, RouterError>,
    ctx: RequestContext,
    c: RouterConfig,
) -> bool {
    match ctx.edns {
        None => r matches Err(RouterError::InvalidZone(n)) && n@ == ctx.name@,
        Some(e) => r matches Ok(rs) && is_single_txt(rs@, ctx.name@, c.ttl, edns_dump_chars(e)),
    }
}

/// One TXT record with a human-readable dump of the request's EDNS
/// metadata. The router refuses the zone before this point when the
/// request carries no EDNS data.
pub fn synth_edns(ctx: &RequestContext, config: &RouterConfig) -> (rs: Vec<Record>)
    requires
        ctx.edns is Some,
    ensures
        ctx.edns matches Some(e) ==> is_single_txt(
            rs@,
            ctx.name@,
            config.ttl,
            edns_dump_chars(e),
        ),
{
    match &ctx.edns {
        Some(e) => single_txt(&ctx.name, config.ttl, edns_dump_text(e)),
        None => vstd::pervasive::unreached(),
    }
}

/// The outcome of the client-subnet zone: the decoded network rendered
/// as text; an absent option is refused like an unrecognized zone, and
/// option bytes that do not decode are a decode failure.
pub open spec fn ednscs_outcome_ok(
    r: Result<Vec<Record>, RouterError>,
    ctx: RequestContext,
    c: RouterConfig,
) -> bool {
    match ctx.edns {
        None => r matches Err(RouterError::InvalidZone(n)) && n@ == ctx.name@,
        Some(e) => match e.client_subnet {
            None => r matches Err(RouterError::InvalidZone(n)) && n@ == ctx.name@,
            Some(cs) => match ecs_decode_spec(cs@) {
                None => r == Err::<Vec<Record>, RouterError>(RouterError::DecodeFailure),
                Some(net) => r matches Ok(rs) && is_single_txt(
                    rs@,
                    ctx.name@,
                    c.ttl,
                    ecs_chars(net),
                ),
            },
        },
    }
}

/// One TXT record of the decoded client-subnet network, or the error
/// `ednscs_outcome_ok` describes.
pub fn synth_ednscs(ctx: &RequestContext, config: &RouterConfig) -> (r: Result<
    Vec<Record>,
    RouterError,
>)
    ensures
        ednscs_outcome_ok(r, *ctx, *config),
{
    let cs: &Vec<u8> = match &ctx.edns {
        Some(e) => match &e.client_subnet {
            Some(cs) => cs,
            None => {
                return Err(RouterError::InvalidZone(ctx.name.duplicate()));
            },
        },
        None => {
            return Err(RouterError::InvalidZone(ctx.name.duplicate()));
        },
    };
    match decode_ecs(cs) {
        Some(net) => Ok(single_txt(&ctx.name, config.ttl, ecs_text(&net))),
        None => Err(RouterError::DecodeFailure),
    }
}

/// The answer of the random zone: a record of the queried type filled
/// with fresh random data, or a fixed TXT explaining which types the
/// zone serves.
pub open spec fn random_records_ok(rs: Seq<Record>, ctx: RequestContext, c: RouterConfig) -> bool {
    match ctx.query_type {
        RecordType::A => {
            &&& rs.len() == 1
            &&& rs[0].owner@ == ctx.name@
            &&& rs[0].ttl == c.ttl
            &&& rs[0].data matches RecordData::A { addr } && addr@.len() == 4
        },
        RecordType::Aaaa => {
            &&& rs.len() == 1
            &&& rs[0].owner@ == ctx.name@
            &&& rs[0].ttl == c.ttl
            &&& rs[0].data matches RecordData::Aaaa { addr } && addr@.len() == 16
        },
        RecordType::Txt => {
            &&& rs.len() == 1
            &&& rs[0].owner@ == ctx.name@
            &&& rs[0].ttl == c.ttl
            &&& rs[0].data matches RecordData::Txt { texts } && texts@.len() == 1 && texts@[0]@.len()
                == 30 && (forall|i: int|
                0 <= i < texts@[0]@.len() ==> is_alnum_char(#[trigger] texts@[0]@[i]))
        },
        _ => rs.len() == 1 && is_txt_record(rs[0], ctx.name@, c.ttl, seq![unsupported_chars()]),
    }
}

/// Fresh random record data for the queried type, as
/// `random_records_ok` describes.
pub fn synth_random(ctx: &RequestContext, config: &RouterConfig) -> (rs: Vec<Record>)
    ensures
        random_records_ok(rs@, *ctx, *config),
{
    match ctx.query_type {
        RecordType::A => {
            let rec = Record {
                owner: ctx.name.duplicate(),
                ttl: config.ttl,
                data: RecordData::A { addr: random_octets(4) },
            };
            let mut rs: Vec<Record> = Vec::new();
            rs.push(rec);
            rs
        },
        RecordType::Aaaa => {
            let rec = Record {
                owner: ctx.name.duplicate(),
                ttl: config.ttl,
                data: RecordData::Aaaa { addr: random_octets(16) },
            };
            let mut rs: Vec<Record> = Vec::new();
            rs.push(rec);
            rs
        },
        RecordType::Txt => {
            let txt = random_alnum_text();
            let ghost tv = txt@;
            let rs = single_txt(&ctx.name, config.ttl, txt);
            proof {
                let texts = rs@[0].data->Txt_texts;
                let m = texts@.map_values(|s: String| s@);
                assert(m == seq![tv]);
                assert(m.len() == texts@.len());
                assert(m[0] == texts@[0]@);
            }
            rs
        },
        _ => single_txt(
            &ctx.name,
            config.ttl,
            "Unsupported RR type. Supported are A/AAAA/TXT".to_owned(),
        ),
    }
}

/// One TXT record naming the transport and the source address family.
pub fn synth_protocol(ctx: &RequestContext, config: &RouterConfig) -> (rs: Vec<Record>)
    ensures
        is_single_txt(rs@, ctx.name@, config.ttl, protocol_chars(ctx.transport, ctx.src_ip)),
{
    let mut s: String = match ctx.transport {
        Transport::Udp => "UDP".to_owned(),
        Transport::Tcp => "TCP".to_owned(),
        Transport::Tls => "TLS".to_owned(),
        Transport::Https => "HTTPS".to_owned(),
        Transport::Quic => "QUIC".to_owned(),
    };
    s.append(" ");
    match &ctx.src_ip {
        IpAddress::V4 { .. } => s.append("IPv4"),
        IpAddress::V6 { .. } => s.append("IPv6"),
    }
    single_txt(&ctx.name, config.ttl, s)
}

/// One TXT record of the running build's version text.
pub fn synth_version(ctx: &RequestContext, config: &RouterConfig) -> (rs: Vec<Record>)
    ensures
        is_single_txt(rs@, ctx.name@, config.ttl, version_chars()),
{
    single_txt(&ctx.name, config.ttl, "dnssrc 0.1.0".to_owned())
}

/// The answer of the root zone: one NS record per configured NS name
/// for an NS query, the configured SOA record for an SOA query, and an
/// empty answer (no error) for every other type. The fixed TTL of sixty
/// seconds is distinct from the configured diagnostic TTL.
pub open spec fn root_records_ok(rs: Seq<Record>, ctx: RequestContext, c: RouterConfig) -> bool {
    match ctx.query_type {
        RecordType::Ns => {
            &&& rs.len() == c.ns_names@.len()
            &&& forall|i: int|
                0 <= i < rs.len() ==> {
                    &&& (#[trigger] rs[i]).owner@ == ctx.name@
                    &&& rs[i].ttl == 60
                    &&& rs[i].data matches RecordData::Ns { target } && target@ == c.ns_names@[i]@
                }
        },
        RecordType::Soa => {
            &&& rs.len() == 1
            &&& rs[0].owner@ == ctx.name@
            &&& rs[0].ttl == 60
            &&& rs[0].data matches RecordData::Soa {
                mname,
                rname,
                serial,
                refresh,
                retry,
                expire,
                minimum,
            } && mname@ == c.soa_mname@ && rname@ == c.soa_rname@ && serial == c.soa_serial
                && refresh == c.soa_refresh && retry == c.soa_retry && expire == c.soa_expire
                && minimum == c.soa_minimum
        },
        _ => rs.len() == 0,
    }
}

/// NS, SOA or empty answers for the root zone, as `root_records_ok`
/// describes.
pub fn synth_root(ctx: &RequestContext, config: &RouterConfig) -> (rs: Vec<Record>)
    ensures
        root_records_ok(rs@, *ctx, *config),
{
    let mut rs: Vec<Record> = Vec::new();
    match ctx.query_type {
        RecordType::Ns => {
            let mut i: usize = 0;
            while i < config.ns_names.len()
                invariant
                    0 <= i <= config.ns_names@.len(),
                    rs@.len() == i,
                    forall|j: int|
                        0 <= j < i ==> {
                            &&& (#[trigger] rs@[j]).owner@ == ctx.name@
                            &&& rs@[j].ttl == 60
                            &&& rs@[j].data matches RecordData::Ns { target } && target@
                                == config.ns_names@[j]@
                        },
                decreases config.ns_names@.len() - i,
            {
                rs.push(
                    Record {
                        owner: ctx.name.duplicate(),
                        ttl: 60,
                        data: RecordData::Ns { target: config.ns_names[i].duplicate() },
                    },
                );
                i = i + 1;
            }
        },
        RecordType::Soa => {
            rs.push(
                Record {
                    owner: ctx.name.duplicate(),
                    ttl: 60,
                    data: RecordData::Soa {
                        mname: config.soa_mname.duplicate(),
                        rname: config.soa_rname.duplicate(),
                        serial: config.soa_serial,
                        refresh: config.soa_refresh,
                        retry: config.soa_retry,
                        expire: config.soa_expire,
                        minimum: config.soa_minimum,
                    },
                },
            );
        },
        _ => {},
    }
    rs
}

} // verus!
