//! The request router: validates the opcode and message type, matches
//! the queried name against the configured zones in a fixed precedence
//! order (most specific first, the root last, since the root's suffix
//! would otherwise shadow every other zone), and invokes the matching
//! synthesizer. The counter advances exactly once per successfully
//! routed query.

use vstd::prelude::*;

use crate::config::counter_label;
use crate::config::edns_label;
use crate::config::ednscs_label;
use crate::config::help_label;
use crate::config::myaddr_label;
use crate::config::myip_label;
use crate::config::myport_label;
use crate::config::protocol_label;
use crate::config::random_label;
use crate::config::timestamp0_label;
use crate::config::timestamp_label;
use crate::config::version_label;
use crate::config::RouterConfig;
use crate::counter::wrap_inc;
use crate::counter::QueryCounter;
use crate::name::is_zone_of;
use crate::name::DnsName;
use crate::records::is_single_txt;
use crate::records::Record;
use crate::request::MessageType;
use crate::request::OpCode;
use crate::request::RequestContext;
use crate::request::RouterError;
use crate::synth::edns_outcome_ok;
use crate::synth::ednscs_outcome_ok;
use crate::synth::help_chars;
use crate::synth::myaddr_records_ok;
use crate::synth::myip_records_ok;
use crate::synth::protocol_chars;
use crate::synth::random_records_ok;
use crate::synth::root_records_ok;
use crate::synth::synth_counter;
use crate::synth::synth_edns;
use crate::synth::synth_ednscs;
use crate::synth::synth_help;
use crate::synth::synth_myaddr;
use crate::synth::synth_myip;
use crate::synth::synth_myport;
use crate::synth::synth_protocol;
use crate::synth::synth_random;
use crate::synth::synth_root;
use crate::synth::synth_timestamp;
use crate::synth::synth_version;
use crate::synth::version_chars;
use crate::text::dec_chars;

verus! {

/// The virtual zones the responder recognizes.
#[derive(Clone, Copy, PartialEq, Eq, Structural, Debug)]
pub enum ZoneKind {
    Root,
    Counter,
    MyIp,
    MyPort,
    MyAddr,
    Help,
    Random,
    Edns,
    EdnsClientSubnet,
    Timestamp,
    TimestampZeroTtl,
    Protocol,
    Version,
}

/// The fixed label a non-root zone adds to the base domain.
pub open spec fn zone_label_of(z: ZoneKind) -> Seq<u8> {
    match z {
        ZoneKind::Root => Seq::empty(),
        ZoneKind::Counter => counter_label(),
        ZoneKind::MyIp => myip_label(),
        ZoneKind::MyPort => myport_label(),
        ZoneKind::MyAddr => myaddr_label(),
        ZoneKind::Help => help_label(),
        ZoneKind::Random => random_label(),
        ZoneKind::Edns => edns_label(),
        ZoneKind::EdnsClientSubnet => ednscs_label(),
        ZoneKind::Timestamp => timestamp_label(),
        ZoneKind::TimestampZeroTtl => timestamp0_label(),
        ZoneKind::Protocol => protocol_label(),
        ZoneKind::Version => version_label(),
    }
}

/// The configured name of a zone.
pub open spec fn zone_name_of(c: RouterConfig, z: ZoneKind) -> Seq<Seq<u8>> {
    match z {
        ZoneKind::Root => c.root_zone@,
        ZoneKind::Counter => c.counter_zone@,
        ZoneKind::MyIp => c.myip_zone@,
        ZoneKind::MyPort => c.myport_zone@,
        ZoneKind::MyAddr => c.myaddr_zone@,
        ZoneKind::Help => c.help_zone@,
        ZoneKind::Random => c.random_zone@,
        ZoneKind::Edns => c.edns_zone@,
        ZoneKind::EdnsClientSubnet => c.ednscs_zone@,
        ZoneKind::Timestamp => c.timestamp_zone@,
        ZoneKind::TimestampZeroTtl => c.timestamp0_zone@,
        ZoneKind::Protocol => c.protocol_zone@,
        ZoneKind::Version => c.version_zone@,
    }
}

/// The zone a queried name belongs to: ordered suffix matching, most
/// specific zones first, the root last.
pub open spec fn zone_for(c: RouterConfig, name: Seq<Seq<u8>>) -> Option<ZoneKind> {
    if is_zone_of(c.counter_zone@, name) {
        Some(ZoneKind::Counter)
    } else if is_zone_of(c.myip_zone@, name) {
        Some(ZoneKind::MyIp)
    } else if is_zone_of(c.myport_zone@, name) {
        Some(ZoneKind::MyPort)
    } else if is_zone_of(c.myaddr_zone@, name) {
        Some(ZoneKind::MyAddr)
    } else if is_zone_of(c.help_zone@, name) {
        Some(ZoneKind::Help)
    } else if is_zone_of(c.random_zone@, name) {
        Some(ZoneKind::Random)
    } else if is_zone_of(c.edns_zone@, name) {
        Some(ZoneKind::Edns)
    } else if is_zone_of(c.ednscs_zone@, name) {
        Some(ZoneKind::EdnsClientSubnet)
    } else if is_zone_of(c.timestamp_zone@, name) {
        Some(ZoneKind::Timestamp)
    } else if is_zone_of(c.timestamp0_zone@, name) {
        Some(ZoneKind::TimestampZeroTtl)
    } else if is_zone_of(c.protocol_zone@, name) {
        Some(ZoneKind::Protocol)
    } else if is_zone_of(c.version_zone@, name) {
        Some(ZoneKind::Version)
    } else if is_zone_of(c.root_zone@, name) {
        Some(ZoneKind::Root)
    } else {
        None
    }
}

/// Matches a queried name against the configured zones, exactly as
/// `zone_for` describes.
pub fn match_zone(config: &RouterConfig, name: &DnsName) -> (r: Option<ZoneKind>)
    ensures
        r == zone_for(*config, name@),
{
    if config.counter_zone.zone_of(name) {
        Some(ZoneKind::Counter)
    } else if config.myip_zone.zone_of(name) {
        Some(ZoneKind::MyIp)
    } else if config.myport_zone.zone_of(name) {
        Some(ZoneKind::MyPort)
    } else if config.myaddr_zone.zone_of(name) {
        Some(ZoneKind::MyAddr)
    } else if config.help_zone.zone_of(name) {
        Some(ZoneKind::Help)
    } else if config.random_zone.zone_of(name) {
        Some(ZoneKind::Random)
    } else if config.edns_zone.zone_of(name) {
        Some(ZoneKind::Edns)
    } else if config.ednscs_zone.zone_of(name) {
        Some(ZoneKind::EdnsClientSubnet)
    } else if config.timestamp_zone.zone_of(name) {
        Some(ZoneKind::Timestamp)
    } else if config.timestamp0_zone.zone_of(name) {
        Some(ZoneKind::TimestampZeroTtl)
    } else if config.protocol_zone.zone_of(name) {
        Some(ZoneKind::Protocol)
    } else if config.version_zone.zone_of(name) {
        Some(ZoneKind::Version)
    } else if config.root_zone.zone_of(name) {
        Some(ZoneKind::Root)
    } else {
        None
    }
}

/// Everything `route` promises of its result, given the counter value
/// before the call and the caller-supplied clock reading.
pub open spec fn route_post(
    c: RouterConfig,
    ctx: RequestContext,
    r: Result<Vec<Record>, RouterError>,
    count0: u64,
    now_millis: u64,
) -> bool {
    if ctx.op_code != OpCode::Query {
        r == Err::<Vec<Record>, RouterError>(RouterError::InvalidOpCode(ctx.op_code))
    } else if ctx.message_type != MessageType::Query {
        r == Err::<Vec<Record>, RouterError>(RouterError::InvalidMessageType(ctx.message_type))
    } else {
        match zone_for(c, ctx.name@) {
            None => r matches Err(RouterError::InvalidZone(n)) && n@ == ctx.name@,
            Some(z) => match z {
                ZoneKind::Counter => r matches Ok(rs) && is_single_txt(
                    rs@,
                    ctx.name@,
                    c.ttl,
                    dec_chars(count0 as nat),
                ),
                ZoneKind::MyIp => r matches Ok(rs) && myip_records_ok(rs@, ctx, c),
                ZoneKind::MyPort => r matches Ok(rs) && is_single_txt(
                    rs@,
                    ctx.name@,
                    c.ttl,
                    dec_chars(ctx.src_port as nat),
                ),
                ZoneKind::MyAddr => r matches Ok(rs) && myaddr_records_ok(rs@, ctx, c),
                ZoneKind::Help => r matches Ok(rs) && is_single_txt(
                    rs@,
                    ctx.name@,
                    c.ttl,
                    help_chars(),
                ),
                ZoneKind::Random => r matches Ok(rs) && random_records_ok(rs@, ctx, c),
                ZoneKind::Edns => edns_outcome_ok(r, ctx, c),
                ZoneKind::EdnsClientSubnet => ednscs_outcome_ok(r, ctx, c),
                ZoneKind::Timestamp => r matches Ok(rs) && is_single_txt(
                    rs@,
                    ctx.name@,
                    c.ttl,
                    dec_chars(now_millis as nat),
                ),
                ZoneKind::TimestampZeroTtl => r matches Ok(rs) && is_single_txt(
                    rs@,
                    ctx.name@,
                    0u32,
                    dec_chars(now_millis as nat),
                ),
                ZoneKind::Protocol => r matches Ok(rs) && is_single_txt(
                    rs@,
                    ctx.name@,
                    c.ttl,
                    protocol_chars(ctx.transport, ctx.src_ip),
                ),
                ZoneKind::Version => r matches Ok(rs) && is_single_txt(
                    rs@,
                    ctx.name@,
                    c.ttl,
                    version_chars(),
                ),
                ZoneKind::Root => r matches Ok(rs) && root_records_ok(rs@, ctx, c),
            },
        }
    }
}

/// Routes one query: validates it, selects the zone, synthesizes the
/// answer, and advances the counter exactly once if and only if the
/// query was routed successfully. The caller supplies the clock reading
/// `now_millis` (Unix epoch milliseconds) the timestamp zones report.
pub fn route(
    config: &RouterConfig,
    counter: &mut QueryCounter,
    ctx: &RequestContext,
    now_millis: u64,
) -> (r: Result<Vec<Record>, RouterError>)
    requires
        config.wf(),
        ctx.wf(),
    ensures
        route_post(*config, *ctx, r, old(counter).count, now_millis),
        r is Ok ==> final(counter).count == wrap_inc(old(counter).count),
        r is Err ==> final(counter).count == old(counter).count,
{
    if ctx.op_code != OpCode::Query {
        return Err(RouterError::InvalidOpCode(ctx.op_code));
    }
    if ctx.message_type != MessageType::Query {
        return Err(RouterError::InvalidMessageType(ctx.message_type));
    }
    match match_zone(config, &ctx.name) {
        None => Err(RouterError::InvalidZone(ctx.name.duplicate())),
        Some(ZoneKind::Counter) => {
            let prev = counter.bump();
            Ok(synth_counter(ctx, config, prev))
        },
        Some(ZoneKind::MyIp) => {
            let rs = synth_myip(ctx, config);
            counter.bump();
            Ok(rs)
        },
        Some(ZoneKind::MyPort) => {
            let rs = synth_myport(ctx, config);
            counter.bump();
            Ok(rs)
        },
        Some(ZoneKind::MyAddr) => {
            let rs = synth_myaddr(ctx, config);
            counter.bump();
            Ok(rs)
        },
        Some(ZoneKind::Help) => {
            let rs = synth_help(ctx, config);
            counter.bump();
            Ok(rs)
        },
        Some(ZoneKind::Random) => {
            let rs = synth_random(ctx, config);
            counter.bump();
            Ok(rs)
        },
        Some(ZoneKind::Edns) => {
            if ctx.edns.is_some() {
                let rs = synth_edns(ctx, config);
                counter.bump();
                Ok(rs)
            } else {
                Err(RouterError::InvalidZone(ctx.name.duplicate()))
            }
        },
        Some(ZoneKind::EdnsClientSubnet) => {
            match synth_ednscs(ctx, config) {
                Ok(rs) => {
                    counter.bump();
                    Ok(rs)
                },
                Err(e) => Err(e),
            }
        },
        Some(ZoneKind::Timestamp) => {
            let rs = synth_timestamp(ctx, config, now_millis, false);
            counter.bump();
            Ok(rs)
        },
        Some(ZoneKind::TimestampZeroTtl) => {
            let rs = synth_timestamp(ctx, config, now_millis, true);
            counter.bump();
            Ok(rs)
        },
        Some(ZoneKind::Protocol) => {
            let rs = synth_protocol(ctx, config);
            counter.bump();
            Ok(rs)
        },
        Some(ZoneKind::Version) => {
            let rs = synth_version(ctx, config);
            counter.bump();
            Ok(rs)
        },
        Some(ZoneKind::Root) => {
            let rs = synth_root(ctx, config);
            counter.bump();
            Ok(rs)
        },
    }
}

/// Under a well-formed configuration each non-root zone name is its
/// fixed label prepended to the base domain.
proof fn lemma_zone_shape(c: RouterConfig, z: ZoneKind)
    requires
        c.wf(),
        z != ZoneKind::Root,
    ensures
        zone_name_of(c, z) == seq![zone_label_of(z)] + c.root_zone@,
{
}

/// The fixed labels of distinct non-root zones differ.
proof fn lemma_zone_labels_distinct(z1: ZoneKind, z2: ZoneKind)
    requires
        z1 != z2,
        z1 != ZoneKind::Root,
        z2 != ZoneKind::Root,
    ensures
        zone_label_of(z1) != zone_label_of(z2),
{
    reveal_strlit("counter");
    reveal_strlit("myip");
    reveal_strlit("myport");
    reveal_strlit("myaddr");
    reveal_strlit("help");
    reveal_strlit("random");
    reveal_strlit("edns");
    reveal_strlit("edns-cs");
    reveal_strlit("timestamp");
    reveal_strlit("timestamp0");
    reveal_strlit("protocol");
    reveal_strlit("version");
    assert(counter_label().len() == 7);
    assert(myip_label().len() == 4);
    assert(myport_label().len() == 6);
    assert(myaddr_label().len() == 6);
    assert(help_label().len() == 4);
    assert(random_label().len() == 6);
    assert(edns_label().len() == 4);
    assert(ednscs_label().len() == 7);
    assert(timestamp_label().len() == 9);
    assert(timestamp0_label().len() == 10);
    assert(protocol_label().len() == 8);
    assert(version_label().len() == 7);
    assert(counter_label()[0] == 99);
    assert(ednscs_label()[0] == 101);
    assert(version_label()[0] == 118);
    assert(myport_label()[0] == 109);
    assert(myaddr_label()[0] == 109);
    assert(random_label()[0] == 114);
    assert(myport_label()[2] == 112);
    assert(myaddr_label()[2] == 97);
    assert(myip_label()[0] == 109);
    assert(help_label()[0] == 104);
    assert(edns_label()[0] == 101);
}

/// Two distinct non-root zones never both claim one name: their names
/// have the same length, so a name under both would make their fixed
/// labels coincide.
proof fn lemma_non_root_zones_exclusive(
    c: RouterConfig,
    name: Seq<Seq<u8>>,
    z1: ZoneKind,
    z2: ZoneKind,
)
    requires
        c.wf(),
        z1 != z2,
        z1 != ZoneKind::Root,
        z2 != ZoneKind::Root,
        is_zone_of(zone_name_of(c, z1), name),
    ensures
        !is_zone_of(zone_name_of(c, z2), name),
{
    if is_zone_of(zone_name_of(c, z2), name) {
        let n1 = zone_name_of(c, z1);
        let n2 = zone_name_of(c, z2);
        lemma_zone_shape(c, z1);
        lemma_zone_shape(c, z2);
        assert(n1.len() == n2.len());
        assert(n1[0] == zone_label_of(z1));
        assert(n2[0] == zone_label_of(z2));
        assert(n1[0] == name[name.len() - n1.len()]);
        assert(n2[0] == name[name.len() - n2.len()]);
        lemma_zone_labels_distinct(z1, z2);
        assert(false);
    }
}

/// Routing is exclusive: a name belonging to a configured non-root zone
/// routes to that zone's synthesizer and to no other.
pub proof fn lemma_routing_selects_zone(c: RouterConfig, name: Seq<Seq<u8>>, z: ZoneKind)
    requires
        c.wf(),
        z != ZoneKind::Root,
        is_zone_of(zone_name_of(c, z), name),
    ensures
        zone_for(c, name) == Some(z),
{
    if z != ZoneKind::Counter {
        lemma_non_root_zones_exclusive(c, name, z, ZoneKind::Counter);
        assert(!is_zone_of(c.counter_zone@, name));
    }
    if z != ZoneKind::MyIp {
        lemma_non_root_zones_exclusive(c, name, z, ZoneKind::MyIp);
        assert(!is_zone_of(c.myip_zone@, name));
    }
    if z != ZoneKind::MyPort {
        lemma_non_root_zones_exclusive(c, name, z, ZoneKind::MyPort);
        assert(!is_zone_of(c.myport_zone@, name));
    }
    if z != ZoneKind::MyAddr {
        lemma_non_root_zones_exclusive(c, name, z, ZoneKind::MyAddr);
        assert(!is_zone_of(c.myaddr_zone@, name));
    }
    if z != ZoneKind::Help {
        lemma_non_root_zones_exclusive(c, name, z, ZoneKind::Help);
        assert(!is_zone_of(c.help_zone@, name));
    }
    if z != ZoneKind::Random {
        lemma_non_root_zones_exclusive(c, name, z, ZoneKind::Random);
        assert(!is_zone_of(c.random_zone@, name));
    }
    if z != ZoneKind::Edns {
        lemma_non_root_zones_exclusive(c, name, z, ZoneKind::Edns);
        assert(!is_zone_of(c.edns_zone@, name));
    }
    if z != ZoneKind::EdnsClientSubnet {
        lemma_non_root_zones_exclusive(c, name, z, ZoneKind::EdnsClientSubnet);
        assert(!is_zone_of(c.ednscs_zone@, name));
    }
    if z != ZoneKind::Timestamp {
        lemma_non_root_zones_exclusive(c, name, z, ZoneKind::Timestamp);
        assert(!is_zone_of(c.timestamp_zone@, name));
    }
    if z != ZoneKind::TimestampZeroTtl {
        lemma_non_root_zones_exclusive(c, name, z, ZoneKind::TimestampZeroTtl);
        assert(!is_zone_of(c.timestamp0_zone@, name));
    }
    if z != ZoneKind::Protocol {
        lemma_non_root_zones_exclusive(c, name, z, ZoneKind::Protocol);
        assert(!is_zone_of(c.protocol_zone@, name));
    }
    if z != ZoneKind::Version {
        lemma_non_root_zones_exclusive(c, name, z, ZoneKind::Version);
        assert(!is_zone_of(c.version_zone@, name));
    }
}

/// A query for the base domain itself routes to the root zone: every
/// non-root zone name is longer than the base domain.
pub proof fn lemma_root_routes_home(c: RouterConfig)
    requires
        c.wf(),
    ensures
        zone_for(c, c.root_zone@) == Some(ZoneKind::Root),
{
    assert(c.counter_zone@.len() > c.root_zone@.len());
    assert(c.myip_zone@.len() > c.root_zone@.len());
    assert(c.myport_zone@.len() > c.root_zone@.len());
    assert(c.myaddr_zone@.len() > c.root_zone@.len());
    assert(c.help_zone@.len() > c.root_zone@.len());
    assert(c.random_zone@.len() > c.root_zone@.len());
    assert(c.edns_zone@.len() > c.root_zone@.len());
    assert(c.ednscs_zone@.len() > c.root_zone@.len());
    assert(c.timestamp_zone@.len() > c.root_zone@.len());
    assert(c.timestamp0_zone@.len() > c.root_zone@.len());
    assert(c.protocol_zone@.len() > c.root_zone@.len());
    assert(c.version_zone@.len() > c.root_zone@.len());
    assert(is_zone_of(c.root_zone@, c.root_zone@));
}

/// Every configured zone name routes to its own zone.
pub proof fn lemma_zone_names_route_home(c: RouterConfig, z: ZoneKind)
    requires
        c.wf(),
    ensures
        zone_for(c, zone_name_of(c, z)) == Some(z),
{
    if z == ZoneKind::Root {
        lemma_root_routes_home(c);
    } else {
        assert(is_zone_of(zone_name_of(c, z), zone_name_of(c, z)));
        lemma_routing_selects_zone(c, zone_name_of(c, z), z);
    }
}

/// Suffix matching is transitive: a name under a zone is also under
/// every suffix of that zone.
proof fn lemma_zone_of_transitive(a: Seq<Seq<u8>>, b: Seq<Seq<u8>>, n: Seq<Seq<u8>>)
    requires
        is_zone_of(a, b),
        is_zone_of(b, n),
    ensures
        is_zone_of(a, n),
{
    assert forall|i: int| 0 <= i < a.len() implies a[i] == n[n.len() - a.len() + i] by {
        assert(a[i] == b[b.len() - a.len() + i]);
        assert(b[b.len() - a.len() + i] == n[n.len() - b.len() + (b.len() - a.len() + i)]);
    }
}

/// A query goes unrouted (and yields the invalid-zone error) exactly
/// when its name lies outside the base domain: every non-root zone lies
/// under the base domain, and a name under the base domain always at
/// least reaches the root zone.
pub proof fn lemma_unrouted_iff_outside_base(c: RouterConfig, name: Seq<Seq<u8>>)
    requires
        c.wf(),
    ensures
        zone_for(c, name) is None <==> !is_zone_of(c.root_zone@, name),
{
    if is_zone_of(c.root_zone@, name) {
        return ;
    }
    assert forall|z: ZoneKind| z != ZoneKind::Root implies !is_zone_of(
        zone_name_of(c, z),
        name,
    ) by {
        if is_zone_of(zone_name_of(c, z), name) {
            lemma_zone_shape(c, z);
            assert(is_zone_of(c.root_zone@, zone_name_of(c, z)));
            lemma_zone_of_transitive(c.root_zone@, zone_name_of(c, z), name);
        }
    }
    assert(!is_zone_of(zone_name_of(c, ZoneKind::Counter), name));
    assert(!is_zone_of(zone_name_of(c, ZoneKind::MyIp), name));
    assert(!is_zone_of(zone_name_of(c, ZoneKind::MyPort), name));
    assert(!is_zone_of(zone_name_of(c, ZoneKind::MyAddr), name));
    assert(!is_zone_of(zone_name_of(c, ZoneKind::Help), name));
    assert(!is_zone_of(zone_name_of(c, ZoneKind::Random), name));
    assert(!is_zone_of(zone_name_of(c, ZoneKind::Edns), name));
    assert(!is_zone_of(zone_name_of(c, ZoneKind::EdnsClientSubnet), name));
    assert(!is_zone_of(zone_name_of(c, ZoneKind::Timestamp), name));
    assert(!is_zone_of(zone_name_of(c, ZoneKind::TimestampZeroTtl), name));
    assert(!is_zone_of(zone_name_of(c, ZoneKind::Protocol), name));
    assert(!is_zone_of(zone_name_of(c, ZoneKind::Version), name));
}

/// The counter zone observes the traffic: with no other queries in
/// between, two successfully routed counter queries report the number of
/// queries routed before each of them — first `v`, then `v + 1` — so the
/// observed values never decrease.
pub proof fn lemma_counter_zone_monotone(
    c: RouterConfig,
    ctx1: RequestContext,
    ctx2: RequestContext,
    r1: Result<Vec<Record>, RouterError>,
    r2: Result<Vec<Record>, RouterError>,
    v: u64,
    now1: u64,
    now2: u64,
)
    requires
        c.wf(),
        ctx1.op_code == OpCode::Query && ctx1.message_type == MessageType::Query,
        ctx2.op_code == OpCode::Query && ctx2.message_type == MessageType::Query,
        zone_for(c, ctx1.name@) == Some(ZoneKind::Counter),
        zone_for(c, ctx2.name@) == Some(ZoneKind::Counter),
        v < u64::MAX,
        route_post(c, ctx1, r1, v, now1),
        route_post(c, ctx2, r2, wrap_inc(v), now2),
    ensures
        r1 matches Ok(rs1) && is_single_txt(rs1@, ctx1.name@, c.ttl, dec_chars(v as nat)),
        r2 matches Ok(rs2) && is_single_txt(rs2@, ctx2.name@, c.ttl, dec_chars((v + 1) as nat)),
{
}

} // verus!
