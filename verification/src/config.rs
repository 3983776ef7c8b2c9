//! The zone registry: the immutable configuration built once at startup,
//! holding the base domain, the derived zone names, the response TTL,
//! and the NS/SOA data the root zone answers with.

use vstd::prelude::*;

use crate::name::encoded_len;
use crate::name::lemma_encoded_len_pos;
use crate::name::lemma_encoded_len_skip;
use crate::name::lower_bytes;
use crate::name::lower_char_byte;
use crate::name::name_char_ok;
use crate::name::parse_name;
use crate::name::parse_name_chars;
use crate::name::valid_label_chars;
use crate::name::wf_label;
use crate::name::wf_name;
use crate::name::DnsName;

verus! {

/// Label of the counter zone.
pub open spec fn counter_label() -> Seq<u8> {
    lower_bytes("counter"@)
}

/// Label of the source-address zone.
pub open spec fn myip_label() -> Seq<u8> {
    lower_bytes("myip"@)
}

/// Label of the source-port zone.
pub open spec fn myport_label() -> Seq<u8> {
    lower_bytes("myport"@)
}

/// Label of the source-address-and-port zone.
pub open spec fn myaddr_label() -> Seq<u8> {
    lower_bytes("myaddr"@)
}

/// Label of the help zone.
pub open spec fn help_label() -> Seq<u8> {
    lower_bytes("help"@)
}

/// Label of the random-data zone.
pub open spec fn random_label() -> Seq<u8> {
    lower_bytes("random"@)
}

/// Label of the EDNS-dump zone.
pub open spec fn edns_label() -> Seq<u8> {
    lower_bytes("edns"@)
}

/// Label of the client-subnet zone.
pub open spec fn ednscs_label() -> Seq<u8> {
    lower_bytes("edns-cs"@)
}

/// Label of the timestamp zone.
pub open spec fn timestamp_label() -> Seq<u8> {
    lower_bytes("timestamp"@)
}

/// Label of the zero-TTL timestamp zone.
pub open spec fn timestamp0_label() -> Seq<u8> {
    lower_bytes("timestamp0"@)
}

/// Label of the transport-protocol zone.
pub open spec fn protocol_label() -> Seq<u8> {
    lower_bytes("protocol"@)
}

/// Label of the build-version zone.
pub open spec fn version_label() -> Seq<u8> {
    lower_bytes("version"@)
}

/// The immutable router configuration, built once at startup.
#[derive(Clone, PartialEq, Eq, Debug)]
pub struct RouterConfig {
    /// The base domain itself.
    pub root_zone: DnsName,
    pub counter_zone: DnsName,
    pub myip_zone: DnsName,
    pub myport_zone: DnsName,
    pub myaddr_zone: DnsName,
    pub help_zone: DnsName,
    pub random_zone: DnsName,
    pub edns_zone: DnsName,
    pub ednscs_zone: DnsName,
    pub timestamp_zone: DnsName,
    pub timestamp0_zone: DnsName,
    pub protocol_zone: DnsName,
    pub version_zone: DnsName,
    /// Time to live for zone-specific diagnostic records, in seconds.
    pub ttl: u32,
    /// Target names of the root zone's NS records, in configured order.
    pub ns_names: Vec<DnsName>,
    /// Primary nameserver name of the root zone's SOA record.
    pub soa_mname: DnsName,
    /// Responsible mailbox name of the root zone's SOA record.
    pub soa_rname: DnsName,
    pub soa_serial: u32,
    pub soa_refresh: i32,
    pub soa_retry: i32,
    pub soa_expire: i32,
    pub soa_minimum: u32,
}

impl RouterConfig {
    /// Validity of the configuration: every zone name is well formed,
    /// each non-root zone is its fixed label prepended to the root
    /// domain, the NS/SOA names are well formed, and the signed SOA
    /// durations are non-negative.
    pub open spec fn wf(&self) -> bool {
        &&& self.root_zone.wf()
        &&& self.counter_zone@ == seq![counter_label()] + self.root_zone@
        &&& self.counter_zone.wf()
        &&& self.myip_zone@ == seq![myip_label()] + self.root_zone@
        &&& self.myip_zone.wf()
        &&& self.myport_zone@ == seq![myport_label()] + self.root_zone@
        &&& self.myport_zone.wf()
        &&& self.myaddr_zone@ == seq![myaddr_label()] + self.root_zone@
        &&& self.myaddr_zone.wf()
        &&& self.help_zone@ == seq![help_label()] + self.root_zone@
        &&& self.help_zone.wf()
        &&& self.random_zone@ == seq![random_label()] + self.root_zone@
        &&& self.random_zone.wf()
        &&& self.edns_zone@ == seq![edns_label()] + self.root_zone@
        &&& self.edns_zone.wf()
        &&& self.ednscs_zone@ == seq![ednscs_label()] + self.root_zone@
        &&& self.ednscs_zone.wf()
        &&& self.timestamp_zone@ == seq![timestamp_label()] + self.root_zone@
        &&& self.timestamp_zone.wf()
        &&& self.timestamp0_zone@ == seq![timestamp0_label()] + self.root_zone@
        &&& self.timestamp0_zone.wf()
        &&& self.protocol_zone@ == seq![protocol_label()] + self.root_zone@
        &&& self.protocol_zone.wf()
        &&& self.version_zone@ == seq![version_label()] + self.root_zone@
        &&& self.version_zone.wf()
        &&& forall|i: int| 0 <= i < self.ns_names@.len() ==> (#[trigger] self.ns_names@[i]).wf()
        &&& self.soa_mname.wf()
        &&& self.soa_rname.wf()
        &&& self.soa_refresh >= 0
        &&& self.soa_retry >= 0
        &&& self.soa_expire >= 0
    }
}

/// Why the registry cannot be built.
#[derive(Clone, Copy, PartialEq, Eq, Structural, Debug)]
pub enum BuildError {
    /// The base domain is not a syntactically valid DNS name.
    InvalidBaseDomain,
    /// A derived zone name would exceed the DNS name length limit.
    NameTooLong,
    /// An NS target name is not a syntactically valid DNS name.
    InvalidNsName,
    /// The SOA name list does not hold exactly the mailbox and primary
    /// names.
    SoaNameCount,
    /// An SOA name is not a syntactically valid DNS name.
    InvalidSoaName,
}

/// The text denotes a valid DNS name.
pub open spec fn good_name_text(s: Seq<char>) -> bool {
    parse_name_chars(s) is Some
}

/// Every text in the list denotes a valid DNS name.
pub open spec fn good_name_list(l: Seq<Seq<char>>) -> bool {
    forall|i: int| 0 <= i < l.len() ==> good_name_text(#[trigger] l[i])
}

/// The base domain is valid and short enough that every derived zone
/// name (its longest label is ten bytes) stays within the length limit.
pub open spec fn zones_fit(s: Seq<char>) -> bool {
    parse_name_chars(s) matches Some(bl) && encoded_len(bl) + 11 <= 255
}

/// The wire-format length of a well-formed name.
pub fn encoded_len_exec(n: &DnsName) -> (r: usize)
    requires
        n.wf(),
    ensures
        r == encoded_len(n@),
{
    let ghost all = n@;
    let mut acc: usize = 0;
    let mut k: usize = 0;
    proof {
        assert(all.skip(0) =~= all);
    }
    while k < n.labels.len()
        invariant
            n.wf(),
            all == n@,
            0 <= k <= n.labels@.len(),
            acc <= 254,
            acc + encoded_len(all.skip(k as int)) == encoded_len(all),
        decreases n.labels@.len() - k,
    {
        proof {
            lemma_encoded_len_skip(all, k as int);
            lemma_encoded_len_pos(all.skip(k as int + 1));
            assert(all[k as int] == n.labels@[k as int]@);
            assert(wf_label(all[k as int]));
        }
        acc = acc + (n.labels[k].len() + 1);
        k = k + 1;
    }
    proof {
        assert(all.skip(n.labels@.len() as int) =~= Seq::<Seq<u8>>::empty());
    }
    acc + 1
}

/// The canonical bytes of a zone label given as text.
fn label_bytes(label: &str) -> (r: Vec<u8>)
    requires
        forall|i: int| 0 <= i < label@.len() ==> name_char_ok(#[trigger] label@[i]),
    ensures
        r@ == lower_bytes(label@),
{
    let n = label.unicode_len();
    let mut r: Vec<u8> = Vec::new();
    let mut i: usize = 0;
    while i < n
        invariant
            n == label@.len(),
            forall|j: int| 0 <= j < label@.len() ==> name_char_ok(#[trigger] label@[j]),
            0 <= i <= n,
            r@ == lower_bytes(label@.take(i as int)),
        decreases n - i,
    {
        let c = label.get_char(i);
        proof {
            assert(name_char_ok(label@[i as int]));
        }
        let cp: u32 = c as u32;
        let b: u8 = if cp >= 65 && cp <= 90 {
            (cp + 32) as u8
        } else {
            cp as u8
        };
        proof {
            assert(b == lower_char_byte(c));
        }
        r.push(b);
        proof {
            assert(label@.take(i + 1) =~= label@.take(i as int).push(c));
            assert(r@ =~= lower_bytes(label@.take(i + 1))) by {
                assert(lower_bytes(label@.take(i as int).push(c)) =~= lower_bytes(
                    label@.take(i as int),
                ).push(lower_char_byte(c)));
            }
        }
        i = i + 1;
    }
    proof {
        assert(label@.take(n as int) =~= label@);
    }
    r
}

/// The zone name for a fixed label under the base domain.
fn make_zone(label: &str, base: &DnsName) -> (z: DnsName)
    requires
        base.wf(),
        valid_label_chars(label@),
        lower_bytes(label@).len() + 1 + encoded_len(base@) <= 255,
    ensures
        z@ == seq![lower_bytes(label@)] + base@,
        z.wf(),
{
    let lb = label_bytes(label);
    let mut z = base.duplicate();
    z.labels.insert(0, lb);
    proof {
        assert(z@ =~= seq![lower_bytes(label@)] + base@);
        assert(wf_name(z@)) by {
            assert(z@.drop_first() =~= base@);
            assert(z@[0] == lower_bytes(label@));
            assert(wf_label(lower_bytes(label@))) by {
                assert(lower_bytes(label@).len() == label@.len());
                assert forall|j: int| 0 <= j < lower_bytes(label@).len() implies crate::name::is_name_byte(
                    #[trigger] lower_bytes(label@)[j],
                ) by {
                    assert(lower_bytes(label@)[j] == lower_char_byte(label@[j]));
                    assert(name_char_ok(label@[j]));
                }
            }
            assert forall|i: int| 0 <= i < z@.len() implies wf_label(#[trigger] z@[i]) by {
                if i == 0 {
                } else {
                    assert(z@[i] == base@[i - 1]);
                    assert(wf_label(base@[i - 1]));
                }
            }
            assert(encoded_len(z@) == lower_bytes(label@).len() + 1 + encoded_len(base@));
        }
    }
    z
}

/// Builds the zone registry from the startup configuration.
///
/// Fails exactly when the base domain is not a valid DNS name, a derived
/// zone name would not fit the DNS length limit, an NS or SOA name is
/// not a valid DNS name, or the SOA list does not hold exactly two
/// names. No other validation is performed: NS and SOA names are stored
/// verbatim (canonicalized), not checked for resolvability.
pub fn build(
    base_domain: &str,
    ttl: u32,
    ns_names: &Vec<String>,
    soa_names: &Vec<String>,
    soa_serial: u32,
    soa_refresh: i32,
    soa_retry: i32,
    soa_expire: i32,
    soa_minimum: u32,
) -> (r: Result<RouterConfig, BuildError>)
    requires
        soa_refresh >= 0,
        soa_retry >= 0,
        soa_expire >= 0,
    ensures
        ({
            let base = base_domain@;
            let ns = ns_names@.map_values(|s: String| s@);
            let soa = soa_names@.map_values(|s: String| s@);
            match r {
                Ok(c) => {
                    &&& zones_fit(base)
                    &&& good_name_list(ns)
                    &&& soa.len() == 2
                    &&& good_name_text(soa[0])
                    &&& good_name_text(soa[1])
                    &&& c.wf()
                    &&& parse_name_chars(base) == Some(c.root_zone@)
                    &&& c.ttl == ttl
                    &&& c.ns_names@.len() == ns.len()
                    &&& forall|i: int|
                        0 <= i < ns.len() ==> parse_name_chars(ns[i]) == Some(
                            (#[trigger] c.ns_names@[i])@,
                        )
                    &&& parse_name_chars(soa[0]) == Some(c.soa_mname@)
                    &&& parse_name_chars(soa[1]) == Some(c.soa_rname@)
                    &&& c.soa_serial == soa_serial
                    &&& c.soa_refresh == soa_refresh
                    &&& c.soa_retry == soa_retry
                    &&& c.soa_expire == soa_expire
                    &&& c.soa_minimum == soa_minimum
                },
                Err(e) => {
                    &&& (e == BuildError::InvalidBaseDomain <==> !good_name_text(base))
                    &&& (e == BuildError::NameTooLong <==> good_name_text(base) && !zones_fit(
                        base,
                    ))
                    &&& (e == BuildError::InvalidNsName <==> zones_fit(base) && !good_name_list(
                        ns,
                    ))
                    &&& (e == BuildError::SoaNameCount <==> zones_fit(base) && good_name_list(ns)
                        && soa.len() != 2)
                    &&& (e == BuildError::InvalidSoaName <==> zones_fit(base) && good_name_list(ns)
                        && soa.len() == 2 && !(good_name_text(soa[0]) && good_name_text(soa[1])))
                },
            }
        }),
{
    proof {
        reveal_strlit("counter");
        reveal_strlit("myip");
        reveal_strlit("myport");
        reveal_strlit("myaddr");
        reveal_strlit("help");
        reveal_strlit("random");
        reveal_strlit("edns");
        reveal_strlit("edns-cs");
        reveal_strlit("timestamp");
        reveal_strlit("timestamp0");
        reveal_strlit("protocol");
        reveal_strlit("version");
        assert(valid_label_chars("counter"@) && "counter"@.len() <= 10);
        assert(valid_label_chars("myip"@) && "myip"@.len() <= 10);
        assert(valid_label_chars("myport"@) && "myport"@.len() <= 10);
        assert(valid_label_chars("myaddr"@) && "myaddr"@.len() <= 10);
        assert(valid_label_chars("help"@) && "help"@.len() <= 10);
        assert(valid_label_chars("random"@) && "random"@.len() <= 10);
        assert(valid_label_chars("edns"@) && "edns"@.len() <= 10);
        assert(valid_label_chars("edns-cs"@) && "edns-cs"@.len() <= 10);
        assert(valid_label_chars("timestamp"@) && "timestamp"@.len() <= 10);
        assert(valid_label_chars("timestamp0"@) && "timestamp0"@.len() <= 10);
        assert(valid_label_chars("protocol"@) && "protocol"@.len() <= 10);
        assert(valid_label_chars("version"@) && "version"@.len() <= 10);
    }
    let root_zone = match parse_name(base_domain) {
        Some(b) => b,
        None => {
            return Err(BuildError::InvalidBaseDomain);
        },
    };
    let base_len = encoded_len_exec(&root_zone);
    if base_len + 11 > 255 {
        return Err(BuildError::NameTooLong);
    }
    let counter_zone = make_zone("counter", &root_zone);
    let myip_zone = make_zone("myip", &root_zone);
    let myport_zone = make_zone("myport", &root_zone);
    let myaddr_zone = make_zone("myaddr", &root_zone);
    let help_zone = make_zone("help", &root_zone);
    let random_zone = make_zone("random", &root_zone);
    let edns_zone = make_zone("edns", &root_zone);
    let ednscs_zone = make_zone("edns-cs", &root_zone);
    let timestamp_zone = make_zone("timestamp", &root_zone);
    let timestamp0_zone = make_zone("timestamp0", &root_zone);
    let protocol_zone = make_zone("protocol", &root_zone);
    let version_zone = make_zone("version", &root_zone);
    let mut ns: Vec<DnsName> = Vec::new();
    let mut i: usize = 0;
    while i < ns_names.len()
        invariant
            0 <= i <= ns_names@.len(),
            ns@.len() == i,
            zones_fit(base_domain@),
            forall|j: int|
                0 <= j < i ==> parse_name_chars(ns_names@[j]@) == Some((#[trigger] ns@[j])@)
                    && ns@[j].wf(),
        decreases ns_names@.len() - i,
    {
        match parse_name(ns_names[i].as_str()) {
            Some(n) => {
                ns.push(n);
            },
            None => {
                proof {
                    let nsv = ns_names@.map_values(|s: String| s@);
                    assert(nsv[i as int] == ns_names@[i as int]@);
                    assert(!good_name_text(nsv[i as int]));
                }
                return Err(BuildError::InvalidNsName);
            },
        }
        i = i + 1;
    }
    proof {
        let nsv = ns_names@.map_values(|s: String| s@);
        assert(good_name_list(nsv)) by {
            assert forall|j: int| 0 <= j < nsv.len() implies good_name_text(#[trigger] nsv[j]) by {
                assert(nsv[j] == ns_names@[j]@);
                assert(parse_name_chars(ns_names@[j]@) == Some(ns@[j]@));
            }
        }
    }
    if soa_names.len() != 2 {
        return Err(BuildError::SoaNameCount);
    }
    let soa_mname = match parse_name(soa_names[0].as_str()) {
        Some(n) => n,
        None => {
            proof {
                let soav = soa_names@.map_values(|s: String| s@);
                assert(soav[0] == soa_names@[0]@);
            }
            return Err(BuildError::InvalidSoaName);
        },
    };
    let soa_rname = match parse_name(soa_names[1].as_str()) {
        Some(n) => n,
        None => {
            proof {
                let soav = soa_names@.map_values(|s: String| s@);
                assert(soav[1] == soa_names@[1]@);
            }
            return Err(BuildError::InvalidSoaName);
        },
    };
    proof {
        let soav = soa_names@.map_values(|s: String| s@);
        assert(soav[0] == soa_names@[0]@);
        assert(soav[1] == soa_names@[1]@);
    }
    let c = RouterConfig {
        root_zone,
        counter_zone,
        myip_zone,
        myport_zone,
        myaddr_zone,
        help_zone,
        random_zone,
        edns_zone,
        ednscs_zone,
        timestamp_zone,
        timestamp0_zone,
        protocol_zone,
        version_zone,
        ttl,
        ns_names: ns,
        soa_mname,
        soa_rname,
        soa_serial,
        soa_refresh,
        soa_retry,
        soa_expire,
        soa_minimum,
    };
    proof {
        let nsv = ns_names@.map_values(|s: String| s@);
        assert forall|j: int| 0 <= j < nsv.len() implies parse_name_chars(nsv[j]) == Some(
            (#[trigger] c.ns_names@[j])@,
        ) by {
            assert(nsv[j] == ns_names@[j]@);
        }
    }
    Ok(c)
}

} // verus!
