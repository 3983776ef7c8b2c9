//! The record data the synthesizers produce: owner name, time to live,
//! and typed record data.

use vstd::prelude::*;

use crate::name::DnsName;

verus! {

/// Data of one synthesized resource record.
#[derive(Clone, PartialEq, Eq, Debug)]
pub enum RecordData {
    /// An IPv4 address, four octets.
    A { addr: Vec<u8> },
    /// An IPv6 address, sixteen octets.
    Aaaa { addr: Vec<u8> },
    /// Character strings of a TXT record.
    Txt { texts: Vec<String> },
    /// A nameserver record's target name.
    Ns { target: DnsName },
    /// A start-of-authority record.
    Soa {
        mname: DnsName,
        rname: DnsName,
        serial: u32,
        refresh: i32,
        retry: i32,
        expire: i32,
        minimum: u32,
    },
}

/// One synthesized resource record.
#[derive(Clone, PartialEq, Eq, Debug)]
pub struct Record {
    /// Owner name; the synthesizers always use the queried name.
    pub owner: DnsName,
    /// Time to live, in seconds.
    pub ttl: u32,
    pub data: RecordData,
}

/// The record is a TXT record with the given owner, time to live, and
/// exactly the given character strings.
pub open spec fn is_txt_record(r: Record, owner: Seq<Seq<u8>>, ttl: u32, texts: Seq<Seq<char>>) -> bool {
    &&& r.owner@ == owner
    &&& r.ttl == ttl
    &&& match r.data {
        RecordData::Txt { texts: t } => t@.map_values(|s: String| s@) == texts,
        _ => false,
    }
}

/// The record set is one TXT record with a single character string.
pub open spec fn is_single_txt(
    rs: Seq<Record>,
    owner: Seq<Seq<u8>>,
    ttl: u32,
    text: Seq<char>,
) -> bool {
    rs.len() == 1 && is_txt_record(rs[0], owner, ttl, seq![text])
}

/// Builds the one-record answer every diagnostic zone uses: a single TXT
/// record owning the queried name.
pub fn single_txt(owner: &DnsName, ttl: u32, text: String) -> (rs: Vec<Record>)
    ensures
        is_single_txt(rs@, owner@, ttl, text@),
{
    let ghost t = text@;
    let mut texts: Vec<String> = Vec::new();
    texts.push(text);
    let rec = Record { owner: owner.duplicate(), ttl, data: RecordData::Txt { texts } };
    let mut rs: Vec<Record> = Vec::new();
    rs.push(rec);
    proof {
        let m = rs@[0].data->Txt_texts@.map_values(|s: String| s@);
        assert(m =~= seq![t]);
    }
    rs
}

} // verus!
