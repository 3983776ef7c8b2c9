//! The read-only per-query view the protocol engine hands to the router,
//! and the errors the router answers with.

use vstd::prelude::*;

use crate::name::DnsName;

verus! {

/// DNS operation codes.
#[derive(Clone, Copy, PartialEq, Eq, Structural, Debug)]
pub enum OpCode {
    Query,
    Status,
    Notify,
    Update,
}

/// Whether a message is a query or a response.
#[derive(Clone, Copy, PartialEq, Eq, Structural, Debug)]
pub enum MessageType {
    Query,
    Response,
}

/// Queried record types the synthesizers distinguish; any other type is
/// carried by its numeric code.
#[derive(Clone, Copy, PartialEq, Eq, Structural, Debug)]
pub enum RecordType {
    A,
    Aaaa,
    Txt,
    Ns,
    Soa,
    Other(u16),
}

/// The transport a query arrived over.
#[derive(Clone, Copy, PartialEq, Eq, Structural, Debug)]
pub enum Transport {
    Udp,
    Tcp,
    Tls,
    Https,
    Quic,
}

/// A source address, already parsed to plain bytes.
#[derive(Clone, PartialEq, Eq, Debug)]
pub enum IpAddress {
    V4 { octets: Vec<u8> },
    V6 { octets: Vec<u8> },
}

impl IpAddress {
    /// Full address width for the family.
    pub open spec fn wf(&self) -> bool {
        match self {
            IpAddress::V4 { octets } => octets@.len() == 4,
            IpAddress::V6 { octets } => octets@.len() == 16,
        }
    }
}

/// EDNS metadata of a query, as the router reads it.
#[derive(Clone, PartialEq, Eq, Debug)]
pub struct EdnsInfo {
    /// EDNS version advertised by the client.
    pub version: u8,
    /// The DNSSEC-OK flag.
    pub dnssec_ok: bool,
    /// The client's maximum UDP payload size.
    pub max_payload: u16,
    /// Raw bytes of the client-subnet option, when the query carries one.
    pub client_subnet: Option<Vec<u8>>,
}

/// A parsed incoming query with its transport metadata.
#[derive(Clone, PartialEq, Eq, Debug)]
pub struct RequestContext {
    pub op_code: OpCode,
    pub message_type: MessageType,
    /// The queried name, canonicalized.
    pub name: DnsName,
    pub query_type: RecordType,
    pub transport: Transport,
    pub src_ip: IpAddress,
    pub src_port: u16,
    /// EDNS metadata, when the query carries any.
    pub edns: Option<EdnsInfo>,
}

impl RequestContext {
    /// Validity of the context: a well-formed name and a full-width
    /// source address.
    pub open spec fn wf(&self) -> bool {
        self.name.wf() && self.src_ip.wf()
    }
}

/// Why the router refuses a query. Each failed query yields exactly one
/// of these; the caller maps them all to a server-failure response.
#[derive(Clone, PartialEq, Eq, Debug)]
pub enum RouterError {
    /// The opcode is not a standard query.
    InvalidOpCode(OpCode),
    /// The message is not a query.
    InvalidMessageType(MessageType),
    /// The name matches no configured zone, or a zone that needs EDNS
    /// data was queried without it.
    InvalidZone(DnsName),
    /// The client-subnet option bytes do not decode.
    DecodeFailure,
}

} // verus!
