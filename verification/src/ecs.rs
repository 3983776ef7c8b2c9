//! Decoder for the EDNS Client Subnet option: raw option bytes to a
//! network/prefix value, or a decode failure.
//!
//! The layout read here: byte 0 is ignored, byte 1 is the address-family
//! discriminator (0 opts out of subnet disclosure, 1 is IPv4, 2 is IPv6),
//! byte 2 is the prefix length, and the remaining bytes are address octets,
//! possibly truncated, zero-padded on the right to the family's full width.

use vstd::prelude::*;

use crate::text::dec_chars;
use crate::text::ipv4_chars;
use crate::text::ipv4_text;
use crate::text::ipv6_chars;
use crate::text::ipv6_text;
use crate::text::u64_dec;

verus! {

/// The mathematical form of a decoded client-subnet value.
pub enum EcsNet {
    /// Family 0: the client explicitly declines to disclose a subnet.
    NoSubnet,
    /// An IPv4 network: four address bytes and a prefix length.
    V4 { addr: Seq<u8>, prefix: u8 },
    /// An IPv6 network: sixteen address bytes and a prefix length.
    V6 { addr: Seq<u8>, prefix: u8 },
}

/// A decoded client-subnet value.
#[derive(Clone, PartialEq, Eq, Debug)]
pub enum EcsValue {
    /// Family 0: the client explicitly declines to disclose a subnet.
    NoSubnet,
    /// An IPv4 network: four address bytes and a prefix length.
    V4 { addr: Vec<u8>, prefix: u8 },
    /// An IPv6 network: sixteen address bytes and a prefix length.
    V6 { addr: Vec<u8>, prefix: u8 },
}

impl View for EcsValue {
    type V = EcsNet;

    open spec fn view(&self) -> EcsNet {
        match self {
            EcsValue::NoSubnet => EcsNet::NoSubnet,
            EcsValue::V4 { addr, prefix } => EcsNet::V4 { addr: addr@, prefix: *prefix },
            EcsValue::V6 { addr, prefix } => EcsNet::V6 { addr: addr@, prefix: *prefix },
        }
    }
}

/// Validity of a decoded value: full address width for its family, and a
/// prefix length the family admits.
pub open spec fn wf_net(v: EcsNet) -> bool {
    match v {
        EcsNet::NoSubnet => true,
        EcsNet::V4 { addr, prefix } => addr.len() == 4 && prefix <= 32,
        EcsNet::V6 { addr, prefix } => addr.len() == 16 && prefix <= 128,
    }
}

impl EcsValue {
    /// Validity of the value: see `wf_net`.
    pub open spec fn wf(&self) -> bool {
        wf_net(self@)
    }
}

/// The address octets of the option, starting at byte 3, truncated or
/// zero-padded on the right to `width` bytes.
pub open spec fn ecs_addr_bytes(b: Seq<u8>, width: nat) -> Seq<u8> {
    Seq::new(
        width,
        |i: int|
            if 3 + i < b.len() {
                b[3 + i]
            } else {
                0u8
            },
    )
}

/// What a client-subnet option decodes to: a network value tagged by
/// family, the distinct no-subnet outcome for family 0, or nothing for a
/// header too short, an unknown family, or a prefix length exceeding the
/// family's address width.
pub open spec fn ecs_decode_spec(b: Seq<u8>) -> Option<EcsNet> {
    if b.len() < 3 {
        None
    } else {
        let family = b[1];
        let prefix = b[2];
        if family == 0 {
            Some(EcsNet::NoSubnet)
        } else if family == 1 {
            if prefix <= 32 {
                Some(EcsNet::V4 { addr: ecs_addr_bytes(b, 4), prefix })
            } else {
                None
            }
        } else if family == 2 {
            if prefix <= 128 {
                Some(EcsNet::V6 { addr: ecs_addr_bytes(b, 16), prefix })
            } else {
                None
            }
        } else {
            None
        }
    }
}

/// Collects the address octets of the option, zero-padded to `width`.
fn take_addr(bytes: &Vec<u8>, width: usize) -> (r: Vec<u8>)
    requires
        width <= 16,
    ensures
        r@ == ecs_addr_bytes(bytes@, width as nat),
{
    let mut r: Vec<u8> = Vec::new();
    let mut i: usize = 0;
    while i < width
        invariant
            0 <= i <= width <= 16,
            r@.len() == i,
            forall|j: int|
                0 <= j < i ==> r@[j] == (if 3 + j < bytes@.len() {
                    bytes@[3 + j]
                } else {
                    0u8
                }),
        decreases width - i,
    {
        if 3 + i < bytes.len() {
            r.push(bytes[3 + i]);
        } else {
            r.push(0);
        }
        i = i + 1;
    }
    proof {
        assert(r@ =~= ecs_addr_bytes(bytes@, width as nat));
    }
    r
}

/// Decodes a raw client-subnet option, exactly as `ecs_decode_spec`
/// describes: a malformed option yields `None`, never a panic.
pub fn decode_ecs(bytes: &Vec<u8>) -> (r: Option<EcsValue>)
    ensures
        match r {
            Some(v) => ecs_decode_spec(bytes@) == Some(v@) && v.wf(),
            None => ecs_decode_spec(bytes@) is None,
        },
{
    if bytes.len() < 3 {
        return None;
    }
    let family = bytes[1];
    let prefix = bytes[2];
    if family == 0 {
        Some(EcsValue::NoSubnet)
    } else if family == 1 {
        if prefix <= 32 {
            let addr = take_addr(bytes, 4);
            Some(EcsValue::V4 { addr, prefix })
        } else {
            None
        }
    } else if family == 2 {
        if prefix <= 128 {
            let addr = take_addr(bytes, 16);
            Some(EcsValue::V6 { addr, prefix })
        } else {
            None
        }
    } else {
        None
    }
}

/// Decoding is a pure function of the option bytes and keeps no hidden
/// state: the same byte sequence always decodes to the same value.
pub proof fn lemma_ecs_decode_deterministic(b1: Seq<u8>, b2: Seq<u8>)
    requires
        b1 == b2,
    ensures
        ecs_decode_spec(b1) == ecs_decode_spec(b2),
{
}

/// Text of a decoded client-subnet value: `address/prefix` for a network
/// (IPv6 in its canonical compressed form), or a fixed phrase for the
/// no-subnet outcome.
pub open spec fn ecs_chars(v: EcsNet) -> Seq<char> {
    match v {
        EcsNet::NoSubnet => "no subnet"@,
        EcsNet::V4 { addr, prefix } => ipv4_chars(addr) + "/"@ + dec_chars(prefix as nat),
        EcsNet::V6 { addr, prefix } => ipv6_chars(addr) + "/"@ + dec_chars(prefix as nat),
    }
}

/// Renders a decoded client-subnet value, as `ecs_chars` describes.
pub fn ecs_text(v: &EcsValue) -> (r: String)
    requires
        v.wf(),
    ensures
        r@ == ecs_chars(v@),
{
    match v {
        EcsValue::NoSubnet => "no subnet".to_owned(),
        EcsValue::V4 { addr, prefix } => {
            let mut s = ipv4_text(addr);
            s.append("/");
            s.append(u64_dec(*prefix as u64).as_str());
            s
        },
        EcsValue::V6 { addr, prefix } => {
            let mut s = ipv6_text(addr);
            s.append("/");
            s.append(u64_dec(*prefix as u64).as_str());
            s
        },
    }
}

} // verus!
