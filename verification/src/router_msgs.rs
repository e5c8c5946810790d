//! Messages a BACnet router builds: network layer messages (ASHRAE 135
//! Clause 6), BVLC control messages (Annex J), and the abort and
//! segment-acknowledge APDUs it answers with.
use vstd::prelude::*;
use crate::bytes::{be16, hi8, lo8, IpEndpoint};
use crate::npdu::GatewayError;
use crate::text::extend_bytes;

verus! {

/// BVLC function codes (Annex J).
pub const BVLC_RESULT: u8 = 0x00;
pub const BVLC_WRITE_BDT: u8 = 0x01;
pub const BVLC_READ_BDT: u8 = 0x02;
pub const BVLC_READ_BDT_ACK: u8 = 0x03;
pub const BVLC_FORWARDED_NPDU: u8 = 0x04;
pub const BVLC_REGISTER_FOREIGN_DEVICE: u8 = 0x05;
pub const BVLC_READ_FDT: u8 = 0x06;
pub const BVLC_READ_FDT_ACK: u8 = 0x07;
pub const BVLC_DELETE_FDT_ENTRY: u8 = 0x08;
pub const BVLC_DISTRIBUTE_BROADCAST: u8 = 0x09;
pub const BVLC_ORIGINAL_UNICAST: u8 = 0x0A;
pub const BVLC_ORIGINAL_BROADCAST: u8 = 0x0B;

/// Network layer message types (Clause 6).
pub const NL_WHO_IS_ROUTER_TO_NETWORK: u8 = 0x00;
pub const NL_I_AM_ROUTER_TO_NETWORK: u8 = 0x01;
pub const NL_REJECT_MESSAGE_TO_NETWORK: u8 = 0x03;
pub const NL_INITIALIZE_ROUTING_TABLE: u8 = 0x06;
pub const NL_INITIALIZE_ROUTING_TABLE_ACK: u8 = 0x07;

/// BVLC-Result codes.
pub const BVLC_RESULT_SUCCESS: u16 = 0x0000;
pub const BVLC_RESULT_WRITE_BDT_NAK: u16 = 0x0010;
pub const BVLC_RESULT_READ_BDT_NAK: u16 = 0x0020;
pub const BVLC_RESULT_REGISTER_FD_NAK: u16 = 0x0030;
pub const BVLC_RESULT_READ_FDT_NAK: u16 = 0x0040;
pub const BVLC_RESULT_DELETE_FDT_NAK: u16 = 0x0050;
pub const BVLC_RESULT_DISTRIBUTE_NAK: u16 = 0x0060;

/// Reject-Message-To-Network reasons (Clause 6.4.4), in the order of their
/// codes 0..=6.
#[derive(Debug, Clone, Copy, PartialEq, Eq, Structural)]
pub enum RejectReason {
    /// Other error.
    Other,
    /// Not directly connected to DNET and no router to DNET known.
    NotRouterToDnet,
    /// The router is busy.
    RouterBusy,
    /// Unknown network layer message type.
    UnknownNetworkMessage,
    /// The message is too long to be routed.
    MessageTooLong,
    /// Security error.
    SecurityError,
    /// Addressing error.
    AddressingError,
}

/// Wire code of a reject reason.
pub open spec fn reject_code(r: RejectReason) -> u8 {
    match r {
        RejectReason::Other => 0,
        RejectReason::NotRouterToDnet => 1,
        RejectReason::RouterBusy => 2,
        RejectReason::UnknownNetworkMessage => 3,
        RejectReason::MessageTooLong => 4,
        RejectReason::SecurityError => 5,
        RejectReason::AddressingError => 6,
    }
}

impl RejectReason {
    /// Wire code of this reason.
    pub fn code(&self) -> (r: u8)
        ensures
            r == reject_code(*self),
    {
        match self {
            RejectReason::Other => 0,
            RejectReason::NotRouterToDnet => 1,
            RejectReason::RouterBusy => 2,
            RejectReason::UnknownNetworkMessage => 3,
            RejectReason::MessageTooLong => 4,
            RejectReason::SecurityError => 5,
            RejectReason::AddressingError => 6,
        }
    }
}

/// Bytes of a Reject-Message-To-Network NPDU.
pub open spec fn reject_msg_spec(reason: u8, dnet: u16) -> Seq<u8> {
    seq![1u8, 0x80u8, NL_REJECT_MESSAGE_TO_NETWORK, reason, hi8(dnet), lo8(dnet)]
}

/// Build a Reject-Message-To-Network NPDU naming the unreachable `dnet`.
pub fn build_reject_message_to_network(reason: RejectReason, dnet: u16) -> (r: Vec<u8>)
    ensures
        r@ == reject_msg_spec(reject_code(reason), dnet),
{
    let mut v: Vec<u8> = Vec::new();
    v.push(0x01);
    v.push(0x80);
    v.push(NL_REJECT_MESSAGE_TO_NETWORK);
    v.push(reason.code());
    v.push(crate::bytes::high_byte(dnet));
    v.push(crate::bytes::low_byte(dnet));
    assert(v@ =~= reject_msg_spec(reject_code(reason), dnet));
    v
}

/// Network numbers, two big-endian bytes each.
pub open spec fn networks_bytes(ns: Seq<u16>) -> Seq<u8>
    decreases ns.len(),
{
    if ns.len() == 0 {
        Seq::empty()
    } else {
        networks_bytes(ns.drop_last()) + seq![hi8(ns.last()), lo8(ns.last())]
    }
}

/// Two bytes per network.
pub proof fn lemma_networks_bytes_len(ns: Seq<u16>)
    ensures
        networks_bytes(ns).len() == 2 * ns.len(),
    decreases ns.len(),
{
    if ns.len() > 0 {
        lemma_networks_bytes_len(ns.drop_last());
    }
}

/// Bytes of an I-Am-Router-To-Network NPDU listing `ns`.
pub open spec fn i_am_router_spec(ns: Seq<u16>) -> Seq<u8> {
    seq![1u8, 0x80u8, NL_I_AM_ROUTER_TO_NETWORK] + networks_bytes(ns)
}

/// Build an I-Am-Router-To-Network NPDU listing `networks`.
pub fn build_i_am_router_to_network(networks: &[u16]) -> (r: Vec<u8>)
    ensures
        r@ == i_am_router_spec(networks@),
{
    let mut v: Vec<u8> = Vec::new();
    v.push(0x01);
    v.push(0x80);
    v.push(NL_I_AM_ROUTER_TO_NETWORK);
    let mut i: usize = 0;
    while i < networks.len()
        invariant
            i <= networks@.len(),
            v@ == seq![1u8, 0x80u8, NL_I_AM_ROUTER_TO_NETWORK] + networks_bytes(
                networks@.take(i as int),
            ),
        decreases networks@.len() - i,
    {
        let n = networks[i];
        v.push(crate::bytes::high_byte(n));
        v.push(crate::bytes::low_byte(n));
        assert(networks@.take(i as int + 1).drop_last() =~= networks@.take(i as int));
        i = i + 1;
        assert(v@ =~= seq![1u8, 0x80u8, NL_I_AM_ROUTER_TO_NETWORK] + networks_bytes(
            networks@.take(i as int),
        ));
    }
    assert(networks@.take(i as int) =~= networks@);
    v
}

/// Bytes of an Initialize-Routing-Table-Ack NPDU.
pub open spec fn init_rt_ack_spec() -> Seq<u8> {
    seq![1u8, 0x80u8, NL_INITIALIZE_ROUTING_TABLE_ACK]
}

/// Build an Initialize-Routing-Table-Ack NPDU.
pub fn build_initialize_routing_table_ack() -> (r: Vec<u8>)
    ensures
        r@ == init_rt_ack_spec(),
{
    let v: Vec<u8> = vec![0x01, 0x80, NL_INITIALIZE_ROUTING_TABLE_ACK];
    assert(v@ =~= init_rt_ack_spec());
    v
}

/// Bytes of a BVLC-Result message.
pub open spec fn bvlc_result_spec(code: u16) -> Seq<u8> {
    seq![0x81u8, BVLC_RESULT, 0u8, 6u8, hi8(code), lo8(code)]
}

/// Build a BVLC-Result message with `result_code`.
pub fn build_bvlc_result(result_code: u16) -> (r: Vec<u8>)
    ensures
        r@ == bvlc_result_spec(result_code),
{
    let v: Vec<u8> = vec![
        0x81,
        BVLC_RESULT,
        0x00,
        0x06,
        crate::bytes::high_byte(result_code),
        crate::bytes::low_byte(result_code),
    ];
    assert(v@ =~= bvlc_result_spec(result_code));
    v
}

/// The B/IP address of an endpoint: address octets, then the port big-endian.
pub open spec fn bip_address(a: IpEndpoint) -> Seq<u8> {
    a.ip@ + seq![hi8(a.port), lo8(a.port)]
}

/// Bytes of a Forwarded-NPDU carrying `npdu` from original source `src`; the
/// length field holds the low 16 bits of the total length.
pub open spec fn forwarded_spec(npdu: Seq<u8>, src: IpEndpoint) -> Seq<u8> {
    let len = 10 + npdu.len();
    seq![0x81u8, BVLC_FORWARDED_NPDU, ((len / 256) % 256) as u8, (len % 256) as u8] + bip_address(
        src,
    ) + npdu
}

/// Build a Forwarded-NPDU (Annex J.4.5) with the original source's B/IP
/// address.
pub fn build_forwarded_npdu(npdu: &[u8], source_addr: IpEndpoint) -> (r: Vec<u8>)
    requires
        npdu@.len() + 10 <= usize::MAX,
    ensures
        r@ == forwarded_spec(npdu@, source_addr),
{
    let mut v: Vec<u8> = Vec::new();
    v.push(0x81);
    v.push(BVLC_FORWARDED_NPDU);
    let len = 10 + npdu.len();
    v.push(((len / 256) % 256) as u8);
    v.push((len % 256) as u8);
    v.push(source_addr.ip[0]);
    v.push(source_addr.ip[1]);
    v.push(source_addr.ip[2]);
    v.push(source_addr.ip[3]);
    v.push(crate::bytes::high_byte(source_addr.port));
    v.push(crate::bytes::low_byte(source_addr.port));
    extend_bytes(&mut v, npdu);
    assert(v@ =~= forwarded_spec(npdu@, source_addr));
    v
}

/// Directed broadcast octets: each address octet OR the inverted mask octet.
pub open spec fn broadcast_octets(ip: Seq<u8>, mask: Seq<u8>) -> Seq<u8> {
    seq![ip[0] | !mask[0], ip[1] | !mask[1], ip[2] | !mask[2], ip[3] | !mask[3]]
}

/// Directed broadcast address of the subnet of `ip` with `mask`.
pub fn calculate_broadcast_address(ip: [u8; 4], mask: [u8; 4]) -> (r: [u8; 4])
    ensures
        r@ == broadcast_octets(ip@, mask@),
{
    let r = [ip[0] | !mask[0], ip[1] | !mask[1], ip[2] | !mask[2], ip[3] | !mask[3]];
    assert(r@ =~= broadcast_octets(ip@, mask@));
    r
}

/// The 32-bit subnet mask with `prefix` leading one bits.
pub open spec fn prefix_mask_bits(prefix: u8) -> u32 {
    if prefix == 0 {
        0
    } else {
        0xFFFF_FFFFu32 << ((32 - prefix) as u32)
    }
}

/// The subnet mask of a prefix length (as in a /24 network), in address
/// octets.
pub fn mask_of_prefix(prefix: u8) -> (r: [u8; 4])
    requires
        prefix <= 32,
    ensures
        r@ == crate::bytes::be32_bytes(prefix_mask_bits(prefix)),
{
    let bits: u32 = if prefix == 0 {
        0
    } else {
        0xFFFF_FFFFu32 << ((32 - prefix) as u32)
    };
    u32_to_ipv4(bits)
}

/// A 32-bit value from four address octets (network byte order).
pub fn ipv4_to_u32(ip: [u8; 4]) -> (r: u32)
    ensures
        r == crate::bytes::be32(ip@[0], ip@[1], ip@[2], ip@[3]),
{
    crate::bytes::read_be32(ip[0], ip[1], ip[2], ip[3])
}

/// The four address octets of a 32-bit value (network byte order).
pub fn u32_to_ipv4(val: u32) -> (r: [u8; 4])
    ensures
        r@ == crate::bytes::be32_bytes(val),
{
    let r = [
        (val / 16777216) as u8,
        ((val / 65536) % 256) as u8,
        ((val / 256) % 256) as u8,
        (val % 256) as u8,
    ];
    assert(r@ =~= crate::bytes::be32_bytes(val));
    r
}

/// The endpoint named by a BACnet/IP MAC address (four address octets and the
/// port); `InvalidAddress` unless it has 6 bytes.
pub fn resolve_ip_address(mac: &[u8]) -> (r: Result<IpEndpoint, GatewayError>)
    ensures
        mac@.len() == 6 <==> r is Ok,
        r matches Ok(e) ==> e.ip@ == mac@.subrange(0, 4) && e.port == be16(mac@[4], mac@[5]),
        r matches Err(e) ==> e is InvalidAddress,
{
    if mac.len() == 6 {
        let e = IpEndpoint::new(mac[0], mac[1], mac[2], mac[3], crate::bytes::read_be16(mac[4], mac[5]));
        assert(e.ip@ =~= mac@.subrange(0, 4));
        Ok(e)
    } else {
        Err(GatewayError::InvalidAddress)
    }
}

/// Bytes of an Abort APDU sent by the server side.
pub open spec fn abort_apdu_spec(invoke_id: u8, reason: u8) -> Seq<u8> {
    seq![0x71u8, invoke_id, reason]
}

/// Bytes of a SegmentAck APDU sent by the server side; a window of 0 is sent
/// as 1.
pub open spec fn segment_ack_apdu_spec(invoke_id: u8, seq_num: u8, window: u8, negative: bool) -> Seq<u8> {
    seq![
        if negative {
            0x43u8
        } else {
            0x41u8
        },
        invoke_id,
        seq_num,
        if window == 0 {
            1u8
        } else {
            window
        },
    ]
}

/// A local NPDU (version 1, no routing information) around `apdu`.
pub open spec fn local_npdu_spec(apdu: Seq<u8>) -> Seq<u8> {
    seq![1u8, 0u8] + apdu
}

/// Encode an Abort APDU from the server side.
pub fn encode_abort(invoke_id: u8, reason: u8) -> (r: Vec<u8>)
    ensures
        r@ == abort_apdu_spec(invoke_id, reason),
{
    let v: Vec<u8> = vec![0x71, invoke_id, reason];
    assert(v@ =~= abort_apdu_spec(invoke_id, reason));
    v
}

/// Encode a SegmentAck APDU from the server side.
pub fn encode_segment_ack(invoke_id: u8, seq_num: u8, window: u8, negative: bool) -> (r: Vec<u8>)
    ensures
        r@ == segment_ack_apdu_spec(invoke_id, seq_num, window, negative),
{
    let first: u8 = if negative {
        0x43
    } else {
        0x41
    };
    let w: u8 = if window == 0 {
        1
    } else {
        window
    };
    let v: Vec<u8> = vec![first, invoke_id, seq_num, w];
    assert(v@ =~= segment_ack_apdu_spec(invoke_id, seq_num, window, negative));
    v
}

/// Wrap an APDU in a local NPDU (version 1, no routing information).
pub fn local_npdu(apdu: &[u8]) -> (r: Vec<u8>)
    ensures
        r@ == local_npdu_spec(apdu@),
{
    let mut v: Vec<u8> = Vec::new();
    v.push(0x01);
    v.push(0x00);
    extend_bytes(&mut v, apdu);
    assert(v@ =~= local_npdu_spec(apdu@));
    v
}

/// The B/IP address of an endpoint is 6 bytes that name the endpoint again:
/// its address octets, then its port.
pub proof fn lemma_bip_address_names(a: IpEndpoint)
    ensures
        bip_address(a).len() == 6,
        bip_address(a).subrange(0, 4) == a.ip@,
        be16(bip_address(a)[4], bip_address(a)[5]) == a.port,
{
    assert(bip_address(a).subrange(0, 4) =~= a.ip@);
    crate::bytes::lemma_be16_roundtrip(a.port);
}

/// A Forwarded-NPDU names its original source: after the BVLC header
/// (type 0x81, function 0x04, the total length when it fits 16 bits) come
/// the source's four address octets and its port in big-endian order, then
/// the NPDU unchanged.
pub proof fn lemma_forwarded_names_source(npdu: Seq<u8>, src: IpEndpoint)
    ensures
        ({
            let f = forwarded_spec(npdu, src);
            &&& f.len() == npdu.len() + 10
            &&& f[0] == 0x81
            &&& f[1] == 0x04
            &&& f.len() < 65536 ==> be16(f[2], f[3]) == f.len()
            &&& f.subrange(4, 8) == src.ip@
            &&& be16(f[8], f[9]) == src.port
            &&& f.subrange(10, f.len() as int) == npdu
        }),
{
    let f = forwarded_spec(npdu, src);
    assert(f.subrange(4, 8) =~= src.ip@);
    assert(f.subrange(10, f.len() as int) =~= npdu);
    assert(f[8] == hi8(src.port) && f[9] == lo8(src.port));
    crate::bytes::lemma_be16_roundtrip(src.port);
    let len = 10 + npdu.len();
    if len < 65536 {
        assert(f[2] == ((len / 256) % 256) as u8 && f[3] == (len % 256) as u8);
        assert(be16(f[2], f[3]) == len);
    }
}

/// The directed broadcast address stays in the subnet of `ip` (same network
/// bits) and sets every host bit.
pub proof fn lemma_broadcast_in_subnet(ip: Seq<u8>, mask: Seq<u8>, i: int)
    requires
        ip.len() == 4,
        mask.len() == 4,
        0 <= i < 4,
    ensures
        broadcast_octets(ip, mask)[i] & mask[i] == ip[i] & mask[i],
        broadcast_octets(ip, mask)[i] | mask[i] == 0xFFu8,
{
    let a = ip[i];
    let m = mask[i];
    assert((a | !m) & m == a & m) by (bit_vector);
    assert((a | !m) | m == 0xFFu8) by (bit_vector);
}

/// Turning address octets into a 32-bit value and back gives the octets.
pub proof fn lemma_ipv4_u32_roundtrip(ip: Seq<u8>)
    requires
        ip.len() == 4,
    ensures
        crate::bytes::be32_bytes(crate::bytes::be32(ip[0], ip[1], ip[2], ip[3])) == ip,
{
    crate::bytes::lemma_be32_split(ip[0], ip[1], ip[2], ip[3]);
    assert(seq![ip[0], ip[1], ip[2], ip[3]] =~= ip);
}

} // verus!
