//! BACnet network layer (NPDU) and application layer (APDU) header handling:
//! parsing, routing rewrites, BVLC wrapping and diagnostic hex dumps.
use vstd::prelude::*;
use crate::bytes::{be16, hi8, lo8, read_be16, IpEndpoint};
use crate::text::{copy_range, decimal, extend_bytes, hex2_upper, push_decimal, push_hex2_upper, push_str, string_from_chars};

verus! {

/// Gateway error kinds.
#[derive(Debug)]
pub enum GatewayError {
    InvalidFrame,
    InvalidAddress,
    NetworkUnreachable(u16),
    IoError(String),
    NpduError(String),
    HopCountExhausted,
    BvlcError(String),
}

/// The text of an error, as the gateway logs it.
pub open spec fn gateway_error_text(e: GatewayError) -> Seq<char> {
    match e {
        GatewayError::InvalidFrame => "Invalid frame"@,
        GatewayError::InvalidAddress => "Invalid address"@,
        GatewayError::NetworkUnreachable(n) => "Network "@ + decimal(n as nat) + " unreachable"@,
        GatewayError::IoError(s) => "I/O error: "@ + s@,
        GatewayError::NpduError(s) => "NPDU error: "@ + s@,
        GatewayError::HopCountExhausted => "Hop count exhausted"@,
        GatewayError::BvlcError(s) => "BVLC error: "@ + s@,
    }
}

impl GatewayError {
    /// The error as text (e.g. `Network 5 unreachable`).
    pub fn message(&self) -> (r: String)
        ensures
            r@ == gateway_error_text(*self),
    {
        let mut v: Vec<char> = Vec::new();
        match self {
            GatewayError::InvalidFrame => push_str(&mut v, "Invalid frame"),
            GatewayError::InvalidAddress => push_str(&mut v, "Invalid address"),
            GatewayError::NetworkUnreachable(n) => {
                push_str(&mut v, "Network ");
                push_decimal(&mut v, *n as u64);
                push_str(&mut v, " unreachable");
            },
            GatewayError::IoError(s) => {
                push_str(&mut v, "I/O error: ");
                push_str(&mut v, s.as_str());
            },
            GatewayError::NpduError(s) => {
                push_str(&mut v, "NPDU error: ");
                push_str(&mut v, s.as_str());
            },
            GatewayError::HopCountExhausted => push_str(&mut v, "Hop count exhausted"),
            GatewayError::BvlcError(s) => {
                push_str(&mut v, "BVLC error: ");
                push_str(&mut v, s.as_str());
            },
        }
        proof {
            reveal_strlit("");
        }
        assert(v@ =~= gateway_error_text(*self));
        string_from_chars(&v)
    }
}

/// A BACnet network address: network number and MAC address.
#[derive(Debug, Clone)]
pub struct NetworkAddress {
    pub network: u16,
    pub address: Vec<u8>,
}

/// Parsed NPDU header.
#[derive(Debug, Clone)]
pub struct NpduInfo {
    pub network_message: bool,
    pub destination_present: bool,
    pub source_present: bool,
    pub expecting_reply: bool,
    pub priority: u8,
    pub destination: Option<NetworkAddress>,
    pub source: Option<NetworkAddress>,
    pub hop_count: Option<u8>,
}

/// Mathematical view of a parsed NPDU header.
pub struct NpduSpec {
    pub network_message: bool,
    pub destination_present: bool,
    pub source_present: bool,
    pub expecting_reply: bool,
    pub priority: u8,
    pub destination: Option<(u16, Seq<u8>)>,
    pub source: Option<(u16, Seq<u8>)>,
    pub hop_count: Option<u8>,
}

pub open spec fn addr_view(a: Option<NetworkAddress>) -> Option<(u16, Seq<u8>)> {
    match a {
        Some(x) => Some((x.network, x.address@)),
        None => None,
    }
}

impl View for NpduInfo {
    type V = NpduSpec;

    open spec fn view(&self) -> NpduSpec {
        NpduSpec {
            network_message: self.network_message,
            destination_present: self.destination_present,
            source_present: self.source_present,
            expecting_reply: self.expecting_reply,
            priority: self.priority,
            destination: addr_view(self.destination),
            source: addr_view(self.source),
            hop_count: self.hop_count,
        }
    }
}

pub open spec fn msg_need_have(prefix: Seq<char>, need: nat, have: nat) -> Seq<char> {
    prefix + "need "@ + decimal(need) + " bytes, have "@ + decimal(have)
}

/// Where a header's address block ends, given that it starts at `p`.
pub open spec fn addr_end(d: Seq<u8>, p: int) -> int {
    p + 3 + d[p + 2] as int
}

/// The NPDU header of `d` and its length, or the error text.
pub open spec fn parse_npdu_spec(d: Seq<u8>) -> Result<(NpduSpec, int), Seq<char>> {
    if d.len() < 2 {
        Err("NPDU too short: "@ + decimal(d.len()) + " bytes (minimum 2)"@)
    } else if d[0] != 1 {
        Err("Invalid NPDU version: expected 1, got "@ + decimal(d[0] as nat))
    } else {
        let c = d[1];
        let dp = c & 0x20u8 != 0;
        let sp = c & 0x08u8 != 0;
        let p0: int = 2;
        if dp && p0 + 3 > d.len() {
            Err(msg_need_have("NPDU destination truncated: "@, (p0 + 3) as nat, d.len()))
        } else if dp && addr_end(d, p0) > d.len() {
            Err(
                msg_need_have(
                    "NPDU destination address truncated: "@,
                    addr_end(d, p0) as nat,
                    d.len(),
                ),
            )
        } else {
            let p1 = if dp {
                addr_end(d, p0)
            } else {
                p0
            };
            if sp && p1 + 3 > d.len() {
                Err(msg_need_have("NPDU source truncated: "@, (p1 + 3) as nat, d.len()))
            } else if sp && addr_end(d, p1) > d.len() {
                Err(
                    msg_need_have(
                        "NPDU source address truncated: "@,
                        addr_end(d, p1) as nat,
                        d.len(),
                    ),
                )
            } else {
                let p2 = if sp {
                    addr_end(d, p1)
                } else {
                    p1
                };
                if dp && p2 >= d.len() {
                    Err(msg_need_have("NPDU hop count missing: "@, (p2 + 1) as nat, d.len()))
                } else {
                    let p3 = if dp {
                        p2 + 1
                    } else {
                        p2
                    };
                    Ok(
                        (
                            NpduSpec {
                                network_message: c & 0x80u8 != 0,
                                destination_present: dp,
                                source_present: sp,
                                expecting_reply: c & 0x04u8 != 0,
                                priority: c & 0x03u8,
                                destination: if dp {
                                    Some(
                                        (be16(d[p0], d[p0 + 1]), d.subrange(p0 + 3, p1)),
                                    )
                                } else {
                                    None
                                },
                                source: if sp {
                                    Some((be16(d[p1], d[p1 + 1]), d.subrange(p1 + 3, p2)))
                                } else {
                                    None
                                },
                                hop_count: if dp {
                                    Some(d[p2])
                                } else {
                                    None
                                },
                            },
                            p3,
                        ),
                    )
                }
            }
        }
    }
}

fn need_have_message(prefix: &str, need: usize, have: usize) -> (r: String)
    ensures
        r@ == msg_need_have(prefix@, need as nat, have as nat),
{
    let mut v: Vec<char> = Vec::new();
    push_str(&mut v, prefix);
    push_str(&mut v, "need ");
    push_decimal(&mut v, need as u64);
    push_str(&mut v, " bytes, have ");
    push_decimal(&mut v, have as u64);
    string_from_chars(&v)
}

/// Parse the address block (network, length, address) that starts at `pos`.
fn parse_address(data: &[u8], pos: usize) -> (r: NetworkAddress)
    requires
        pos + 3 <= data@.len(),
        addr_end(data@, pos as int) <= data@.len(),
    ensures
        r.network == be16(data@[pos as int], data@[pos + 1]),
        r.address@ == data@.subrange(pos + 3, addr_end(data@, pos as int)),
{
    let network = read_be16(data[pos], data[pos + 1]);
    let len = data[pos + 2] as usize;
    let address = copy_range(data, pos + 3, pos + 3 + len);
    NetworkAddress { network, address }
}

/// Parse an NPDU header; returns the header and its length in bytes.
pub fn parse_npdu(data: &[u8]) -> (r: Result<(NpduInfo, usize), GatewayError>)
    ensures
        match r {
            Ok((info, len)) => parse_npdu_spec(data@) == Ok::<(NpduSpec, int), Seq<char>>(
                (info@, len as int),
            ),
            Err(GatewayError::NpduError(m)) => parse_npdu_spec(data@) == Err::<
                (NpduSpec, int),
                Seq<char>,
            >(m@),
            Err(_) => false,
        },
{
    if data.len() < 2 {
        let mut v: Vec<char> = Vec::new();
        push_str(&mut v, "NPDU too short: ");
        push_decimal(&mut v, data.len() as u64);
        push_str(&mut v, " bytes (minimum 2)");
        return Err(GatewayError::NpduError(string_from_chars(&v)));
    }
    let version = data[0];
    if version != 1 {
        let mut v: Vec<char> = Vec::new();
        push_str(&mut v, "Invalid NPDU version: expected 1, got ");
        push_decimal(&mut v, version as u64);
        return Err(GatewayError::NpduError(string_from_chars(&v)));
    }
    let control = data[1];
    let network_message = (control & 0x80) != 0;
    let destination_present = (control & 0x20) != 0;
    let source_present = (control & 0x08) != 0;
    let expecting_reply = (control & 0x04) != 0;
    let priority = control & 0x03;
    let mut pos: usize = 2;
    let destination = if destination_present {
        if pos + 3 > data.len() {
            return Err(
                GatewayError::NpduError(
                    need_have_message("NPDU destination truncated: ", pos + 3, data.len()),
                ),
            );
        }
        let addr_len = data[pos + 2] as usize;
        if pos + 3 + addr_len > data.len() {
            return Err(
                GatewayError::NpduError(
                    need_have_message(
                        "NPDU destination address truncated: ",
                        pos + 3 + addr_len,
                        data.len(),
                    ),
                ),
            );
        }
        let a = parse_address(data, pos);
        pos = pos + 3 + addr_len;
        Some(a)
    } else {
        None
    };
    let source = if source_present {
        if pos + 3 > data.len() {
            return Err(
                GatewayError::NpduError(
                    need_have_message("NPDU source truncated: ", pos + 3, data.len()),
                ),
            );
        }
        let addr_len = data[pos + 2] as usize;
        if pos + 3 + addr_len > data.len() {
            return Err(
                GatewayError::NpduError(
                    need_have_message(
                        "NPDU source address truncated: ",
                        pos + 3 + addr_len,
                        data.len(),
                    ),
                ),
            );
        }
        let a = parse_address(data, pos);
        pos = pos + 3 + addr_len;
        Some(a)
    } else {
        None
    };
    let hop_count = if destination_present {
        if pos >= data.len() {
            return Err(
                GatewayError::NpduError(
                    need_have_message("NPDU hop count missing: ", pos + 1, data.len()),
                ),
            );
        }
        let hc = data[pos];
        pos = pos + 1;
        Some(hc)
    } else {
        None
    };
    Ok(
        (
            NpduInfo {
                network_message,
                destination_present,
                source_present,
                expecting_reply,
                priority,
                destination,
                source,
                hop_count,
            },
            pos,
        ),
    )
}

/// APDU type classification for transaction tracking.
#[derive(Debug, Clone, Copy, PartialEq, Eq, Structural)]
pub enum ApduTypeClass {
    ConfirmedRequest,
    UnconfirmedRequest,
    SimpleAck,
    ComplexAck,
    SegmentAck,
    Error,
    Reject,
    Abort,
}

/// Key fields of an APDU header.
#[derive(Debug, Clone, Copy, PartialEq, Eq, Structural)]
pub struct ApduInfo {
    pub apdu_type: ApduTypeClass,
    pub invoke_id: Option<u8>,
    pub service: Option<u8>,
    pub segmented: bool,
    pub more_follows: bool,
    pub segmented_response_accepted: bool,
}

/// Whether an APDU of type `t` answers a confirmed request: SimpleAck,
/// ComplexAck, Error, Reject or Abort (a SegmentAck does not).
pub open spec fn is_response_type(t: ApduTypeClass) -> bool {
    t == ApduTypeClass::SimpleAck || t == ApduTypeClass::ComplexAck || t == ApduTypeClass::Error
        || t == ApduTypeClass::Reject || t == ApduTypeClass::Abort
}

pub open spec fn needs_tracking_type(t: ApduTypeClass) -> bool {
    t == ApduTypeClass::ConfirmedRequest || t == ApduTypeClass::SimpleAck || t
        == ApduTypeClass::ComplexAck || t == ApduTypeClass::Error || t == ApduTypeClass::Reject
        || t == ApduTypeClass::Abort
}

impl ApduInfo {
    /// Whether this APDU answers a confirmed request (SimpleAck, ComplexAck,
    /// Error, Reject or Abort).
    pub fn is_response(&self) -> (r: bool)
        ensures
            r == is_response_type(self.apdu_type),
    {
        match self.apdu_type {
            ApduTypeClass::SimpleAck
            | ApduTypeClass::ComplexAck
            | ApduTypeClass::Error
            | ApduTypeClass::Reject
            | ApduTypeClass::Abort => true,
            _ => false,
        }
    }

    /// Whether this APDU takes part in transaction tracking (a confirmed request
    /// or a response other than SegmentAck).
    pub fn needs_tracking(&self) -> (r: bool)
        ensures
            r == needs_tracking_type(self.apdu_type),
    {
        match self.apdu_type {
            ApduTypeClass::ConfirmedRequest
            | ApduTypeClass::SimpleAck
            | ApduTypeClass::ComplexAck
            | ApduTypeClass::Error
            | ApduTypeClass::Reject
            | ApduTypeClass::Abort => true,
            _ => false,
        }
    }
}

pub open spec fn apdu_type_of(nibble: u8) -> Option<ApduTypeClass> {
    if nibble == 0 {
        Some(ApduTypeClass::ConfirmedRequest)
    } else if nibble == 1 {
        Some(ApduTypeClass::UnconfirmedRequest)
    } else if nibble == 2 {
        Some(ApduTypeClass::SimpleAck)
    } else if nibble == 3 {
        Some(ApduTypeClass::ComplexAck)
    } else if nibble == 4 {
        Some(ApduTypeClass::SegmentAck)
    } else if nibble == 5 {
        Some(ApduTypeClass::Error)
    } else if nibble == 6 {
        Some(ApduTypeClass::Reject)
    } else if nibble == 7 {
        Some(ApduTypeClass::Abort)
    } else {
        None
    }
}

pub open spec fn info(
    t: ApduTypeClass,
    invoke_id: Option<u8>,
    service: Option<u8>,
    segmented: bool,
    more_follows: bool,
    sra: bool,
) -> ApduInfo {
    ApduInfo {
        apdu_type: t,
        invoke_id,
        service,
        segmented,
        more_follows,
        segmented_response_accepted: sra,
    }
}

pub open spec fn byte_at(d: Seq<u8>, i: int) -> Option<u8> {
    if d.len() > i {
        Some(d[i])
    } else {
        None
    }
}

/// The APDU header fields of `d`, or `None` where `parse_apdu` reports an
/// invalid frame.
pub open spec fn parse_apdu_spec(d: Seq<u8>) -> Option<ApduInfo> {
    if d.len() == 0 {
        None
    } else {
        let b = d[0];
        match apdu_type_of(b / 16) {
            None => None,
            Some(t) => {
                let seg = b & 0x08u8 != 0;
                let mf = b & 0x04u8 != 0;
                match t {
                    ApduTypeClass::ConfirmedRequest => if d.len() < 4 {
                        None
                    } else {
                        Some(
                            info(
                                t,
                                Some(d[2]),
                                byte_at(
                                    d,
                                    if seg {
                                        5
                                    } else {
                                        3
                                    },
                                ),
                                seg,
                                mf,
                                b & 0x02u8 != 0,
                            ),
                        )
                    },
                    ApduTypeClass::UnconfirmedRequest => Some(
                        info(t, None, byte_at(d, 1), false, false, false),
                    ),
                    ApduTypeClass::SimpleAck => if d.len() < 3 {
                        None
                    } else {
                        Some(info(t, Some(d[1]), Some(d[2]), false, false, false))
                    },
                    ApduTypeClass::ComplexAck => if d.len() < 3 {
                        None
                    } else {
                        Some(
                            info(
                                t,
                                Some(d[1]),
                                byte_at(
                                    d,
                                    if seg {
                                        4
                                    } else {
                                        2
                                    },
                                ),
                                seg,
                                mf,
                                false,
                            ),
                        )
                    },
                    ApduTypeClass::SegmentAck => if d.len() < 2 {
                        None
                    } else {
                        Some(info(t, Some(d[1]), None, false, false, false))
                    },
                    _ => if d.len() < 2 {
                        None
                    } else {
                        Some(
                            info(
                                t,
                                Some(d[1]),
                                if t == ApduTypeClass::Error {
                                    byte_at(d, 2)
                                } else {
                                    None
                                },
                                false,
                                false,
                                false,
                            ),
                        )
                    },
                }
            },
        }
    }
}

fn opt_byte(data: &[u8], i: usize) -> (r: Option<u8>)
    ensures
        r == byte_at(data@, i as int),
{
    if data.len() > i {
        Some(data[i])
    } else {
        None
    }
}

/// Parse the APDU header that starts `data`.
pub fn parse_apdu(data: &[u8]) -> (r: Result<ApduInfo, GatewayError>)
    ensures
        match r {
            Ok(i) => parse_apdu_spec(data@) == Some(i),
            Err(e) => parse_apdu_spec(data@) is None && e is InvalidFrame,
        },
{
    if data.len() == 0 {
        return Err(GatewayError::InvalidFrame);
    }
    let b = data[0];
    let nibble = b / 16;
    let t = if nibble == 0 {
        ApduTypeClass::ConfirmedRequest
    } else if nibble == 1 {
        ApduTypeClass::UnconfirmedRequest
    } else if nibble == 2 {
        ApduTypeClass::SimpleAck
    } else if nibble == 3 {
        ApduTypeClass::ComplexAck
    } else if nibble == 4 {
        ApduTypeClass::SegmentAck
    } else if nibble == 5 {
        ApduTypeClass::Error
    } else if nibble == 6 {
        ApduTypeClass::Reject
    } else if nibble == 7 {
        ApduTypeClass::Abort
    } else {
        return Err(GatewayError::InvalidFrame);
    };
    let seg = (b & 0x08) != 0;
    let mf = (b & 0x04) != 0;
    match t {
        ApduTypeClass::ConfirmedRequest => {
            if data.len() < 4 {
                return Err(GatewayError::InvalidFrame);
            }
            let sp = if seg {
                5
            } else {
                3
            };
            Ok(
                ApduInfo {
                    apdu_type: t,
                    invoke_id: Some(data[2]),
                    service: opt_byte(data, sp),
                    segmented: seg,
                    more_follows: mf,
                    segmented_response_accepted: (b & 0x02) != 0,
                },
            )
        },
        ApduTypeClass::UnconfirmedRequest => Ok(
            ApduInfo {
                apdu_type: t,
                invoke_id: None,
                service: opt_byte(data, 1),
                segmented: false,
                more_follows: false,
                segmented_response_accepted: false,
            },
        ),
        ApduTypeClass::SimpleAck => {
            if data.len() < 3 {
                return Err(GatewayError::InvalidFrame);
            }
            Ok(
                ApduInfo {
                    apdu_type: t,
                    invoke_id: Some(data[1]),
                    service: Some(data[2]),
                    segmented: false,
                    more_follows: false,
                    segmented_response_accepted: false,
                },
            )
        },
        ApduTypeClass::ComplexAck => {
            if data.len() < 3 {
                return Err(GatewayError::InvalidFrame);
            }
            let sp = if seg {
                4
            } else {
                2
            };
            Ok(
                ApduInfo {
                    apdu_type: t,
                    invoke_id: Some(data[1]),
                    service: opt_byte(data, sp),
                    segmented: seg,
                    more_follows: mf,
                    segmented_response_accepted: false,
                },
            )
        },
        ApduTypeClass::SegmentAck => {
            if data.len() < 2 {
                return Err(GatewayError::InvalidFrame);
            }
            Ok(
                ApduInfo {
                    apdu_type: t,
                    invoke_id: Some(data[1]),
                    service: None,
                    segmented: false,
                    more_follows: false,
                    segmented_response_accepted: false,
                },
            )
        },
        _ => {
            if data.len() < 2 {
                return Err(GatewayError::InvalidFrame);
            }
            let service = if t == ApduTypeClass::Error {
                opt_byte(data, 2)
            } else {
                None
            };
            Ok(
                ApduInfo {
                    apdu_type: t,
                    invoke_id: Some(data[1]),
                    service,
                    segmented: false,
                    more_follows: false,
                    segmented_response_accepted: false,
                },
            )
        },
    }
}

/// Hexadecimal bytes separated by single spaces.
pub open spec fn joined_hex(s: Seq<u8>) -> Seq<char>
    decreases s.len(),
{
    if s.len() == 0 {
        Seq::empty()
    } else if s.len() == 1 {
        hex2_upper(s[0])
    } else {
        joined_hex(s.drop_last()) + " "@ + hex2_upper(s.last())
    }
}

/// The text of `hex_dump(data, max_bytes)`.
pub open spec fn hex_dump_spec(data: Seq<u8>, max_bytes: nat) -> Seq<char> {
    let shown = if data.len() <= max_bytes {
        data
    } else {
        data.take(max_bytes as int)
    };
    if data.len() > max_bytes {
        "len="@ + decimal(data.len()) + " ["@ + joined_hex(shown) + " ...and "@ + decimal(
            (data.len() - max_bytes) as nat,
        ) + " more]"@
    } else {
        "len="@ + decimal(data.len()) + " ["@ + joined_hex(shown) + "]"@
    }
}

/// A hex dump of up to `max_bytes` bytes of `data` for error logs:
/// `len=N [01 02 03]`, or `len=N [01 02 ...and M more]` when longer.
pub fn hex_dump(data: &[u8], max_bytes: usize) -> (r: String)
    ensures
        r@ == hex_dump_spec(data@, max_bytes as nat),
{
    let show = if data.len() < max_bytes {
        data.len()
    } else {
        max_bytes
    };
    let mut v: Vec<char> = Vec::new();
    push_str(&mut v, "len=");
    push_decimal(&mut v, data.len() as u64);
    push_str(&mut v, " [");
    let ghost start = v@;
    let mut i: usize = 0;
    while i < show
        invariant
            i <= show <= data@.len(),
            v@ == start + joined_hex(data@.take(i as int)),
        decreases show - i,
    {
        if i > 0 {
            v.push(' ');
        }
        push_hex2_upper(&mut v, data[i]);
        proof {
            reveal_strlit(" ");
            let t = data@.take(i + 1);
            assert(t.drop_last() =~= data@.take(i as int));
            assert(t.last() == data@[i as int]);
            if i == 0 {
                assert(data@.take(0) =~= Seq::<u8>::empty());
                assert(joined_hex(t) == hex2_upper(data@[0]));
            } else {
                assert(joined_hex(t) == joined_hex(data@.take(i as int)) + " "@ + hex2_upper(
                    data@[i as int],
                ));
            }
        }
        i = i + 1;
        assert(v@ =~= start + joined_hex(data@.take(i as int)));
    }
    proof {
        if data@.len() <= max_bytes {
            assert(data@.take(show as int) =~= data@);
        }
    }
    if data.len() > max_bytes {
        push_str(&mut v, " ...and ");
        push_decimal(&mut v, (data.len() - max_bytes) as u64);
        push_str(&mut v, " more]");
    } else {
        push_str(&mut v, "]");
    }
    assert(v@ =~= hex_dump_spec(data@, max_bytes as nat));
    string_from_chars(&v)
}

/// Bytes of a BVLC Original-Broadcast-NPDU (`broadcast`) or
/// Original-Unicast-NPDU message around `npdu`.
pub open spec fn bvlc_spec(npdu: Seq<u8>, broadcast: bool) -> Seq<u8> {
    let length = (4 + npdu.len()) as nat;
    seq![
        0x81u8,
        if broadcast {
            0x0Bu8
        } else {
            0x0Au8
        },
        ((length / 256) % 256) as u8,
        (length % 256) as u8,
    ] + npdu
}

/// Wrap an NPDU in a BVLC Original-Broadcast-NPDU (`broadcast`) or
/// Original-Unicast-NPDU header; the length field holds the low 16 bits of the
/// total length.
pub fn build_bvlc(npdu: &[u8], broadcast: bool) -> (r: Vec<u8>)
    requires
        npdu@.len() + 4 <= usize::MAX,
    ensures
        r@ == bvlc_spec(npdu@, broadcast),
{
    let mut result: Vec<u8> = Vec::new();
    result.push(0x81);
    result.push(
        if broadcast {
            0x0B
        } else {
            0x0A
        },
    );
    let length = 4 + npdu.len();
    result.push(((length / 256) % 256) as u8);
    result.push((length % 256) as u8);
    extend_bytes(&mut result, npdu);
    assert(result@ =~= bvlc_spec(npdu@, broadcast));
    result
}

/// The 6-byte BACnet/IP MAC address (address octets, then port big-endian).
pub open spec fn ip_mac(a: IpEndpoint) -> Seq<u8> {
    a.ip@ + seq![hi8(a.port), lo8(a.port)]
}

/// The BACnet/IP MAC address of an endpoint: four address octets then the port.
pub fn ip_to_mac(addr: &IpEndpoint) -> (r: Vec<u8>)
    ensures
        r@ == ip_mac(*addr),
{
    let mut v: Vec<u8> = Vec::new();
    v.push(addr.ip[0]);
    v.push(addr.ip[1]);
    v.push(addr.ip[2]);
    v.push(addr.ip[3]);
    v.push(crate::bytes::high_byte(addr.port));
    v.push(crate::bytes::low_byte(addr.port));
    assert(v@ =~= ip_mac(*addr));
    v
}

/// Control byte of a routed NPDU.
pub open spec fn routed_control(n: NpduSpec, final_delivery: bool) -> u8 {
    let c0 = n.priority;
    let c1 = if n.network_message {
        c0 | 0x80u8
    } else {
        c0
    };
    let c2 = if n.destination is Some && !final_delivery {
        c1 | 0x20u8
    } else {
        c1
    };
    let c3 = c2 | 0x08u8;
    if n.expecting_reply {
        c3 | 0x04u8
    } else {
        c3
    }
}

/// The NPDU header bytes of a routed message, up to (not including) the APDU.
pub open spec fn routed_header(
    n: NpduSpec,
    snet: u16,
    sadr: Seq<u8>,
    final_delivery: bool,
) -> Seq<u8> {
    let keep_dest = n.destination is Some && !final_delivery;
    let dest_part = if keep_dest {
        let d = n.destination.unwrap();
        seq![hi8(d.0), lo8(d.0), d.1.len() as u8] + d.1
    } else {
        Seq::empty()
    };
    let h: u8 = if n.hop_count is Some {
        n.hop_count.unwrap()
    } else {
        255u8
    };
    let hop_part = if keep_dest {
        seq![
            if h > 0 {
                (h - 1) as u8
            } else {
                0u8
            },
        ]
    } else {
        Seq::empty()
    };
    seq![1u8, routed_control(n, final_delivery)] + dest_part + seq![
        hi8(snet),
        lo8(snet),
        sadr.len() as u8,
    ] + sadr + hop_part
}

/// What `build_routed_npdu` produces: the routed header followed by the APDU of
/// `original`, or `None` where `original` has no valid NPDU header.
pub open spec fn routed_npdu_spec(
    original: Seq<u8>,
    snet: u16,
    sadr: Seq<u8>,
    n: NpduSpec,
    final_delivery: bool,
) -> Option<Seq<u8>> {
    match parse_npdu_spec(original) {
        Ok((_, len)) => Some(
            routed_header(n, snet, sadr, final_delivery) + original.subrange(
                if len < original.len() {
                    len
                } else {
                    original.len() as int
                },
                original.len() as int,
            ),
        ),
        Err(_) => None,
    }
}

/// Build a routed NPDU: the header of `npdu` with the source network and address
/// set to `source_network`/`source_address`, the destination and hop count kept
/// unless `final_delivery`, and the APDU of `original_data` appended.
pub fn build_routed_npdu(
    original_data: &[u8],
    source_network: u16,
    source_address: &[u8],
    npdu: &NpduInfo,
    final_delivery: bool,
) -> (r: Result<Vec<u8>, GatewayError>)
    ensures
        match r {
            Ok(v) => routed_npdu_spec(
                original_data@,
                source_network,
                source_address@,
                npdu@,
                final_delivery,
            ) == Some(v@),
            Err(GatewayError::NpduError(m)) => parse_npdu_spec(original_data@) == Err::<
                (NpduSpec, int),
                Seq<char>,
            >(m@),
            Err(_) => false,
        },
{
    let mut result: Vec<u8> = Vec::new();
    result.push(1);
    let mut control = npdu.priority;
    if npdu.network_message {
        control = control | 0x80;
    }
    if npdu.destination.is_some() && !final_delivery {
        control = control | 0x20;
    }
    control = control | 0x08;
    if npdu.expecting_reply {
        control = control | 0x04;
    }
    result.push(control);
    if let Some(dest) = &npdu.destination {
        if !final_delivery {
            result.push(crate::bytes::high_byte(dest.network));
            result.push(crate::bytes::low_byte(dest.network));
            result.push(dest.address.len() as u8);
            extend_bytes(&mut result, dest.address.as_slice());
        }
    }
    result.push(crate::bytes::high_byte(source_network));
    result.push(crate::bytes::low_byte(source_network));
    result.push(source_address.len() as u8);
    extend_bytes(&mut result, source_address);
    if npdu.destination.is_some() && !final_delivery {
        let hc = match npdu.hop_count {
            Some(h) => h,
            None => 255,
        };
        let hc = if hc > 0 {
            hc - 1
        } else {
            0
        };
        result.push(hc);
    }
    let ghost header = result@;
    assert(header =~= routed_header(npdu@, source_network, source_address@, final_delivery));
    let parsed = parse_npdu(original_data);
    match parsed {
        Ok((_, npdu_len)) => {
            if npdu_len < original_data.len() {
                let tail = copy_range(original_data, npdu_len, original_data.len());
                extend_bytes(&mut result, tail.as_slice());
            } else {
                assert(original_data@.subrange(
                    original_data@.len() as int,
                    original_data@.len() as int,
                ) =~= Seq::<u8>::empty());
                assert(result@ =~= header + Seq::<u8>::empty());
            }
            Ok(result)
        },
        Err(e) => Err(e),
    }
}


/// A parsed header is at least 2 bytes, lies within the data, and names
/// addresses of at most 255 bytes.
pub proof fn lemma_parse_npdu_bounds(d: Seq<u8>)
    ensures
        parse_npdu_spec(d) matches Ok((n, len)) ==> {
            &&& 2 <= len <= d.len()
            &&& (n.destination matches Some(a) ==> a.1.len() <= 255)
            &&& (n.source matches Some(a) ==> a.1.len() <= 255)
        },
{
}

/// A routed NPDU is at most 265 bytes plus the source address longer than
/// the original.
pub proof fn lemma_routed_len(original: Seq<u8>, snet: u16, sadr: Seq<u8>, n: NpduSpec, final_delivery: bool)
    requires
        n.destination matches Some(a) ==> a.1.len() <= 255,
        routed_npdu_spec(original, snet, sadr, n, final_delivery) is Some,
    ensures
        routed_npdu_spec(original, snet, sadr, n, final_delivery)->0.len() <= original.len() + 265
            + sadr.len(),
{
}

proof fn lemma_routed_control_bits(n: NpduSpec, final_delivery: bool)
    requires
        n.priority < 4,
    ensures
        (routed_control(n, final_delivery) & 0x20u8 != 0) == (n.destination is Some && !final_delivery),
        routed_control(n, final_delivery) & 0x08u8 != 0,
        (routed_control(n, final_delivery) & 0x80u8 != 0) == n.network_message,
        (routed_control(n, final_delivery) & 0x04u8 != 0) == n.expecting_reply,
        routed_control(n, final_delivery) & 0x03u8 == n.priority,
{
    let p = n.priority;
    let nm = n.network_message;
    let kd = n.destination is Some && !final_delivery;
    let er = n.expecting_reply;
    let c = routed_control(n, final_delivery);
    assert(c == {
        let c1 = if nm { p | 0x80u8 } else { p };
        let c2 = if kd { c1 | 0x20u8 } else { c1 };
        let c3 = c2 | 0x08u8;
        if er { c3 | 0x04u8 } else { c3 }
    });
    assert({
        let c1 = if nm { p | 0x80u8 } else { p };
        let c2 = if kd { c1 | 0x20u8 } else { c1 };
        let c3 = c2 | 0x08u8;
        let c4 = if er { c3 | 0x04u8 } else { c3 };
        &&& (c4 & 0x20u8 != 0) == kd
        &&& c4 & 0x08u8 != 0
        &&& (c4 & 0x80u8 != 0) == nm
        &&& (c4 & 0x04u8 != 0) == er
        &&& c4 & 0x03u8 == p
    }) by (bit_vector)
        requires
            p < 4,
    ;
}

/// A routed NPDU parses back: it names the gateway-side source network and
/// address (so that a reply can be routed back), keeps the destination and
/// counts one hop unless this is the final delivery, keeps the message kind,
/// reply flag and priority, and carries the original's APDU unchanged.
pub proof fn lemma_routed_npdu_parses(
    original: Seq<u8>,
    snet: u16,
    sadr: Seq<u8>,
    n: NpduSpec,
    final_delivery: bool,
)
    requires
        routed_npdu_spec(original, snet, sadr, n, final_delivery) is Some,
        n.priority < 4,
        sadr.len() <= 255,
        n.destination matches Some(a) ==> a.1.len() <= 255,
    ensures
        ({
            let r = routed_npdu_spec(original, snet, sadr, n, final_delivery)->0;
            let keep = n.destination is Some && !final_delivery;
            let olen = parse_npdu_spec(original)->Ok_0.1;
            &&& parse_npdu_spec(r) is Ok
            &&& parse_npdu_spec(r)->Ok_0.0.source == Some((snet, sadr))
            &&& parse_npdu_spec(r)->Ok_0.0.destination == if keep {
                n.destination
            } else {
                None
            }
            &&& parse_npdu_spec(r)->Ok_0.0.hop_count == if keep {
                Some(
                    if n.hop_count.unwrap_or(255u8) > 0 {
                        (n.hop_count.unwrap_or(255u8) - 1) as u8
                    } else {
                        0u8
                    },
                )
            } else {
                None
            }
            &&& parse_npdu_spec(r)->Ok_0.0.network_message == n.network_message
            &&& parse_npdu_spec(r)->Ok_0.0.expecting_reply == n.expecting_reply
            &&& parse_npdu_spec(r)->Ok_0.0.priority == n.priority
            &&& r.subrange(parse_npdu_spec(r)->Ok_0.1, r.len() as int) == original.subrange(
                olen,
                original.len() as int,
            )
        }),
{
    lemma_parse_npdu_bounds(original);
    lemma_routed_control_bits(n, final_delivery);
    let r = routed_npdu_spec(original, snet, sadr, n, final_delivery)->0;
    let h = routed_header(n, snet, sadr, final_delivery);
    let olen = parse_npdu_spec(original)->Ok_0.1;
    let apdu = original.subrange(olen, original.len() as int);
    assert(r =~= h + apdu);
    let keep = n.destination is Some && !final_delivery;
    crate::bytes::lemma_be16_roundtrip(snet);
    assert(r[0] == 1u8);
    assert(r[1] == routed_control(n, final_delivery));
    if keep {
        let d = n.destination->0;
        crate::bytes::lemma_be16_roundtrip(d.0);
        let p1: int = 5 + d.1.len() as int;
        assert(r[2] == hi8(d.0) && r[3] == lo8(d.0) && r[4] == d.1.len() as u8);
        assert(addr_end(r, 2) == p1);
        assert(r.subrange(5, p1) =~= d.1);
        assert(r[p1] == hi8(snet) && r[p1 + 1] == lo8(snet) && r[p1 + 2] == sadr.len() as u8);
        assert(addr_end(r, p1) == p1 + 3 + sadr.len());
        assert(r.subrange(p1 + 3, p1 + 3 + sadr.len()) =~= sadr);
        assert(h.len() == p1 + 3 + sadr.len() + 1);
        assert(r.subrange(h.len() as int, r.len() as int) =~= apdu);
    } else {
        let p1: int = 2;
        assert(r[p1] == hi8(snet) && r[p1 + 1] == lo8(snet) && r[p1 + 2] == sadr.len() as u8);
        assert(addr_end(r, p1) == p1 + 3 + sadr.len());
        assert(r.subrange(p1 + 3, p1 + 3 + sadr.len()) =~= sadr);
        assert(h.len() == p1 + 3 + sadr.len());
        assert(r.subrange(h.len() as int, r.len() as int) =~= apdu);
    }
}

} // verus!
