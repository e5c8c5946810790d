//! Deciding whether a received NPDU or BACnet/IP packet is addressed to the
//! gateway's own device object, and answering it.
use vstd::prelude::*;
use crate::bytes::{be16, read_be16};
use crate::local_device::{process_apdu_spec, LocalDevice};
use crate::text::{copy_range, extend_bytes};

verus! {

/// Offset of the APDU within an NPDU, or `None` when there is no APDU.
pub open spec fn apdu_offset_spec(d: Seq<u8>) -> Option<int> {
    if d.len() < 2 || d[0] != 1 {
        None
    } else {
        let c = d[1];
        let has_dest = c & 0x20u8 != 0;
        let has_src = c & 0x08u8 != 0;
        if has_dest && 5 > d.len() {
            None
        } else {
            let p1: int = if has_dest {
                5 + d[4] as int
            } else {
                2
            };
            if has_src && p1 + 3 > d.len() {
                None
            } else {
                let p2 = if has_src {
                    p1 + 3 + d[p1 + 2] as int
                } else {
                    p1
                };
                let p3 = if has_dest {
                    p2 + 1
                } else {
                    p2
                };
                if c & 0x80u8 != 0 || p3 >= d.len() {
                    None
                } else {
                    Some(p3)
                }
            }
        }
    }
}

/// The APDU carried by an NPDU (everything after its header), or `None` for a
/// network layer message, a malformed header or an empty APDU.
pub fn extract_apdu_from_npdu(data: &[u8]) -> (r: Option<&[u8]>)
    ensures
        match apdu_offset_spec(data@) {
            Some(p) => r matches Some(s) && s@ == data@.subrange(p, data@.len() as int),
            None => r is None,
        },
{
    if data.len() < 2 {
        return None;
    }
    if data[0] != 0x01 {
        return None;
    }
    let control = data[1];
    let mut pos: usize = 2;
    if (control & 0x20) != 0 {
        if pos + 3 > data.len() {
            return None;
        }
        pos = pos + 2;
        let dlen = data[pos] as usize;
        pos = pos + 1 + dlen;
    }
    if (control & 0x08) != 0 {
        if pos >= data.len() || data.len() - pos < 3 {
            return None;
        }
        pos = pos + 2;
        let slen = data[pos] as usize;
        if slen >= data.len() - pos {
            return None;
        }
        pos = pos + 1 + slen;
    }
    if (control & 0x20) != 0 {
        if pos >= data.len() {
            return None;
        }
        pos = pos + 1;
    }
    if (control & 0x80) != 0 {
        return None;
    }
    if pos < data.len() {
        Some(&data[pos..data.len()])
    } else {
        None
    }
}

/// Source network and address of a routed request.
#[derive(Debug, Clone)]
pub struct SourceRouteInfo {
    pub source_network: u16,
    pub source_address: Vec<u8>,
}

/// What `try_process_local_device` answers: the response NPDU, whether it is to
/// be broadcast, and the request's source network and address when present.
pub open spec fn local_answer_spec(d: LocalDevice, data: Seq<u8>, local_network: u16) -> Option<(Seq<u8>, bool, Option<(u16, Seq<u8>)>)> {
    if data.len() < 2 || data[0] != 1 {
        None
    } else {
        let c = data[1];
        let has_dest = c & 0x20u8 != 0;
        let has_src = c & 0x08u8 != 0;
        if has_dest && 5 > data.len() {
            None
        } else if has_dest && be16(data[2], data[3]) != 0xFFFF && be16(data[2], data[3])
            != local_network {
            None
        } else {
            let p1: int = if has_dest {
                5 + data[4] as int
            } else {
                2
            };
            if has_src && (p1 + 3 > data.len() || p1 + 3 + data[p1 + 2] as int > data.len()) {
                None
            } else {
                let p2 = if has_src {
                    p1 + 3 + data[p1 + 2] as int
                } else {
                    p1
                };
                let src = if has_src {
                    Some((be16(data[p1], data[p1 + 1]), data.subrange(p1 + 3, p2)))
                } else {
                    None
                };
                if has_dest && p2 >= data.len() {
                    None
                } else {
                    let p3 = if has_dest {
                        p2 + 1
                    } else {
                        p2
                    };
                    if c & 0x80u8 != 0 || p3 >= data.len() {
                        None
                    } else {
                        match process_apdu_spec(d, data.subrange(p3, data.len() as int)) {
                            Some((resp, b)) => Some((seq![1u8, 0u8] + resp, b, src)),
                            None => None,
                        }
                    }
                }
            }
        }
    }
}

pub open spec fn route_view(s: Option<SourceRouteInfo>) -> Option<(u16, Seq<u8>)> {
    match s {
        Some(x) => Some((x.source_network, x.source_address@)),
        None => None,
    }
}

/// Answer an NPDU with the local device when it is addressed to this network
/// (no destination, the global broadcast network, or `local_network`).
pub fn try_process_local_device(data: &[u8], local_device: &LocalDevice, local_network: u16) -> (r: Option<(Vec<u8>, bool, Option<SourceRouteInfo>)>)
    ensures
        match r {
            Some((v, b, s)) => local_answer_spec(*local_device, data@, local_network) == Some(
                (v@, b, route_view(s)),
            ),
            None => local_answer_spec(*local_device, data@, local_network) is None,
        },
{
    if data.len() < 2 {
        return None;
    }
    if data[0] != 0x01 {
        return None;
    }
    let control = data[1];
    let mut pos: usize = 2;
    let has_dest = (control & 0x20) != 0;
    let has_source = (control & 0x08) != 0;
    let is_network_msg = (control & 0x80) != 0;
    if has_dest {
        if pos + 3 > data.len() {
            return None;
        }
        let dnet = read_be16(data[pos], data[pos + 1]);
        pos = pos + 2;
        let dlen = data[pos] as usize;
        pos = pos + 1;
        if dnet != 0xFFFF && dnet != local_network {
            return None;
        }
        pos = pos + dlen;
    }
    let source_info = if has_source {
        if pos >= data.len() || data.len() - pos < 3 {
            return None;
        }
        let snet = read_be16(data[pos], data[pos + 1]);
        pos = pos + 2;
        let slen = data[pos] as usize;
        pos = pos + 1;
        if slen > data.len() - pos {
            return None;
        }
        let sadr = copy_range(data, pos, pos + slen);
        pos = pos + slen;
        Some(SourceRouteInfo { source_network: snet, source_address: sadr })
    } else {
        None
    };
    if has_dest {
        if pos >= data.len() {
            return None;
        }
        pos = pos + 1;
    }
    if is_network_msg {
        return None;
    }
    if pos >= data.len() {
        return None;
    }
    let apdu = &data[pos..data.len()];
    match local_device.process_apdu(apdu) {
        Some((response_apdu, is_broadcast)) => {
            let mut npdu: Vec<u8> = Vec::new();
            npdu.push(0x01);
            npdu.push(0x00);
            extend_bytes(&mut npdu, response_apdu.as_slice());
            assert(npdu@ =~= seq![1u8, 0u8] + response_apdu@);
            Some((npdu, is_broadcast, source_info))
        },
        None => None,
    }
}

/// What `try_process_ip_local_device` answers for a BACnet/IP packet.
pub open spec fn ip_local_answer_spec(
    d: LocalDevice,
    data: Seq<u8>,
    ip_network: u16,
    mstp_network: u16,
    gateway_mac: u8,
) -> Option<(Seq<u8>, bool)> {
    if data.len() < 4 || data[0] != 0x81 || (data[1] != 0x0A && data[1] != 0x0B) {
        None
    } else {
        let npdu = data.subrange(4, data.len() as int);
        let to_gateway = npdu.len() >= 6 && npdu[1] & 0x20u8 != 0 && be16(npdu[2], npdu[3])
            == mstp_network && npdu[4] == 1 && npdu[5] == gateway_mac;
        let net = if to_gateway {
            mstp_network
        } else {
            ip_network
        };
        match local_answer_spec(d, npdu, net) {
            Some((v, b, _)) => Some((v, b)),
            None => None,
        }
    }
}

/// Answer a BACnet/IP Original-Unicast/Broadcast packet with the local device:
/// requests routed to the gateway's own MS/TP address are answered as on the
/// MS/TP network, others as on the IP network.
pub fn try_process_ip_local_device(
    data: &[u8],
    local_device: &LocalDevice,
    ip_network: u16,
    mstp_network: u16,
    gateway_mac: u8,
) -> (r: Option<(Vec<u8>, bool)>)
    ensures
        match r {
            Some((v, b)) => ip_local_answer_spec(
                *local_device,
                data@,
                ip_network,
                mstp_network,
                gateway_mac,
            ) == Some((v@, b)),
            None => ip_local_answer_spec(
                *local_device,
                data@,
                ip_network,
                mstp_network,
                gateway_mac,
            ) is None,
        },
{
    if data.len() < 4 {
        return None;
    }
    if data[0] != 0x81 {
        return None;
    }
    let bvlc_function = data[1];
    if bvlc_function != 0x0A && bvlc_function != 0x0B {
        return None;
    }
    let npdu_data = &data[4..data.len()];
    if npdu_data.len() >= 6 {
        let control = npdu_data[1];
        let has_dest = (control & 0x20) != 0;
        if has_dest {
            let dnet = read_be16(npdu_data[2], npdu_data[3]);
            let dlen = npdu_data[4] as usize;
            if dnet == mstp_network && dlen == 1 && npdu_data.len() > 5 {
                let dadr = npdu_data[5];
                if dadr == gateway_mac {
                    return match try_process_local_device(npdu_data, local_device, mstp_network) {
                        Some((npdu, is_broadcast, _)) => Some((npdu, is_broadcast)),
                        None => None,
                    };
                }
            }
        }
    }
    match try_process_local_device(npdu_data, local_device, ip_network) {
        Some((npdu, is_broadcast, _)) => Some((npdu, is_broadcast)),
        None => None,
    }
}

} // verus!
