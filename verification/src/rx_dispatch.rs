//! What the gateway does with each frame heard on MS/TP and each packet heard
//! on BACnet/IP before (or instead of) routing it, and the broadcasts it puts
//! out on its own: device discovery, answers of the local device, Who-Is
//! scans and router announcements.
use vstd::prelude::*;
use crate::bytes::{hi8, lo8, IpEndpoint};
use crate::local_device::{
    from_i_am_spec, i_am_router_spec, i_am_spec, DiscoveredDevice, LocalDevice,
    APDU_UNCONFIRMED_REQUEST, SERVICE_WHO_IS,
};
use crate::local_dispatch::{
    apdu_offset_spec, extract_apdu_from_npdu, local_answer_spec, try_process_local_device,
    SourceRouteInfo,
};
use crate::npdu::{build_bvlc, bvlc_spec};
use crate::text::extend_bytes;

verus! {

/// A local answer to a request that came from network `snet`, address
/// `sadr`: addressed back there (DNET/DADR, hop count 255) with the answer's
/// APDU.
pub open spec fn remote_reply_spec(response: Seq<u8>, snet: u16, sadr: Seq<u8>) -> Seq<u8> {
    seq![1u8, 0x20u8, hi8(snet), lo8(snet), sadr.len() as u8] + sadr + seq![0xFFu8] + if response.len()
        > 2 {
        response.subrange(2, response.len() as int)
    } else {
        Seq::empty()
    }
}

/// Address a local answer back to the remote network and station a request
/// came from.
pub fn remote_reply_npdu(response: &[u8], src: &SourceRouteInfo) -> (r: Vec<u8>)
    ensures
        r@ == remote_reply_spec(response@, src.source_network, src.source_address@),
{
    let mut v: Vec<u8> = Vec::new();
    v.push(0x01);
    v.push(0x20);
    v.push(crate::bytes::high_byte(src.source_network));
    v.push(crate::bytes::low_byte(src.source_network));
    v.push(src.source_address.len() as u8);
    extend_bytes(&mut v, src.source_address.as_slice());
    v.push(0xFF);
    if response.len() > 2 {
        extend_bytes(&mut v, &response[2..response.len()]);
    }
    assert(v@ =~= remote_reply_spec(response@, src.source_network, src.source_address@));
    v
}

/// The frame (NPDU and destination station) the local device puts on MS/TP in
/// answer to an NPDU heard from station `source`: a request from a remote
/// network goes back through the station that routed it, a broadcast answer
/// to everyone, any other answer to the requester.
pub open spec fn mstp_local_reply_spec(d: LocalDevice, data: Seq<u8>, source: u8, mstp_network: u16) -> Option<(Seq<u8>, u8)> {
    match local_answer_spec(d, data, mstp_network) {
        Some((resp, bcast, Some((snet, sadr)))) => Some((remote_reply_spec(resp, snet, sadr), source)),
        Some((resp, bcast, None)) => Some(
            (
                resp,
                if bcast {
                    255u8
                } else {
                    source
                },
            ),
        ),
        None => None,
    }
}

/// Answer an NPDU heard on MS/TP with the local device, if it is for it.
pub fn mstp_local_reply(data: &[u8], source_addr: u8, local_device: &LocalDevice, mstp_network: u16) -> (r: Option<(Vec<u8>, u8)>)
    ensures
        match r {
            Some((v, dest)) => mstp_local_reply_spec(*local_device, data@, source_addr, mstp_network) == Some((v@, dest)),
            None => mstp_local_reply_spec(*local_device, data@, source_addr, mstp_network) is None,
        },
{
    match try_process_local_device(data, local_device, mstp_network) {
        Some((resp, bcast, Some(src))) => {
            Some((remote_reply_npdu(resp.as_slice(), &src), source_addr))
        },
        Some((resp, bcast, None)) => {
            let dest: u8 = if bcast {
                255
            } else {
                source_addr
            };
            Some((resp, dest))
        },
        None => None,
    }
}

/// The device announced by an I-Am carried in an NPDU heard from station
/// `source`.
pub open spec fn heard_i_am_spec(data: Seq<u8>, source: u8) -> Option<DiscoveredDevice> {
    match apdu_offset_spec(data) {
        Some(p) => from_i_am_spec(data.subrange(p, data.len() as int), source),
        None => None,
    }
}

/// Read the device announced by an I-Am in an NPDU heard on MS/TP.
pub fn heard_i_am(data: &[u8], source_addr: u8) -> (r: Option<DiscoveredDevice>)
    ensures
        r == heard_i_am_spec(data@, source_addr),
{
    match extract_apdu_from_npdu(data) {
        Some(apdu) => {
            if apdu.len() >= 2 && apdu[0] == APDU_UNCONFIRMED_REQUEST && apdu[1] == 0x00 {
                DiscoveredDevice::from_i_am(apdu, source_addr)
            } else {
                proof {
                    assert(apdu@.len() < 2 || apdu@[0] != APDU_UNCONFIRMED_REQUEST || apdu@[1] != 0);
                }
                None
            }
        },
        None => None,
    }
}

/// Whether `list` already holds a device with the instance or the station
/// address of `d`.
pub open spec fn already_known(list: Seq<DiscoveredDevice>, d: DiscoveredDevice) -> bool {
    exists|i: int|
        #![trigger list[i]]
        0 <= i < list.len() && (list[i].device_instance == d.device_instance || list[i].mac_address
            == d.mac_address)
}

/// Add a discovered device unless one with its instance or station address is
/// listed already; tells whether it was added.
pub fn record_discovered(list: &mut Vec<DiscoveredDevice>, device: DiscoveredDevice) -> (r: bool)
    ensures
        r == !already_known(old(list)@, device),
        final(list)@ == if r {
            old(list)@.push(device)
        } else {
            old(list)@
        },
{
    let mut i: usize = 0;
    while i < list.len()
        invariant
            i <= list@.len(),
            forall|j: int|
                #![trigger list@[j]]
                0 <= j < i ==> !(list@[j].device_instance == device.device_instance
                    || list@[j].mac_address == device.mac_address),
        decreases list@.len() - i,
    {
        if list[i].device_instance == device.device_instance || list[i].mac_address == device.mac_address {
            return false;
        }
        i = i + 1;
    }
    list.push(device);
    true
}

/// The global broadcast endpoint on the BACnet/IP port.
pub open spec fn global_broadcast_endpoint() -> IpEndpoint {
    IpEndpoint { ip: [255u8, 255u8, 255u8, 255u8], port: 47808 }
}

/// Packets that carry a local answer on BACnet/IP: a broadcast answer goes to
/// the global broadcast address and also straight to the requester.
pub open spec fn ip_reply_packets_spec(response: Seq<u8>, is_broadcast: bool, source: IpEndpoint) -> Seq<(Seq<u8>, IpEndpoint)> {
    let b = bvlc_spec(response, is_broadcast);
    if is_broadcast {
        seq![(b, global_broadcast_endpoint()), (b, source)]
    } else {
        seq![(b, source)]
    }
}

/// The packets that carry a local answer back over BACnet/IP.
pub fn ip_reply_packets(response: &[u8], is_broadcast: bool, source: IpEndpoint) -> (r: Vec<(Vec<u8>, IpEndpoint)>)
    requires
        response@.len() + 4 <= usize::MAX,
    ensures
        r@.map_values(|p: (Vec<u8>, IpEndpoint)| (p.0@, p.1)) == ip_reply_packets_spec(
            response@,
            is_broadcast,
            source,
        ),
{
    let mut out: Vec<(Vec<u8>, IpEndpoint)> = Vec::new();
    if is_broadcast {
        let everyone = IpEndpoint { ip: [255, 255, 255, 255], port: 47808 };
        out.push((build_bvlc(response, true), everyone));
        out.push((build_bvlc(response, true), source));
    } else {
        out.push((build_bvlc(response, false), source));
    }
    assert(out@.map_values(|p: (Vec<u8>, IpEndpoint)| (p.0@, p.1)) =~= ip_reply_packets_spec(
        response@,
        is_broadcast,
        source,
    ));
    out
}

/// Whether an NPDU's control byte asks for a reply.
pub open spec fn expects_reply_spec(npdu: Seq<u8>) -> bool {
    npdu.len() >= 2 && npdu[1] & 0x04u8 != 0
}

/// Whether an NPDU routed to MS/TP expects a reply (it is then sent as
/// BACnet-Data-Expecting-Reply).
pub fn npdu_expects_reply(npdu: &[u8]) -> (r: bool)
    ensures
        r == expects_reply_spec(npdu@),
{
    npdu.len() >= 2 && (npdu[1] & 0x04) != 0
}

/// Who-Is on the local MS/TP segment (no network layer information).
pub open spec fn local_who_is_spec() -> Seq<u8> {
    seq![1u8, 0u8, APDU_UNCONFIRMED_REQUEST, SERVICE_WHO_IS]
}

/// Who-Is to every network (DNET 0xFFFF), naming this station on
/// `mstp_network` as the source so that routers can return the I-Ams.
pub open spec fn global_who_is_spec(mstp_network: u16, mac: u8) -> Seq<u8> {
    seq![
        1u8,
        0x28u8,
        0xFFu8,
        0xFFu8,
        0u8,
        hi8(mstp_network),
        lo8(mstp_network),
        1u8,
        mac,
        0xFFu8,
        APDU_UNCONFIRMED_REQUEST,
        SERVICE_WHO_IS,
    ]
}

/// The two Who-Is broadcasts of a device scan: local, then global.
pub fn who_is_npdus(mstp_network: u16, mac: u8) -> (r: (Vec<u8>, Vec<u8>))
    ensures
        r.0@ == local_who_is_spec(),
        r.1@ == global_who_is_spec(mstp_network, mac),
{
    let who_is = LocalDevice::build_who_is();
    let mut local: Vec<u8> = Vec::new();
    local.push(0x01);
    local.push(0x00);
    extend_bytes(&mut local, who_is.as_slice());
    let mut global: Vec<u8> = Vec::new();
    global.push(0x01);
    global.push(0x28);
    global.push(0xFF);
    global.push(0xFF);
    global.push(0x00);
    global.push(crate::bytes::high_byte(mstp_network));
    global.push(crate::bytes::low_byte(mstp_network));
    global.push(0x01);
    global.push(mac);
    global.push(0xFF);
    extend_bytes(&mut global, who_is.as_slice());
    assert(local@ =~= local_who_is_spec());
    assert(global@ =~= global_who_is_spec(mstp_network, mac));
    (local, global)
}

/// The periodic router announcements on MS/TP: the device's I-Am (local
/// broadcast) and I-Am-Router-To-Network for the IP network.
pub fn announcement_npdus(device: &LocalDevice, ip_network: u16) -> (r: (Vec<u8>, Vec<u8>))
    ensures
        r.0@ == seq![1u8, 0u8] + i_am_spec(device.device_instance),
        r.1@ == i_am_router_spec(seq![ip_network]),
{
    let i_am = device.build_i_am();
    let mut npdu: Vec<u8> = Vec::new();
    npdu.push(0x01);
    npdu.push(0x00);
    extend_bytes(&mut npdu, i_am.as_slice());
    let networks: [u16; 1] = [ip_network];
    let router = LocalDevice::build_i_am_router_to_network(&networks);
    assert(networks@ =~= seq![ip_network]);
    assert(npdu@ =~= seq![1u8, 0u8] + i_am_spec(device.device_instance));
    (npdu, router)
}

} // verus!
