//! BACnet router between an MS/TP network and a BACnet/IP network (ASHRAE
//! 135 Clause 6 and Annex J). The router decides; packets for the IP side are
//! collected in an outbox, timestamps are clock readings in milliseconds
//! handed in by the caller.
use vstd::prelude::*;
use crate::bytes::{be16, be32, be32_bytes, hi8, lo8, IpEndpoint};
use crate::config::{rt_config_view, BdtEntryConfig, RoutingTableEntryConfig};
use crate::text::{decimal, push_decimal, push_str, string_from_chars};
use crate::gateway_tables::{
    bdt_decoded, build_read_bdt_ack, build_read_fdt_ack, decode_bdt_entries, ep_is, fd_expired,
    fd_index, find_endpoint, find_foreign_device, fresh_entries, index_of_key,
    live_registrations, prune_address_table, prune_foreign_devices, read_bdt_ack_spec,
    read_fdt_ack_spec, route_view, upsert, AddressEntry, BdtEntry, ForeignDeviceEntry,
    RoutingTableEntry,
};
use crate::mstp_driver::elapsed;
use crate::npdu::{
    build_bvlc, build_routed_npdu, bvlc_spec, ip_mac, ip_to_mac, parse_apdu, parse_apdu_spec,
    parse_npdu, parse_npdu_spec, routed_npdu_spec, is_response_type, ApduInfo, ApduTypeClass,
    GatewayError, NpduInfo, NpduSpec,
};
use crate::router_msgs::{
    abort_apdu_spec, broadcast_octets, build_bvlc_result, build_forwarded_npdu,
    build_i_am_router_to_network, build_initialize_routing_table_ack,
    build_reject_message_to_network, bvlc_result_spec, calculate_broadcast_address,
    encode_abort, encode_segment_ack, forwarded_spec, i_am_router_spec, init_rt_ack_spec,
    local_npdu, local_npdu_spec, reject_code, reject_msg_spec, resolve_ip_address,
    segment_ack_apdu_spec, RejectReason, BVLC_DELETE_FDT_ENTRY, BVLC_DISTRIBUTE_BROADCAST,
    BVLC_FORWARDED_NPDU, BVLC_ORIGINAL_BROADCAST, BVLC_ORIGINAL_UNICAST, BVLC_READ_BDT,
    BVLC_READ_FDT, BVLC_REGISTER_FOREIGN_DEVICE, BVLC_RESULT_DELETE_FDT_NAK,
    BVLC_RESULT_DISTRIBUTE_NAK, BVLC_RESULT_REGISTER_FD_NAK, BVLC_RESULT_SUCCESS,
    BVLC_RESULT_WRITE_BDT_NAK, BVLC_WRITE_BDT, NL_INITIALIZE_ROUTING_TABLE,
    NL_WHO_IS_ROUTER_TO_NETWORK,
};
use crate::segmentation::{segment_step, ReassemblyView, SegmentationError, SegmentationManager};
use crate::text::{copy_range, extend_bytes};
use crate::transaction::{
    has_key, key_index, key_index_from, key_of, lemma_key_index, lemma_table_keys_unique,
    live_of, retried, timed_out_of,
    service_of_code, service_timeout_spec, ConfirmedServiceChoice, PendingTransaction,
    TransactionStats, TransactionTable, TxnView, DEFAULT_MAX_RETRIES,
};

verus! {

/// Default age after which an address translation is forgotten (1 hour).
pub const DEFAULT_ADDRESS_AGE_MS: u64 = 3_600_000;

/// Smallest hop count that may still be routed.
pub const MIN_HOP_COUNT: u8 = 1;

/// Most foreign device registrations kept.
pub const MAX_FDT_ENTRIES: usize = 255;

/// Most broadcast distribution table entries kept.
pub const MAX_BDT_ENTRIES: usize = 6553;

/// Largest APDU accepted in a segment.
pub const MAX_APDU_LENGTH: u16 = 1476;

/// Time without traffic after which a network counts as down (ms).
pub const HEALTH_TIMEOUT_MS: u64 = 60_000;

/// How long stored segmented-request headers are kept (ms).
pub const SEGMENT_INFO_TIMEOUT_MS: u64 = 60_000;

/// How long a transmitted segment waits for its acknowledgement (ms).
pub const SEGMENT_TIMEOUT_MS: u64 = 3_000;

/// Retransmissions of a segment before it is given up.
pub const SEGMENT_MAX_RETRIES: u8 = 3;

/// Header fields of the first segment of a segmented request, kept to rebuild
/// the whole APDU.
#[derive(Debug, Clone)]
pub struct SegmentedRequestInfo {
    pub service_choice: u8,
    pub max_apdu_accepted: u8,
    pub segmented_response_accepted: bool,
    pub npdu_data: Vec<u8>,
    pub source_addr: IpEndpoint,
    pub created_at_ms: u64,
}

/// View of a stored segmented-request header.
pub struct SegInfoView {
    pub service_choice: u8,
    pub max_apdu_accepted: u8,
    pub segmented_response_accepted: bool,
    pub npdu_data: Seq<u8>,
    pub source_addr: IpEndpoint,
    pub created_at_ms: u64,
}

pub open spec fn seg_info_view(i: Option<SegmentedRequestInfo>) -> Option<SegInfoView> {
    match i {
        Some(x) => Some(
            SegInfoView {
                service_choice: x.service_choice,
                max_apdu_accepted: x.max_apdu_accepted,
                segmented_response_accepted: x.segmented_response_accepted,
                npdu_data: x.npdu_data@,
                source_addr: x.source_addr,
                created_at_ms: x.created_at_ms,
            },
        ),
        None => None,
    }
}

/// A transmitted segment awaiting acknowledgement.
#[derive(Debug, Clone)]
pub struct SegmentTransmission {
    pub invoke_id: u8,
    pub sequence_number: u8,
    pub segment_data: Vec<u8>,
    pub dest_addr: IpEndpoint,
    pub sent_at_ms: u64,
    pub retry_count: u8,
    pub acked: bool,
}

/// View of a transmitted segment.
pub struct SegTxView {
    pub invoke_id: u8,
    pub sequence_number: u8,
    pub segment_data: Seq<u8>,
    pub dest_addr: IpEndpoint,
    pub sent_at_ms: u64,
    pub retry_count: u8,
    pub acked: bool,
}

pub open spec fn seg_tx_view(t: SegmentTransmission) -> SegTxView {
    SegTxView {
        invoke_id: t.invoke_id,
        sequence_number: t.sequence_number,
        segment_data: t.segment_data@,
        dest_addr: t.dest_addr,
        sent_at_ms: t.sent_at_ms,
        retry_count: t.retry_count,
        acked: t.acked,
    }
}

/// Router statistics; activity times are clock readings (ms).
#[derive(Debug, Clone, Copy)]
pub struct GatewayStats {
    pub mstp_to_ip_packets: u64,
    pub ip_to_mstp_packets: u64,
    pub routing_errors: u64,
    pub transaction_timeouts: u64,
    pub mstp_to_ip_bytes: u64,
    pub ip_to_mstp_bytes: u64,
    pub last_activity: Option<u64>,
    pub last_mstp_activity: Option<u64>,
    pub last_ip_activity: Option<u64>,
    pub mstp_network_up: bool,
    pub ip_network_up: bool,
}

/// All counters zero, no activity seen, both networks down.
pub open spec fn stats_zero() -> GatewayStats {
    GatewayStats {
        mstp_to_ip_packets: 0,
        ip_to_mstp_packets: 0,
        routing_errors: 0,
        transaction_timeouts: 0,
        mstp_to_ip_bytes: 0,
        ip_to_mstp_bytes: 0,
        last_activity: None,
        last_mstp_activity: None,
        last_ip_activity: None,
        mstp_network_up: false,
        ip_network_up: false,
    }
}

/// The two networks a router joins, for health checks.
#[derive(Debug, Clone, Copy, PartialEq, Eq, Structural)]
pub enum NetworkType {
    Mstp,
    Ip,
}

/// The router.
pub struct BacnetGateway {
    mstp_network: u16,
    ip_network: u16,
    local_ip: [u8; 4],
    local_port: u16,
    subnet_mask: [u8; 4],
    mstp_to_ip: Vec<(u8, AddressEntry<IpEndpoint>)>,
    ip_to_mstp: Vec<(IpEndpoint, AddressEntry<u8>)>,
    foreign_device_table: Vec<ForeignDeviceEntry>,
    broadcast_distribution_table: Vec<BdtEntry>,
    routing_table: Vec<RoutingTableEntry>,
    address_max_age_ms: u64,
    ip_send_queue: Vec<(Vec<u8>, IpEndpoint)>,
    mstp_send_queue: Vec<(Vec<u8>, u8)>,
    stats: GatewayStats,
    router_announced: bool,
    bdt_changed: bool,
    routing_table_changed: bool,
    transactions: TransactionTable,
    segmentation: SegmentationManager,
    segmented_request_info: Vec<Option<SegmentedRequestInfo>>,
    segment_transmissions: Vec<SegmentTransmission>,
}

/// Mathematical view of the router.
pub struct GatewayView {
    pub mstp_network: u16,
    pub ip_network: u16,
    pub local_ip: [u8; 4],
    pub local_port: u16,
    pub subnet_mask: [u8; 4],
    pub mstp_to_ip: Seq<(u8, AddressEntry<IpEndpoint>)>,
    pub ip_to_mstp: Seq<(IpEndpoint, AddressEntry<u8>)>,
    pub fdt: Seq<ForeignDeviceEntry>,
    pub bdt: Seq<BdtEntry>,
    pub routing_table: Seq<(u16, u8, Seq<u8>)>,
    pub address_max_age_ms: u64,
    /// Packets for the IP side, oldest first, with their destinations.
    pub ip_out: Seq<(Seq<u8>, IpEndpoint)>,
    /// NPDUs to retransmit on MS/TP, oldest first, with their MAC addresses.
    pub mstp_out: Seq<(Seq<u8>, u8)>,
    pub stats: GatewayStats,
    pub router_announced: bool,
    /// The BDT changed since it was last handed out for saving.
    pub bdt_changed: bool,
    /// The routing table changed since it was last handed out for saving.
    pub routing_table_changed: bool,
    pub txns: Seq<TxnView>,
    pub txn_stats: TransactionStats,
    pub txn_capacity: usize,
    pub reassembly: Seq<Option<ReassemblyView>>,
    pub seg_info: Seq<Option<SegInfoView>>,
    pub seg_tx: Seq<SegTxView>,
}

impl View for BacnetGateway {
    type V = GatewayView;

    closed spec fn view(&self) -> GatewayView {
        GatewayView {
            mstp_network: self.mstp_network,
            ip_network: self.ip_network,
            local_ip: self.local_ip,
            local_port: self.local_port,
            subnet_mask: self.subnet_mask,
            mstp_to_ip: self.mstp_to_ip@,
            ip_to_mstp: self.ip_to_mstp@,
            fdt: self.foreign_device_table@,
            bdt: self.broadcast_distribution_table@,
            routing_table: self.routing_table@.map_values(|e: RoutingTableEntry| route_view(e)),
            address_max_age_ms: self.address_max_age_ms,
            ip_out: self.ip_send_queue@.map_values(|p: (Vec<u8>, IpEndpoint)| (p.0@, p.1)),
            mstp_out: self.mstp_send_queue@.map_values(|p: (Vec<u8>, u8)| (p.0@, p.1)),
            stats: self.stats,
            router_announced: self.router_announced,
            bdt_changed: self.bdt_changed,
            routing_table_changed: self.routing_table_changed,
            txns: self.transactions.entries().map_values(|t: PendingTransaction| t@),
            txn_stats: self.transactions.stats_view(),
            txn_capacity: self.transactions.capacity(),
            reassembly: self.segmentation.slots_view(),
            seg_info: self.segmented_request_info@.map_values(
                |i: Option<SegmentedRequestInfo>| seg_info_view(i),
            ),
            seg_tx: self.segment_transmissions@.map_values(|t: SegmentTransmission| seg_tx_view(t)),
        }
    }
}

impl GatewayView {
    /// The view with packet `p` queued for `dest`.
    pub open spec fn send(self, p: Seq<u8>, dest: IpEndpoint) -> GatewayView {
        GatewayView { ip_out: self.ip_out.push((p, dest)), ..self }
    }

    /// The view with `n` more routing errors counted.
    pub open spec fn count_error(self) -> GatewayView {
        GatewayView {
            stats: GatewayStats {
                routing_errors: self.stats.routing_errors.saturating_add(1),
                ..self.stats
            },
            ..self
        }
    }

    /// Whether `e` is the subnet's directed broadcast endpoint.
    pub open spec fn is_broadcast_endpoint(self, e: IpEndpoint) -> bool {
        e.ip@ == broadcast_octets(self.local_ip@, self.subnet_mask@) && e.port == self.local_port
    }

    /// This router's own B/IP endpoint.
    pub open spec fn local_endpoint(self) -> IpEndpoint {
        IpEndpoint { ip: self.local_ip, port: self.local_port }
    }
}


/// What a routing call hands back.
pub enum RouteOut {
    /// The call failed.
    Error(ErrKind),
    /// Nothing goes to MS/TP.
    Nothing,
    /// An NPDU for MS/TP and its destination MAC address.
    Forward(Seq<u8>, u8),
}

/// Kinds of routing failure.
pub enum ErrKind {
    InvalidFrame,
    InvalidAddress,
    HopCountExhausted,
    /// A malformed NPDU header or a refused segment, with the message.
    Npdu(Seq<char>),
    Other,
}

pub open spec fn err_kind(e: GatewayError) -> ErrKind {
    match e {
        GatewayError::InvalidFrame => ErrKind::InvalidFrame,
        GatewayError::InvalidAddress => ErrKind::InvalidAddress,
        GatewayError::HopCountExhausted => ErrKind::HopCountExhausted,
        GatewayError::NpduError(m) => ErrKind::Npdu(m@),
        _ => ErrKind::Other,
    }
}

pub open spec fn route_out(r: Result<Option<(Vec<u8>, u8)>, GatewayError>) -> RouteOut {
    match r {
        Ok(Some((v, d))) => RouteOut::Forward(v@, d),
        Ok(None) => RouteOut::Nothing,
        Err(e) => RouteOut::Error(err_kind(e)),
    }
}

pub open spec fn unit_out(r: Result<(), GatewayError>) -> RouteOut {
    match r {
        Ok(()) => RouteOut::Nothing,
        Err(e) => RouteOut::Error(err_kind(e)),
    }
}

/// A router just created.
pub open spec fn initial_view(
    mstp_network: u16,
    ip_network: u16,
    local_ip: [u8; 4],
    local_port: u16,
    subnet_mask: [u8; 4],
) -> GatewayView {
    GatewayView {
        mstp_network,
        ip_network,
        local_ip,
        local_port,
        subnet_mask,
        mstp_to_ip: Seq::empty(),
        ip_to_mstp: Seq::empty(),
        fdt: Seq::empty(),
        bdt: Seq::empty(),
        routing_table: Seq::empty(),
        address_max_age_ms: DEFAULT_ADDRESS_AGE_MS,
        ip_out: Seq::empty(),
        mstp_out: Seq::empty(),
        stats: stats_zero(),
        router_announced: false,
        bdt_changed: false,
        routing_table_changed: false,
        txns: Seq::empty(),
        txn_stats: TransactionStats::default_spec(),
        txn_capacity: crate::transaction::MAX_CONCURRENT_TRANSACTIONS,
        reassembly: Seq::new(256, |i: int| None::<ReassemblyView>),
        seg_info: Seq::new(256, |i: int| None::<SegInfoView>),
        seg_tx: Seq::empty(),
    }
}

/// The view with key `k` mapped to the entry in a routing table view.
pub open spec fn route_upsert(s: Seq<(u16, u8, Seq<u8>)>, e: (u16, u8, Seq<u8>)) -> Seq<(u16, u8, Seq<u8>)> {
    match route_index(s, e.0, 0) {
        Some(i) => s.update(i, e),
        None => s.push(e),
    }
}

/// Index of the first routing table entry for `network` at or after `i`.
pub open spec fn route_index(s: Seq<(u16, u8, Seq<u8>)>, network: u16, i: int) -> Option<int>
    decreases s.len() - i,
{
    if i < 0 || i >= s.len() {
        None
    } else if s[i].0 == network {
        Some(i)
    } else {
        route_index(s, network, i + 1)
    }
}

/// Whether no network occurs twice in routing table `s`.
pub open spec fn networks_distinct(s: Seq<(u16, u8, Seq<u8>)>) -> bool {
    forall|i: int, j: int| 0 <= i < j < s.len() ==> #[trigger] s[i].0 != #[trigger] s[j].0
}

proof fn lemma_route_index(s: Seq<(u16, u8, Seq<u8>)>, network: u16, i: int)
    requires
        0 <= i,
    ensures
        route_index(s, network, i) matches Some(j) ==> i <= j < s.len() && s[j].0 == network,
        route_index(s, network, i) is None ==> forall|j: int| i <= j < s.len() ==> s[j].0 != network,
    decreases s.len() - i,
{
    if i < s.len() && s[i].0 != network {
        lemma_route_index(s, network, i + 1);
    }
}

/// Inserting or replacing a route keeps the networks of the routing table
/// distinct.
pub proof fn lemma_route_upsert_keeps_networks_distinct(s: Seq<(u16, u8, Seq<u8>)>, e: (u16, u8, Seq<u8>))
    requires
        networks_distinct(s),
    ensures
        networks_distinct(route_upsert(s, e)),
{
    lemma_route_index(s, e.0, 0);
    let t = route_upsert(s, e);
    assert forall|i: int, j: int| 0 <= i < j < t.len() implies #[trigger] t[i].0 != #[trigger] t[j].0 by {
        match route_index(s, e.0, 0) {
            Some(m) => {
                if i == m {
                    assert(s[j].0 != s[m].0);
                } else if j == m {
                    assert(s[i].0 != s[m].0);
                } else {
                    assert(s[i].0 != s[j].0);
                }
            },
            None => {
                if j < s.len() {
                    assert(s[i].0 != s[j].0);
                }
            },
        }
    }
}

/// A routing table built by inserting routes one by one into a table with
/// distinct networks (such as the empty one) lists each network once.
pub proof fn lemma_routes_inserted_networks_distinct(t: Seq<(u16, u8, Seq<u8>)>, s: Seq<(u16, u8, Seq<u8>)>)
    requires
        networks_distinct(t),
    ensures
        networks_distinct(routes_inserted(t, s)),
    decreases s.len(),
{
    if s.len() > 0 {
        lemma_routes_inserted_networks_distinct(t, s.drop_last());
        lemma_route_upsert_keeps_networks_distinct(routes_inserted(t, s.drop_last()), s.last());
    }
}

/// BDT entries other than those for `a`.
pub open spec fn bdt_without(s: Seq<BdtEntry>, a: IpEndpoint) -> Seq<BdtEntry>
    decreases s.len(),
{
    if s.len() == 0 {
        s
    } else if s.last().address == a {
        bdt_without(s.drop_last(), a)
    } else {
        bdt_without(s.drop_last(), a).push(s.last())
    }
}

/// Whether some BDT entry is for `a`.
pub open spec fn bdt_has(s: Seq<BdtEntry>, a: IpEndpoint) -> bool {
    exists|i: int| 0 <= i < s.len() && s[i].address == a
}

/// Whether some entry of `s` is for `address`.
fn bdt_contains(s: &Vec<BdtEntry>, address: IpEndpoint) -> (r: bool)
    ensures
        r == bdt_has(s@, address),
{
    let mut i: usize = 0;
    while i < s.len()
        invariant
            i <= s@.len(),
            forall|k: int| 0 <= k < i ==> #[trigger] s@[k].address != address,
        decreases s@.len() - i,
    {
        if crate::bytes::endpoint_eq(&s[i].address, &address) {
            assert(s@[i as int].address.ip =~= address.ip);
            return true;
        }
        proof {
            if s@[i as int].address == address {
                assert(s@[i as int].address.ip@ == address.ip@);
            }
        }
        i = i + 1;
    }
    false
}

impl BacnetGateway {
    /// The pending transactions, in insertion order.
    pub closed spec fn txn_entries(&self) -> Seq<PendingTransaction> {
        self.transactions.entries()
    }

    /// Pending transactions and their views agree.
    pub proof fn lemma_txn_entries(&self)
        ensures
            self@.txns == self.txn_entries().map_values(|t: PendingTransaction| t@),
    {
    }

    /// Internal consistency: table shapes and bounds.
    pub closed spec fn wf(&self) -> bool {
        &&& self.transactions.wf()
        &&& self.segmentation.wf()
        &&& self.segmented_request_info@.len() == 256
        &&& self.foreign_device_table@.len() <= MAX_FDT_ENTRIES
        &&& self.broadcast_distribution_table@.len() <= MAX_BDT_ENTRIES
    }

    /// A router between MS/TP network `mstp_network` and IP network
    /// `ip_network`, at `local_ip:local_port` in the subnet of `subnet_mask`.
    pub fn new(
        mstp_network: u16,
        ip_network: u16,
        local_ip: [u8; 4],
        local_port: u16,
        subnet_mask: [u8; 4],
    ) -> (r: BacnetGateway)
        ensures
            r.wf(),
            r@ == initial_view(mstp_network, ip_network, local_ip, local_port, subnet_mask),
    {
        let mut info: Vec<Option<SegmentedRequestInfo>> = Vec::new();
        let mut i: usize = 0;
        while i < 256
            invariant
                i <= 256,
                info@.len() == i,
                forall|j: int| 0 <= j < i ==> info@[j] is None,
            decreases 256 - i,
        {
            info.push(None);
            i = i + 1;
        }
        let r = BacnetGateway {
            mstp_network,
            ip_network,
            local_ip,
            local_port,
            subnet_mask,
            mstp_to_ip: Vec::new(),
            ip_to_mstp: Vec::new(),
            foreign_device_table: Vec::new(),
            broadcast_distribution_table: Vec::new(),
            routing_table: Vec::new(),
            address_max_age_ms: DEFAULT_ADDRESS_AGE_MS,
            ip_send_queue: Vec::new(),
            mstp_send_queue: Vec::new(),
            stats: GatewayStats {
                mstp_to_ip_packets: 0,
                ip_to_mstp_packets: 0,
                routing_errors: 0,
                transaction_timeouts: 0,
                mstp_to_ip_bytes: 0,
                ip_to_mstp_bytes: 0,
                last_activity: None,
                last_mstp_activity: None,
                last_ip_activity: None,
                mstp_network_up: false,
                ip_network_up: false,
            },
            router_announced: false,
            bdt_changed: false,
            routing_table_changed: false,
            transactions: TransactionTable::new(),
            segmentation: SegmentationManager::new(),
            segmented_request_info: info,
            segment_transmissions: Vec::new(),
        };
        assert(r@.mstp_to_ip =~= Seq::empty());
        assert(r@.ip_to_mstp =~= Seq::empty());
        assert(r@.fdt =~= Seq::empty());
        assert(r@.bdt =~= Seq::empty());
        assert(r@.routing_table =~= Seq::empty());
        assert(r@.ip_out =~= Seq::empty());
        assert(r@.mstp_out =~= Seq::empty());
        assert(r@.txns =~= Seq::empty());
        assert(r@.seg_info =~= Seq::new(256, |i: int| None::<SegInfoView>));
        assert(r@.seg_tx =~= Seq::empty());
        r
    }

    /// A router on the standard BACnet/IP port 47808 in a /24 subnet.
    pub fn new_default(mstp_network: u16, ip_network: u16, local_ip: [u8; 4]) -> (r: BacnetGateway)
        ensures
            r.wf(),
            r@ == initial_view(mstp_network, ip_network, local_ip, 47808, [255u8, 255u8, 255u8, 0u8]),
    {
        Self::new(mstp_network, ip_network, local_ip, 47808, [255, 255, 255, 0])
    }

    /// The Reject-Message-To-Network NPDU for `dnet` with `reason`.
    pub fn build_reject_message_to_network(&self, reason: RejectReason, dnet: u16) -> (r: Vec<u8>)
        ensures
            r@ == reject_msg_spec(reject_code(reason), dnet),
    {
        build_reject_message_to_network(reason, dnet)
    }

    /// Set the subnet mask.
    pub fn set_subnet_mask(&mut self, mask: [u8; 4])
        requires
            old(self).wf(),
        ensures
            final(self).wf(),
            final(self)@ == (GatewayView { subnet_mask: mask, ..old(self)@ }),
    {
        self.subnet_mask = mask;
    }

    /// Set the local address and subnet mask (after a change of WiFi mode).
    pub fn set_local_ip(&mut self, ip: [u8; 4], mask: [u8; 4])
        requires
            old(self).wf(),
        ensures
            final(self).wf(),
            final(self)@ == (GatewayView { local_ip: ip, subnet_mask: mask, ..old(self)@ }),
    {
        self.local_ip = ip;
        self.subnet_mask = mask;
    }

    /// Set the age after which address translations are forgotten.
    pub fn set_address_max_age(&mut self, max_age_ms: u64)
        requires
            old(self).wf(),
        ensures
            final(self).wf(),
            final(self)@ == (GatewayView { address_max_age_ms: max_age_ms, ..old(self)@ }),
    {
        self.address_max_age_ms = max_age_ms;
    }

    /// Queue a packet for the IP side.
    fn send_ip_packet(&mut self, data: Vec<u8>, dest: IpEndpoint)
        ensures
            final(self).wf() == old(self).wf(),
            final(self)@ == old(self)@.send(data@, dest),
    {
        self.ip_send_queue.push((data, dest));
        assert(self.ip_send_queue@.map_values(|p: (Vec<u8>, IpEndpoint)| (p.0@, p.1))
            =~= old(self)@.ip_out.push((data@, dest)));
    }

    /// Hand over the packets waiting for the IP side, oldest first.
    pub fn take_ip_packets(&mut self) -> (r: Vec<(Vec<u8>, IpEndpoint)>)
        requires
            old(self).wf(),
        ensures
            final(self).wf(),
            r@.map_values(|p: (Vec<u8>, IpEndpoint)| (p.0@, p.1)) == old(self)@.ip_out,
            final(self)@ == (GatewayView { ip_out: Seq::empty(), ..old(self)@ }),
    {
        let mut out: Vec<(Vec<u8>, IpEndpoint)> = Vec::new();
        std::mem::swap(&mut out, &mut self.ip_send_queue);
        assert(self@.ip_out =~= Seq::empty());
        out
    }

    /// Hand over the NPDUs waiting for retransmission on MS/TP, oldest first.
    pub fn drain_mstp_send_queue(&mut self) -> (r: Vec<(Vec<u8>, u8)>)
        requires
            old(self).wf(),
        ensures
            final(self).wf(),
            r@.map_values(|p: (Vec<u8>, u8)| (p.0@, p.1)) == old(self)@.mstp_out,
            final(self)@ == (GatewayView { mstp_out: Seq::empty(), ..old(self)@ }),
    {
        let mut out: Vec<(Vec<u8>, u8)> = Vec::new();
        std::mem::swap(&mut out, &mut self.mstp_send_queue);
        assert(self@.mstp_out =~= Seq::empty());
        out
    }

    /// The BDT entries: peer address and mask.
    pub fn get_bdt_entries(&self) -> (r: Vec<(IpEndpoint, [u8; 4])>)
        ensures
            r@.len() == self@.bdt.len(),
            forall|i: int|
                0 <= i < r@.len() ==> #[trigger] r@[i] == (self@.bdt[i].address, self@.bdt[i].mask),
    {
        let mut v: Vec<(IpEndpoint, [u8; 4])> = Vec::new();
        let mut i: usize = 0;
        while i < self.broadcast_distribution_table.len()
            invariant
                i <= self.broadcast_distribution_table@.len(),
                v@.len() == i,
                forall|k: int|
                    0 <= k < i ==> #[trigger] v@[k] == (
                        self.broadcast_distribution_table@[k].address,
                        self.broadcast_distribution_table@[k].mask,
                    ),
            decreases self.broadcast_distribution_table@.len() - i,
        {
            let e = self.broadcast_distribution_table[i];
            v.push((e.address, e.mask));
            i = i + 1;
        }
        v
    }

    /// Add a BDT entry unless one for `address` exists; marks the BDT for saving.
    pub fn add_bdt_entry(&mut self, address: IpEndpoint, mask: [u8; 4])
        requires
            old(self).wf(),
            old(self)@.bdt.len() < MAX_BDT_ENTRIES,
        ensures
            final(self).wf(),
            bdt_has(old(self)@.bdt, address) ==> final(self)@ == old(self)@,
            !bdt_has(old(self)@.bdt, address) ==> final(self)@ == (GatewayView {
                bdt: old(self)@.bdt.push(BdtEntry { address, mask }),
                bdt_changed: true,
                ..old(self)@
            }),
    {
        if bdt_contains(&self.broadcast_distribution_table, address) {
            return ;
        }
        self.broadcast_distribution_table.push(BdtEntry { address, mask });
        self.bdt_changed = true;
    }

    /// Remove the BDT entries for `address`; marks the BDT for saving when one
    /// was removed.
    pub fn remove_bdt_entry(&mut self, address: IpEndpoint)
        requires
            old(self).wf(),
        ensures
            final(self).wf(),
            final(self)@ == (GatewayView {
                bdt: bdt_without(old(self)@.bdt, address),
                bdt_changed: old(self)@.bdt_changed || bdt_without(old(self)@.bdt, address).len()
                    < old(self)@.bdt.len(),
                ..old(self)@
            }),
    {
        let ghost all = self.broadcast_distribution_table@;
        let mut kept: Vec<BdtEntry> = Vec::new();
        let mut i: usize = 0;
        while i < self.broadcast_distribution_table.len()
            invariant
                self.broadcast_distribution_table@ == all,
                i <= all.len(),
                kept@ == bdt_without(all.take(i as int), address),
                kept@.len() <= i,
            decreases all.len() - i,
        {
            let e = self.broadcast_distribution_table[i];
            assert(all.take(i as int + 1).drop_last() =~= all.take(i as int));
            let same = crate::bytes::endpoint_eq(&e.address, &address);
            proof {
                if same {
                    assert(e.address.ip =~= address.ip);
                }
                if e.address == address {
                    assert(e.address.ip@ == address.ip@);
                }
            }
            if !same {
                kept.push(e);
            }
            i = i + 1;
        }
        assert(all.take(i as int) =~= all);
        let before = self.broadcast_distribution_table.len();
        let after = kept.len();
        self.broadcast_distribution_table = kept;
        if after < before {
            self.bdt_changed = true;
        }
    }

    /// Remove all BDT entries; marks the BDT for saving.
    pub fn clear_bdt(&mut self)
        requires
            old(self).wf(),
        ensures
            final(self).wf(),
            final(self)@ == (GatewayView { bdt: Seq::empty(), bdt_changed: true, ..old(self)@ }),
    {
        self.broadcast_distribution_table.clear();
        self.bdt_changed = true;
    }

    /// The routing table entries: network, port and port information.
    pub fn get_routing_table_entries(&self) -> (r: Vec<(u16, u8, Vec<u8>)>)
        ensures
            r@.map_values(|e: (u16, u8, Vec<u8>)| (e.0, e.1, e.2@)) == self@.routing_table,
    {
        let mut v: Vec<(u16, u8, Vec<u8>)> = Vec::new();
        let mut i: usize = 0;
        while i < self.routing_table.len()
            invariant
                i <= self.routing_table@.len(),
                v@.len() == i,
                forall|k: int|
                    0 <= k < i ==> (#[trigger] v@[k]).0 == self.routing_table@[k].network && v@[k].1
                        == self.routing_table@[k].port_id && v@[k].2@ == self.routing_table@[k].port_info@,
            decreases self.routing_table@.len() - i,
        {
            let e = &self.routing_table[i];
            let info = copy_range(e.port_info.as_slice(), 0, e.port_info.len());
            assert(e.port_info@.subrange(0, e.port_info@.len() as int) =~= e.port_info@);
            v.push((e.network, e.port_id, info));
            i = i + 1;
        }
        assert(v@.map_values(|e: (u16, u8, Vec<u8>)| (e.0, e.1, e.2@)) =~= self@.routing_table);
        v
    }
}


/// The subnet's directed broadcast endpoint of a router view.
pub open spec fn bcast(v: GatewayView) -> IpEndpoint {
    IpEndpoint {
        ip: choose|a: [u8; 4]| #[trigger] a@ == broadcast_octets(v.local_ip@, v.subnet_mask@),
        port: v.local_port,
    }
}

/// An endpoint whose address octets are the broadcast octets is the broadcast
/// endpoint.
proof fn lemma_bcast(v: GatewayView, r: IpEndpoint)
    requires
        v.is_broadcast_endpoint(r),
    ensures
        r == bcast(v),
{
    let a = choose|a: [u8; 4]| #[trigger] a@ == broadcast_octets(v.local_ip@, v.subnet_mask@);
    assert(a@ == r.ip@);
    assert(a =~= r.ip);
}

/// Table `s` with the address of `k` mapped to `m` seen at `now`.
pub open spec fn learn_spec<K, M>(s: Seq<(K, AddressEntry<M>)>, k: K, m: M, now: u64) -> Seq<(K, AddressEntry<M>)> {
    upsert(s, k, AddressEntry { address: m, last_seen_ms: now })
}

/// Learning an address keeps the keys of an address table distinct, as does
/// dropping stale entries in housekeeping: each MS/TP station and each IP
/// endpoint stays listed at most once.
pub proof fn lemma_address_tables_keep_keys_distinct<K, M>(
    s: Seq<(K, AddressEntry<M>)>,
    k: K,
    m: M,
    now: u64,
    max_age: u64,
)
    requires
        crate::gateway_tables::keys_distinct(s),
    ensures
        crate::gateway_tables::keys_distinct(learn_spec(s, k, m, now)),
        crate::gateway_tables::keys_distinct(fresh_entries(s, max_age, now)),
{
    crate::gateway_tables::lemma_upsert_keeps_keys_distinct(s, k, AddressEntry { address: m, last_seen_ms: now });
    crate::gateway_tables::lemma_fresh_keeps_keys_distinct(s, max_age, now);
}

/// The view after forwarding `p` to every registration still alive at `now`
/// (expired ones are dropped first).
pub open spec fn forward_to_fds(v: GatewayView, p: Seq<u8>, now: u64) -> GatewayView {
    let live = live_registrations(v.fdt, now);
    GatewayView {
        fdt: live,
        ip_out: v.ip_out + live.map_values(|e: ForeignDeviceEntry| (p, e.address)),
        ..v
    }
}

/// The view after sending `p` to every BDT peer.
pub open spec fn forward_to_bdt(v: GatewayView, p: Seq<u8>) -> GatewayView {
    GatewayView { ip_out: v.ip_out + v.bdt.map_values(|e: BdtEntry| (p, e.address)), ..v }
}

/// Whether a router counts a network as up at `now`, given its last activity.
pub open spec fn healthy(last: Option<u64>, now: u64) -> bool {
    match last {
        Some(t) => elapsed(now, t) < HEALTH_TIMEOUT_MS,
        None => false,
    }
}

impl BacnetGateway {
    /// The subnet's directed broadcast endpoint.
    fn get_broadcast_address(&self) -> (r: IpEndpoint)
        ensures
            r == bcast(self@),
    {
        let ip = calculate_broadcast_address(self.local_ip, self.subnet_mask);
        let r = IpEndpoint { ip, port: self.local_port };
        proof {
            lemma_bcast(self@, r);
        }
        r
    }

    /// Learn or refresh the MS/TP address behind an IP endpoint.
    fn learn_ip_address(&mut self, ip_addr: IpEndpoint, mstp_addr: u8, now_ms: u64)
        requires
            old(self).wf(),
        ensures
            final(self).wf(),
            final(self)@ == (GatewayView {
                ip_to_mstp: learn_spec(old(self)@.ip_to_mstp, ip_addr, mstp_addr, now_ms),
                ..old(self)@
            }),
    {
        proof {
            crate::gateway_tables::lemma_index_of_key_from(self.ip_to_mstp@, ip_addr, 0);
        }
        match find_endpoint(&self.ip_to_mstp, ip_addr) {
            Some(i) => {
                self.ip_to_mstp.set(i, (ip_addr, AddressEntry::new(mstp_addr, now_ms)));
            },
            None => {
                self.ip_to_mstp.push((ip_addr, AddressEntry::new(mstp_addr, now_ms)));
            },
        }
    }

    /// Learn or refresh the IP endpoint behind an MS/TP address.
    fn learn_mstp_address(&mut self, mstp_addr: u8, ip_addr: IpEndpoint, now_ms: u64)
        requires
            old(self).wf(),
        ensures
            final(self).wf(),
            final(self)@ == (GatewayView {
                mstp_to_ip: learn_spec(old(self)@.mstp_to_ip, mstp_addr, ip_addr, now_ms),
                ..old(self)@
            }),
    {
        proof {
            crate::gateway_tables::lemma_index_of_key_from(self.mstp_to_ip@, mstp_addr, 0);
        }
        match crate::gateway_tables::find_u8_key(&self.mstp_to_ip, mstp_addr) {
            Some(i) => {
                self.mstp_to_ip.set(i, (mstp_addr, AddressEntry::new(ip_addr, now_ms)));
            },
            None => {
                self.mstp_to_ip.push((mstp_addr, AddressEntry::new(ip_addr, now_ms)));
            },
        }
    }

    /// Forget address translations older than the maximum age and expired
    /// foreign device registrations.
    pub fn process_housekeeping(&mut self, now_ms: u64)
        requires
            old(self).wf(),
        ensures
            final(self).wf(),
            final(self)@ == (GatewayView {
                mstp_to_ip: fresh_entries(old(self)@.mstp_to_ip, old(self)@.address_max_age_ms, now_ms),
                ip_to_mstp: fresh_entries(old(self)@.ip_to_mstp, old(self)@.address_max_age_ms, now_ms),
                fdt: live_registrations(old(self)@.fdt, now_ms),
                ..old(self)@
            }),
    {
        let max_age = self.address_max_age_ms;
        prune_address_table(&mut self.mstp_to_ip, max_age, now_ms);
        prune_address_table(&mut self.ip_to_mstp, max_age, now_ms);
        proof {
            crate::gateway_tables::lemma_live_registrations_len(self.foreign_device_table@, now_ms);
        }
        prune_foreign_devices(&mut self.foreign_device_table, now_ms);
    }

    /// Number of foreign device registrations.
    pub fn foreign_device_count(&self) -> (r: usize)
        ensures
            r == self@.fdt.len(),
    {
        self.foreign_device_table.len()
    }

    /// Router statistics.
    pub fn get_stats(&self) -> (r: &GatewayStats)
        ensures
            *r == self@.stats,
    {
        &self.stats
    }

    /// Mark each network up when it had traffic within the health timeout
    /// before `now_ms`, down otherwise.
    pub fn check_network_health(&mut self, now_ms: u64)
        requires
            old(self).wf(),
        ensures
            final(self).wf(),
            final(self)@ == (GatewayView {
                stats: GatewayStats {
                    mstp_network_up: healthy(old(self)@.stats.last_mstp_activity, now_ms),
                    ip_network_up: healthy(old(self)@.stats.last_ip_activity, now_ms),
                    ..old(self)@.stats
                },
                ..old(self)@
            }),
    {
        let mstp_healthy = match self.stats.last_mstp_activity {
            Some(t) => (if now_ms >= t {
                now_ms - t
            } else {
                0
            }) < HEALTH_TIMEOUT_MS,
            None => false,
        };
        if mstp_healthy != self.stats.mstp_network_up {
            self.stats.mstp_network_up = mstp_healthy;
        }
        let ip_healthy = match self.stats.last_ip_activity {
            Some(t) => (if now_ms >= t {
                now_ms - t
            } else {
                0
            }) < HEALTH_TIMEOUT_MS,
            None => false,
        };
        if ip_healthy != self.stats.ip_network_up {
            self.stats.ip_network_up = ip_healthy;
        }
    }

    /// Whether a network was up at the last health check.
    pub fn is_network_healthy(&self, network_type: NetworkType) -> (r: bool)
        ensures
            r == match network_type {
                NetworkType::Mstp => self@.stats.mstp_network_up,
                NetworkType::Ip => self@.stats.ip_network_up,
            },
    {
        match network_type {
            NetworkType::Mstp => self.stats.mstp_network_up,
            NetworkType::Ip => self.stats.ip_network_up,
        }
    }

    /// Announce the router once: an I-Am-Router-To-Network for the MS/TP
    /// network, broadcast on the IP side.
    pub fn announce_router(&mut self) -> (r: Result<(), GatewayError>)
        requires
            old(self).wf(),
        ensures
            final(self).wf(),
            r is Ok,
            old(self)@.router_announced ==> final(self)@ == old(self)@,
            !old(self)@.router_announced ==> final(self)@ == (GatewayView {
                router_announced: true,
                ..old(self)@.send(
                    bvlc_spec(i_am_router_spec(seq![old(self)@.mstp_network]), true),
                    bcast(old(self)@),
                )
            }),
    {
        if self.router_announced {
            return Ok(());
        }
        let nets: Vec<u16> = vec![self.mstp_network];
        assert(nets@ =~= seq![self.mstp_network]);
        let response = build_i_am_router_to_network(nets.as_slice());
        proof {
            crate::router_msgs::lemma_networks_bytes_len(nets@);
        }
        let bvlc = build_bvlc(response.as_slice(), true);
        let broadcast = self.get_broadcast_address();
        self.send_ip_packet(bvlc, broadcast);
        self.router_announced = true;
        Ok(())
    }

    /// Forward a broadcast packet to every live foreign device, dropping
    /// expired registrations first.
    fn forward_to_foreign_devices(&mut self, data: &[u8], now_ms: u64)
        requires
            old(self).wf(),
        ensures
            final(self).wf(),
            final(self)@ == forward_to_fds(old(self)@, data@, now_ms),
    {
        proof {
            crate::gateway_tables::lemma_live_registrations_len(self.foreign_device_table@, now_ms);
        }
        prune_foreign_devices(&mut self.foreign_device_table, now_ms);
        let ghost start = self@;
        let mut i: usize = 0;
        while i < self.foreign_device_table.len()
            invariant
                self.wf(),
                i <= self.foreign_device_table@.len(),
                self@ == (GatewayView {
                    ip_out: start.ip_out + start.fdt.take(i as int).map_values(
                        |e: ForeignDeviceEntry| (data@, e.address),
                    ),
                    ..start
                }),
            decreases self.foreign_device_table@.len() - i,
        {
            let addr = self.foreign_device_table[i].address;
            let p = copy_range(data, 0, data.len());
            assert(data@.subrange(0, data@.len() as int) =~= data@);
            self.send_ip_packet(p, addr);
            assert(start.fdt.take(i as int + 1).map_values(|e: ForeignDeviceEntry| (data@, e.address))
                =~= start.fdt.take(i as int).map_values(|e: ForeignDeviceEntry| (data@, e.address)).push(
                (data@, addr),
            ));
            i = i + 1;
        }
        assert(start.fdt.take(i as int) =~= start.fdt);
    }

    /// Send a Forwarded-NPDU of `npdu` from `source_addr` to every BDT peer.
    fn forward_to_bdt_entries(&mut self, npdu: &[u8], source_addr: IpEndpoint)
        requires
            old(self).wf(),
            npdu@.len() + 10 <= usize::MAX,
        ensures
            final(self).wf(),
            old(self)@.bdt.len() == 0 ==> final(self)@ == old(self)@,
            old(self)@.bdt.len() > 0 ==> final(self)@ == forward_to_bdt(
                old(self)@,
                forwarded_spec(npdu@, source_addr),
            ),
    {
        if self.broadcast_distribution_table.len() == 0 {
            return ;
        }
        let forwarded = build_forwarded_npdu(npdu, source_addr);
        let ghost start = self@;
        let ghost p = forwarded@;
        let mut i: usize = 0;
        while i < self.broadcast_distribution_table.len()
            invariant
                self.wf(),
                i <= self.broadcast_distribution_table@.len(),
                self@ == (GatewayView {
                    ip_out: start.ip_out + start.bdt.take(i as int).map_values(
                        |e: BdtEntry| (p, e.address),
                    ),
                    ..start
                }),
                forwarded@ == p,
            decreases self.broadcast_distribution_table@.len() - i,
        {
            let addr = self.broadcast_distribution_table[i].address;
            let copy = copy_range(forwarded.as_slice(), 0, forwarded.len());
            assert(forwarded@.subrange(0, forwarded@.len() as int) =~= forwarded@);
            self.send_ip_packet(copy, addr);
            assert(start.bdt.take(i as int + 1).map_values(|e: BdtEntry| (p, e.address))
                =~= start.bdt.take(i as int).map_values(|e: BdtEntry| (p, e.address)).push((p, addr)));
            i = i + 1;
        }
        assert(start.bdt.take(i as int) =~= start.bdt);
    }
}


/// Register-Foreign-Device (Annex J.5.2): refresh or add the registration of
/// `src` with the time-to-live in the message and answer with a BVLC-Result;
/// a new registration is refused (NAK) when the table is full.
pub open spec fn register_fd_spec(v: GatewayView, data: Seq<u8>, src: IpEndpoint, now: u64) -> (GatewayView, RouteOut) {
    if data.len() < 6 {
        (v.count_error(), RouteOut::Error(ErrKind::InvalidFrame))
    } else {
        let ttl = be16(data[4], data[5]);
        match fd_index(v.fdt, src.ip@, src.port) {
            Some(i) => (
                GatewayView {
                    fdt: v.fdt.update(
                        i,
                        ForeignDeviceEntry { ttl_seconds: ttl, registered_at_ms: now, ..v.fdt[i] },
                    ),
                    ..v
                }.send(bvlc_result_spec(BVLC_RESULT_SUCCESS), src),
                RouteOut::Nothing,
            ),
            None => if v.fdt.len() >= MAX_FDT_ENTRIES {
                (v.send(bvlc_result_spec(BVLC_RESULT_REGISTER_FD_NAK), src), RouteOut::Nothing)
            } else {
                (
                    GatewayView {
                        fdt: v.fdt.push(
                            ForeignDeviceEntry { address: src, ttl_seconds: ttl, registered_at_ms: now },
                        ),
                        ..v
                    }.send(bvlc_result_spec(BVLC_RESULT_SUCCESS), src),
                    RouteOut::Nothing,
                )
            },
        }
    }
}

proof fn lemma_fd_index_push(s: Seq<ForeignDeviceEntry>, e: ForeignDeviceEntry, i: int)
    requires
        0 <= i <= s.len(),
        crate::gateway_tables::fd_index_from(s, e.address.ip@, e.address.port, i) is None,
    ensures
        crate::gateway_tables::fd_index_from(s.push(e), e.address.ip@, e.address.port, i) == Some(s.len() as int),
    decreases s.len() - i,
{
    if i < s.len() {
        assert(s.push(e)[i] == s[i]);
        lemma_fd_index_push(s, e, i + 1);
    }
}

proof fn lemma_fd_index_update(s: Seq<ForeignDeviceEntry>, ip: Seq<u8>, port: u16, j: int, e: ForeignDeviceEntry, i: int)
    requires
        0 <= i <= j < s.len(),
        crate::gateway_tables::fd_index_from(s, ip, port, i) == Some(j),
        e.address == s[j].address,
    ensures
        crate::gateway_tables::fd_index_from(s.update(j, e), ip, port, i) == Some(j),
    decreases j - i,
{
    assert(s.update(j, e)[i] == if i == j { e } else { s[i] });
    if i < j {
        lemma_fd_index_update(s, ip, port, j, e, i + 1);
    } else {
        crate::gateway_tables::lemma_fd_index_from(s, ip, port, j + 1);
        assert(crate::gateway_tables::ep_is(s[j].address, ip, port));
    }
}

/// A foreign device whose registration is accepted (it was registered
/// already, or the table has room) is listed once under its address with the
/// time-to-live it asked for, and stays live for that many seconds.
pub proof fn lemma_registered_device_listed(v: GatewayView, data: Seq<u8>, src: IpEndpoint, now: u64, later: u64)
    requires
        data.len() >= 6,
        fd_index(v.fdt, src.ip@, src.port) is Some || v.fdt.len() < MAX_FDT_ENTRIES,
        now <= later,
        later - now <= (be16(data[4], data[5]) as int) * 1000,
    ensures
        ({
            let w = register_fd_spec(v, data, src, now).0;
            &&& fd_index(w.fdt, src.ip@, src.port) matches Some(i) && w.fdt[i].ttl_seconds == be16(data[4], data[5])
                && w.fdt[i].registered_at_ms == now && !fd_expired(w.fdt[i], later)
        }),
{
    let ttl = be16(data[4], data[5]);
    crate::gateway_tables::lemma_fd_index_from(v.fdt, src.ip@, src.port, 0);
    match fd_index(v.fdt, src.ip@, src.port) {
        Some(i) => {
            let e = ForeignDeviceEntry { ttl_seconds: ttl, registered_at_ms: now, ..v.fdt[i] };
            lemma_fd_index_update(v.fdt, src.ip@, src.port, i, e, 0);
        },
        None => {
            let e = ForeignDeviceEntry { address: src, ttl_seconds: ttl, registered_at_ms: now };
            lemma_fd_index_push(v.fdt, e, 0);
        },
    }
}

/// No two registrations are for the same address.
pub open spec fn fdt_unique(s: Seq<ForeignDeviceEntry>) -> bool {
    forall|i: int, j: int| 0 <= i < j < s.len() ==> s[i].address != s[j].address
}

/// Registering never lists an address twice: a device that registers again
/// refreshes its entry.
pub proof fn lemma_register_keeps_fdt_unique(v: GatewayView, data: Seq<u8>, src: IpEndpoint, now: u64)
    requires
        fdt_unique(v.fdt),
    ensures
        fdt_unique(register_fd_spec(v, data, src, now).0.fdt),
{
    crate::gateway_tables::lemma_fd_index_from(v.fdt, src.ip@, src.port, 0);
    let w = register_fd_spec(v, data, src, now).0.fdt;
    if data.len() >= 6 {
        match fd_index(v.fdt, src.ip@, src.port) {
            Some(k) => {
                assert forall|i: int, j: int| 0 <= i < j < w.len() implies w[i].address != w[j].address by {
                    assert(w[i].address == v.fdt[i].address);
                    assert(w[j].address == v.fdt[j].address);
                }
            },
            None => {
                if v.fdt.len() < MAX_FDT_ENTRIES {
                    assert forall|i: int, j: int| 0 <= i < j < w.len() implies w[i].address != w[j].address by {
                        if j == v.fdt.len() {
                            assert(w[i] == v.fdt[i]);
                            assert(!crate::gateway_tables::ep_is(v.fdt[i].address, src.ip@, src.port));
                        } else {
                            assert(w[i] == v.fdt[i] && w[j] == v.fdt[j]);
                        }
                    }
                }
            },
        }
    }
}

/// Delete-Foreign-Device-Table-Entry: remove the registration named in the
/// message and answer with a BVLC-Result (NAK when there is none).
pub open spec fn delete_fd_spec(v: GatewayView, data: Seq<u8>, src: IpEndpoint) -> (GatewayView, RouteOut) {
    if data.len() < 10 {
        (v.count_error(), RouteOut::Error(ErrKind::InvalidFrame))
    } else {
        match fd_index(v.fdt, data.subrange(4, 8), be16(data[8], data[9])) {
            Some(i) => (
                GatewayView { fdt: v.fdt.remove(i), ..v }.send(bvlc_result_spec(BVLC_RESULT_SUCCESS), src),
                RouteOut::Nothing,
            ),
            None => (v.send(bvlc_result_spec(BVLC_RESULT_DELETE_FDT_NAK), src), RouteOut::Nothing),
        }
    }
}

/// Write-Broadcast-Distribution-Table: a payload of whole 10-byte entries
/// replaces the BDT (marked for saving) and is acknowledged; any other payload
/// is refused with a NAK.
pub open spec fn write_bdt_spec(v: GatewayView, data: Seq<u8>, src: IpEndpoint) -> (GatewayView, RouteOut) {
    if data.len() < 4 || (data.len() - 4) % 10 != 0 {
        (v.send(bvlc_result_spec(BVLC_RESULT_WRITE_BDT_NAK), src), RouteOut::Nothing)
    } else {
        (
            GatewayView {
                bdt: choose|b: Seq<BdtEntry>| bdt_decoded(b, data.subrange(4, data.len() as int)),
                bdt_changed: true,
                ..v
            }.send(bvlc_result_spec(BVLC_RESULT_SUCCESS), src),
            RouteOut::Nothing,
        )
    }
}

/// Packets of `p` for every registration other than the one of `src`.
pub open spec fn to_other_fds(s: Seq<ForeignDeviceEntry>, src: IpEndpoint, p: Seq<u8>) -> Seq<(Seq<u8>, IpEndpoint)>
    decreases s.len(),
{
    if s.len() == 0 {
        Seq::empty()
    } else if s.last().address == src {
        to_other_fds(s.drop_last(), src, p)
    } else {
        to_other_fds(s.drop_last(), src, p).push((p, s.last().address))
    }
}

/// The routed NPDU `build_routed_npdu` makes, or the NPDU error.
pub open spec fn routed_or_err(original: Seq<u8>, snet: u16, sadr: Seq<u8>, n: NpduSpec, final_delivery: bool) -> Result<Seq<u8>, ErrKind> {
    match parse_npdu_spec(original) {
        Ok(_) => Ok(routed_npdu_spec(original, snet, sadr, n, final_delivery)->0),
        Err(m) => Err(ErrKind::Npdu(m)),
    }
}

/// Whether a hop count forbids routing.
pub open spec fn hops_exhausted(n: NpduSpec) -> bool {
    n.hop_count matches Some(h) && h < MIN_HOP_COUNT
}

/// Distribute-Broadcast-To-Network from a registered foreign device: forward
/// it to the local subnet and the other foreign devices, and hand it to
/// MS/TP as a local broadcast.
pub open spec fn distribute_spec(v: GatewayView, data: Seq<u8>, src: IpEndpoint) -> (GatewayView, RouteOut) {
    if fd_index(v.fdt, src.ip@, src.port) is None {
        (v.send(bvlc_result_spec(BVLC_RESULT_DISTRIBUTE_NAK), src), RouteOut::Nothing)
    } else if data.len() < 5 {
        (v.count_error(), RouteOut::Error(ErrKind::InvalidFrame))
    } else {
        let npdu = data.subrange(4, data.len() as int);
        let fwd = forwarded_spec(npdu, src);
        let v1 = v.send(fwd, bcast(v));
        let v2 = GatewayView { ip_out: v1.ip_out + to_other_fds(v.fdt, src, fwd), ..v1 };
        match parse_npdu_spec(npdu) {
            Err(m) => (v2, RouteOut::Error(ErrKind::Npdu(m))),
            Ok((n, _)) => if hops_exhausted(n) {
                (v2, RouteOut::Error(ErrKind::HopCountExhausted))
            } else {
                (v2, RouteOut::Forward(routed_npdu_spec(npdu, v.ip_network, ip_mac(src), n, true)->0, 255))
            },
        }
    }
}

/// Two decodings of the same bytes agree.
proof fn lemma_bdt_decoded_unique(a: Seq<BdtEntry>, b: Seq<BdtEntry>, d: Seq<u8>)
    requires
        bdt_decoded(a, d),
        bdt_decoded(b, d),
    ensures
        a == b,
{
    assert forall|i: int| 0 <= i < a.len() implies a[i] == b[i] by {
        assert(crate::gateway_tables::bdt_entry_at(a[i], d, i * 10));
        assert(crate::gateway_tables::bdt_entry_at(b[i], d, i * 10));
        assert(a[i].address.ip =~= b[i].address.ip);
        assert(a[i].mask =~= b[i].mask);
    }
    assert(a =~= b);
}

/// Whole 10-byte entries always decode.
proof fn lemma_bdt_decodable(d: Seq<u8>)
    requires
        d.len() % 10 == 0,
    ensures
        exists|b: Seq<BdtEntry>| bdt_decoded(b, d),
{
    let n = d.len() / 10;
    let b = Seq::new(
        n as nat,
        |i: int|
            BdtEntry {
                address: IpEndpoint {
                    ip: [d[i * 10], d[i * 10 + 1], d[i * 10 + 2], d[i * 10 + 3]],
                    port: be16(d[i * 10 + 4], d[i * 10 + 5]),
                },
                mask: [d[i * 10 + 6], d[i * 10 + 7], d[i * 10 + 8], d[i * 10 + 9]],
            },
    );
    assert forall|i: int| 0 <= i < b.len() implies #[trigger] crate::gateway_tables::bdt_entry_at(b[i], d, i * 10) by {
        assert(i * 10 + 10 <= d.len()) by (nonlinear_arith)
            requires
                i < n,
                n == d.len() / 10,
                d.len() % 10 == 0,
        ;
        assert(b[i].address.ip@ =~= d.subrange(i * 10, i * 10 + 4));
        assert(b[i].mask@ =~= d.subrange(i * 10 + 6, i * 10 + 10));
    }
    assert(b.len() * 10 == d.len());
    assert(bdt_decoded(b, d));
}

/// After a Write-BDT with whole 10-byte entries is accepted, a Read-BDT is
/// answered with exactly the entries written.
pub proof fn lemma_write_then_read_bdt(v: GatewayView, data: Seq<u8>, src: IpEndpoint)
    requires
        data.len() >= 4,
        (data.len() - 4) % 10 == 0,
    ensures
        read_bdt_ack_spec(write_bdt_spec(v, data, src).0.bdt) == crate::gateway_tables::table_ack_header(
            crate::router_msgs::BVLC_READ_BDT_ACK,
            ((data.len() - 4) / 10) as nat,
        ) + data.subrange(4, data.len() as int),
{
    let d = data.subrange(4, data.len() as int);
    lemma_bdt_decodable(d);
    let b = write_bdt_spec(v, data, src).0.bdt;
    assert(bdt_decoded(b, d));
    crate::gateway_tables::lemma_bdt_bytes_of_decoded(b, d);
    assert(b.len() == (data.len() - 4) / 10);
}

impl BacnetGateway {
    fn handle_register_foreign_device(&mut self, data: &[u8], source_addr: IpEndpoint, now_ms: u64) -> (r: Result<Option<(Vec<u8>, u8)>, GatewayError>)
        requires
            old(self).wf(),
        ensures
            final(self).wf(),
            (final(self)@, route_out(r)) == register_fd_spec(old(self)@, data@, source_addr, now_ms),
    {
        if data.len() < 6 {
            self.stats.routing_errors = self.stats.routing_errors.saturating_add(1);
            return Err(GatewayError::InvalidFrame);
        }
        let ttl = crate::bytes::read_be16(data[4], data[5]);
        match find_foreign_device(&self.foreign_device_table, source_addr) {
            Some(i) => {
                let mut e = self.foreign_device_table[i];
                e.refresh(ttl, now_ms);
                self.foreign_device_table.set(i, e);
            },
            None => {
                if self.foreign_device_table.len() >= MAX_FDT_ENTRIES {
                    let result = build_bvlc_result(BVLC_RESULT_REGISTER_FD_NAK);
                    self.send_ip_packet(result, source_addr);
                    return Ok(None);
                }
                self.foreign_device_table.push(ForeignDeviceEntry::new(source_addr, ttl, now_ms));
            },
        }
        let result = build_bvlc_result(BVLC_RESULT_SUCCESS);
        self.send_ip_packet(result, source_addr);
        Ok(None)
    }

    fn handle_read_fdt(&mut self, source_addr: IpEndpoint, now_ms: u64) -> (r: Result<Option<(Vec<u8>, u8)>, GatewayError>)
        requires
            old(self).wf(),
        ensures
            final(self).wf(),
            r matches Ok(None),
            final(self)@ == old(self)@.send(read_fdt_ack_spec(old(self)@.fdt, now_ms), source_addr),
    {
        let response = build_read_fdt_ack(&self.foreign_device_table, now_ms);
        self.send_ip_packet(response, source_addr);
        Ok(None)
    }

    fn handle_delete_fdt_entry(&mut self, data: &[u8], source_addr: IpEndpoint) -> (r: Result<Option<(Vec<u8>, u8)>, GatewayError>)
        requires
            old(self).wf(),
        ensures
            final(self).wf(),
            (final(self)@, route_out(r)) == delete_fd_spec(old(self)@, data@, source_addr),
    {
        if data.len() < 10 {
            self.stats.routing_errors = self.stats.routing_errors.saturating_add(1);
            return Err(GatewayError::InvalidFrame);
        }
        let target = IpEndpoint::new(
            data[4],
            data[5],
            data[6],
            data[7],
            crate::bytes::read_be16(data[8], data[9]),
        );
        assert(target.ip@ =~= data@.subrange(4, 8));
        let code = match find_foreign_device(&self.foreign_device_table, target) {
            Some(i) => {
                self.foreign_device_table.remove(i);
                BVLC_RESULT_SUCCESS
            },
            None => BVLC_RESULT_DELETE_FDT_NAK,
        };
        let result = build_bvlc_result(code);
        self.send_ip_packet(result, source_addr);
        Ok(None)
    }

    fn handle_read_bdt(&mut self, source_addr: IpEndpoint) -> (r: Result<Option<(Vec<u8>, u8)>, GatewayError>)
        requires
            old(self).wf(),
        ensures
            final(self).wf(),
            r matches Ok(None),
            final(self)@ == old(self)@.send(read_bdt_ack_spec(old(self)@.bdt), source_addr),
    {
        let response = build_read_bdt_ack(&self.broadcast_distribution_table);
        self.send_ip_packet(response, source_addr);
        Ok(None)
    }

    fn handle_write_bdt(&mut self, data: &[u8], source_addr: IpEndpoint) -> (r: Result<Option<(Vec<u8>, u8)>, GatewayError>)
        requires
            old(self).wf(),
            data@.len() <= 65535,
        ensures
            final(self).wf(),
            (final(self)@, route_out(r)) == write_bdt_spec(old(self)@, data@, source_addr),
    {
        if data.len() < 4 || (data.len() - 4) % 10 != 0 {
            let result = build_bvlc_result(BVLC_RESULT_WRITE_BDT_NAK);
            self.send_ip_packet(result, source_addr);
            return Ok(None);
        }
        let entries = copy_range(data, 4, data.len());
        let new_bdt = decode_bdt_entries(entries.as_slice());
        proof {
            let d = data@.subrange(4, data@.len() as int);
            let c = choose|b: Seq<BdtEntry>| bdt_decoded(b, d);
            lemma_bdt_decoded_unique(c, new_bdt@, d);
        }
        self.broadcast_distribution_table = new_bdt;
        self.bdt_changed = true;
        let result = build_bvlc_result(BVLC_RESULT_SUCCESS);
        self.send_ip_packet(result, source_addr);
        Ok(None)
    }

    fn handle_distribute_broadcast(&mut self, data: &[u8], source_addr: IpEndpoint) -> (r: Result<Option<(Vec<u8>, u8)>, GatewayError>)
        requires
            old(self).wf(),
            data@.len() <= 65535,
        ensures
            final(self).wf(),
            (final(self)@, route_out(r)) == distribute_spec(old(self)@, data@, source_addr),
    {
        if find_foreign_device(&self.foreign_device_table, source_addr).is_none() {
            let result = build_bvlc_result(BVLC_RESULT_DISTRIBUTE_NAK);
            self.send_ip_packet(result, source_addr);
            return Ok(None);
        }
        if data.len() < 5 {
            self.stats.routing_errors = self.stats.routing_errors.saturating_add(1);
            return Err(GatewayError::InvalidFrame);
        }
        let npdu_data = copy_range(data, 4, data.len());
        let forwarded = build_forwarded_npdu(npdu_data.as_slice(), source_addr);
        let broadcast_addr = self.get_broadcast_address();
        let fwd_copy = copy_range(forwarded.as_slice(), 0, forwarded.len());
        assert(forwarded@.subrange(0, forwarded@.len() as int) =~= forwarded@);
        self.send_ip_packet(fwd_copy, broadcast_addr);
        self.send_to_other_foreign_devices(forwarded.as_slice(), source_addr);
        let (npdu, _len) = match parse_npdu(npdu_data.as_slice()) {
            Ok(x) => x,
            Err(e) => {
                return Err(e);
            },
        };
        if let Some(hop_count) = npdu.hop_count {
            if hop_count < MIN_HOP_COUNT {
                return Err(GatewayError::HopCountExhausted);
            }
        }
        let mac = ip_to_mac(&source_addr);
        match build_routed_npdu(npdu_data.as_slice(), self.ip_network, mac.as_slice(), &npdu, true) {
            Ok(routed) => Ok(Some((routed, 255))),
            Err(e) => Err(e),
        }
    }

    /// Send `p` to every registration other than the one of `src`.
    fn send_to_other_foreign_devices(&mut self, p: &[u8], src: IpEndpoint)
        requires
            old(self).wf(),
        ensures
            final(self).wf(),
            final(self)@ == (GatewayView {
                ip_out: old(self)@.ip_out + to_other_fds(old(self)@.fdt, src, p@),
                ..old(self)@
            }),
    {
        let ghost start = self@;
        let mut i: usize = 0;
        while i < self.foreign_device_table.len()
            invariant
                self.wf(),
                self@.fdt == start.fdt,
                i <= start.fdt.len(),
                self@ == (GatewayView {
                    ip_out: start.ip_out + to_other_fds(start.fdt.take(i as int), src, p@),
                    ..start
                }),
            decreases start.fdt.len() - i,
        {
            let addr = self.foreign_device_table[i].address;
            assert(start.fdt.take(i as int + 1).drop_last() =~= start.fdt.take(i as int));
            let same = crate::bytes::endpoint_eq(&addr, &src);
            proof {
                if same {
                    assert(addr.ip =~= src.ip);
                }
                if addr == src {
                    assert(addr.ip@ == src.ip@);
                }
            }
            if !same {
                let copy = copy_range(p, 0, p.len());
                assert(p@.subrange(0, p@.len() as int) =~= p@);
                self.send_ip_packet(copy, addr);
                assert(self@.ip_out =~= start.ip_out + to_other_fds(start.fdt.take(i as int + 1), src, p@));
            }
            i = i + 1;
        }
        assert(start.fdt.take(i as int) =~= start.fdt);
    }
}


/// The network number asked for by a Who-Is-Router-To-Network whose message
/// type is at `len` (none when the message is shorter than three bytes).
pub open spec fn requested_network(data: Seq<u8>, len: int) -> Option<u16> {
    if len + 2 < data.len() {
        Some(be16(data[len + 1], data[len + 2]))
    } else {
        None
    }
}

/// Whether a requested network is one this router answers for.
pub open spec fn is_our_network(v: GatewayView, req: Option<u16>) -> bool {
    req is None || req == Some(v.ip_network) || req == Some(v.mstp_network) || req == Some(
        0xFFFFu16,
    )
}

/// A network layer message from MS/TP: Who-Is-Router-To-Network is answered
/// on IP for our networks and passed on to IP routers otherwise (and when no
/// network is named); other messages are passed on to IP, as Forwarded-NPDUs
/// from this router, to the subnet broadcast.
pub open spec fn nm_from_mstp_spec(v: GatewayView, data: Seq<u8>, n: NpduSpec, source: u8) -> (GatewayView, RouteOut) {
    match parse_npdu_spec(data) {
        Err(m) => (v, RouteOut::Error(ErrKind::Npdu(m))),
        Ok((_, len)) => if len >= data.len() {
            (v, RouteOut::Error(ErrKind::InvalidFrame))
        } else {
            let fwd = routed_or_err(data, v.mstp_network, seq![source], n, false);
            if data[len] == NL_WHO_IS_ROUTER_TO_NETWORK {
                let req = requested_network(data, len);
                let ours = is_our_network(v, req);
                let v1 = if ours {
                    v.send(bvlc_spec(i_am_router_spec(seq![v.ip_network, v.mstp_network]), true), bcast(v))
                } else {
                    v
                };
                if req is None || !ours {
                    match fwd {
                        Ok(r) => (v1.send(forwarded_spec(r, v.local_endpoint()), bcast(v)), RouteOut::Nothing),
                        Err(e) => (v1, RouteOut::Error(e)),
                    }
                } else {
                    (v1, RouteOut::Nothing)
                }
            } else {
                match fwd {
                    Ok(r) => (v.send(forwarded_spec(r, v.local_endpoint()), bcast(v)), RouteOut::Nothing),
                    Err(e) => (v, RouteOut::Error(e)),
                }
            }
        },
    }
}

/// What parsing the rest of an Initialize-Routing-Table message from
/// `offset` leaves: the routing table, and whether the message was well
/// formed. `cur_port` is the port whose `nets_left` networks come next, and
/// `next_port` the number of ports started out of `num_ports`.
pub open spec fn rt_parse(
    d: Seq<u8>,
    offset: int,
    num_ports: nat,
    next_port: nat,
    cur_port: u8,
    nets_left: nat,
    table: Seq<(u16, u8, Seq<u8>)>,
) -> (Seq<(u16, u8, Seq<u8>)>, bool)
    decreases num_ports - next_port, nets_left,
{
    if nets_left > 0 {
        if offset + 1 >= d.len() {
            (table, false)
        } else if offset + 2 >= d.len() {
            (table, false)
        } else {
            let network = be16(d[offset], d[offset + 1]);
            let pil = d[offset + 2] as int;
            let start = offset + 3;
            if start + pil > d.len() {
                (table, false)
            } else {
                rt_parse(
                    d,
                    start + pil,
                    num_ports,
                    next_port,
                    cur_port,
                    (nets_left - 1) as nat,
                    route_upsert(table, (network, cur_port, d.subrange(start, start + pil))),
                )
            }
        }
    } else if next_port < num_ports {
        if offset >= d.len() {
            (table, false)
        } else {
            rt_parse(d, offset + 1, num_ports, next_port + 1, next_port as u8, d[offset] as nat, table)
        }
    } else {
        (table, true)
    }
}

/// Initialize-Routing-Table (Clause 6.4.7) whose message type is at `len`:
/// the routing table is cleared and rebuilt from the message; a well-formed
/// message marks it for saving and is acknowledged to the sender.
pub open spec fn init_rt_spec(v: GatewayView, data: Seq<u8>, len: int, src: IpEndpoint) -> (GatewayView, RouteOut) {
    let offset = len + 1;
    if offset >= data.len() {
        (v, RouteOut::Error(ErrKind::InvalidFrame))
    } else {
        let (table, ok) = rt_parse(data, offset + 1, data[offset] as nat, 0, 0, 0, Seq::empty());
        if ok {
            (
                GatewayView { routing_table: table, routing_table_changed: true, ..v }.send(
                    bvlc_spec(init_rt_ack_spec(), false),
                    src,
                ),
                RouteOut::Nothing,
            )
        } else {
            (GatewayView { routing_table: table, ..v }, RouteOut::Error(ErrKind::InvalidFrame))
        }
    }
}

/// A network layer message from IP: Who-Is-Router-To-Network is answered
/// (broadcast and to the sender) for our networks and passed on to MS/TP
/// otherwise (and when no network is named); Initialize-Routing-Table is
/// applied; other messages go to MS/TP as local broadcasts.
pub open spec fn nm_from_ip_spec(v: GatewayView, data: Seq<u8>, n: NpduSpec, src: IpEndpoint) -> (GatewayView, RouteOut) {
    match parse_npdu_spec(data) {
        Err(m) => (v, RouteOut::Error(ErrKind::Npdu(m))),
        Ok((_, len)) => if len >= data.len() {
            (v, RouteOut::Error(ErrKind::InvalidFrame))
        } else {
            let fwd = routed_or_err(data, v.ip_network, ip_mac(src), n, true);
            let fwd_out = match fwd {
                Ok(r) => RouteOut::Forward(r, 255),
                Err(e) => RouteOut::Error(e),
            };
            if data[len] == NL_WHO_IS_ROUTER_TO_NETWORK {
                let req = requested_network(data, len);
                let ours = is_our_network(v, req);
                let p = bvlc_spec(i_am_router_spec(seq![v.mstp_network, v.ip_network]), true);
                let v1 = if ours {
                    v.send(p, bcast(v)).send(p, src)
                } else {
                    v
                };
                if req is None || !ours {
                    (v1, fwd_out)
                } else {
                    (v1, RouteOut::Nothing)
                }
            } else if data[len] == NL_INITIALIZE_ROUTING_TABLE {
                init_rt_spec(v, data, len, src)
            } else {
                (v, fwd_out)
            }
        },
    }
}

impl BacnetGateway {
    fn handle_network_message_from_mstp(&mut self, data: &[u8], npdu: &NpduInfo, source_addr: u8) -> (r: Result<(), GatewayError>)
        requires
            old(self).wf(),
            data@.len() + 300 <= usize::MAX,
            npdu@.destination matches Some(a) ==> a.1.len() <= 255,
        ensures
            final(self).wf(),
            (final(self)@, unit_out(r)) == nm_from_mstp_spec(old(self)@, data@, npdu@, source_addr),
    {
        let len = match parse_npdu(data) {
            Ok((_, l)) => l,
            Err(e) => {
                return Err(e);
            },
        };
        proof {
            crate::npdu::lemma_parse_npdu_bounds(data@);
        }
        if len >= data.len() {
            return Err(GatewayError::InvalidFrame);
        }
        let msg_type = data[len];
        let sadr: Vec<u8> = vec![source_addr];
        assert(sadr@ =~= seq![source_addr]);
        let gateway_addr = IpEndpoint { ip: self.local_ip, port: self.local_port };
        if msg_type == NL_WHO_IS_ROUTER_TO_NETWORK {
            let requested: Option<u16> = if len + 2 < data.len() {
                Some(crate::bytes::read_be16(data[len + 1], data[len + 2]))
            } else {
                None
            };
            let is_ours = match requested {
                None => true,
                Some(net) => net == self.ip_network || net == self.mstp_network || net == 0xFFFF,
            };
            if is_ours {
                let nets: Vec<u16> = vec![self.ip_network, self.mstp_network];
                assert(nets@ =~= seq![self.ip_network, self.mstp_network]);
                let response = build_i_am_router_to_network(nets.as_slice());
                proof {
                    crate::router_msgs::lemma_networks_bytes_len(nets@);
                }
                let bvlc = build_bvlc(response.as_slice(), true);
                let broadcast = self.get_broadcast_address();
                self.send_ip_packet(bvlc, broadcast);
            }
            if requested.is_none() || !is_ours {
                let routed = match build_routed_npdu(data, self.mstp_network, sadr.as_slice(), npdu, false) {
                    Ok(x) => x,
                    Err(e) => {
                        return Err(e);
                    },
                };
                proof {
                    crate::npdu::lemma_routed_len(data@, old(self)@.mstp_network, sadr@, npdu@, false);
                }
                let bvlc = build_forwarded_npdu(routed.as_slice(), gateway_addr);
                let dest = self.get_broadcast_address();
                self.send_ip_packet(bvlc, dest);
            }
        } else {
            let routed = match build_routed_npdu(data, self.mstp_network, sadr.as_slice(), npdu, false) {
                Ok(x) => x,
                Err(e) => {
                    return Err(e);
                },
            };
            proof {
                crate::npdu::lemma_routed_len(data@, old(self)@.mstp_network, sadr@, npdu@, false);
            }
            let bvlc = build_forwarded_npdu(routed.as_slice(), gateway_addr);
            let dest = self.get_broadcast_address();
            self.send_ip_packet(bvlc, dest);
        }
        Ok(())
    }

    fn handle_network_message_from_ip(&mut self, data: &[u8], npdu: &NpduInfo, source_addr: IpEndpoint) -> (r: Result<Option<(Vec<u8>, u8)>, GatewayError>)
        requires
            old(self).wf(),
        ensures
            final(self).wf(),
            (final(self)@, route_out(r)) == nm_from_ip_spec(old(self)@, data@, npdu@, source_addr),
    {
        let len = match parse_npdu(data) {
            Ok((_, l)) => l,
            Err(e) => {
                return Err(e);
            },
        };
        proof {
            crate::npdu::lemma_parse_npdu_bounds(data@);
        }
        if len >= data.len() {
            return Err(GatewayError::InvalidFrame);
        }
        let msg_type = data[len];
        let mac = ip_to_mac(&source_addr);
        if msg_type == NL_WHO_IS_ROUTER_TO_NETWORK {
            let requested: Option<u16> = if len + 2 < data.len() {
                Some(crate::bytes::read_be16(data[len + 1], data[len + 2]))
            } else {
                None
            };
            let is_ours = match requested {
                None => true,
                Some(net) => net == self.mstp_network || net == self.ip_network || net == 0xFFFF,
            };
            if is_ours {
                let nets: Vec<u16> = vec![self.mstp_network, self.ip_network];
                assert(nets@ =~= seq![self.mstp_network, self.ip_network]);
                let response = build_i_am_router_to_network(nets.as_slice());
                proof {
                    crate::router_msgs::lemma_networks_bytes_len(nets@);
                }
                let bvlc = build_bvlc(response.as_slice(), true);
                let broadcast = self.get_broadcast_address();
                let copy = copy_range(bvlc.as_slice(), 0, bvlc.len());
                assert(bvlc@.subrange(0, bvlc@.len() as int) =~= bvlc@);
                self.send_ip_packet(copy, broadcast);
                self.send_ip_packet(bvlc, source_addr);
            }
            if requested.is_none() || !is_ours {
                return match build_routed_npdu(data, self.ip_network, mac.as_slice(), npdu, true) {
                    Ok(x) => Ok(Some((x, 255))),
                    Err(e) => Err(e),
                };
            }
            Ok(None)
        } else if msg_type == NL_INITIALIZE_ROUTING_TABLE {
            self.handle_initialize_routing_table(data, len, source_addr)
        } else {
            match build_routed_npdu(data, self.ip_network, mac.as_slice(), npdu, true) {
                Ok(x) => Ok(Some((x, 255))),
                Err(e) => Err(e),
            }
        }
    }

    /// Map `network` to the entry in the routing table (replacing its entry).
    fn routing_insert(&mut self, network: u16, port_id: u8, port_info: Vec<u8>)
        requires
            old(self).wf(),
        ensures
            final(self).wf(),
            final(self)@ == (GatewayView {
                routing_table: route_upsert(old(self)@.routing_table, (network, port_id, port_info@)),
                ..old(self)@
            }),
    {
        let ghost t = self@.routing_table;
        let mut i: usize = 0;
        while i < self.routing_table.len()
            invariant
                self@ == old(self)@,
                t == self@.routing_table,
                self.wf(),
                i <= t.len(),
                route_index(t, network, 0) == route_index(t, network, i as int),
            decreases t.len() - i,
        {
            assert(t[i as int] == route_view(self.routing_table@[i as int]));
            if self.routing_table[i].network == network {
                let ghost info = port_info@;
                self.routing_table.set(i, RoutingTableEntry { network, port_id, port_info });
                assert(self@.routing_table =~= t.update(i as int, (network, port_id, info)));
                return ;
            }
            i = i + 1;
        }
        let ghost info = port_info@;
        self.routing_table.push(RoutingTableEntry { network, port_id, port_info });
        assert(self@.routing_table =~= t.push((network, port_id, info)));
    }

    fn handle_initialize_routing_table(&mut self, data: &[u8], npdu_len: usize, source_addr: IpEndpoint) -> (r: Result<Option<(Vec<u8>, u8)>, GatewayError>)
        requires
            old(self).wf(),
            npdu_len < data@.len(),
        ensures
            final(self).wf(),
            (final(self)@, route_out(r)) == init_rt_spec(old(self)@, data@, npdu_len as int, source_addr),
    {
        let dlen = data.len();
        let mut offset = npdu_len + 1;
        if offset >= dlen {
            return Err(GatewayError::InvalidFrame);
        }
        let num_ports = data[offset];
        offset = offset + 1;
        self.routing_table.clear();
        let ghost base = self@;
        assert(base.routing_table =~= Seq::<(u16, u8, Seq<u8>)>::empty());
        assert(base == GatewayView { routing_table: Seq::empty(), ..old(self)@ });
        let ghost target = rt_parse(data@, offset as int, num_ports as nat, 0, 0, 0, Seq::empty());
        let mut next_port: u8 = 0;
        let mut started: u16 = 0;
        let mut cur_port: u8 = 0;
        let mut nets_left: u8 = 0;
        loop
            invariant_except_break
                self.wf(),
                self@ == (GatewayView { routing_table: self@.routing_table, ..base }),
                base == (GatewayView { routing_table: Seq::empty(), ..old(self)@ }),
                offset >= npdu_len + 2,
                data@[npdu_len + 1] == num_ports,
                target == rt_parse(data@, npdu_len + 2, num_ports as nat, 0, 0, 0, Seq::empty()),
                started <= num_ports,
                next_port == started,
                dlen == data@.len(),
                offset <= data@.len(),
                rt_parse(data@, offset as int, num_ports as nat, started as nat, cur_port, nets_left as nat, self@.routing_table) == target,
            ensures
                self.wf(),
                self@ == (GatewayView { routing_table: target.0, ..base }),
                target.1,
            decreases num_ports - started, nets_left,
        {
            if nets_left > 0 {
                if dlen - offset < 3 {
                    return Err(GatewayError::InvalidFrame);
                }
                let network = crate::bytes::read_be16(data[offset], data[offset + 1]);
                let pil = data[offset + 2] as usize;
                let start = offset + 3;
                if pil > dlen - start {
                    return Err(GatewayError::InvalidFrame);
                }
                let info = copy_range(data, start, start + pil);
                self.routing_insert(network, cur_port, info);
                offset = start + pil;
                nets_left = nets_left - 1;
            } else if started < num_ports as u16 {
                if offset >= dlen {
                    return Err(GatewayError::InvalidFrame);
                }
                nets_left = data[offset];
                offset = offset + 1;
                cur_port = next_port;
                started = started + 1;
                next_port = if next_port < 255 { next_port + 1 } else { 255 };
            } else {
                break;
            }
        }
        self.routing_table_changed = true;
        let ack = build_initialize_routing_table_ack();
        let bvlc = build_bvlc(ack.as_slice(), false);
        self.send_ip_packet(bvlc, source_addr);
        Ok(None)
    }
}


/// Index of the first transaction view keyed (`k.0` invoke ID, `k.1`
/// destination MAC) at or after `i`.
pub open spec fn txn_index_from(s: Seq<TxnView>, k: (u8, u8), i: int) -> Option<int>
    decreases s.len() - i,
{
    if i < 0 || i >= s.len() {
        None
    } else if (s[i].invoke_id, s[i].dest_mac) == k {
        Some(i)
    } else {
        txn_index_from(s, k, i + 1)
    }
}

pub open spec fn txn_index(s: Seq<TxnView>, k: (u8, u8)) -> Option<int> {
    txn_index_from(s, k, 0)
}

proof fn lemma_txn_index_views(s: Seq<PendingTransaction>, k: (u8, u8), i: int)
    requires
        0 <= i,
    ensures
        txn_index_from(s.map_values(|t: PendingTransaction| t@), k, i) == key_index_from(s, k, i),
    decreases s.len() - i,
{
    if i < s.len() {
        lemma_txn_index_views(s, k, i + 1);
    }
}

/// The view with the transaction at `i` completed: removed and counted.
pub open spec fn complete_txn(v: GatewayView, i: int) -> GatewayView {
    GatewayView {
        txns: v.txns.remove(i),
        txn_stats: TransactionStats {
            total_completed: v.txn_stats.total_completed.saturating_add(1),
            active_count: (v.txns.len() - 1) as usize,
            ..v.txn_stats
        },
        ..v
    }
}

/// Match a response from MS/TP station `source` to its pending transaction:
/// the requester it goes back to, with the transaction completed unless more
/// segments of a segmented Complex-ACK follow.
pub open spec fn response_lookup(v: GatewayView, apdu: Seq<u8>, source: u8) -> (GatewayView, Option<IpEndpoint>) {
    match parse_apdu_spec(apdu) {
        Some(info) => if is_response_type(info.apdu_type) && info.invoke_id is Some {
            let id = info.invoke_id->0;
            let more = info.segmented && info.apdu_type == ApduTypeClass::ComplexAck
                && info.more_follows;
            match txn_index(v.txns, (id, source)) {
                Some(i) => if more {
                    (v, Some(v.txns[i].source_addr))
                } else {
                    (complete_txn(v, i), Some(v.txns[i].source_addr))
                },
                None => (v, None),
            }
        } else {
            (v, None)
        },
        None => (v, None),
    }
}

proof fn lemma_txn_index_push(s: Seq<TxnView>, t: TxnView, i: int)
    requires
        0 <= i <= s.len(),
        txn_index_from(s, (t.invoke_id, t.dest_mac), i) is None,
    ensures
        txn_index_from(s.push(t), (t.invoke_id, t.dest_mac), i) == Some(s.len() as int),
    decreases s.len() - i,
{
    if i < s.len() {
        lemma_txn_index_push(s, t, i + 1);
    }
}

/// A response from the MS/TP station that a tracked request went to, with
/// the request's invoke ID, goes back to the IP client that sent the request;
/// unless more segments of a Complex-ACK follow, the transaction is then
/// complete and the table is as it was before the request.
pub proof fn lemma_response_returns_to_requester(v: GatewayView, t: TxnView, apdu: Seq<u8>)
    requires
        v.txns.len() < v.txn_capacity,
        txn_index(v.txns, (t.invoke_id, t.dest_mac)) is None,
        parse_apdu_spec(apdu) matches Some(info) && is_response_type(info.apdu_type)
            && info.invoke_id == Some(t.invoke_id),
    ensures
        response_lookup(add_txn(v, t), apdu, t.dest_mac).1 == Some(t.source_addr),
        ({
            let info = parse_apdu_spec(apdu)->0;
            !(info.segmented && info.apdu_type == ApduTypeClass::ComplexAck && info.more_follows)
                ==> response_lookup(add_txn(v, t), apdu, t.dest_mac).0.txns == v.txns
        }),
{
    lemma_txn_index_push(v.txns, t, 0);
    let w = add_txn(v, t);
    assert(w.txns == v.txns.push(t));
    assert(w.txns.remove(v.txns.len() as int) =~= v.txns);
}

/// The endpoint named by a 6-byte BACnet/IP MAC address.
pub open spec fn mac_endpoint(mac: Seq<u8>) -> IpEndpoint {
    IpEndpoint {
        ip: choose|a: [u8; 4]| #[trigger] a@ == mac.subrange(0, 4),
        port: be16(mac[4], mac[5]),
    }
}

proof fn lemma_mac_endpoint(mac: Seq<u8>, e: IpEndpoint)
    requires
        mac.len() == 6,
        e.ip@ == mac.subrange(0, 4),
        e.port == be16(mac[4], mac[5]),
    ensures
        e == mac_endpoint(mac),
{
    let a = choose|a: [u8; 4]| #[trigger] a@ == mac.subrange(0, 4);
    assert(a@ == e.ip@);
    assert(a =~= e.ip);
}

/// Whether an address is the limited broadcast or a multicast address.
pub open spec fn broadcast_or_multicast(ip: Seq<u8>) -> bool {
    ip == seq![255u8, 255u8, 255u8, 255u8] || (224 <= ip[0] && ip[0] <= 239)
}

/// Count one packet of `bytes` bytes from MS/TP to IP at `now`.
pub open spec fn count_mstp_to_ip(v: GatewayView, bytes: nat, now: u64) -> GatewayView {
    GatewayView {
        stats: GatewayStats {
            mstp_to_ip_packets: v.stats.mstp_to_ip_packets.saturating_add(1),
            mstp_to_ip_bytes: v.stats.mstp_to_ip_bytes.saturating_add(bytes as u64),
            last_activity: Some(now),
            last_mstp_activity: Some(now),
            ..v.stats
        },
        ..v
    }
}

/// Where an NPDU from MS/TP goes on IP: the requester of a matched
/// transaction, a device named on the IP network, or the subnet broadcast
/// (global or local broadcast); `Err(None)` for an IP device address that is
/// not 6 bytes, `Err(Some(net))` for a network this router does not reach.
pub open spec fn mstp_dest(v: GatewayView, n: NpduSpec, resp: Option<IpEndpoint>) -> Result<IpEndpoint, Option<u16>> {
    match resp {
        Some(d) => Ok(d),
        None => match n.destination {
            Some((net, addr)) => if net == v.ip_network {
                if addr.len() == 6 {
                    Ok(mac_endpoint(addr))
                } else {
                    Err(None)
                }
            } else if net == 0xFFFF {
                Ok(bcast(v))
            } else {
                Err(Some(net))
            },
            None => Ok(bcast(v)),
        },
    }
}

/// Send an NPDU from MS/TP station `source` to IP endpoint `d`, with this
/// router's MS/TP network and the source as SNET/SADR; broadcasts to the
/// limited broadcast or multicast addresses also go to the foreign devices
/// and BDT peers.
pub open spec fn mstp_deliver(v: GatewayView, data: Seq<u8>, n: NpduSpec, source: u8, d: IpEndpoint, now: u64) -> GatewayView {
    let is_bcast = d.ip@[3] == 255;
    let routed = routed_npdu_spec(data, v.mstp_network, seq![source], n, !is_bcast)->0;
    let bvlc = bvlc_spec(routed, is_bcast);
    let v2 = v.send(bvlc, d);
    let v3 = if broadcast_or_multicast(d.ip@) {
        broadcast_extras(v2, bvlc, routed, now)
    } else {
        v2
    };
    count_mstp_to_ip(v3, bvlc.len(), now)
}

/// A broadcast `bvlc` (carrying `routed`) also goes to the live foreign
/// devices, and as a Forwarded-NPDU from this router to the BDT peers.
pub open spec fn broadcast_extras(v: GatewayView, bvlc: Seq<u8>, routed: Seq<u8>, now: u64) -> GatewayView {
    let v_fd = forward_to_fds(v, bvlc, now);
    if v_fd.bdt.len() > 0 {
        forward_to_bdt(v_fd, forwarded_spec(routed, v.local_endpoint()))
    } else {
        v_fd
    }
}

/// Send a non-network-layer NPDU from MS/TP station `source` to IP. A
/// destination network this router does not reach is answered with a
/// Reject-Message-To-Network for the source.
pub open spec fn mstp_forward(v: GatewayView, data: Seq<u8>, n: NpduSpec, source: u8, resp: Option<IpEndpoint>, now: u64) -> (GatewayView, RouteOut) {
    match mstp_dest(v, n, resp) {
        Err(None) => (v, RouteOut::Error(ErrKind::InvalidAddress)),
        Err(Some(net)) => (
            v.count_error(),
            RouteOut::Forward(reject_msg_spec(reject_code(RejectReason::NotRouterToDnet), net), source),
        ),
        Ok(d) => (mstp_deliver(v, data, n, source, d, now), RouteOut::Nothing),
    }
}

/// Route an NPDU received from MS/TP station `source` at `now` (see
/// `route_from_mstp`).
pub open spec fn mstp_route_spec(v: GatewayView, data: Seq<u8>, source: u8, now: u64) -> (GatewayView, RouteOut) {
    if data.len() < 2 {
        (v.count_error(), RouteOut::Error(ErrKind::InvalidFrame))
    } else {
        match parse_npdu_spec(data) {
            Err(m) => (v.count_error(), RouteOut::Error(ErrKind::Npdu(m))),
            Ok((n, len)) => if hops_exhausted(n) {
                (v.count_error(), RouteOut::Error(ErrKind::HopCountExhausted))
            } else if n.network_message {
                nm_from_mstp_spec(v, data, n, source)
            } else {
                let (v1, resp) = response_lookup(v, data.subrange(len, data.len() as int), source);
                mstp_forward(v1, data, n, source, resp, now)
            },
        }
    }
}

impl BacnetGateway {
    /// Look up the pending transaction a response from MS/TP answers.
    fn match_response(&mut self, apdu: &[u8], source: u8) -> (r: Option<IpEndpoint>)
        requires
            old(self).wf(),
        ensures
            final(self).wf(),
            (final(self)@, r) == response_lookup(old(self)@, apdu@, source),
    {
        let info = match parse_apdu(apdu) {
            Ok(i) => i,
            Err(_) => {
                return None;
            },
        };
        if !info.is_response() {
            return None;
        }
        let invoke_id = match info.invoke_id {
            Some(id) => id,
            None => {
                return None;
            },
        };
        let more = info.segmented && info.apdu_type == ApduTypeClass::ComplexAck && info.more_follows;
        proof {
            lemma_table_keys_unique(&self.transactions);
            lemma_txn_index_views(self.transactions.entries(), (invoke_id, source), 0);
            lemma_key_index(self.transactions.entries(), (invoke_id, source), 0);
        }
        if more {
            match self.transactions.get(invoke_id, source) {
                Some(t) => {
                    let a = t.source_addr;
                    proof {
                        let e = self.transactions.entries();
                        let j = choose|j: int| 0 <= j < e.len() && e[j] == *t;
                        assert(key_of(e[j]) == (invoke_id, source));
                    }
                    Some(a)
                },
                None => None,
            }
        } else {
            let ghost before = self@;
            match self.transactions.remove(invoke_id, source) {
                Some(t) => {
                    proof {
                        let e = old(self).transactions.entries();
                        let j = choose|j: int|
                            0 <= j < e.len() && e[j] == t && key_of(t) == (invoke_id, source)
                                && self.transactions.entries() == e.remove(j);
                        assert(key_of(e[j]) == (invoke_id, source));
                        assert(self.transactions.entries().map_values(|t: PendingTransaction| t@)
                            =~= before.txns.remove(j));
                    }
                    Some(t.source_addr)
                },
                None => None,
            }
        }
    }

    /// Route an NPDU received from MS/TP station `source_addr` at `now_ms`.
    ///
    /// Network layer messages are handled as such. A response to a tracked
    /// confirmed request goes back to its requester, completing the
    /// transaction; other NPDUs go to the device named on the IP network or
    /// to the subnet broadcast, with this router's MS/TP network and the
    /// source as SNET/SADR. Returns `Ok(Some((reject, source)))` when the
    /// destination network is unreachable: a Reject-Message-To-Network to send
    /// back on MS/TP.
    pub fn route_from_mstp(&mut self, data: &[u8], source_addr: u8, now_ms: u64) -> (r: Result<Option<(Vec<u8>, u8)>, GatewayError>)
        requires
            old(self).wf(),
            data@.len() + 300 <= usize::MAX,
        ensures
            final(self).wf(),
            (final(self)@, route_out(r)) == mstp_route_spec(old(self)@, data@, source_addr, now_ms),
    {
        if data.len() < 2 {
            self.stats.routing_errors = self.stats.routing_errors.saturating_add(1);
            return Err(GatewayError::InvalidFrame);
        }
        let (npdu, npdu_len) = match parse_npdu(data) {
            Ok(x) => x,
            Err(e) => {
                self.stats.routing_errors = self.stats.routing_errors.saturating_add(1);
                return Err(e);
            },
        };
        proof {
            crate::npdu::lemma_parse_npdu_bounds(data@);
        }
        if let Some(hop_count) = npdu.hop_count {
            if hop_count < MIN_HOP_COUNT {
                self.stats.routing_errors = self.stats.routing_errors.saturating_add(1);
                return Err(GatewayError::HopCountExhausted);
            }
        }
        if npdu.network_message {
            return match self.handle_network_message_from_mstp(data, &npdu, source_addr) {
                Ok(()) => Ok(None),
                Err(e) => Err(e),
            };
        }
        let apdu = copy_range(data, npdu_len, data.len());
        let response_dest = self.match_response(apdu.as_slice(), source_addr);
        self.forward_mstp_npdu(data, &npdu, source_addr, response_dest, now_ms)
    }

    fn mstp_destination(&self, npdu: &NpduInfo, response_dest: Option<IpEndpoint>) -> (r: Result<IpEndpoint, Option<u16>>)
        ensures
            r == mstp_dest(self@, npdu@, response_dest),
    {
        match response_dest {
            Some(d) => Ok(d),
            None => match &npdu.destination {
                Some(dest) => {
                    if dest.network == self.ip_network {
                        match resolve_ip_address(dest.address.as_slice()) {
                            Ok(e) => {
                                proof {
                                    lemma_mac_endpoint(dest.address@, e);
                                }
                                Ok(e)
                            },
                            Err(_) => Err(None),
                        }
                    } else if dest.network == 0xFFFF {
                        Ok(self.get_broadcast_address())
                    } else {
                        Err(Some(dest.network))
                    }
                },
                None => Ok(self.get_broadcast_address()),
            },
        }
    }

    fn forward_mstp_npdu(&mut self, data: &[u8], npdu: &NpduInfo, source_addr: u8, response_dest: Option<IpEndpoint>, now_ms: u64) -> (r: Result<Option<(Vec<u8>, u8)>, GatewayError>)
        requires
            old(self).wf(),
            data@.len() + 300 <= usize::MAX,
            parse_npdu_spec(data@) matches Ok((n, _)) && n == npdu@,
        ensures
            final(self).wf(),
            (final(self)@, route_out(r)) == mstp_forward(old(self)@, data@, npdu@, source_addr, response_dest, now_ms),
    {
        match self.mstp_destination(npdu, response_dest) {
            Err(None) => Err(GatewayError::InvalidAddress),
            Err(Some(net)) => {
                self.stats.routing_errors = self.stats.routing_errors.saturating_add(1);
                let reject = build_reject_message_to_network(RejectReason::NotRouterToDnet, net);
                Ok(Some((reject, source_addr)))
            },
            Ok(d) => {
                self.deliver_to_ip(data, npdu, source_addr, d, now_ms);
                Ok(None)
            },
        }
    }

    fn deliver_to_ip(&mut self, data: &[u8], npdu: &NpduInfo, source_addr: u8, dest_addr: IpEndpoint, now_ms: u64)
        requires
            old(self).wf(),
            data@.len() + 300 <= usize::MAX,
            parse_npdu_spec(data@) matches Ok((n, _)) && n == npdu@,
        ensures
            final(self).wf(),
            final(self)@ == mstp_deliver(old(self)@, data@, npdu@, source_addr, dest_addr, now_ms),
    {
        let is_broadcast = dest_addr.ip[3] == 255;
        let (routed, bvlc) = mstp_packets(data, npdu, self.mstp_network, source_addr, is_broadcast);
        let bvlc_len = bvlc.len();
        let bvlc_copy = copy_range(bvlc.as_slice(), 0, bvlc.len());
        assert(bvlc@.subrange(0, bvlc@.len() as int) =~= bvlc@);
        self.send_ip_packet(bvlc_copy, dest_addr);
        let ip = dest_addr.ip;
        let bm = (ip[0] == 255 && ip[1] == 255 && ip[2] == 255 && ip[3] == 255) || (224 <= ip[0] && ip[0] <= 239);
        proof {
            if ip[0] == 255 && ip[1] == 255 && ip[2] == 255 && ip[3] == 255 {
                assert(ip@ =~= seq![255u8, 255u8, 255u8, 255u8]);
            }
        }
        if bm {
            self.send_broadcast_extras(bvlc.as_slice(), routed.as_slice(), now_ms);
        }
        self.count_mstp_to_ip(bvlc_len, now_ms);
    }

    fn send_broadcast_extras(&mut self, bvlc: &[u8], routed: &[u8], now_ms: u64)
        requires
            old(self).wf(),
            routed@.len() + 10 <= usize::MAX,
        ensures
            final(self).wf(),
            final(self)@ == broadcast_extras(old(self)@, bvlc@, routed@, now_ms),
    {
        self.forward_to_foreign_devices(bvlc, now_ms);
        let local_addr = IpEndpoint { ip: self.local_ip, port: self.local_port };
        self.forward_to_bdt_entries(routed, local_addr);
    }

    fn count_mstp_to_ip(&mut self, bytes: usize, now_ms: u64)
        requires
            old(self).wf(),
        ensures
            final(self).wf(),
            final(self)@ == count_mstp_to_ip(old(self)@, bytes as nat, now_ms),
    {
        self.stats.mstp_to_ip_packets = self.stats.mstp_to_ip_packets.saturating_add(1);
        self.stats.mstp_to_ip_bytes = self.stats.mstp_to_ip_bytes.saturating_add(bytes as u64);
        self.stats.last_activity = Some(now_ms);
        self.stats.last_mstp_activity = Some(now_ms);
    }
}

/// The routed NPDU of an MS/TP frame for IP and its BVLC wrapping.
fn mstp_packets(data: &[u8], npdu: &NpduInfo, mstp_network: u16, source_addr: u8, is_broadcast: bool) -> (r: (Vec<u8>, Vec<u8>))
    requires
        data@.len() + 300 <= usize::MAX,
        parse_npdu_spec(data@) matches Ok((n, _)) && n == npdu@,
    ensures
        r.0@ == routed_npdu_spec(data@, mstp_network, seq![source_addr], npdu@, !is_broadcast)->0,
        r.1@ == bvlc_spec(r.0@, is_broadcast),
        r.0@.len() + 10 <= usize::MAX,
{
    proof {
        crate::npdu::lemma_parse_npdu_bounds(data@);
    }
    let sadr: Vec<u8> = vec![source_addr];
    assert(sadr@ =~= seq![source_addr]);
    let routed = match build_routed_npdu(data, mstp_network, sadr.as_slice(), npdu, !is_broadcast) {
        Ok(x) => x,
        Err(_) => Vec::new(),
    };
    proof {
        crate::npdu::lemma_routed_len(data@, mstp_network, sadr@, npdu@, !is_broadcast);
    }
    let bvlc = build_bvlc(routed.as_slice(), is_broadcast);
    (routed, bvlc)
}


/// The view with transaction `t` added, unless the table is full or holds
/// its key.
pub open spec fn add_txn(v: GatewayView, t: TxnView) -> GatewayView {
    if v.txns.len() >= v.txn_capacity || txn_index(v.txns, (t.invoke_id, t.dest_mac)) is Some {
        v
    } else {
        GatewayView {
            txns: v.txns.push(t),
            txn_stats: TransactionStats {
                total_created: v.txn_stats.total_created.saturating_add(1),
                active_count: (v.txns.len() + 1) as usize,
                ..v.txn_stats
            },
            ..v
        }
    }
}

/// A new pending transaction as `PendingTransaction::new_at` makes it.
pub open spec fn new_txn(
    invoke_id: u8,
    source_addr: IpEndpoint,
    source: Option<(u16, Seq<u8>)>,
    dest_network: u16,
    dest_mac: u8,
    service: ConfirmedServiceChoice,
    segmented: bool,
    npdu: Seq<u8>,
    now: u64,
) -> TxnView {
    TxnView {
        invoke_id,
        source_addr,
        source_network: match source {
            Some(s) => Some(s.0),
            None => None,
        },
        source_mac: match source {
            Some(s) => s.1,
            None => Seq::empty(),
        },
        dest_network,
        dest_mac,
        service,
        segmented,
        created_at_ms: now,
        timeout_ms: service_timeout_spec(service),
        retries: 0,
        max_retries: DEFAULT_MAX_RETRIES,
        original_npdu: npdu,
    }
}

/// The MS/TP station a request is for: the DADR's first byte on our MS/TP
/// network, the broadcast address otherwise.
pub open spec fn request_dest_mac(v: GatewayView, n: NpduSpec) -> u8 {
    match n.destination {
        Some((net, addr)) => if net == v.mstp_network && addr.len() > 0 {
            addr[0]
        } else {
            255
        },
        None => 255,
    }
}

/// Track a (non-segmented) confirmed request from IP for the MS/TP network:
/// a transaction keyed by invoke ID and destination MAC, holding the routed
/// NPDU for retries.
pub open spec fn track_request(v: GatewayView, npdu_data: Seq<u8>, n: NpduSpec, info: ApduInfo, src: IpEndpoint, now: u64) -> GatewayView {
    if info.apdu_type == ApduTypeClass::ConfirmedRequest && !info.segmented && info.invoke_id is Some
        && info.service is Some {
        match service_of_code(info.service->0) {
            Some(service) => {
                let (mstp_dest, fd): (u8, bool) = match n.destination {
                    Some((net, addr)) => if net == v.mstp_network {
                        (request_dest_mac(v, n), true)
                    } else if net == 0xFFFF {
                        (255, true)
                    } else if net == v.ip_network {
                        (0, false)
                    } else {
                        (255, false)
                    },
                    None => (255, true),
                };
                if mstp_dest > 0 {
                    let routed = routed_npdu_spec(npdu_data, v.ip_network, ip_mac(src), n, fd)->0;
                    add_txn(
                        v,
                        new_txn(
                            info.invoke_id->0,
                            src,
                            n.source,
                            v.mstp_network,
                            request_dest_mac(v, n),
                            service,
                            false,
                            routed,
                            now,
                        ),
                    )
                } else {
                    v
                }
            },
            None => v,
        }
    } else {
        v
    }
}

/// Count one NPDU of `bytes` bytes from IP to MS/TP at `now`.
pub open spec fn count_ip_to_mstp(v: GatewayView, bytes: nat, now: u64) -> GatewayView {
    GatewayView {
        stats: GatewayStats {
            ip_to_mstp_packets: v.stats.ip_to_mstp_packets.saturating_add(1),
            ip_to_mstp_bytes: v.stats.ip_to_mstp_bytes.saturating_add(bytes as u64),
            last_activity: Some(now),
            last_ip_activity: Some(now),
            ..v.stats
        },
        ..v
    }
}

/// Route an application NPDU from IP endpoint `src` to MS/TP: to the station
/// named on our MS/TP network or as broadcast, with this router's IP network
/// and the sender's B/IP address as SNET/SADR and the destination stripped
/// (final delivery); NPDUs for the IP network stay there; a destination
/// network this router does not reach is answered, on IP, with a
/// Reject-Message-To-Network. The sender's MS/TP source address is learned.
pub open spec fn ip_unicast(v: GatewayView, npdu_data: Seq<u8>, n: NpduSpec, src: IpEndpoint, now: u64) -> (GatewayView, RouteOut) {
    let target: Result<u8, Option<u16>> = match n.destination {
        Some((net, addr)) => if net == v.mstp_network {
            Ok(if addr.len() == 0 {
                255u8
            } else {
                addr[0]
            })
        } else if net == 0xFFFF {
            Ok(255u8)
        } else if net == v.ip_network {
            Err(None)
        } else {
            Err(Some(net))
        },
        None => Ok(255u8),
    };
    match target {
        Err(None) => (v, RouteOut::Nothing),
        Err(Some(net)) => (
            v.count_error().send(
                bvlc_spec(reject_msg_spec(reject_code(RejectReason::NotRouterToDnet), net), false),
                src,
            ),
            RouteOut::Nothing,
        ),
        Ok(mstp_dest) => match routed_or_err(npdu_data, v.ip_network, ip_mac(src), n, true) {
            Err(e) => (v, RouteOut::Error(e)),
            Ok(routed) => {
                let v1 = count_ip_to_mstp(v, routed.len(), now);
                let v2 = match n.source {
                    Some((_, a)) => if a.len() > 0 {
                        GatewayView { ip_to_mstp: learn_spec(v1.ip_to_mstp, src, a[0], now), ..v1 }
                    } else {
                        v1
                    },
                    None => v1,
                };
                (v2, RouteOut::Forward(routed, mstp_dest))
            },
        },
    }
}

impl BacnetGateway {
    /// Add a transaction (the table refuses duplicates and overflow).
    fn add_transaction(&mut self, t: PendingTransaction)
        requires
            old(self).wf(),
        ensures
            final(self).wf(),
            final(self)@ == add_txn(old(self)@, t@),
    {
        proof {
            lemma_txn_index_views(self.transactions.entries(), key_of(t), 0);
            lemma_key_index(self.transactions.entries(), key_of(t), 0);
        }
        let ghost before = self@;
        let _ = self.transactions.add(t);
        proof {
            if !(before.txns.len() >= before.txn_capacity || txn_index(before.txns, (t.invoke_id, t.dest_mac)) is Some) {
                assert(self@.txns =~= before.txns.push(t@));
            }
        }
    }

    fn track_confirmed_request(&mut self, npdu_data: &[u8], npdu: &NpduInfo, info: &ApduInfo, source_addr: IpEndpoint, now_ms: u64)
        requires
            old(self).wf(),
            parse_npdu_spec(npdu_data@) matches Ok((n, _)) && n == npdu@,
        ensures
            final(self).wf(),
            final(self)@ == track_request(old(self)@, npdu_data@, npdu@, *info, source_addr, now_ms),
    {
        if !(info.apdu_type == ApduTypeClass::ConfirmedRequest && !info.segmented) {
            return ;
        }
        let (invoke_id, service_raw) = match (info.invoke_id, info.service) {
            (Some(i), Some(s)) => (i, s),
            _ => {
                return ;
            },
        };
        let dest_mac: u8 = match &npdu.destination {
            Some(dest) => if dest.network == self.mstp_network && dest.address.len() > 0 {
                dest.address[0]
            } else {
                255
            },
            None => 255,
        };
        let service = match ConfirmedServiceChoice::try_from_u8(service_raw) {
            Ok(s) => s,
            Err(_) => {
                return ;
            },
        };
        let (mstp_dest, final_delivery): (u8, bool) = match &npdu.destination {
            Some(dest) => if dest.network == self.mstp_network {
                (dest_mac, true)
            } else if dest.network == 0xFFFF {
                (255, true)
            } else if dest.network == self.ip_network {
                (0, false)
            } else {
                (255, false)
            },
            None => (255, true),
        };
        if mstp_dest > 0 {
            let mac = ip_to_mac(&source_addr);
            if let Ok(routed) = build_routed_npdu(npdu_data, self.ip_network, mac.as_slice(), npdu, final_delivery) {
                let (src_net, src_mac): (Option<u16>, Vec<u8>) = match &npdu.source {
                    Some(s) => (Some(s.network), copy_range(s.address.as_slice(), 0, s.address.len())),
                    None => (None, Vec::new()),
                };
                proof {
                    if npdu.source is Some {
                        let s = npdu.source->0;
                        assert(s.address@.subrange(0, s.address@.len() as int) =~= s.address@);
                    } else {
                        assert(src_mac@ =~= Seq::<u8>::empty());
                    }
                }
                let t = PendingTransaction::new_at(
                    invoke_id,
                    source_addr,
                    src_net,
                    src_mac,
                    self.mstp_network,
                    dest_mac,
                    service,
                    false,
                    routed,
                    now_ms,
                );
                self.add_transaction(t);
            }
        }
    }

    fn count_ip_to_mstp(&mut self, bytes: usize, now_ms: u64)
        requires
            old(self).wf(),
        ensures
            final(self).wf(),
            final(self)@ == count_ip_to_mstp(old(self)@, bytes as nat, now_ms),
    {
        self.stats.ip_to_mstp_packets = self.stats.ip_to_mstp_packets.saturating_add(1);
        self.stats.ip_to_mstp_bytes = self.stats.ip_to_mstp_bytes.saturating_add(bytes as u64);
        self.stats.last_activity = Some(now_ms);
        self.stats.last_ip_activity = Some(now_ms);
    }

    fn route_npdu_to_mstp(&mut self, npdu_data: &[u8], npdu: &NpduInfo, source_addr: IpEndpoint, now_ms: u64) -> (r: Result<Option<(Vec<u8>, u8)>, GatewayError>)
        requires
            old(self).wf(),
            parse_npdu_spec(npdu_data@) matches Ok((n, _)) && n == npdu@,
        ensures
            final(self).wf(),
            (final(self)@, route_out(r)) == ip_unicast(old(self)@, npdu_data@, npdu@, source_addr, now_ms),
    {
        let mstp_dest: u8 = match &npdu.destination {
            Some(dest) => {
                if dest.network == self.mstp_network {
                    if dest.address.len() == 0 {
                        255
                    } else {
                        dest.address[0]
                    }
                } else if dest.network == 0xFFFF {
                    255
                } else if dest.network == self.ip_network {
                    return Ok(None);
                } else {
                    self.stats.routing_errors = self.stats.routing_errors.saturating_add(1);
                    let reject = build_reject_message_to_network(RejectReason::NotRouterToDnet, dest.network);
                    let bvlc = build_bvlc(reject.as_slice(), false);
                    self.send_ip_packet(bvlc, source_addr);
                    return Ok(None);
                }
            },
            None => 255,
        };
        let mac = ip_to_mac(&source_addr);
        let routed = match build_routed_npdu(npdu_data, self.ip_network, mac.as_slice(), npdu, true) {
            Ok(x) => x,
            Err(e) => {
                return Err(e);
            },
        };
        self.count_ip_to_mstp(routed.len(), now_ms);
        if let Some(src) = &npdu.source {
            if src.address.len() > 0 {
                self.learn_ip_address(source_addr, src.address[0], now_ms);
            }
        }
        Ok(Some((routed, mstp_dest)))
    }
}


/// Text of a segmentation error.
pub open spec fn seg_err_text(e: SegmentationError) -> Seq<char> {
    match e {
        SegmentationError::UnexpectedSegment => "UnexpectedSegment"@,
        SegmentationError::OutOfOrder => "OutOfOrder"@,
        SegmentationError::SegmentTooLarge => "SegmentTooLarge"@,
    }
}

/// A SegmentAck from this router (as server) in a local NPDU and an
/// Original-Unicast-NPDU.
pub open spec fn segment_ack_packet(invoke_id: u8, seq_num: u8, window: u8, negative: bool) -> Seq<u8> {
    bvlc_spec(local_npdu_spec(segment_ack_apdu_spec(invoke_id, seq_num, window, negative)), false)
}

/// The whole confirmed request rebuilt from the first segment's header and
/// the reassembled service data.
pub open spec fn rebuilt_apdu(info: SegInfoView, invoke_id: u8, data: Seq<u8>) -> Seq<u8> {
    seq![
        if info.segmented_response_accepted {
            0x02u8
        } else {
            0x00u8
        },
        info.max_apdu_accepted,
        invoke_id,
        info.service_choice,
    ] + data
}

/// The reassembly slot of `invoke_id` set to `slot`.
pub open spec fn with_slot(v: GatewayView, invoke_id: u8, slot: Option<ReassemblyView>) -> GatewayView {
    GatewayView { reassembly: v.reassembly.update(invoke_id as int, slot), ..v }
}

/// The stored header of `invoke_id` set to `info`.
pub open spec fn with_info(v: GatewayView, invoke_id: u8, info: Option<SegInfoView>) -> GatewayView {
    GatewayView { seg_info: v.seg_info.update(invoke_id as int, info), ..v }
}

/// Take one segment of the request `invoke_id` from `src`: store the first
/// segment's header, feed the segment to its reassembly and acknowledge it
/// (negatively when refused). A completed reassembly gives the rebuilt APDU
/// and the first segment's NPDU.
pub open spec fn segmented_request_spec(
    v: GatewayView,
    invoke_id: u8,
    seq_num: u8,
    window: u8,
    payload: Seq<u8>,
    more_follows: bool,
    src: IpEndpoint,
    first: Option<(u8, u8, bool, Seq<u8>)>,
    now: u64,
) -> (GatewayView, Result<Option<(Seq<u8>, Seq<u8>)>, ErrKind>) {
    let v0 = match first {
        Some((svc, max, sra, npdu)) => with_info(
            v,
            invoke_id,
            Some(
                SegInfoView {
                    service_choice: svc,
                    max_apdu_accepted: max,
                    segmented_response_accepted: sra,
                    npdu_data: npdu,
                    source_addr: src,
                    created_at_ms: now,
                },
            ),
        ),
        None => v,
    };
    let (slot, out) = segment_step(
        v0.reassembly[invoke_id as int],
        seq_num,
        payload,
        more_follows,
        MAX_APDU_LENGTH,
        now,
    );
    let v1 = with_slot(v0, invoke_id, slot);
    match out {
        Ok(Some(data)) => {
            let v2 = v1.send(segment_ack_packet(invoke_id, seq_num, window, false), src);
            match v2.seg_info[invoke_id as int] {
                Some(info) => (
                    with_info(v2, invoke_id, None),
                    Ok(Some((rebuilt_apdu(info, invoke_id, data), info.npdu_data))),
                ),
                None => (v2, Err(ErrKind::Npdu("Missing segmented request info"@))),
            }
        },
        Ok(None) => (v1.send(segment_ack_packet(invoke_id, seq_num, window, false), src), Ok(None)),
        Err(e) => (
            with_info(v1, invoke_id, None).send(segment_ack_packet(invoke_id, seq_num, window, true), src),
            Err(ErrKind::Npdu("Segmentation error: "@ + seg_err_text(e))),
        ),
    }
}

pub open spec fn seg_result_view(r: Result<Option<(Vec<u8>, Vec<u8>)>, GatewayError>) -> Result<Option<(Seq<u8>, Seq<u8>)>, ErrKind> {
    match r {
        Ok(Some((a, b))) => Ok(Some((a@, b@))),
        Ok(None) => Ok(None),
        Err(e) => Err(err_kind(e)),
    }
}

/// Forward a reassembled request to MS/TP: its NPDU is the first segment's
/// header with the rebuilt APDU, routed for the station named on our MS/TP
/// network (or broadcast); a transaction tracks it when its service is known.
pub open spec fn reassembled_forward(v: GatewayView, apdu: Seq<u8>, orig_npdu: Seq<u8>, invoke_id: u8, src: IpEndpoint, now: u64) -> (GatewayView, RouteOut) {
    match parse_npdu_spec(orig_npdu) {
        Err(m) => (v, RouteOut::Error(ErrKind::Npdu(m))),
        Ok((on, olen)) => {
            let mstp_dest = request_dest_mac(v, on);
            let synthetic = orig_npdu.subrange(0, olen) + apdu;
            let fd = match on.destination {
                Some((net, _)) => net == v.mstp_network || net == 0xFFFF,
                None => true,
            };
            match routed_or_err(synthetic, v.ip_network, ip_mac(src), on, fd) {
                Err(e) => (v, RouteOut::Error(e)),
                Ok(routed) => {
                    let v1 = match service_of_code(apdu[3]) {
                        Some(service) => add_txn(
                            v,
                            new_txn(invoke_id, src, on.source, v.mstp_network, mstp_dest, service, true, routed, now),
                        ),
                        None => v,
                    };
                    (count_ip_to_mstp(v1, routed.len(), now), RouteOut::Forward(routed, mstp_dest))
                },
            }
        },
    }
}

impl BacnetGateway {
    fn send_segment_ack(&mut self, invoke_id: u8, sequence_number: u8, window_size: u8, negative: bool, dest: IpEndpoint)
        requires
            old(self).wf(),
        ensures
            final(self).wf(),
            final(self)@ == old(self)@.send(segment_ack_packet(invoke_id, sequence_number, window_size, negative), dest),
    {
        let apdu = encode_segment_ack(invoke_id, sequence_number, window_size, negative);
        let npdu = local_npdu(apdu.as_slice());
        let bvlc = build_bvlc(npdu.as_slice(), false);
        self.send_ip_packet(bvlc, dest);
    }

    fn set_seg_info(&mut self, invoke_id: u8, info: Option<SegmentedRequestInfo>)
        requires
            old(self).wf(),
        ensures
            final(self).wf(),
            final(self)@ == with_info(old(self)@, invoke_id, seg_info_view(info)),
    {
        let ghost iv = seg_info_view(info);
        self.segmented_request_info.set(invoke_id as usize, info);
        assert(self@.seg_info =~= old(self)@.seg_info.update(invoke_id as int, iv));
    }

    fn take_seg_info(&mut self, invoke_id: u8) -> (r: Option<SegmentedRequestInfo>)
        requires
            old(self).wf(),
        ensures
            final(self).wf(),
            seg_info_view(r) == old(self)@.seg_info[invoke_id as int],
            final(self)@ == with_info(old(self)@, invoke_id, None),
    {
        let mut taken: Option<SegmentedRequestInfo> = None;
        std::mem::swap(&mut taken, &mut self.segmented_request_info[invoke_id as usize]);
        assert(self@.seg_info =~= old(self)@.seg_info.update(invoke_id as int, None));
        taken
    }

    fn process_segmented_request(
        &mut self,
        invoke_id: u8,
        sequence_number: u8,
        proposed_window_size: u8,
        segment_data: &[u8],
        more_follows: bool,
        source_addr: IpEndpoint,
        first_segment_info: Option<(u8, u8, bool, Vec<u8>)>,
        now_ms: u64,
    ) -> (r: Result<Option<(Vec<u8>, Vec<u8>)>, GatewayError>)
        requires
            old(self).wf(),
        ensures
            final(self).wf(),
            (final(self)@, seg_result_view(r)) == segmented_request_spec(
                old(self)@,
                invoke_id,
                sequence_number,
                proposed_window_size,
                segment_data@,
                more_follows,
                source_addr,
                match first_segment_info {
                    Some((a, b, c, d)) => Some((a, b, c, d@)),
                    None => None,
                },
                now_ms,
            ),
    {
        let ghost fs = if first_segment_info is Some {
            let t = first_segment_info->0;
            Some((t.0, t.1, t.2, t.3@))
        } else {
            None
        };
        let ghost expected = segmented_request_spec(
            old(self)@,
            invoke_id,
            sequence_number,
            proposed_window_size,
            segment_data@,
            more_follows,
            source_addr,
            fs,
            now_ms,
        );
        if let Some((service_choice, max_apdu_accepted, segmented_response_accepted, npdu_data)) = first_segment_info {
            self.set_seg_info(
                invoke_id,
                Some(
                    SegmentedRequestInfo {
                        service_choice,
                        max_apdu_accepted,
                        segmented_response_accepted,
                        npdu_data,
                        source_addr,
                        created_at_ms: now_ms,
                    },
                ),
            );
        }
        let ghost v0 = self@;
        assert(v0 == match fs {
            Some((svc, max, sra, npdu)) => with_info(
                old(self)@,
                invoke_id,
                Some(
                    SegInfoView {
                        service_choice: svc,
                        max_apdu_accepted: max,
                        segmented_response_accepted: sra,
                        npdu_data: npdu,
                        source_addr: source_addr,
                        created_at_ms: now_ms,
                    },
                ),
            ),
            None => old(self)@,
        });
        let ghost (slot, sout) = segment_step(
            v0.reassembly[invoke_id as int],
            sequence_number,
            segment_data@,
            more_follows,
            MAX_APDU_LENGTH,
            now_ms,
        );
        let out = self.segmentation.process_segment(
            invoke_id,
            sequence_number,
            segment_data,
            more_follows,
            MAX_APDU_LENGTH,
            now_ms,
        );
        assert(self@ == with_slot(v0, invoke_id, slot));
        match out {
            Ok(Some(complete)) => {
                self.send_segment_ack(invoke_id, sequence_number, proposed_window_size, false, source_addr);
                let ghost v2 = self@;
                match self.take_seg_info(invoke_id) {
                    Some(info) => {
                        let mut apdu: Vec<u8> = Vec::new();
                        apdu.push(
                            if info.segmented_response_accepted {
                                0x02
                            } else {
                                0x00
                            },
                        );
                        apdu.push(info.max_apdu_accepted);
                        apdu.push(invoke_id);
                        apdu.push(info.service_choice);
                        extend_bytes(&mut apdu, complete.as_slice());
                        assert(apdu@ =~= rebuilt_apdu(seg_info_view(Some(info))->0, invoke_id, complete@));
                        Ok(Some((apdu, info.npdu_data)))
                    },
                    None => {
                        let m = crate::text::string_from_chars(&crate::text::str_chars("Missing segmented request info"));
                        assert(self@.seg_info =~= v2.seg_info);
                        Err(GatewayError::NpduError(m))
                    },
                }
            },
            Ok(None) => {
                self.send_segment_ack(invoke_id, sequence_number, proposed_window_size, false, source_addr);
                Ok(None)
            },
            Err(e) => {
                let _ = self.take_seg_info(invoke_id);
                self.send_segment_ack(invoke_id, sequence_number, proposed_window_size, true, source_addr);
                let mut text = crate::text::str_chars("Segmentation error: ");
                let mut name = crate::text::str_chars(
                    match e {
                        SegmentationError::UnexpectedSegment => "UnexpectedSegment",
                        SegmentationError::OutOfOrder => "OutOfOrder",
                        SegmentationError::SegmentTooLarge => "SegmentTooLarge",
                    },
                );
                text.append(&mut name);
                assert(text@ == "Segmentation error: "@ + seg_err_text(e));
                Err(GatewayError::NpduError(crate::text::string_from_chars(&text)))
            },
        }
    }

    fn forward_reassembled(&mut self, complete_apdu: &[u8], original_npdu: &[u8], invoke_id: u8, source_addr: IpEndpoint, now_ms: u64) -> (r: Result<Option<(Vec<u8>, u8)>, GatewayError>)
        requires
            old(self).wf(),
            complete_apdu@.len() >= 4,
        ensures
            final(self).wf(),
            (final(self)@, route_out(r)) == reassembled_forward(old(self)@, complete_apdu@, original_npdu@, invoke_id, source_addr, now_ms),
    {
        let (orig_info, orig_len) = match parse_npdu(original_npdu) {
            Ok(x) => x,
            Err(e) => {
                return Err(e);
            },
        };
        proof {
            crate::npdu::lemma_parse_npdu_bounds(original_npdu@);
        }
        let mstp_dest: u8 = match &orig_info.destination {
            Some(dest) => if dest.network == self.mstp_network && dest.address.len() > 0 {
                dest.address[0]
            } else {
                255
            },
            None => 255,
        };
        let mut synthetic = copy_range(original_npdu, 0, orig_len);
        extend_bytes(&mut synthetic, complete_apdu);
        let final_delivery = match &orig_info.destination {
            Some(d) => d.network == self.mstp_network || d.network == 0xFFFF,
            None => true,
        };
        let mac = ip_to_mac(&source_addr);
        let routed = match build_routed_npdu(synthetic.as_slice(), self.ip_network, mac.as_slice(), &orig_info, final_delivery) {
            Ok(x) => x,
            Err(e) => {
                return Err(e);
            },
        };
        if let Ok(service) = ConfirmedServiceChoice::try_from_u8(complete_apdu[3]) {
            let (src_net, src_mac): (Option<u16>, Vec<u8>) = match &orig_info.source {
                Some(s) => (Some(s.network), copy_range(s.address.as_slice(), 0, s.address.len())),
                None => (None, Vec::new()),
            };
            proof {
                if orig_info.source is Some {
                    let s = orig_info.source->0;
                    assert(s.address@.subrange(0, s.address@.len() as int) =~= s.address@);
                } else {
                    assert(src_mac@ =~= Seq::<u8>::empty());
                }
            }
            let copy = copy_range(routed.as_slice(), 0, routed.len());
            assert(routed@.subrange(0, routed@.len() as int) =~= routed@);
            let t = PendingTransaction::new_at(
                invoke_id,
                source_addr,
                src_net,
                src_mac,
                self.mstp_network,
                mstp_dest,
                service,
                true,
                copy,
                now_ms,
            );
            self.add_transaction(t);
        }
        self.count_ip_to_mstp(routed.len(), now_ms);
        Ok(Some((routed, mstp_dest)))
    }
}


/// A segment of a segmented confirmed request from IP: reassemble it, and
/// forward the whole request to MS/TP once complete.
pub open spec fn segmented_path(v: GatewayView, npdu_data: Seq<u8>, apdu: Seq<u8>, info: ApduInfo, invoke_id: u8, src: IpEndpoint, now: u64) -> (GatewayView, RouteOut) {
    let seq_num = apdu[3];
    let first = if seq_num == 0 {
        Some((apdu[5], apdu[1], info.segmented_response_accepted, npdu_data))
    } else {
        None
    };
    let (v1, res) = segmented_request_spec(
        v,
        invoke_id,
        seq_num,
        apdu[4],
        apdu.subrange(6, apdu.len() as int),
        info.more_follows,
        src,
        first,
        now,
    );
    match res {
        Err(e) => (v1, RouteOut::Error(e)),
        Ok(None) => (v1, RouteOut::Nothing),
        Ok(Some((a, o))) => reassembled_forward(v1, a, o, invoke_id, src, now),
    }
}

/// Route the NPDU of a BVLC message from IP endpoint `src` at `now`.
pub open spec fn ip_npdu_spec(v: GatewayView, npdu_data: Seq<u8>, src: IpEndpoint, now: u64) -> (GatewayView, RouteOut) {
    if npdu_data.len() < 2 {
        (v.count_error(), RouteOut::Error(ErrKind::InvalidFrame))
    } else {
        match parse_npdu_spec(npdu_data) {
            Err(m) => (v.count_error(), RouteOut::Error(ErrKind::Npdu(m))),
            Ok((n, len)) => if hops_exhausted(n) {
                (v.count_error(), RouteOut::Error(ErrKind::HopCountExhausted))
            } else if n.network_message {
                nm_from_ip_spec(v, npdu_data, n, src)
            } else {
                let apdu = npdu_data.subrange(len, npdu_data.len() as int);
                match parse_apdu_spec(apdu) {
                    Some(info) => if info.segmented && info.apdu_type == ApduTypeClass::ConfirmedRequest
                        && info.invoke_id is Some && apdu.len() > 6 {
                        segmented_path(v, npdu_data, apdu, info, info.invoke_id->0, src, now)
                    } else {
                        ip_unicast(track_request(v, npdu_data, n, info, src, now), npdu_data, n, src, now)
                    },
                    None => ip_unicast(v, npdu_data, n, src, now),
                }
            },
        }
    }
}

/// Route a BVLC message received from IP endpoint `src` at `now` (see
/// `route_from_ip`).
pub open spec fn ip_route_spec(v: GatewayView, data: Seq<u8>, src: IpEndpoint, now: u64) -> (GatewayView, RouteOut) {
    if data.len() < 4 || data[0] != 0x81 || data.len() != be16(data[2], data[3]) {
        (v.count_error(), RouteOut::Error(ErrKind::InvalidFrame))
    } else {
        let f = data[1];
        if f == BVLC_REGISTER_FOREIGN_DEVICE {
            register_fd_spec(v, data, src, now)
        } else if f == BVLC_READ_FDT {
            (v.send(read_fdt_ack_spec(v.fdt, now), src), RouteOut::Nothing)
        } else if f == BVLC_DELETE_FDT_ENTRY {
            delete_fd_spec(v, data, src)
        } else if f == BVLC_READ_BDT {
            (v.send(read_bdt_ack_spec(v.bdt), src), RouteOut::Nothing)
        } else if f == BVLC_WRITE_BDT {
            write_bdt_spec(v, data, src)
        } else if f == BVLC_DISTRIBUTE_BROADCAST {
            distribute_spec(v, data, src)
        } else if f == BVLC_ORIGINAL_UNICAST || f == BVLC_ORIGINAL_BROADCAST {
            ip_npdu_spec(v, data.subrange(4, data.len() as int), src, now)
        } else if f == BVLC_FORWARDED_NPDU {
            if data.len() < 10 {
                (v.count_error(), RouteOut::Error(ErrKind::InvalidFrame))
            } else {
                ip_npdu_spec(v, data.subrange(10, data.len() as int), src, now)
            }
        } else {
            (v, RouteOut::Nothing)
        }
    }
}

/// Whether `npdu` is a whole, unsegmented confirmed request for a known
/// service to MS/TP station `d` on network `net`, not a network message and
/// with hops left; its invoke ID is then `request_invoke_id(npdu)`.
pub open spec fn confirmed_request_to(npdu: Seq<u8>, net: u16, d: u8) -> bool {
    npdu.len() >= 2 && match parse_npdu_spec(npdu) {
        Ok((n, len)) => !hops_exhausted(n) && !n.network_message && n.destination == Some((net, seq![d]))
            && match parse_apdu_spec(npdu.subrange(len, npdu.len() as int)) {
            Some(info) => info.apdu_type == ApduTypeClass::ConfirmedRequest && !info.segmented
                && info.invoke_id is Some && info.service is Some && service_of_code(info.service->0) is Some,
            None => false,
        },
        Err(_) => false,
    }
}

/// The invoke ID of the APDU in `npdu`.
pub open spec fn request_invoke_id(npdu: Seq<u8>) -> u8 {
    let len = parse_npdu_spec(npdu)->Ok_0.1;
    parse_apdu_spec(npdu.subrange(len, npdu.len() as int))->0.invoke_id->0
}

/// Whether `npdu` carries a final response (not a Complex-ACK segment with
/// more to follow) with invoke ID `id`, not a network message and with hops
/// left.
pub open spec fn final_response(npdu: Seq<u8>, id: u8) -> bool {
    npdu.len() >= 2 && match parse_npdu_spec(npdu) {
        Ok((n, len)) => !hops_exhausted(n) && !n.network_message
            && match parse_apdu_spec(npdu.subrange(len, npdu.len() as int)) {
            Some(info) => is_response_type(info.apdu_type) && info.invoke_id == Some(id)
                && !(info.segmented && info.apdu_type == ApduTypeClass::ComplexAck && info.more_follows),
            None => false,
        },
        Err(_) => false,
    }
}

/// A confirmed request from IP client `client` to MS/TP station `d` on this
/// router's MS/TP network, followed by a final response from `d` with the
/// request's invoke ID: the response goes to the client alone, as an
/// Original-Unicast-NPDU naming this router's MS/TP network and `d` as its
/// source, and the transaction table is as it was before the request. The
/// table must have room and hold no transaction under the same invoke ID and
/// station, `d` must not be 0, and the client must be a unicast address (not
/// ending in 255, not multicast).
#[verifier::rlimit(40)]
pub proof fn lemma_request_response_round_trip(
    v: GatewayView,
    request: Seq<u8>,
    client: IpEndpoint,
    now1: u64,
    response: Seq<u8>,
    d: u8,
    now2: u64,
)
    requires
        request.len() >= 4,
        request[0] == 0x81,
        request[1] == BVLC_ORIGINAL_UNICAST,
        request.len() == be16(request[2], request[3]),
        confirmed_request_to(request.subrange(4, request.len() as int), v.mstp_network, d),
        txn_index(v.txns, (request_invoke_id(request.subrange(4, request.len() as int)), d)) is None,
        d > 0,
        v.mstp_network != 0xFFFF,
        v.txns.len() < v.txn_capacity,
        client.ip@[3] != 255,
        !(224 <= client.ip@[0] <= 239),
        final_response(response, request_invoke_id(request.subrange(4, request.len() as int))),
    ensures
        ({
            let (v1, _) = ip_route_spec(v, request, client, now1);
            let (v2, out) = mstp_route_spec(v1, response, d, now2);
            let n2 = parse_npdu_spec(response)->Ok_0.0;
            &&& out == RouteOut::Nothing
            &&& v2.ip_out == v1.ip_out.push(
                (bvlc_spec(routed_npdu_spec(response, v.mstp_network, seq![d], n2, true)->0, false), client),
            )
            &&& v2.txns == v.txns
        }),
{
    let npdu = request.subrange(4, request.len() as int);
    let (n, len) = parse_npdu_spec(npdu)->Ok_0;
    let apdu = npdu.subrange(len, npdu.len() as int);
    let info = parse_apdu_spec(apdu)->0;
    let service = service_of_code(info.service->0)->0;
    let routed = routed_npdu_spec(npdu, v.ip_network, ip_mac(client), n, true)->0;
    let t = new_txn(info.invoke_id->0, client, n.source, v.mstp_network, d, service, false, routed, now1);
    assert(request_dest_mac(v, n) == d);
    let vt = track_request(v, npdu, n, info, client, now1);
    assert(vt == add_txn(v, t));
    assert(ip_npdu_spec(v, npdu, client, now1) == ip_unicast(vt, npdu, n, client, now1));
    assert(ip_route_spec(v, request, client, now1) == ip_npdu_spec(v, npdu, client, now1));
    let v1 = ip_route_spec(v, request, client, now1).0;
    assert(v1.txns == vt.txns);
    assert(v1.txns == v.txns.push(t));
    assert(v1.txn_capacity == v.txn_capacity);
    assert(v1.mstp_network == v.mstp_network);
    let (n2, len2) = parse_npdu_spec(response)->Ok_0;
    let apdu2 = response.subrange(len2, response.len() as int);
    lemma_txn_index_push(v.txns, t, 0);
    let (w, resp) = response_lookup(v1, apdu2, d);
    assert(resp == Some(client));
    assert(w.txns == v1.txns.remove(v.txns.len() as int));
    assert(w.txns =~= v.txns);
    assert(mstp_route_spec(v1, response, d, now2) == mstp_forward(w, response, n2, d, Some(client), now2));
    assert(!broadcast_or_multicast(client.ip@));
}

/// Whether `data` is a whole application NPDU (not a network message) with
/// hops left, addressed to network `net`.
pub open spec fn app_npdu_to_net(data: Seq<u8>, net: u16) -> bool {
    data.len() >= 2 && match parse_npdu_spec(data) {
        Ok((n, len)) => !hops_exhausted(n) && !n.network_message && (match n.destination {
            Some((dnet, _)) => dnet == net,
            None => false,
        }),
        Err(_) => false,
    }
}

/// The APDU of an NPDU that parses.
pub open spec fn apdu_of(data: Seq<u8>) -> Seq<u8> {
    data.subrange(parse_npdu_spec(data)->Ok_0.1, data.len() as int)
}

/// An NPDU from MS/TP that answers no pending transaction and names a device
/// on this router's IP network by a 6-byte DADR goes to that device: the
/// first packet queued for IP is addressed to the endpoint whose octets are
/// DADR[0..4] and whose port is the big-endian DADR[4..6]; unless that
/// address ends in 255 it is an Original-Unicast-NPDU of the routed NPDU
/// (with this router's MS/TP network and the source station as SNET/SADR).
/// Nothing goes back to MS/TP.
pub proof fn lemma_mstp_to_named_ip_device(v: GatewayView, data: Seq<u8>, source: u8, now: u64)
    requires
        app_npdu_to_net(data, v.ip_network),
        (parse_npdu_spec(data)->Ok_0.0.destination->0).1.len() == 6,
        response_lookup(v, apdu_of(data), source).1 is None,
    ensures
        ({
            let (v2, out) = mstp_route_spec(v, data, source, now);
            let n = parse_npdu_spec(data)->Ok_0.0;
            let addr = (n.destination->0).1;
            let k = v.ip_out.len() as int;
            &&& out == RouteOut::Nothing
            &&& v2.ip_out.len() > k
            &&& v2.ip_out[k].1.ip@ == addr.subrange(0, 4)
            &&& v2.ip_out[k].1.port == be16(addr[4], addr[5])
            &&& addr[3] != 255 ==> v2.ip_out[k].0 == bvlc_spec(
                routed_npdu_spec(data, v.mstp_network, seq![source], n, true)->0,
                false,
            )
        }),
{
    let (n, len) = parse_npdu_spec(data)->Ok_0;
    let addr = (n.destination->0).1;
    let apdu = data.subrange(len, data.len() as int);
    assert(response_lookup(v, apdu, source).0 == v);
    let e = mac_endpoint(addr);
    let a = choose|a: [u8; 4]| #[trigger] a@ == addr.subrange(0, 4);
    let w: [u8; 4] = [addr[0], addr[1], addr[2], addr[3]];
    assert(w@ =~= addr.subrange(0, 4));
    assert(e.ip@ == addr.subrange(0, 4));
    assert(mstp_dest(v, n, None) == Ok::<IpEndpoint, Option<u16>>(e));
    assert(mstp_route_spec(v, data, source, now) == mstp_forward(v, data, n, source, None, now));
    let is_bcast = e.ip@[3] == 255;
    let routed = routed_npdu_spec(data, v.mstp_network, seq![source], n, !is_bcast)->0;
    let bvlc = bvlc_spec(routed, is_bcast);
    let v2 = v.send(bvlc, e);
    assert(v2.ip_out[v.ip_out.len() as int] == (bvlc, e));
    let v3 = if broadcast_or_multicast(e.ip@) {
        broadcast_extras(v2, bvlc, routed, now)
    } else {
        v2
    };
    assert(v3.ip_out.len() >= v2.ip_out.len() && v3.ip_out[v.ip_out.len() as int] == (bvlc, e)) by {
        if broadcast_or_multicast(e.ip@) {
            let v_fd = forward_to_fds(v2, bvlc, now);
            assert(v_fd.ip_out[v.ip_out.len() as int] == (bvlc, e));
            if v_fd.bdt.len() > 0 {
                let f = forward_to_bdt(v_fd, forwarded_spec(routed, v2.local_endpoint()));
                assert(f.ip_out[v.ip_out.len() as int] == (bvlc, e));
            }
        }
    }
}

/// A global broadcast application NPDU from IP (DNET 0xFFFF, hops left) that
/// is not a segment of a segmented request is passed to MS/TP address 255
/// as a final-delivery routed NPDU, with this router's IP network and the
/// sender's B/IP address as SNET/SADR: parsed again, it names that source,
/// has no destination and carries the original APDU.
pub proof fn lemma_ip_global_broadcast_to_mstp(v: GatewayView, data: Seq<u8>, src: IpEndpoint, now: u64)
    requires
        data.len() >= 4,
        data[0] == 0x81,
        data[1] == BVLC_ORIGINAL_UNICAST || data[1] == BVLC_ORIGINAL_BROADCAST,
        data.len() == be16(data[2], data[3]),
        app_npdu_to_net(data.subrange(4, data.len() as int), 0xFFFF),
        v.mstp_network != 0xFFFF,
        ({
            let apdu = apdu_of(data.subrange(4, data.len() as int));
            parse_apdu_spec(apdu) matches Some(info) ==> !(info.segmented && info.apdu_type
                == ApduTypeClass::ConfirmedRequest && info.invoke_id is Some && apdu.len() > 6)
        }),
    ensures
        ({
            let npdu = data.subrange(4, data.len() as int);
            let n = parse_npdu_spec(npdu)->Ok_0.0;
            let r = routed_npdu_spec(npdu, v.ip_network, ip_mac(src), n, true)->0;
            &&& ip_route_spec(v, data, src, now).1 == RouteOut::Forward(r, 255)
            &&& parse_npdu_spec(r)->Ok_0.0.source == Some((v.ip_network, ip_mac(src)))
            &&& parse_npdu_spec(r)->Ok_0.0.destination is None
            &&& apdu_of(r) == apdu_of(npdu)
        }),
{
    let npdu = data.subrange(4, data.len() as int);
    let (n, len) = parse_npdu_spec(npdu)->Ok_0;
    assert(ip_route_spec(v, data, src, now) == ip_npdu_spec(v, npdu, src, now));
    let apdu = npdu.subrange(len, npdu.len() as int);
    let vt = match parse_apdu_spec(apdu) {
        Some(info) => track_request(v, npdu, n, info, src, now),
        None => v,
    };
    assert(ip_npdu_spec(v, npdu, src, now) == ip_unicast(vt, npdu, n, src, now));
    assert(vt.ip_network == v.ip_network && vt.mstp_network == v.mstp_network);
    assert(n.priority < 4) by {
        let c = npdu[1];
        assert(c & 0x03u8 < 4) by (bit_vector);
    }
    assert(ip_mac(src).len() == 6);
    crate::npdu::lemma_routed_npdu_parses(npdu, v.ip_network, ip_mac(src), n, true);
}

impl BacnetGateway {
    fn route_segment(&mut self, npdu_data: &[u8], apdu: &[u8], info: &ApduInfo, invoke_id: u8, source_addr: IpEndpoint, now_ms: u64) -> (r: Result<Option<(Vec<u8>, u8)>, GatewayError>)
        requires
            old(self).wf(),
            apdu@.len() > 6,
        ensures
            final(self).wf(),
            (final(self)@, route_out(r)) == segmented_path(old(self)@, npdu_data@, apdu@, *info, invoke_id, source_addr, now_ms),
    {
        let max_apdu_accepted = apdu[1];
        let sequence_number = apdu[3];
        let proposed_window_size = apdu[4];
        let service_choice = apdu[5];
        let payload = copy_range(apdu, 6, apdu.len());
        let first = if sequence_number == 0 {
            let copy = copy_range(npdu_data, 0, npdu_data.len());
            assert(npdu_data@.subrange(0, npdu_data@.len() as int) =~= npdu_data@);
            Some((service_choice, max_apdu_accepted, info.segmented_response_accepted, copy))
        } else {
            None
        };
        match self.process_segmented_request(
            invoke_id,
            sequence_number,
            proposed_window_size,
            payload.as_slice(),
            info.more_follows,
            source_addr,
            first,
            now_ms,
        ) {
            Ok(Some((complete_apdu, original_npdu))) => self.forward_reassembled(
                complete_apdu.as_slice(),
                original_npdu.as_slice(),
                invoke_id,
                source_addr,
                now_ms,
            ),
            Ok(None) => Ok(None),
            Err(e) => Err(e),
        }
    }

    fn route_ip_npdu(&mut self, npdu_data: &[u8], source_addr: IpEndpoint, now_ms: u64) -> (r: Result<Option<(Vec<u8>, u8)>, GatewayError>)
        requires
            old(self).wf(),
        ensures
            final(self).wf(),
            (final(self)@, route_out(r)) == ip_npdu_spec(old(self)@, npdu_data@, source_addr, now_ms),
    {
        if npdu_data.len() < 2 {
            self.stats.routing_errors = self.stats.routing_errors.saturating_add(1);
            return Err(GatewayError::InvalidFrame);
        }
        let (npdu, npdu_len) = match parse_npdu(npdu_data) {
            Ok(x) => x,
            Err(e) => {
                self.stats.routing_errors = self.stats.routing_errors.saturating_add(1);
                return Err(e);
            },
        };
        proof {
            crate::npdu::lemma_parse_npdu_bounds(npdu_data@);
        }
        if let Some(hop_count) = npdu.hop_count {
            if hop_count < MIN_HOP_COUNT {
                self.stats.routing_errors = self.stats.routing_errors.saturating_add(1);
                return Err(GatewayError::HopCountExhausted);
            }
        }
        if npdu.network_message {
            return self.handle_network_message_from_ip(npdu_data, &npdu, source_addr);
        }
        let apdu = copy_range(npdu_data, npdu_len, npdu_data.len());
        match parse_apdu(apdu.as_slice()) {
            Ok(info) => {
                if info.segmented && info.apdu_type == ApduTypeClass::ConfirmedRequest
                    && info.invoke_id.is_some() && apdu.len() > 6 {
                    let invoke_id = match info.invoke_id {
                        Some(i) => i,
                        None => 0,
                    };
                    return self.route_segment(npdu_data, apdu.as_slice(), &info, invoke_id, source_addr, now_ms);
                }
                self.track_confirmed_request(npdu_data, &npdu, &info, source_addr, now_ms);
                self.route_npdu_to_mstp(npdu_data, &npdu, source_addr, now_ms)
            },
            Err(_) => self.route_npdu_to_mstp(npdu_data, &npdu, source_addr, now_ms),
        }
    }

    /// Route a BVLC message received from IP endpoint `source_addr` at
    /// `now_ms`.
    ///
    /// BVLC control messages (foreign device registration and table, BDT
    /// read and write, distribute-broadcast) are handled here and answered on
    /// IP. The NPDU of an Original-Unicast/Broadcast or Forwarded-NPDU is
    /// routed: network layer messages are handled; segmented confirmed
    /// requests are reassembled; confirmed requests are tracked as
    /// transactions; the NPDU goes to MS/TP with this router's IP network and
    /// the sender's B/IP address as SNET/SADR. Returns the NPDU for MS/TP and
    /// its destination MAC address, `Ok(None)` when nothing goes to MS/TP.
    pub fn route_from_ip(&mut self, data: &[u8], source_addr: IpEndpoint, now_ms: u64) -> (r: Result<Option<(Vec<u8>, u8)>, GatewayError>)
        requires
            old(self).wf(),
        ensures
            final(self).wf(),
            (final(self)@, route_out(r)) == ip_route_spec(old(self)@, data@, source_addr, now_ms),
    {
        if data.len() < 4 || data[0] != 0x81 || data.len() != crate::bytes::read_be16(data[2], data[3]) as usize {
            self.stats.routing_errors = self.stats.routing_errors.saturating_add(1);
            return Err(GatewayError::InvalidFrame);
        }
        let bvlc_function = data[1];
        if bvlc_function == BVLC_REGISTER_FOREIGN_DEVICE {
            return self.handle_register_foreign_device(data, source_addr, now_ms);
        }
        if bvlc_function == BVLC_READ_FDT {
            return self.handle_read_fdt(source_addr, now_ms);
        }
        if bvlc_function == BVLC_DELETE_FDT_ENTRY {
            return self.handle_delete_fdt_entry(data, source_addr);
        }
        if bvlc_function == BVLC_READ_BDT {
            return self.handle_read_bdt(source_addr);
        }
        if bvlc_function == BVLC_WRITE_BDT {
            return self.handle_write_bdt(data, source_addr);
        }
        if bvlc_function == BVLC_DISTRIBUTE_BROADCAST {
            return self.handle_distribute_broadcast(data, source_addr);
        }
        if bvlc_function == BVLC_ORIGINAL_UNICAST || bvlc_function == BVLC_ORIGINAL_BROADCAST {
            let npdu_data = copy_range(data, 4, data.len());
            return self.route_ip_npdu(npdu_data.as_slice(), source_addr, now_ms);
        }
        if bvlc_function == BVLC_FORWARDED_NPDU {
            if data.len() < 10 {
                self.stats.routing_errors = self.stats.routing_errors.saturating_add(1);
                return Err(GatewayError::InvalidFrame);
            }
            let npdu_data = copy_range(data, 10, data.len());
            return self.route_ip_npdu(npdu_data.as_slice(), source_addr, now_ms);
        }
        Ok(None)
    }
}


/// An Abort from this router (as server) for `invoke_id`, reason Other, in a
/// local NPDU and an Original-Unicast-NPDU.
pub open spec fn abort_packet(invoke_id: u8) -> Seq<u8> {
    bvlc_spec(local_npdu_spec(abort_apdu_spec(invoke_id, 0)), false)
}

/// The view with `t` retried at `now` and stored under its key.
pub open spec fn retry_txn(v: GatewayView, t: PendingTransaction, now: u64) -> GatewayView {
    let r = retried(t, now)@;
    let txns = match txn_index(v.txns, (t.invoke_id, t.dest_mac)) {
        Some(i) => v.txns.update(i, r),
        None => v.txns.push(r),
    };
    GatewayView {
        txns,
        txn_stats: TransactionStats {
            total_retries: v.txn_stats.total_retries.saturating_add(1),
            active_count: txns.len() as usize,
            ..v.txn_stats
        },
        ..v
    }
}

/// Handle one timed-out transaction: retransmit its NPDU on MS/TP and keep it
/// with a retry counted while retries remain; otherwise count the timeout and
/// abort the request towards its IP client.
pub open spec fn timeout_step(v: GatewayView, t: PendingTransaction, now: u64) -> GatewayView {
    if t.retries < t.max_retries {
        retry_txn(
            GatewayView { mstp_out: v.mstp_out.push((t.original_npdu@, t.dest_mac)), ..v },
            t,
            now,
        )
    } else {
        GatewayView {
            stats: GatewayStats {
                transaction_timeouts: v.stats.transaction_timeouts.saturating_add(1),
                ..v.stats
            },
            ..v
        }.send(abort_packet(t.invoke_id), t.source_addr)
    }
}

/// Handle timed-out transactions `l` in order.
pub open spec fn timeouts_fold(v: GatewayView, l: Seq<PendingTransaction>, now: u64) -> GatewayView
    decreases l.len(),
{
    if l.len() == 0 {
        v
    } else {
        timeout_step(timeouts_fold(v, l.drop_last(), now), l.last(), now)
    }
}

/// The view after taking the transactions that timed out at `now` out of
/// the table.
pub open spec fn after_timeout_check(v: GatewayView, entries: Seq<PendingTransaction>, now: u64) -> GatewayView {
    let live = live_of(entries, now);
    GatewayView {
        txns: live.map_values(|t: PendingTransaction| t@),
        txn_stats: TransactionStats {
            total_timed_out: v.txn_stats.total_timed_out.saturating_add(
                timed_out_of(entries, now).len() as u64,
            ),
            active_count: live.len() as usize,
            ..v.txn_stats
        },
        ..v
    }
}

/// Segment transmissions other than those of `invoke_id` up to sequence
/// `seq_num` (which a positive SegmentAck acknowledges).
pub open spec fn unacked_segments(s: Seq<SegTxView>, invoke_id: u8, seq_num: u8) -> Seq<SegTxView>
    decreases s.len(),
{
    if s.len() == 0 {
        s
    } else if s.last().invoke_id == invoke_id && s.last().sequence_number <= seq_num {
        unacked_segments(s.drop_last(), invoke_id, seq_num)
    } else {
        unacked_segments(s.drop_last(), invoke_id, seq_num).push(s.last())
    }
}

/// Index of the transmission of segment (`invoke_id`, `seq_num`) at or after `i`.
pub open spec fn seg_index(s: Seq<SegTxView>, invoke_id: u8, seq_num: u8, i: int) -> Option<int>
    decreases s.len() - i,
{
    if i < 0 || i >= s.len() {
        None
    } else if s[i].invoke_id == invoke_id && s[i].sequence_number == seq_num {
        Some(i)
    } else {
        seg_index(s, invoke_id, seq_num, i + 1)
    }
}

/// Check transmissions `s` for acknowledgement timeouts at `now`: a segment
/// unacknowledged for longer than the timeout is retransmitted (retry
/// counted, timer restarted) until its retries are used up, then dropped.
/// Gives the kept transmissions and the retransmissions, in order.
pub open spec fn segment_timeouts(s: Seq<SegTxView>, now: u64) -> (Seq<SegTxView>, Seq<(Seq<u8>, IpEndpoint)>)
    decreases s.len(),
{
    if s.len() == 0 {
        (s, Seq::empty())
    } else {
        let (kept, sent) = segment_timeouts(s.drop_last(), now);
        let t = s.last();
        if !t.acked && elapsed(now, t.sent_at_ms) > SEGMENT_TIMEOUT_MS {
            if t.retry_count >= SEGMENT_MAX_RETRIES {
                (kept, sent)
            } else {
                (
                    kept.push(SegTxView { retry_count: (t.retry_count + 1) as u8, sent_at_ms: now, ..t }),
                    sent.push((t.segment_data, t.dest_addr)),
                )
            }
        } else {
            (kept.push(t), sent)
        }
    }
}

impl BacnetGateway {
    /// Retransmit timed-out requests that have retries left (queued for
    /// MS/TP, kept with a retry counted) and abort the others towards their
    /// IP clients; returns how many timed out at `now_ms`.
    pub fn process_transaction_timeouts(&mut self, now_ms: u64) -> (r: usize)
        requires
            old(self).wf(),
        ensures
            final(self).wf(),
            r == timed_out_of(old(self).txn_entries(), now_ms).len(),
            final(self)@ == timeouts_fold(
                after_timeout_check(old(self)@, old(self).txn_entries(), now_ms),
                timed_out_of(old(self).txn_entries(), now_ms),
                now_ms,
            ),
    {
        let ghost entries = self.transactions.entries();
        let mut timed_out = self.transactions.check_timeouts_at(now_ms);
        let count = timed_out.len();
        let ghost all = timed_out@;
        let ghost start = self@;
        assert(start == after_timeout_check(old(self)@, entries, now_ms)) by {
            assert(start.txns =~= live_of(entries, now_ms).map_values(|t: PendingTransaction| t@));
        }
        let ghost mut k: int = 0;
        while timed_out.len() > 0
            invariant
                self.wf(),
                0 <= k <= all.len(),
                timed_out@ == all.skip(k as int),
                self@ == timeouts_fold(start, all.take(k as int), now_ms),
            decreases timed_out@.len(),
        {
            let tx = timed_out.remove(0);
            proof {
                assert(all.take(k as int + 1).drop_last() =~= all.take(k as int));
                assert(all.take(k as int + 1).last() == all[k as int]);
                assert(tx == all[k as int]);
            }
            self.handle_timed_out(tx, now_ms);
            proof {
                k = k + 1;
            }
            assert(timed_out@ =~= all.skip(k as int));
        }
        assert(all.take(k as int) =~= all);
        count
    }

    fn handle_timed_out(&mut self, tx: PendingTransaction, now_ms: u64)
        requires
            old(self).wf(),
        ensures
            final(self).wf(),
            final(self)@ == timeout_step(old(self)@, tx, now_ms),
    {
        if tx.retries < tx.max_retries {
            let npdu = copy_range(tx.original_npdu.as_slice(), 0, tx.original_npdu.len());
            assert(tx.original_npdu@.subrange(0, tx.original_npdu@.len() as int) =~= tx.original_npdu@);
            self.queue_mstp_retransmit(npdu, tx.dest_mac);
            let ghost v1 = self@;
            proof {
                lemma_table_keys_unique(&self.transactions);
                lemma_txn_index_views(self.transactions.entries(), key_of(tx), 0);
                lemma_key_index(self.transactions.entries(), key_of(tx), 0);
            }
            let ghost t = tx;
            let _ = self.transactions.retry_at(tx, now_ms);
            proof {
                let e = v1.txns;
                match txn_index(e, (t.invoke_id, t.dest_mac)) {
                    Some(i) => {
                        let j = choose|j: int|
                            0 <= j < old(self).transactions.entries().len() && key_of(
                                old(self).transactions.entries()[j],
                            ) == key_of(t) && self.transactions.entries()
                                == old(self).transactions.entries().update(j, retried(t, now_ms));
                        assert(self@.txns =~= e.update(i, retried(t, now_ms)@));
                    },
                    None => {
                        assert(self@.txns =~= e.push(retried(t, now_ms)@));
                    },
                }
            }
        } else {
            self.stats.transaction_timeouts = self.stats.transaction_timeouts.saturating_add(1);
            self.send_abort_to_client(&tx);
        }
    }

    /// Queue an NPDU for retransmission on MS/TP.
    fn queue_mstp_retransmit(&mut self, npdu: Vec<u8>, dest_mac: u8)
        requires
            old(self).wf(),
        ensures
            final(self).wf(),
            final(self)@ == (GatewayView { mstp_out: old(self)@.mstp_out.push((npdu@, dest_mac)), ..old(self)@ }),
    {
        self.mstp_send_queue.push((npdu, dest_mac));
        assert(self@.mstp_out =~= old(self)@.mstp_out.push((npdu@, dest_mac)));
    }

    /// Send an Abort (reason Other) for a timed-out transaction to its client.
    fn send_abort_to_client(&mut self, tx: &PendingTransaction)
        requires
            old(self).wf(),
        ensures
            final(self).wf(),
            final(self)@ == old(self)@.send(abort_packet(tx.invoke_id), tx.source_addr),
    {
        let apdu = encode_abort(tx.invoke_id, 0);
        let npdu = local_npdu(apdu.as_slice());
        let bvlc = build_bvlc(npdu.as_slice(), false);
        self.send_ip_packet(bvlc, tx.source_addr);
    }

    /// Statistics of the transaction table.
    pub fn get_transaction_stats(&self) -> (r: &TransactionStats)
        ensures
            *r == self@.txn_stats,
    {
        self.transactions.stats()
    }

    /// Number of pending transactions.
    pub fn active_transaction_count(&self) -> (r: usize)
        ensures
            r == self@.txns.len(),
    {
        self.transactions.len()
    }

    /// Number of segmented requests being reassembled.
    pub fn active_reassemblies(&self) -> (r: usize)
        requires
            self.wf(),
        ensures
            r == crate::segmentation::count_active(self@.reassembly),
    {
        self.segmentation.active_reassemblies()
    }

    /// Drop reassemblies that timed out and segmented-request headers stored
    /// more than a minute before `now_ms`.
    pub fn cleanup_segment_buffers(&mut self, now_ms: u64)
        requires
            old(self).wf(),
        ensures
            final(self).wf(),
            final(self)@.reassembly.len() == old(self)@.reassembly.len(),
            forall|i: int|
                0 <= i < old(self)@.reassembly.len() ==> #[trigger] final(self)@.reassembly[i] == match old(self)@.reassembly[i] {
                    Some(b) => if crate::segmentation::reassembly_expired(b.2, now_ms) {
                        None
                    } else {
                        Some(b)
                    },
                    None => None,
                },
            final(self)@.seg_info.len() == old(self)@.seg_info.len(),
            forall|i: int|
                0 <= i < old(self)@.seg_info.len() ==> #[trigger] final(self)@.seg_info[i] == match old(self)@.seg_info[i] {
                    Some(x) => if elapsed(now_ms, x.created_at_ms) < SEGMENT_INFO_TIMEOUT_MS {
                        Some(x)
                    } else {
                        None
                    },
                    None => None,
                },
            final(self)@ == (GatewayView {
                reassembly: final(self)@.reassembly,
                seg_info: final(self)@.seg_info,
                ..old(self)@
            }),
    {
        self.segmentation.cleanup_timed_out_buffers(now_ms);
        let ghost mid = self@;
        let ghost old_info = self@.seg_info;
        let mut i: usize = 0;
        while i < self.segmented_request_info.len()
            invariant
                self.wf(),
                i <= 256,
                self@ == (GatewayView { seg_info: self@.seg_info, ..mid }),
                self@.seg_info.len() == old_info.len(),
                forall|j: int|
                    0 <= j < i ==> #[trigger] self@.seg_info[j] == match old_info[j] {
                        Some(x) => if elapsed(now_ms, x.created_at_ms) < SEGMENT_INFO_TIMEOUT_MS {
                            Some(x)
                        } else {
                            None
                        },
                        None => None,
                    },
                forall|j: int| i <= j < 256 ==> #[trigger] self@.seg_info[j] == old_info[j],
            decreases 256 - i,
        {
            let stale = match &self.segmented_request_info[i] {
                Some(x) => (if now_ms >= x.created_at_ms {
                    now_ms - x.created_at_ms
                } else {
                    0
                }) >= SEGMENT_INFO_TIMEOUT_MS,
                None => false,
            };
            let ghost before = self@.seg_info;
            assert(before[i as int] == seg_info_view(self.segmented_request_info@[i as int]));
            if stale {
                self.segmented_request_info.set(i, None);
                assert(self@.seg_info =~= before.update(i as int, None));
            }
            i = i + 1;
        }
    }
}


impl BacnetGateway {
    /// Track a transmitted segment for retransmission (replacing an earlier
    /// transmission of the same segment).
    #[verifier::loop_isolation(false)]
    pub fn track_segment_transmission(&mut self, invoke_id: u8, sequence_number: u8, segment_data: Vec<u8>, dest_addr: IpEndpoint, now_ms: u64)
        requires
            old(self).wf(),
        ensures
            final(self).wf(),
            ({
                let t = SegTxView {
                    invoke_id,
                    sequence_number,
                    segment_data: segment_data@,
                    dest_addr,
                    sent_at_ms: now_ms,
                    retry_count: 0,
                    acked: false,
                };
                final(self)@ == (GatewayView {
                    seg_tx: match seg_index(old(self)@.seg_tx, invoke_id, sequence_number, 0) {
                        Some(i) => old(self)@.seg_tx.update(i, t),
                        None => old(self)@.seg_tx.push(t),
                    },
                    ..old(self)@
                })
            }),
    {
        let ghost data = segment_data@;
        let entry = SegmentTransmission {
            invoke_id,
            sequence_number,
            segment_data,
            dest_addr,
            sent_at_ms: now_ms,
            retry_count: 0,
            acked: false,
        };
        let ghost st = self@.seg_tx;
        let mut i: usize = 0;
        while i < self.segment_transmissions.len()
            invariant
                self@ == old(self)@,
                st == self@.seg_tx,
                self.wf(),
                i <= st.len(),
                seg_index(st, invoke_id, sequence_number, 0) == seg_index(st, invoke_id, sequence_number, i as int),
            decreases st.len() - i,
        {
            assert(st[i as int] == seg_tx_view(self.segment_transmissions@[i as int]));
            if self.segment_transmissions[i].invoke_id == invoke_id
                && self.segment_transmissions[i].sequence_number == sequence_number {
                self.segment_transmissions.set(i, entry);
                assert(self@.seg_tx =~= st.update(i as int, seg_tx_view(entry)));
                return ;
            }
            i = i + 1;
        }
        self.segment_transmissions.push(entry);
        assert(self@.seg_tx =~= st.push(seg_tx_view(entry)));
    }

    /// Take a SegmentAck for segment `sequence_number` of `invoke_id`: a
    /// negative one counts a retry on that segment (restarting its timer for
    /// retransmission); a positive one drops the segments of that invoke ID up
    /// to that sequence number.
    pub fn handle_segment_ack(&mut self, invoke_id: u8, sequence_number: u8, negative: bool, now_ms: u64)
        requires
            old(self).wf(),
        ensures
            final(self).wf(),
            negative ==> final(self)@ == (GatewayView {
                seg_tx: match seg_index(old(self)@.seg_tx, invoke_id, sequence_number, 0) {
                    Some(i) => old(self)@.seg_tx.update(
                        i,
                        SegTxView {
                            retry_count: old(self)@.seg_tx[i].retry_count.saturating_add(1),
                            sent_at_ms: now_ms,
                            ..old(self)@.seg_tx[i]
                        },
                    ),
                    None => old(self)@.seg_tx,
                },
                ..old(self)@
            }),
            !negative ==> final(self)@ == (GatewayView {
                seg_tx: unacked_segments(old(self)@.seg_tx, invoke_id, sequence_number),
                ..old(self)@
            }),
    {
        let ghost st = self@.seg_tx;
        if negative {
            let mut i: usize = 0;
            while i < self.segment_transmissions.len()
                invariant
                    negative,
                    self@ == old(self)@,
                    st == self@.seg_tx,
                    self.wf(),
                    i <= st.len(),
                    seg_index(st, invoke_id, sequence_number, 0) == seg_index(st, invoke_id, sequence_number, i as int),
                decreases st.len() - i,
            {
                assert(st[i as int] == seg_tx_view(self.segment_transmissions@[i as int]));
                if self.segment_transmissions[i].invoke_id == invoke_id
                    && self.segment_transmissions[i].sequence_number == sequence_number {
                    let mut seg = self.segment_transmissions.remove(i);
                    seg.retry_count = seg.retry_count.saturating_add(1);
                    seg.sent_at_ms = now_ms;
                    let ghost sv = seg_tx_view(seg);
                    self.segment_transmissions.insert(i, seg);
                    assert(self@.seg_tx =~= st.update(i as int, sv));
                    return ;
                }
                i = i + 1;
            }
        } else {
            let mut old_list: Vec<SegmentTransmission> = Vec::new();
            std::mem::swap(&mut old_list, &mut self.segment_transmissions);
            let ghost all = old_list@;
            assert(self@.seg_tx =~= Seq::empty());
            let ghost base = self@;
            let ghost mut k: int = 0;
            while old_list.len() > 0
                invariant
                    !negative,
                    self.wf(),
                    self@ == (GatewayView { seg_tx: self@.seg_tx, ..base }),
                    base == (GatewayView { seg_tx: Seq::empty(), ..old(self)@ }),
                    st == all.map_values(|t: SegmentTransmission| seg_tx_view(t)),
                    0 <= k <= all.len(),
                    old_list@ == all.skip(k as int),
                    self@.seg_tx == unacked_segments(st.take(k as int), invoke_id, sequence_number),
                decreases old_list@.len(),
            {
                let seg = old_list.remove(0);
                assert(st.take(k as int + 1).drop_last() =~= st.take(k as int));
                assert(seg == all[k as int]);
                let ghost sv = seg_tx_view(seg);
                let acked = seg.invoke_id == invoke_id && seg.sequence_number <= sequence_number;
                if !acked {
                    let ghost before = self@.seg_tx;
                    self.segment_transmissions.push(seg);
                    assert(self@.seg_tx =~= before.push(sv));
                }
                proof {
                    k = k + 1;
                }
                assert(old_list@ =~= all.skip(k as int));
            }
            assert(st.take(k as int) =~= st);
        }
    }

    /// Retransmit segments whose acknowledgement is overdue at `now_ms` and
    /// drop those that used up their retries.
    pub fn check_segment_timeouts(&mut self, now_ms: u64) -> (r: Result<(), GatewayError>)
        requires
            old(self).wf(),
        ensures
            final(self).wf(),
            r is Ok,
            final(self)@ == (GatewayView {
                seg_tx: segment_timeouts(old(self)@.seg_tx, now_ms).0,
                ip_out: old(self)@.ip_out + segment_timeouts(old(self)@.seg_tx, now_ms).1,
                ..old(self)@
            }),
    {
        let ghost st = self@.seg_tx;
        let mut old_list: Vec<SegmentTransmission> = Vec::new();
        std::mem::swap(&mut old_list, &mut self.segment_transmissions);
        let ghost all = old_list@;
        assert(self@.seg_tx =~= Seq::empty());
        let ghost base = self@;
        let ghost mut k: int = 0;
        while old_list.len() > 0
            invariant
                self.wf(),
                self@ == (GatewayView { seg_tx: self@.seg_tx, ip_out: self@.ip_out, ..base }),
                base == (GatewayView { seg_tx: Seq::empty(), ..old(self)@ }),
                st == all.map_values(|t: SegmentTransmission| seg_tx_view(t)),
                0 <= k <= all.len(),
                old_list@ == all.skip(k as int),
                self@.seg_tx == segment_timeouts(st.take(k as int), now_ms).0,
                self@.ip_out == old(self)@.ip_out + segment_timeouts(st.take(k as int), now_ms).1,
            decreases old_list@.len(),
        {
            let mut seg = old_list.remove(0);
            assert(st.take(k as int + 1).drop_last() =~= st.take(k as int));
            assert(seg == all[k as int]);
            let overdue = !seg.acked && (if now_ms >= seg.sent_at_ms {
                now_ms - seg.sent_at_ms
            } else {
                0
            }) > SEGMENT_TIMEOUT_MS;
            if overdue {
                if seg.retry_count < SEGMENT_MAX_RETRIES {
                    let data = copy_range(seg.segment_data.as_slice(), 0, seg.segment_data.len());
                    assert(seg.segment_data@.subrange(0, seg.segment_data@.len() as int) =~= seg.segment_data@);
                    let dest = seg.dest_addr;
                    seg.retry_count = seg.retry_count + 1;
                    seg.sent_at_ms = now_ms;
                    let ghost sv = seg_tx_view(seg);
                    let ghost before = self@.seg_tx;
                    self.segment_transmissions.push(seg);
                    assert(self@.seg_tx =~= before.push(sv));
                    self.send_ip_packet(data, dest);
                }
            } else {
                let ghost sv = seg_tx_view(seg);
                let ghost before = self@.seg_tx;
                self.segment_transmissions.push(seg);
                assert(self@.seg_tx =~= before.push(sv));
            }
            proof {
                k = k + 1;
            }
            assert(old_list@ =~= all.skip(k as int));
        }
        assert(st.take(k as int) =~= st);
        Ok(())
    }
}


/// Routing table `t` with the entries `s` inserted in order.
pub open spec fn routes_inserted(t: Seq<(u16, u8, Seq<u8>)>, s: Seq<(u16, u8, Seq<u8>)>) -> Seq<(u16, u8, Seq<u8>)>
    decreases s.len(),
{
    if s.len() == 0 {
        t
    } else {
        route_upsert(routes_inserted(t, s.drop_last()), s.last())
    }
}

/// "N.Ts ago" for `ms` milliseconds, rounded to tenths of a second.
pub open spec fn ago_text(ms: u64) -> Seq<char> {
    let tenths = (ms as nat + 50) / 100;
    decimal(tenths / 10) + "."@ + decimal(tenths % 10) + "s ago"@
}

/// When a network was last active, as text.
pub open spec fn activity_text(last: Option<u64>, now: u64) -> Seq<char> {
    match last {
        Some(t) => ago_text(elapsed(now, t)),
        None => "never"@,
    }
}

pub open spec fn up_down(b: bool) -> Seq<char> {
    if b {
        "UP"@
    } else {
        "DOWN"@
    }
}

/// The statistics summary of router `v` at `now`.
pub open spec fn summary_spec(v: GatewayView, now: u64) -> Seq<char> {
    let st = v.stats;
    "Gateway Stats:\n  MS/TP->IP: "@ + decimal(st.mstp_to_ip_packets as nat) + " pkts ("@ + decimal(
        st.mstp_to_ip_bytes as nat,
    ) + " bytes), last: "@ + activity_text(st.last_mstp_activity, now) + ", status: "@ + up_down(
        st.mstp_network_up,
    ) + "\n  IP->MS/TP: "@ + decimal(st.ip_to_mstp_packets as nat) + " pkts ("@ + decimal(
        st.ip_to_mstp_bytes as nat,
    ) + " bytes), last: "@ + activity_text(st.last_ip_activity, now) + ", status: "@ + up_down(
        st.ip_network_up,
    ) + "\n  Errors: "@ + decimal(st.routing_errors as nat) + " routing, "@ + decimal(
        st.transaction_timeouts as nat,
    ) + " timeouts\n  Active transactions: "@ + decimal(v.txns.len()) + ", Foreign devices: "@
        + decimal(v.fdt.len())
}

fn push_activity(out: &mut Vec<char>, last: Option<u64>, now_ms: u64)
    ensures
        final(out)@ == old(out)@ + activity_text(last, now_ms),
{
    match last {
        Some(t) => {
            let e = if now_ms >= t {
                now_ms - t
            } else {
                0
            };
            let tenths: u64 = e / 100 + (if e % 100 >= 50 { 1 } else { 0 });
            assert(tenths == (e as nat + 50) / 100);
            push_decimal(out, tenths / 10);
            push_str(out, ".");
            push_decimal(out, tenths % 10);
            push_str(out, "s ago");
        },
        None => push_str(out, "never"),
    }
}

fn push_up_down(out: &mut Vec<char>, b: bool)
    ensures
        final(out)@ == old(out)@ + up_down(b),
{
    if b {
        push_str(out, "UP");
    } else {
        push_str(out, "DOWN");
    }
}

impl BacnetGateway {
    /// Take over stored tables: a non-empty stored BDT replaces the BDT
    /// (masks given as 32-bit values), a non-empty stored routing table
    /// replaces the routing table.
    pub fn load_tables(&mut self, bdt: &[BdtEntryConfig], routing: &[RoutingTableEntryConfig])
        requires
            old(self).wf(),
            bdt@.len() <= MAX_BDT_ENTRIES,
        ensures
            final(self).wf(),
            bdt@.len() > 0 ==> final(self)@.bdt.len() == bdt@.len() && forall|i: int|
                0 <= i < bdt@.len() ==> (#[trigger] final(self)@.bdt[i]).address == bdt@[i].address
                    && final(self)@.bdt[i].mask@ == be32_bytes(bdt@[i].broadcast_mask),
            bdt@.len() == 0 ==> final(self)@.bdt == old(self)@.bdt,
            routing@.len() > 0 ==> final(self)@.routing_table == routes_inserted(
                Seq::empty(),
                routing@.map_values(|e: RoutingTableEntryConfig| rt_config_view(e)),
            ),
            routing@.len() == 0 ==> final(self)@.routing_table == old(self)@.routing_table,
            final(self)@ == (GatewayView {
                bdt: final(self)@.bdt,
                routing_table: final(self)@.routing_table,
                ..old(self)@
            }),
    {
        if bdt.len() > 0 {
            let mut v: Vec<BdtEntry> = Vec::new();
            let mut i: usize = 0;
            while i < bdt.len()
                invariant
                    i <= bdt@.len(),
                    v@.len() == i,
                    forall|k: int|
                        0 <= k < i ==> (#[trigger] v@[k]).address == bdt@[k].address && v@[k].mask@
                            == be32_bytes(bdt@[k].broadcast_mask),
                decreases bdt@.len() - i,
            {
                let e = bdt[i];
                v.push(BdtEntry { address: e.address, mask: crate::router_msgs::u32_to_ipv4(e.broadcast_mask) });
                i = i + 1;
            }
            self.broadcast_distribution_table = v;
        }
        if routing.len() > 0 {
            self.routing_table.clear();
            let ghost views = routing@.map_values(|e: RoutingTableEntryConfig| rt_config_view(e));
            assert(self@.routing_table =~= Seq::<(u16, u8, Seq<u8>)>::empty());
            let ghost base = self@;
            let mut i: usize = 0;
            while i < routing.len()
                invariant
                    self.wf(),
                    i <= routing@.len(),
                    views == routing@.map_values(|e: RoutingTableEntryConfig| rt_config_view(e)),
                    self@ == (GatewayView { routing_table: self@.routing_table, ..base }),
                    self@.routing_table == routes_inserted(Seq::empty(), views.take(i as int)),
                decreases routing@.len() - i,
            {
                let e = &routing[i];
                let info = copy_range(e.port_info.as_slice(), 0, e.port_info.len());
                assert(e.port_info@.subrange(0, e.port_info@.len() as int) =~= e.port_info@);
                assert(views[i as int] == rt_config_view(*e));
                assert(views.take(i as int + 1).drop_last() =~= views.take(i as int));
                self.routing_insert(e.network, e.port_id, info);
                i = i + 1;
            }
            assert(views.take(i as int) =~= views);
        }
    }

    /// The BDT in its stored form (masks as 32-bit values).
    pub fn bdt_config_entries(&self) -> (r: Vec<BdtEntryConfig>)
        ensures
            r@.len() == self@.bdt.len(),
            forall|i: int|
                0 <= i < r@.len() ==> (#[trigger] r@[i]).address == self@.bdt[i].address && r@[i].broadcast_mask
                    == be32(self@.bdt[i].mask[0], self@.bdt[i].mask[1], self@.bdt[i].mask[2], self@.bdt[i].mask[3]),
    {
        let mut v: Vec<BdtEntryConfig> = Vec::new();
        let mut i: usize = 0;
        while i < self.broadcast_distribution_table.len()
            invariant
                i <= self@.bdt.len(),
                v@.len() == i,
                forall|k: int|
                    0 <= k < i ==> (#[trigger] v@[k]).address == self@.bdt[k].address && v@[k].broadcast_mask
                        == be32(self@.bdt[k].mask[0], self@.bdt[k].mask[1], self@.bdt[k].mask[2], self@.bdt[k].mask[3]),
            decreases self@.bdt.len() - i,
        {
            let e = self.broadcast_distribution_table[i];
            v.push(BdtEntryConfig { address: e.address, broadcast_mask: crate::router_msgs::ipv4_to_u32(e.mask) });
            i = i + 1;
        }
        v
    }

    /// The routing table in its stored form.
    pub fn routing_config_entries(&self) -> (r: Vec<RoutingTableEntryConfig>)
        ensures
            r@.map_values(|e: RoutingTableEntryConfig| rt_config_view(e)) == self@.routing_table,
    {
        let entries = self.get_routing_table_entries();
        let mut v: Vec<RoutingTableEntryConfig> = Vec::new();
        let mut rest = entries;
        let ghost all = rest@;
        let ghost mut k: int = 0;
        while rest.len() > 0
            invariant
                0 <= k <= all.len(),
                rest@ == all.skip(k),
                all.map_values(|e: (u16, u8, Vec<u8>)| (e.0, e.1, e.2@)) == self@.routing_table,
                v@.map_values(|e: RoutingTableEntryConfig| rt_config_view(e)) == self@.routing_table.take(k),
            decreases rest@.len(),
        {
            let (network, port_id, port_info) = rest.remove(0);
            let ghost prev = v@.map_values(|e: RoutingTableEntryConfig| rt_config_view(e));
            let ghost ev = (network, port_id, port_info@);
            assert(all[k] == (network, port_id, port_info));
            v.push(RoutingTableEntryConfig { network, port_id, port_info });
            assert(v@.map_values(|e: RoutingTableEntryConfig| rt_config_view(e)) =~= prev.push(ev));
            assert(self@.routing_table[k] == ev);
            proof {
                k = k + 1;
            }
            assert(self@.routing_table.take(k) =~= prev.push(ev));
            assert(rest@ =~= all.skip(k));
        }
        assert(self@.routing_table.take(k) =~= self@.routing_table);
        v
    }

    /// Whether the BDT and the routing table changed since last asked; the
    /// marks are cleared.
    pub fn take_table_changes(&mut self) -> (r: (bool, bool))
        requires
            old(self).wf(),
        ensures
            final(self).wf(),
            r == (old(self)@.bdt_changed, old(self)@.routing_table_changed),
            final(self)@ == (GatewayView { bdt_changed: false, routing_table_changed: false, ..old(self)@ }),
    {
        let r = (self.bdt_changed, self.routing_table_changed);
        self.bdt_changed = false;
        self.routing_table_changed = false;
        r
    }

    /// A statistics summary for the log at `now_ms`.
    pub fn get_stats_summary(&self, now_ms: u64) -> (r: String)
        ensures
            r@ == summary_spec(self@, now_ms),
    {
        let st = &self.stats;
        let mut v: Vec<char> = Vec::new();
        push_str(&mut v, "Gateway Stats:\n  MS/TP->IP: ");
        push_decimal(&mut v, st.mstp_to_ip_packets);
        push_str(&mut v, " pkts (");
        push_decimal(&mut v, st.mstp_to_ip_bytes);
        push_str(&mut v, " bytes), last: ");
        push_activity(&mut v, st.last_mstp_activity, now_ms);
        push_str(&mut v, ", status: ");
        push_up_down(&mut v, st.mstp_network_up);
        push_str(&mut v, "\n  IP->MS/TP: ");
        push_decimal(&mut v, st.ip_to_mstp_packets);
        push_str(&mut v, " pkts (");
        push_decimal(&mut v, st.ip_to_mstp_bytes);
        push_str(&mut v, " bytes), last: ");
        push_activity(&mut v, st.last_ip_activity, now_ms);
        push_str(&mut v, ", status: ");
        push_up_down(&mut v, st.ip_network_up);
        push_str(&mut v, "\n  Errors: ");
        push_decimal(&mut v, st.routing_errors);
        push_str(&mut v, " routing, ");
        push_decimal(&mut v, st.transaction_timeouts);
        push_str(&mut v, " timeouts\n  Active transactions: ");
        push_decimal(&mut v, self.transactions.len() as u64);
        push_str(&mut v, ", Foreign devices: ");
        push_decimal(&mut v, self.foreign_device_table.len() as u64);
        assert(v@ =~= summary_spec(self@, now_ms));
        string_from_chars(&v)
    }
}

} // verus!
