//! BACnet/IP data link (ASHRAE 135 Annex J): BVLC headers, broadcast
//! configuration and the choice of broadcast destinations, foreign device
//! and broadcast distribution tables, and the handling of received BVLC
//! messages. Sending and receiving on the UDP socket is left to the caller.
use vstd::prelude::*;
use crate::bytes::{be16, hi8, lo8, IpEndpoint};
use crate::mstp_driver::elapsed;
use crate::router_msgs::broadcast_octets;
use crate::text::{copy_range, extend_bytes};

verus! {

/// Standard BACnet/IP UDP port.
pub const BACNET_IP_PORT: u16 = 47808;

/// Data link errors.
#[derive(Debug)]
pub enum DataLinkError {
    InvalidFrame,
    UnsupportedType,
    AddressError(String),
    IoError(String),
}

/// Broadcast configuration.
#[derive(Debug, Clone)]
pub struct BroadcastConfig {
    /// Subnet mask for the local broadcast address; detected when absent.
    pub subnet_mask: Option<[u8; 4]>,
    /// Send broadcasts to 255.255.255.255.
    pub use_global_broadcast: bool,
    /// Send broadcasts to the local subnet broadcast address.
    pub use_local_broadcast: bool,
    /// Further broadcast addresses.
    pub additional_broadcasts: Vec<[u8; 4]>,
}

/// View of a broadcast configuration.
pub struct BroadcastConfigView {
    pub subnet_mask: Option<[u8; 4]>,
    pub use_global_broadcast: bool,
    pub use_local_broadcast: bool,
    pub additional_broadcasts: Seq<[u8; 4]>,
}

impl View for BroadcastConfig {
    type V = BroadcastConfigView;

    open spec fn view(&self) -> BroadcastConfigView {
        BroadcastConfigView {
            subnet_mask: self.subnet_mask,
            use_global_broadcast: self.use_global_broadcast,
            use_local_broadcast: self.use_local_broadcast,
            additional_broadcasts: self.additional_broadcasts@,
        }
    }
}

impl Default for BroadcastConfig {
    /// Detect the subnet mask; send to both global and local broadcast.
    fn default() -> (r: BroadcastConfig)
        ensures
            r@ == (BroadcastConfigView {
                subnet_mask: None,
                use_global_broadcast: true,
                use_local_broadcast: true,
                additional_broadcasts: Seq::empty(),
            }),
    {
        let r = BroadcastConfig {
            subnet_mask: None,
            use_global_broadcast: true,
            use_local_broadcast: true,
            additional_broadcasts: Vec::new(),
        };
        assert(r@.additional_broadcasts =~= Seq::empty());
        r
    }
}

impl BroadcastConfig {
    /// A configuration with the given subnet mask, sending to both global and
    /// local broadcast.
    pub fn with_subnet_mask(mask: [u8; 4]) -> (r: BroadcastConfig)
        ensures
            r@ == (BroadcastConfigView {
                subnet_mask: Some(mask),
                use_global_broadcast: true,
                use_local_broadcast: true,
                additional_broadcasts: Seq::empty(),
            }),
    {
        let r = BroadcastConfig {
            subnet_mask: Some(mask),
            use_global_broadcast: true,
            use_local_broadcast: true,
            additional_broadcasts: Vec::new(),
        };
        assert(r@.additional_broadcasts =~= Seq::empty());
        r
    }

    /// Only the global broadcast.
    pub fn global_only() -> (r: BroadcastConfig)
        ensures
            r@ == (BroadcastConfigView {
                subnet_mask: None,
                use_global_broadcast: true,
                use_local_broadcast: false,
                additional_broadcasts: Seq::empty(),
            }),
    {
        let r = BroadcastConfig {
            subnet_mask: None,
            use_global_broadcast: true,
            use_local_broadcast: false,
            additional_broadcasts: Vec::new(),
        };
        assert(r@.additional_broadcasts =~= Seq::empty());
        r
    }

    /// Only the local subnet broadcast.
    pub fn local_only() -> (r: BroadcastConfig)
        ensures
            r@ == (BroadcastConfigView {
                subnet_mask: None,
                use_global_broadcast: false,
                use_local_broadcast: true,
                additional_broadcasts: Seq::empty(),
            }),
    {
        let r = BroadcastConfig {
            subnet_mask: None,
            use_global_broadcast: false,
            use_local_broadcast: true,
            additional_broadcasts: Vec::new(),
        };
        assert(r@.additional_broadcasts =~= Seq::empty());
        r
    }

    /// This configuration with one more broadcast address.
    pub fn with_additional_broadcast(self, addr: [u8; 4]) -> (r: BroadcastConfig)
        ensures
            r@ == (BroadcastConfigView {
                additional_broadcasts: self@.additional_broadcasts.push(addr),
                ..self@
            }),
    {
        let mut c = self;
        c.additional_broadcasts.push(addr);
        c
    }

    /// This configuration without the global broadcast.
    pub fn without_global_broadcast(self) -> (r: BroadcastConfig)
        ensures
            r@ == (BroadcastConfigView { use_global_broadcast: false, ..self@ }),
    {
        let mut c = self;
        c.use_global_broadcast = false;
        c
    }

    /// This configuration without the local broadcast.
    pub fn without_local_broadcast(self) -> (r: BroadcastConfig)
        ensures
            r@ == (BroadcastConfigView { use_local_broadcast: false, ..self@ }),
    {
        let mut c = self;
        c.use_local_broadcast = false;
        c
    }
}

/// The limited broadcast address 255.255.255.255.
pub open spec fn is_global(ip: Seq<u8>) -> bool {
    ip == seq![255u8, 255u8, 255u8, 255u8]
}

/// The limited broadcast address.
pub fn global_broadcast() -> (r: [u8; 4])
    ensures
        is_global(r@),
{
    let r = [255u8, 255u8, 255u8, 255u8];
    assert(r@ =~= seq![255u8, 255u8, 255u8, 255u8]);
    r
}

/// The classful subnet mask for an address whose first octet is `first`.
pub open spec fn classful_mask(first: u8) -> Seq<u8> {
    if first <= 127 {
        seq![255u8, 0u8, 0u8, 0u8]
    } else if first <= 191 {
        seq![255u8, 255u8, 0u8, 0u8]
    } else {
        seq![255u8, 255u8, 255u8, 0u8]
    }
}

/// The subnet mask of `ip`: the one the platform reports, otherwise the
/// classful mask (class A /8, class B /16, /24 otherwise).
pub fn detect_subnet_mask(ip: [u8; 4], platform_mask: Option<[u8; 4]>) -> (r: [u8; 4])
    ensures
        platform_mask matches Some(m) ==> r == m,
        platform_mask is None ==> r@ == classful_mask(ip@[0]),
{
    if let Some(mask) = platform_mask {
        return mask;
    }
    let first = ip[0];
    let r: [u8; 4] = if first <= 127 {
        [255, 0, 0, 0]
    } else if first <= 191 {
        [255, 255, 0, 0]
    } else {
        [255, 255, 255, 0]
    };
    assert(r@ =~= classful_mask(ip@[0]));
    r
}

/// BVLC function codes.
#[derive(Debug, Clone, Copy, PartialEq, Eq, Structural)]
pub enum BvlcFunction {
    OriginalUnicastNpdu,
    OriginalBroadcastNpdu,
    ForwardedNpdu,
    RegisterForeignDevice,
    ReadBroadcastDistributionTable,
    ReadBroadcastDistributionTableAck,
    ReadForeignDeviceTable,
    ReadForeignDeviceTableAck,
    DeleteForeignDeviceTableEntry,
    DistributeBroadcastToNetwork,
    ForwardedNpduFromDevice,
    SecureBvll,
}

/// Wire code of a BVLC function.
pub open spec fn bvlc_code(f: BvlcFunction) -> u8 {
    match f {
        BvlcFunction::OriginalUnicastNpdu => 0x0A,
        BvlcFunction::OriginalBroadcastNpdu => 0x0B,
        BvlcFunction::ForwardedNpdu => 0x04,
        BvlcFunction::RegisterForeignDevice => 0x05,
        BvlcFunction::ReadBroadcastDistributionTable => 0x02,
        BvlcFunction::ReadBroadcastDistributionTableAck => 0x03,
        BvlcFunction::ReadForeignDeviceTable => 0x06,
        BvlcFunction::ReadForeignDeviceTableAck => 0x07,
        BvlcFunction::DeleteForeignDeviceTableEntry => 0x08,
        BvlcFunction::DistributeBroadcastToNetwork => 0x09,
        BvlcFunction::ForwardedNpduFromDevice => 0x0C,
        BvlcFunction::SecureBvll => 0x0D,
    }
}

/// The BVLC function with wire code `c`.
pub open spec fn bvlc_function_of(c: u8) -> Option<BvlcFunction> {
    if c == 0x0A {
        Some(BvlcFunction::OriginalUnicastNpdu)
    } else if c == 0x0B {
        Some(BvlcFunction::OriginalBroadcastNpdu)
    } else if c == 0x04 {
        Some(BvlcFunction::ForwardedNpdu)
    } else if c == 0x05 {
        Some(BvlcFunction::RegisterForeignDevice)
    } else if c == 0x02 {
        Some(BvlcFunction::ReadBroadcastDistributionTable)
    } else if c == 0x03 {
        Some(BvlcFunction::ReadBroadcastDistributionTableAck)
    } else if c == 0x06 {
        Some(BvlcFunction::ReadForeignDeviceTable)
    } else if c == 0x07 {
        Some(BvlcFunction::ReadForeignDeviceTableAck)
    } else if c == 0x08 {
        Some(BvlcFunction::DeleteForeignDeviceTableEntry)
    } else if c == 0x09 {
        Some(BvlcFunction::DistributeBroadcastToNetwork)
    } else if c == 0x0C {
        Some(BvlcFunction::ForwardedNpduFromDevice)
    } else if c == 0x0D {
        Some(BvlcFunction::SecureBvll)
    } else {
        None
    }
}

impl BvlcFunction {
    /// Wire code of this function.
    pub fn code(&self) -> (r: u8)
        ensures
            r == bvlc_code(*self),
    {
        match self {
            BvlcFunction::OriginalUnicastNpdu => 0x0A,
            BvlcFunction::OriginalBroadcastNpdu => 0x0B,
            BvlcFunction::ForwardedNpdu => 0x04,
            BvlcFunction::RegisterForeignDevice => 0x05,
            BvlcFunction::ReadBroadcastDistributionTable => 0x02,
            BvlcFunction::ReadBroadcastDistributionTableAck => 0x03,
            BvlcFunction::ReadForeignDeviceTable => 0x06,
            BvlcFunction::ReadForeignDeviceTableAck => 0x07,
            BvlcFunction::DeleteForeignDeviceTableEntry => 0x08,
            BvlcFunction::DistributeBroadcastToNetwork => 0x09,
            BvlcFunction::ForwardedNpduFromDevice => 0x0C,
            BvlcFunction::SecureBvll => 0x0D,
        }
    }
}

/// A BVLC header: type (0x81 for BACnet/IP), function and total length.
#[derive(Debug, Clone, Copy)]
pub struct BvlcHeader {
    pub bvlc_type: u8,
    pub function: BvlcFunction,
    pub length: u16,
}

/// Bytes of an encoded header.
pub open spec fn header_bytes(h: BvlcHeader) -> Seq<u8> {
    seq![h.bvlc_type, bvlc_code(h.function), hi8(h.length), lo8(h.length)]
}

impl BvlcHeader {
    /// A BACnet/IP header (type 0x81).
    pub fn new(function: BvlcFunction, length: u16) -> (r: BvlcHeader)
        ensures
            r == (BvlcHeader { bvlc_type: 0x81, function, length }),
    {
        BvlcHeader { bvlc_type: 0x81, function, length }
    }

    /// The four header bytes: type, function code, length big-endian.
    pub fn encode(&self) -> (r: Vec<u8>)
        ensures
            r@ == header_bytes(*self),
    {
        let v: Vec<u8> = vec![
            self.bvlc_type,
            self.function.code(),
            crate::bytes::high_byte(self.length),
            crate::bytes::low_byte(self.length),
        ];
        assert(v@ =~= header_bytes(*self));
        v
    }

    /// The header at the start of `data`: `InvalidFrame` when shorter than 4
    /// bytes, of another type than 0x81, or with an unknown function.
    pub fn decode(data: &[u8]) -> (r: Result<BvlcHeader, DataLinkError>)
        ensures
            match r {
                Ok(h) => data@.len() >= 4 && data@[0] == 0x81 && bvlc_function_of(data@[1]) == Some(
                    h.function,
                ) && h.bvlc_type == 0x81 && h.length == be16(data@[2], data@[3]),
                Err(e) => e is InvalidFrame && (data@.len() < 4 || data@[0] != 0x81
                    || bvlc_function_of(data@[1]) is None),
            },
    {
        if data.len() < 4 {
            return Err(DataLinkError::InvalidFrame);
        }
        let bvlc_type = data[0];
        if bvlc_type != 0x81 {
            return Err(DataLinkError::InvalidFrame);
        }
        let function = match data[1] {
            0x0A => BvlcFunction::OriginalUnicastNpdu,
            0x0B => BvlcFunction::OriginalBroadcastNpdu,
            0x04 => BvlcFunction::ForwardedNpdu,
            0x05 => BvlcFunction::RegisterForeignDevice,
            0x02 => BvlcFunction::ReadBroadcastDistributionTable,
            0x03 => BvlcFunction::ReadBroadcastDistributionTableAck,
            0x06 => BvlcFunction::ReadForeignDeviceTable,
            0x07 => BvlcFunction::ReadForeignDeviceTableAck,
            0x08 => BvlcFunction::DeleteForeignDeviceTableEntry,
            0x09 => BvlcFunction::DistributeBroadcastToNetwork,
            0x0C => BvlcFunction::ForwardedNpduFromDevice,
            0x0D => BvlcFunction::SecureBvll,
            _ => {
                return Err(DataLinkError::InvalidFrame);
            },
        };
        let length = crate::bytes::read_be16(data[2], data[3]);
        Ok(BvlcHeader { bvlc_type, function, length })
    }
}

/// Decoding an encoded header gives it back.
pub proof fn lemma_header_roundtrip(h: BvlcHeader)
    requires
        h.bvlc_type == 0x81,
    ensures
        bvlc_function_of(header_bytes(h)[1]) == Some(h.function),
        be16(header_bytes(h)[2], header_bytes(h)[3]) == h.length,
{
    crate::bytes::lemma_be16_roundtrip(h.length);
}

/// A broadcast distribution table entry of the data link.
#[derive(Debug, Clone, Copy)]
pub struct BdtEntry {
    pub address: IpEndpoint,
    pub mask: [u8; 4],
}

/// A foreign device registration of the data link.
#[derive(Debug, Clone, Copy)]
pub struct FdtEntry {
    pub address: IpEndpoint,
    pub ttl: u16,
    /// Clock reading of the registration (ms).
    pub registration_time_ms: u64,
}

/// Kinds of broadcast destination.
#[derive(Debug, Clone, Copy, PartialEq, Eq, Structural)]
pub enum BroadcastType {
    Global,
    LocalSubnet,
    Additional,
    Bbmd,
    ForeignDevice,
}

/// A broadcast that was sent.
#[derive(Debug, Clone, Copy)]
pub struct BroadcastSuccess {
    pub address: IpEndpoint,
    pub bytes_sent: usize,
    pub broadcast_type: BroadcastType,
}

/// A broadcast that failed.
#[derive(Debug, Clone)]
pub struct BroadcastFailure {
    pub address: IpEndpoint,
    pub error: String,
    pub broadcast_type: BroadcastType,
}

/// Outcome of sending one broadcast to all destinations.
#[derive(Debug)]
pub struct BroadcastResult {
    pub successes: Vec<BroadcastSuccess>,
    pub failures: Vec<BroadcastFailure>,
}

/// Sum of the bytes sent by `s`.
pub open spec fn bytes_sum(s: Seq<BroadcastSuccess>) -> int
    decreases s.len(),
{
    if s.len() == 0 {
        0
    } else {
        bytes_sum(s.drop_last()) + s.last().bytes_sent
    }
}

impl Default for BroadcastResult {
    /// No sends yet.
    fn default() -> (r: BroadcastResult)
        ensures
            r.successes@.len() == 0,
            r.failures@.len() == 0,
    {
        BroadcastResult::new()
    }
}

impl BroadcastResult {
    /// No sends yet.
    pub fn new() -> (r: BroadcastResult)
        ensures
            r.successes@.len() == 0,
            r.failures@.len() == 0,
    {
        BroadcastResult { successes: Vec::new(), failures: Vec::new() }
    }

    /// Number of destinations reached.
    pub fn success_count(&self) -> (r: usize)
        ensures
            r == self.successes@.len(),
    {
        self.successes.len()
    }

    /// Number of destinations that failed.
    pub fn failure_count(&self) -> (r: usize)
        ensures
            r == self.failures@.len(),
    {
        self.failures.len()
    }

    /// Whether some destination was reached.
    pub fn any_success(&self) -> (r: bool)
        ensures
            r == (self.successes@.len() > 0),
    {
        self.successes.len() > 0
    }

    /// Whether destinations were reached and none failed.
    pub fn all_success(&self) -> (r: bool)
        ensures
            r == (self.failures@.len() == 0 && self.successes@.len() > 0),
    {
        self.failures.len() == 0 && self.successes.len() > 0
    }

    /// Total bytes sent (saturating at the largest `usize`).
    pub fn total_bytes_sent(&self) -> (r: usize)
        ensures
            r == if bytes_sum(self.successes@) <= usize::MAX {
                bytes_sum(self.successes@)
            } else {
                usize::MAX as int
            },
    {
        let mut total: usize = 0;
        let mut overflow = false;
        let mut i: usize = 0;
        proof {
            lemma_bytes_sum_monotone(self.successes@);
        }
        while i < self.successes.len()
            invariant
                i <= self.successes@.len(),
                !overflow ==> total == bytes_sum(self.successes@.take(i as int)),
                overflow ==> bytes_sum(self.successes@.take(i as int)) > usize::MAX && total == usize::MAX,
                forall|a: int, b: int|
                    0 <= a <= b <= self.successes@.len() ==> bytes_sum(self.successes@.take(a))
                        <= bytes_sum(self.successes@.take(b)),
            decreases self.successes@.len() - i,
        {
            assert(self.successes@.take(i as int + 1).drop_last() =~= self.successes@.take(i as int));
            let b = self.successes[i].bytes_sent;
            if !overflow {
                if total <= usize::MAX - b {
                    total = total + b;
                } else {
                    total = usize::MAX;
                    overflow = true;
                }
            }
            i = i + 1;
        }
        assert(self.successes@.take(i as int) =~= self.successes@);
        total
    }
}

proof fn lemma_bytes_sum_monotone(s: Seq<BroadcastSuccess>)
    ensures
        forall|a: int, b: int|
            0 <= a <= b <= s.len() ==> bytes_sum(s.take(a)) <= bytes_sum(s.take(b)),
    decreases s.len(),
{
    if s.len() > 0 {
        let d = s.drop_last();
        lemma_bytes_sum_monotone(d);
        assert forall|a: int, b: int| 0 <= a <= b <= s.len() implies bytes_sum(s.take(a))
            <= bytes_sum(s.take(b)) by {
            if b == s.len() {
                assert(s.take(b) =~= s);
                assert(s.take(b).drop_last() =~= d);
                if a < b {
                    assert(s.take(a) =~= d.take(a));
                    assert(d.take(d.len() as int) =~= d);
                } else {
                }
            } else {
                assert(s.take(a) =~= d.take(a));
                assert(s.take(b) =~= d.take(b));
            }
        }
    }
}

/// Length field of a BVLC message carrying `n` NPDU bytes (low 16 bits).
pub open spec fn message_length(n: nat) -> u16 {
    ((n % 65536 + 4) % 65536) as u16
}

/// A BVLC message with function `f` around `npdu`.
pub open spec fn message_spec(f: BvlcFunction, npdu: Seq<u8>) -> Seq<u8> {
    header_bytes(BvlcHeader { bvlc_type: 0x81, function: f, length: message_length(npdu.len()) }) + npdu
}

/// Build a BVLC message with function `f` around `npdu`.
pub fn build_message(f: BvlcFunction, npdu: &[u8]) -> (r: Vec<u8>)
    ensures
        r@ == message_spec(f, npdu@),
{
    let n = (npdu.len() % 65536) as u16;
    let length = n.wrapping_add(4);
    let header = BvlcHeader::new(f, length);
    let mut frame = header.encode();
    extend_bytes(&mut frame, npdu);
    frame
}

/// The BACnet/IP data link's state (the socket stays with the caller).
pub struct BacnetIpDataLink {
    local_addr: IpEndpoint,
    bdt: Vec<BdtEntry>,
    fdt: Vec<FdtEntry>,
    local_broadcast_addr: IpEndpoint,
    broadcast_config: BroadcastConfig,
    subnet_mask: [u8; 4],
}

/// Mathematical view of the data link.
pub struct DataLinkView {
    pub local_addr: IpEndpoint,
    pub bdt: Seq<BdtEntry>,
    pub fdt: Seq<FdtEntry>,
    pub local_broadcast_addr: IpEndpoint,
    pub broadcast_config: BroadcastConfigView,
    pub subnet_mask: [u8; 4],
}

impl View for BacnetIpDataLink {
    type V = DataLinkView;

    closed spec fn view(&self) -> DataLinkView {
        DataLinkView {
            local_addr: self.local_addr,
            bdt: self.bdt@,
            fdt: self.fdt@,
            local_broadcast_addr: self.local_broadcast_addr,
            broadcast_config: self.broadcast_config@,
            subnet_mask: self.subnet_mask,
        }
    }
}

/// Whether `e` is the BACnet/IP broadcast endpoint of `ip` with `mask`.
pub open spec fn is_broadcast_of(e: IpEndpoint, ip: [u8; 4], mask: [u8; 4]) -> bool {
    e.ip@ == broadcast_octets(ip@, mask@) && e.port == BACNET_IP_PORT
}

/// Broadcast destinations in sending order: the global broadcast, the local
/// subnet broadcast (unless it is the global one already used), additional
/// addresses (except the local broadcast), the BDT peers and the foreign
/// devices.
pub open spec fn destinations_spec(v: DataLinkView) -> Seq<(IpEndpoint, BroadcastType)> {
    let c = v.broadcast_config;
    let global = if c.use_global_broadcast {
        seq![(IpEndpoint { ip: [255u8, 255u8, 255u8, 255u8], port: BACNET_IP_PORT }, BroadcastType::Global)]
    } else {
        Seq::empty()
    };
    let local = if c.use_local_broadcast && !(c.use_global_broadcast && is_global(
        v.local_broadcast_addr.ip@,
    )) {
        seq![(v.local_broadcast_addr, BroadcastType::LocalSubnet)]
    } else {
        Seq::empty()
    };
    global + local + additional_destinations(c.additional_broadcasts, v.local_broadcast_addr)
        + v.bdt.map_values(|e: BdtEntry| (e.address, BroadcastType::Bbmd)) + v.fdt.map_values(
        |e: FdtEntry| (e.address, BroadcastType::ForeignDevice),
    )
}

/// Additional broadcast destinations other than the local broadcast endpoint.
pub open spec fn additional_destinations(s: Seq<[u8; 4]>, local: IpEndpoint) -> Seq<(IpEndpoint, BroadcastType)>
    decreases s.len(),
{
    if s.len() == 0 {
        Seq::empty()
    } else {
        let e = IpEndpoint { ip: s.last(), port: BACNET_IP_PORT };
        let rest = additional_destinations(s.drop_last(), local);
        if e.ip@ == local.ip@ && e.port == local.port {
            rest
        } else {
            rest.push((e, BroadcastType::Additional))
        }
    }
}

/// Whether a registration has outlived its time-to-live at `now` (whole
/// seconds elapsed at least the time-to-live).
pub open spec fn fdt_expired(e: FdtEntry, now: u64) -> bool {
    elapsed(now, e.registration_time_ms) / 1000 >= e.ttl
}

/// Registrations of `s` alive at `now`.
pub open spec fn fdt_alive(s: Seq<FdtEntry>, now: u64) -> Seq<FdtEntry>
    decreases s.len(),
{
    if s.len() == 0 {
        s
    } else if fdt_expired(s.last(), now) {
        fdt_alive(s.drop_last(), now)
    } else {
        fdt_alive(s.drop_last(), now).push(s.last())
    }
}

/// What a received BVLC message gives: its NPDU for Original-Unicast/Broadcast
/// (after 4 bytes) and Forwarded-NPDU (after 10), nothing for others; a
/// Register-Foreign-Device of exactly 6 bytes adds a registration.
pub open spec fn process_spec(v: DataLinkView, data: Seq<u8>, source: IpEndpoint, now: u64) -> (DataLinkView, Result<Option<Seq<u8>>, ()>) {
    if data.len() < 4 || data[0] != 0x81 || bvlc_function_of(data[1]) is None || data.len()
        != be16(data[2], data[3]) {
        (v, Err(()))
    } else {
        let f = bvlc_function_of(data[1])->0;
        if f == BvlcFunction::OriginalUnicastNpdu || f == BvlcFunction::OriginalBroadcastNpdu {
            if data.len() > 4 {
                (v, Ok(Some(data.subrange(4, data.len() as int))))
            } else {
                (v, Err(()))
            }
        } else if f == BvlcFunction::ForwardedNpdu {
            if data.len() > 10 {
                (v, Ok(Some(data.subrange(10, data.len() as int))))
            } else {
                (v, Err(()))
            }
        } else if f == BvlcFunction::RegisterForeignDevice {
            if data.len() == 6 {
                (
                    DataLinkView {
                        fdt: v.fdt.push(
                            FdtEntry {
                                address: source,
                                ttl: be16(data[4], data[5]),
                                registration_time_ms: now,
                            },
                        ),
                        ..v
                    },
                    Ok(None),
                )
            } else {
                (v, Ok(None))
            }
        } else {
            (v, Ok(None))
        }
    }
}

pub open spec fn process_out(r: Result<Option<Vec<u8>>, DataLinkError>) -> Result<Option<Seq<u8>>, ()> {
    match r {
        Ok(Some(v)) => Ok(Some(v@)),
        Ok(None) => Ok(None),
        Err(_) => Err(()),
    }
}

impl BacnetIpDataLink {
    /// A data link at `local_addr` with the default broadcast configuration;
    /// `platform_mask` is the subnet mask the platform reports, if any.
    pub fn new(local_addr: IpEndpoint, platform_mask: Option<[u8; 4]>) -> (r: BacnetIpDataLink)
        ensures
            r@.local_addr == local_addr,
            r@.subnet_mask == detect_mask_spec(None, local_addr.ip, platform_mask),
            is_broadcast_of(r@.local_broadcast_addr, local_addr.ip, r@.subnet_mask),
            r@.bdt.len() == 0,
            r@.fdt.len() == 0,
            r@.broadcast_config == (BroadcastConfigView {
                subnet_mask: None,
                use_global_broadcast: true,
                use_local_broadcast: true,
                additional_broadcasts: Seq::empty(),
            }),
    {
        Self::with_config(local_addr, BroadcastConfig::default(), platform_mask)
    }

    /// A data link at `local_addr` with `config`; the subnet mask is the
    /// configured one, else the detected one.
    pub fn with_config(local_addr: IpEndpoint, config: BroadcastConfig, platform_mask: Option<[u8; 4]>) -> (r: BacnetIpDataLink)
        ensures
            r@.local_addr == local_addr,
            r@.subnet_mask == detect_mask_spec(config@.subnet_mask, local_addr.ip, platform_mask),
            is_broadcast_of(r@.local_broadcast_addr, local_addr.ip, r@.subnet_mask),
            r@.bdt.len() == 0,
            r@.fdt.len() == 0,
            r@.broadcast_config == config@,
    {
        let mask = match config.subnet_mask {
            Some(m) => m,
            None => detect_subnet_mask(local_addr.ip, platform_mask),
        };
        proof {
            if config.subnet_mask is None && platform_mask is None {
                let c = choose|m: [u8; 4]| #[trigger] m@ == classful_mask(local_addr.ip@[0]);
                assert(c@ == mask@);
                assert(c =~= mask);
            }
        }
        let broadcast_ip = crate::router_msgs::calculate_broadcast_address(local_addr.ip, mask);
        BacnetIpDataLink {
            local_addr,
            bdt: Vec::new(),
            fdt: Vec::new(),
            local_broadcast_addr: IpEndpoint { ip: broadcast_ip, port: BACNET_IP_PORT },
            broadcast_config: config,
            subnet_mask: mask,
        }
    }

    /// The broadcast configuration.
    pub fn broadcast_config(&self) -> (r: &BroadcastConfig)
        ensures
            r@ == self@.broadcast_config,
    {
        &self.broadcast_config
    }

    /// The subnet mask in use.
    pub fn subnet_mask(&self) -> (r: &[u8; 4])
        ensures
            *r == self@.subnet_mask,
    {
        &self.subnet_mask
    }

    /// The local subnet broadcast endpoint.
    pub fn local_broadcast_addr(&self) -> (r: &IpEndpoint)
        ensures
            *r == self@.local_broadcast_addr,
    {
        &self.local_broadcast_addr
    }

    /// Replace the broadcast configuration; a configured subnet mask that
    /// differs from the one in use replaces it and the local broadcast.
    pub fn set_broadcast_config(&mut self, config: BroadcastConfig)
        ensures
            final(self)@.broadcast_config == config@,
            final(self)@.local_addr == old(self)@.local_addr,
            final(self)@.bdt == old(self)@.bdt,
            final(self)@.fdt == old(self)@.fdt,
            match config@.subnet_mask {
                Some(m) => if m@ != old(self)@.subnet_mask@ {
                    final(self)@.subnet_mask == m && is_broadcast_of(
                        final(self)@.local_broadcast_addr,
                        old(self)@.local_addr.ip,
                        m,
                    )
                } else {
                    final(self)@.subnet_mask == old(self)@.subnet_mask
                        && final(self)@.local_broadcast_addr == old(self)@.local_broadcast_addr
                },
                None => final(self)@.subnet_mask == old(self)@.subnet_mask
                    && final(self)@.local_broadcast_addr == old(self)@.local_broadcast_addr,
            },
    {
        if let Some(new_mask) = config.subnet_mask {
            let same = new_mask[0] == self.subnet_mask[0] && new_mask[1] == self.subnet_mask[1]
                && new_mask[2] == self.subnet_mask[2] && new_mask[3] == self.subnet_mask[3];
            proof {
                if same {
                    assert(new_mask@ =~= self.subnet_mask@);
                }
            }
            if !same {
                self.subnet_mask = new_mask;
                let broadcast_ip = crate::router_msgs::calculate_broadcast_address(self.local_addr.ip, new_mask);
                self.local_broadcast_addr = IpEndpoint { ip: broadcast_ip, port: BACNET_IP_PORT };
            }
        }
        self.broadcast_config = config;
    }

    /// An Original-Unicast-NPDU message around `npdu`.
    pub fn unicast_frame(&self, npdu: &[u8]) -> (r: Vec<u8>)
        ensures
            r@ == message_spec(BvlcFunction::OriginalUnicastNpdu, npdu@),
    {
        build_message(BvlcFunction::OriginalUnicastNpdu, npdu)
    }

    /// An Original-Broadcast-NPDU message around `npdu`.
    pub fn broadcast_frame(&self, npdu: &[u8]) -> (r: Vec<u8>)
        ensures
            r@ == message_spec(BvlcFunction::OriginalBroadcastNpdu, npdu@),
    {
        build_message(BvlcFunction::OriginalBroadcastNpdu, npdu)
    }

    /// A Register-Foreign-Device message with time-to-live `ttl` seconds.
    pub fn register_frame(&self, ttl: u16) -> (r: Vec<u8>)
        ensures
            r@ == header_bytes(BvlcHeader { bvlc_type: 0x81, function: BvlcFunction::RegisterForeignDevice, length: 6 })
                + seq![hi8(ttl), lo8(ttl)],
    {
        let header = BvlcHeader::new(BvlcFunction::RegisterForeignDevice, 6);
        let mut frame = header.encode();
        frame.push(crate::bytes::high_byte(ttl));
        frame.push(crate::bytes::low_byte(ttl));
        assert(frame@ =~= header_bytes(header) + seq![hi8(ttl), lo8(ttl)]);
        frame
    }

    /// Where a broadcast goes, in sending order.
    pub fn broadcast_destinations(&self) -> (r: Vec<(IpEndpoint, BroadcastType)>)
        ensures
            r@ == destinations_spec(self@),
    {
        let mut out: Vec<(IpEndpoint, BroadcastType)> = Vec::new();
        let c = &self.broadcast_config;
        if c.use_global_broadcast {
            out.push((IpEndpoint { ip: global_broadcast(), port: BACNET_IP_PORT }, BroadcastType::Global));
            assert(out@[0].0.ip =~= [255u8, 255u8, 255u8, 255u8]);
        }
        let ghost g = out@;
        if c.use_local_broadcast {
            let lb = self.local_broadcast_addr;
            let is_global_local = lb.ip[0] == 255 && lb.ip[1] == 255 && lb.ip[2] == 255 && lb.ip[3] == 255;
            proof {
                if is_global_local {
                    assert(lb.ip@ =~= seq![255u8, 255u8, 255u8, 255u8]);
                }
            }
            if !(c.use_global_broadcast && is_global_local) {
                out.push((lb, BroadcastType::LocalSubnet));
            }
        }
        let ghost gl = out@;
        let mut i: usize = 0;
        while i < c.additional_broadcasts.len()
            invariant
                i <= c.additional_broadcasts@.len(),
                out@ == gl + additional_destinations(c.additional_broadcasts@.take(i as int), self.local_broadcast_addr),
            decreases c.additional_broadcasts@.len() - i,
        {
            let e = IpEndpoint { ip: c.additional_broadcasts[i], port: BACNET_IP_PORT };
            assert(c.additional_broadcasts@.take(i as int + 1).drop_last() =~= c.additional_broadcasts@.take(i as int));
            let same = crate::bytes::endpoint_eq(&e, &self.local_broadcast_addr);
            if !same {
                out.push((e, BroadcastType::Additional));
            }
            i = i + 1;
            assert(out@ =~= gl + additional_destinations(c.additional_broadcasts@.take(i as int), self.local_broadcast_addr));
        }
        assert(c.additional_broadcasts@.take(i as int) =~= c.additional_broadcasts@);
        let ghost gla = out@;
        let mut j: usize = 0;
        while j < self.bdt.len()
            invariant
                j <= self.bdt@.len(),
                out@ == gla + self.bdt@.take(j as int).map_values(|e: BdtEntry| (e.address, BroadcastType::Bbmd)),
            decreases self.bdt@.len() - j,
        {
            out.push((self.bdt[j].address, BroadcastType::Bbmd));
            j = j + 1;
            assert(out@ =~= gla + self.bdt@.take(j as int).map_values(|e: BdtEntry| (e.address, BroadcastType::Bbmd)));
        }
        assert(self.bdt@.take(j as int) =~= self.bdt@);
        let ghost glab = out@;
        let mut k: usize = 0;
        while k < self.fdt.len()
            invariant
                k <= self.fdt@.len(),
                out@ == glab + self.fdt@.take(k as int).map_values(|e: FdtEntry| (e.address, BroadcastType::ForeignDevice)),
            decreases self.fdt@.len() - k,
        {
            out.push((self.fdt[k].address, BroadcastType::ForeignDevice));
            k = k + 1;
            assert(out@ =~= glab + self.fdt@.take(k as int).map_values(|e: FdtEntry| (e.address, BroadcastType::ForeignDevice)));
        }
        assert(self.fdt@.take(k as int) =~= self.fdt@);
        assert(out@ =~= destinations_spec(self@));
        out
    }

    /// Add a BDT entry.
    pub fn add_bdt_entry(&mut self, address: IpEndpoint, mask: [u8; 4])
        ensures
            final(self)@ == (DataLinkView { bdt: old(self)@.bdt.push(BdtEntry { address, mask }), ..old(self)@ }),
    {
        self.bdt.push(BdtEntry { address, mask });
    }

    /// Drop registrations whose time-to-live has run out at `now_ms`.
    pub fn cleanup_fdt(&mut self, now_ms: u64)
        ensures
            final(self)@ == (DataLinkView { fdt: fdt_alive(old(self)@.fdt, now_ms), ..old(self)@ }),
    {
        let ghost all = self.fdt@;
        let mut kept: Vec<FdtEntry> = Vec::new();
        let mut i: usize = 0;
        while i < self.fdt.len()
            invariant
                self@ == old(self)@,
                all == self.fdt@,
                i <= all.len(),
                kept@ == fdt_alive(all.take(i as int), now_ms),
            decreases all.len() - i,
        {
            let e = self.fdt[i];
            assert(all.take(i as int + 1).drop_last() =~= all.take(i as int));
            let age = if now_ms >= e.registration_time_ms {
                now_ms - e.registration_time_ms
            } else {
                0
            };
            if age / 1000 < e.ttl as u64 {
                kept.push(e);
            }
            i = i + 1;
        }
        assert(all.take(i as int) =~= all);
        self.fdt = kept;
    }

    /// Handle a BVLC message received from `source` at `now_ms` (see
    /// `process_spec`); `InvalidFrame` for a malformed message.
    pub fn process_bvlc_message(&mut self, data: &[u8], source: IpEndpoint, now_ms: u64) -> (r: Result<Option<Vec<u8>>, DataLinkError>)
        ensures
            (final(self)@, process_out(r)) == process_spec(old(self)@, data@, source, now_ms),
            r matches Err(e) ==> e is InvalidFrame,
    {
        let header = match BvlcHeader::decode(data) {
            Ok(h) => h,
            Err(e) => {
                return Err(e);
            },
        };
        if data.len() != header.length as usize {
            return Err(DataLinkError::InvalidFrame);
        }
        match header.function {
            BvlcFunction::OriginalUnicastNpdu | BvlcFunction::OriginalBroadcastNpdu => {
                if data.len() > 4 {
                    Ok(Some(copy_range(data, 4, data.len())))
                } else {
                    Err(DataLinkError::InvalidFrame)
                }
            },
            BvlcFunction::ForwardedNpdu => {
                if data.len() > 10 {
                    Ok(Some(copy_range(data, 10, data.len())))
                } else {
                    Err(DataLinkError::InvalidFrame)
                }
            },
            BvlcFunction::RegisterForeignDevice => {
                if data.len() == 6 {
                    let ttl = crate::bytes::read_be16(data[4], data[5]);
                    self.fdt.push(FdtEntry { address: source, ttl, registration_time_ms: now_ms });
                }
                Ok(None)
            },
            _ => Ok(None),
        }
    }
}

/// The subnet mask a data link uses: the configured one, else the detected.
pub open spec fn detect_mask_spec(configured: Option<[u8; 4]>, ip: [u8; 4], platform_mask: Option<[u8; 4]>) -> [u8; 4] {
    match configured {
        Some(m) => m,
        None => match platform_mask {
            Some(m) => m,
            None => choose|m: [u8; 4]| #[trigger] m@ == classful_mask(ip@[0]),
        },
    }
}

/// The outcome of a broadcast: success when some destination was reached,
/// otherwise the last error, or an address error when nothing was configured.
pub fn broadcast_outcome(success_count: usize, last_error: Option<String>) -> (r: Result<(), DataLinkError>)
    ensures
        success_count > 0 ==> r is Ok,
        success_count == 0 && last_error is Some ==> (r matches Err(DataLinkError::IoError(m)) && m@ == last_error->0@),
        success_count == 0 && last_error is None ==> (r matches Err(DataLinkError::AddressError(m)) && m@
            == "No broadcast destinations configured"@),
{
    if success_count > 0 {
        Ok(())
    } else {
        match last_error {
            Some(e) => Err(DataLinkError::IoError(e)),
            None => Err(DataLinkError::AddressError("No broadcast destinations configured".to_owned())),
        }
    }
}

} // verus!
