//! Gateway configuration and the byte layouts in which the broadcast
//! distribution table and the routing table are stored.
use vstd::prelude::*;
use crate::bytes::{be16, be32, be32_bytes, hi8, lo8, IpEndpoint};
use crate::text::{copy_range, extend_bytes};

verus! {

/// Gateway configuration.
#[derive(Debug, Clone)]
pub struct GatewayConfig {
    pub wifi_ssid: String,
    pub wifi_password: String,
    pub ap_ssid: String,
    pub ap_password: String,
    pub mstp_address: u8,
    pub mstp_max_master: u8,
    pub mstp_baud_rate: u32,
    pub mstp_network: u16,
    pub bacnet_ip_port: u16,
    pub ip_network: u16,
    pub device_instance: u32,
    pub device_name: String,
}

/// Mathematical view of a gateway configuration.
pub struct ConfigView {
    pub wifi_ssid: Seq<char>,
    pub wifi_password: Seq<char>,
    pub ap_ssid: Seq<char>,
    pub ap_password: Seq<char>,
    pub mstp_address: u8,
    pub mstp_max_master: u8,
    pub mstp_baud_rate: u32,
    pub mstp_network: u16,
    pub bacnet_ip_port: u16,
    pub ip_network: u16,
    pub device_instance: u32,
    pub device_name: Seq<char>,
}

impl View for GatewayConfig {
    type V = ConfigView;

    open spec fn view(&self) -> ConfigView {
        ConfigView {
            wifi_ssid: self.wifi_ssid@,
            wifi_password: self.wifi_password@,
            ap_ssid: self.ap_ssid@,
            ap_password: self.ap_password@,
            mstp_address: self.mstp_address,
            mstp_max_master: self.mstp_max_master,
            mstp_baud_rate: self.mstp_baud_rate,
            mstp_network: self.mstp_network,
            bacnet_ip_port: self.bacnet_ip_port,
            ip_network: self.ip_network,
            device_instance: self.device_instance,
            device_name: self.device_name@,
        }
    }
}

/// The default configuration: no WiFi network; access point "BACman-Gateway"
/// with password "bacnet123"; MS/TP station 3 of up to 127 masters at 38400
/// baud on network 65001; BACnet/IP port 47808 on network 10001; device 1234
/// named "BACman-Gateway".
pub open spec fn default_config() -> ConfigView {
    ConfigView {
        wifi_ssid: Seq::empty(),
        wifi_password: Seq::empty(),
        ap_ssid: "BACman-Gateway"@,
        ap_password: "bacnet123"@,
        mstp_address: 3,
        mstp_max_master: 127,
        mstp_baud_rate: 38400,
        mstp_network: 65001,
        bacnet_ip_port: 47808,
        ip_network: 10001,
        device_instance: 1234,
        device_name: "BACman-Gateway"@,
    }
}

impl Default for GatewayConfig {
    /// The default configuration (see `default_config`).
    fn default() -> (r: GatewayConfig)
        ensures
            r@ == default_config(),
    {
        GatewayConfig {
            wifi_ssid: String::new(),
            wifi_password: String::new(),
            ap_ssid: "BACman-Gateway".to_owned(),
            ap_password: "bacnet123".to_owned(),
            mstp_address: 3,
            mstp_max_master: 127,
            mstp_baud_rate: 38400,
            mstp_network: 65001,
            bacnet_ip_port: 47808,
            ip_network: 10001,
            device_instance: 1234,
            device_name: "BACman-Gateway".to_owned(),
        }
    }
}

/// The configuration values found in storage: `None` for a key that is
/// missing or could not be read. `configured` is the mark that a
/// configuration was saved.
#[derive(Debug, Clone)]
pub struct StoredConfig {
    pub configured: Option<u8>,
    pub wifi_ssid: Option<String>,
    pub wifi_password: Option<String>,
    pub ap_ssid: Option<String>,
    pub ap_password: Option<String>,
    pub mstp_address: Option<u8>,
    pub mstp_max_master: Option<u8>,
    pub mstp_baud_rate: Option<u32>,
    pub mstp_network: Option<u16>,
    pub bacnet_ip_port: Option<u16>,
    pub ip_network: Option<u16>,
    pub device_instance: Option<u32>,
    pub device_name: Option<String>,
}

/// The text of `v`, or `d` when there is none.
pub open spec fn text_or(v: Option<String>, d: Seq<char>) -> Seq<char> {
    match v {
        Some(t) => t@,
        None => d,
    }
}

/// The value of `v`, or `d` when there is none.
pub open spec fn value_or<T>(v: Option<T>, d: T) -> T {
    match v {
        Some(x) => x,
        None => d,
    }
}

/// Whether storage holds a saved configuration: the mark is there and not 0.
pub open spec fn stored_is_configured(st: StoredConfig) -> bool {
    st.configured matches Some(v) && v != 0
}

/// The configuration that storage `st` gives: the defaults when nothing was
/// saved, otherwise each stored value in place of its default.
pub open spec fn config_of_stored(st: StoredConfig, d: ConfigView) -> ConfigView {
    if !stored_is_configured(st) {
        d
    } else {
        ConfigView {
            wifi_ssid: text_or(st.wifi_ssid, d.wifi_ssid),
            wifi_password: text_or(st.wifi_password, d.wifi_password),
            ap_ssid: text_or(st.ap_ssid, d.ap_ssid),
            ap_password: text_or(st.ap_password, d.ap_password),
            mstp_address: value_or(st.mstp_address, d.mstp_address),
            mstp_max_master: value_or(st.mstp_max_master, d.mstp_max_master),
            mstp_baud_rate: value_or(st.mstp_baud_rate, d.mstp_baud_rate),
            mstp_network: value_or(st.mstp_network, d.mstp_network),
            bacnet_ip_port: value_or(st.bacnet_ip_port, d.bacnet_ip_port),
            ip_network: value_or(st.ip_network, d.ip_network),
            device_instance: value_or(st.device_instance, d.device_instance),
            device_name: text_or(st.device_name, d.device_name),
        }
    }
}

impl GatewayConfig {
    /// The configuration that storage `stored` gives: the defaults when no
    /// configuration was saved, otherwise the defaults with every value that
    /// storage holds put in its place.
    pub fn from_stored(stored: StoredConfig) -> (r: GatewayConfig)
        ensures
            r@ == config_of_stored(stored, default_config()),
    {
        let mut config = GatewayConfig::default();
        let configured = match stored.configured {
            Some(v) => v != 0,
            None => false,
        };
        if !configured {
            return config;
        }
        if let Some(v) = stored.wifi_ssid {
            config.wifi_ssid = v;
        }
        if let Some(v) = stored.wifi_password {
            config.wifi_password = v;
        }
        if let Some(v) = stored.ap_ssid {
            config.ap_ssid = v;
        }
        if let Some(v) = stored.ap_password {
            config.ap_password = v;
        }
        if let Some(v) = stored.mstp_address {
            config.mstp_address = v;
        }
        if let Some(v) = stored.mstp_max_master {
            config.mstp_max_master = v;
        }
        if let Some(v) = stored.mstp_baud_rate {
            config.mstp_baud_rate = v;
        }
        if let Some(v) = stored.mstp_network {
            config.mstp_network = v;
        }
        if let Some(v) = stored.bacnet_ip_port {
            config.bacnet_ip_port = v;
        }
        if let Some(v) = stored.ip_network {
            config.ip_network = v;
        }
        if let Some(v) = stored.device_instance {
            config.device_instance = v;
        }
        if let Some(v) = stored.device_name {
            config.device_name = v;
        }
        config
    }
}

/// A stored broadcast distribution table entry: peer address and mask.
#[derive(Debug, Clone, Copy)]
pub struct BdtEntryConfig {
    pub address: IpEndpoint,
    pub broadcast_mask: u32,
}

/// A stored routing table entry.
#[derive(Debug, Clone)]
pub struct RoutingTableEntryConfig {
    pub network: u16,
    pub port_id: u8,
    pub port_info: Vec<u8>,
}

/// View of a stored routing table entry.
pub open spec fn rt_config_view(e: RoutingTableEntryConfig) -> (u16, u8, Seq<u8>) {
    (e.network, e.port_id, e.port_info@)
}

/// Encoding and decoding of the stored network tables.
pub struct NetworkTablePersistence;

/// Stored bytes of one BDT entry: address octets, port and mask, big-endian.
pub open spec fn bdt_config_bytes(e: BdtEntryConfig) -> Seq<u8> {
    e.address.ip@ + seq![hi8(e.address.port), lo8(e.address.port)] + be32_bytes(e.broadcast_mask)
}

/// Stored bytes of BDT entries.
pub open spec fn bdt_blob(s: Seq<BdtEntryConfig>) -> Seq<u8>
    decreases s.len(),
{
    if s.len() == 0 {
        Seq::empty()
    } else {
        bdt_blob(s.drop_last()) + bdt_config_bytes(s.last())
    }
}

/// The entry stored in the 10 bytes of `d` at `off`.
pub open spec fn bdt_config_from(d: Seq<u8>, off: int) -> BdtEntryConfig {
    BdtEntryConfig {
        address: IpEndpoint {
            ip: [d[off], d[off + 1], d[off + 2], d[off + 3]],
            port: be16(d[off + 4], d[off + 5]),
        },
        broadcast_mask: be32(d[off + 6], d[off + 7], d[off + 8], d[off + 9]),
    }
}

/// The entries stored in `d`, one per whole 10 bytes.
pub open spec fn bdt_decode(d: Seq<u8>) -> Seq<BdtEntryConfig> {
    Seq::new((d.len() / 10) as nat, |i: int| bdt_config_from(d, i * 10))
}

/// The stored form of a BDT has 10 bytes per entry.
pub proof fn lemma_bdt_blob_len(s: Seq<BdtEntryConfig>)
    ensures
        bdt_blob(s).len() == 10 * s.len(),
    decreases s.len(),
{
    if s.len() > 0 {
        lemma_bdt_blob_len(s.drop_last());
    }
}

/// Decoding the stored form of a BDT gives back the entries that were stored.
pub proof fn lemma_bdt_roundtrip(s: Seq<BdtEntryConfig>)
    ensures
        bdt_decode(bdt_blob(s)) == s,
    decreases s.len(),
{
    lemma_bdt_blob_len(s);
    let b = bdt_blob(s);
    let n = s.len();
    assert((10 * n) / 10 == n) by (nonlinear_arith);
    if n > 0 {
        let p = s.drop_last();
        let pb = bdt_blob(p);
        lemma_bdt_roundtrip(p);
        lemma_bdt_blob_len(p);
        let e = s.last();
        assert forall|i: int| 0 <= i < n implies #[trigger] bdt_config_from(b, i * 10) == s[i] by {
            if i < n - 1 {
                assert(i * 10 + 10 <= 10 * (n - 1)) by (nonlinear_arith)
                    requires
                        i < n - 1,
                ;
                assert(bdt_decode(pb)[i] == p[i]);
                assert(bdt_config_from(b, i * 10) == bdt_config_from(pb, i * 10));
            } else {
                assert(i * 10 == 10 * (n - 1)) by (nonlinear_arith)
                    requires
                        i == n - 1,
                ;
                let off = i * 10;
                assert(b.subrange(off, off + 10) =~= bdt_config_bytes(e));
                crate::bytes::lemma_be16_roundtrip(e.address.port);
                crate::bytes::lemma_be32_roundtrip(e.broadcast_mask);
                let ip: [u8; 4] = [b[off], b[off + 1], b[off + 2], b[off + 3]];
                assert(ip@ =~= e.address.ip@);
                assert(ip =~= e.address.ip);
            }
        }
        assert(bdt_decode(b) =~= s);
    } else {
        assert(bdt_decode(b) =~= s);
    }
}

/// Stored bytes of one routing table entry: network, port, info length and
/// info (cut to 255 bytes).
pub open spec fn rt_entry_bytes(e: (u16, u8, Seq<u8>)) -> Seq<u8> {
    let n = if e.2.len() <= 255 {
        e.2.len()
    } else {
        255
    };
    seq![hi8(e.0), lo8(e.0), e.1, n as u8] + e.2.take(n as int)
}

/// Stored bytes of routing table entries.
pub open spec fn rt_blob(s: Seq<(u16, u8, Seq<u8>)>) -> Seq<u8>
    decreases s.len(),
{
    if s.len() == 0 {
        Seq::empty()
    } else {
        rt_blob(s.drop_last()) + rt_entry_bytes(s.last())
    }
}

/// Routing table entries decoded from `d` from `offset` on, at most `left`
/// more of them; an entry whose info runs past the end gets empty info.
pub open spec fn rt_decode(d: Seq<u8>, offset: int, left: nat) -> Seq<(u16, u8, Seq<u8>)>
    decreases left,
{
    if left == 0 || offset < 0 || offset + 4 > d.len() {
        Seq::empty()
    } else {
        let len = d[offset + 3] as int;
        let start = offset + 4;
        let info = if start + len <= d.len() {
            d.subrange(start, start + len)
        } else {
            Seq::empty()
        };
        seq![(be16(d[offset], d[offset + 1]), d[offset + 2], info)] + rt_decode(
            d,
            start + len,
            (left - 1) as nat,
        )
    }
}

/// A routing table entry as stored: port info cut to 255 bytes.
pub open spec fn rt_stored(e: (u16, u8, Seq<u8>)) -> (u16, u8, Seq<u8>) {
    (e.0, e.1, if e.2.len() <= 255 {
        e.2
    } else {
        e.2.take(255)
    })
}

/// The stored form of routing table entries starts with the first entry.
pub proof fn lemma_rt_blob_front(s: Seq<(u16, u8, Seq<u8>)>)
    requires
        s.len() > 0,
    ensures
        rt_blob(s) == rt_entry_bytes(s[0]) + rt_blob(s.drop_first()),
    decreases s.len(),
{
    if s.len() == 1 {
        assert(s.drop_last() =~= Seq::<(u16, u8, Seq<u8>)>::empty());
        assert(s.drop_first() =~= Seq::<(u16, u8, Seq<u8>)>::empty());
        assert(rt_blob(s.drop_last()) =~= Seq::<u8>::empty());
        assert(rt_blob(s) =~= rt_entry_bytes(s[0]));
        assert(rt_blob(s.drop_first()) =~= Seq::<u8>::empty());
        assert(rt_entry_bytes(s[0]) + Seq::<u8>::empty() =~= rt_entry_bytes(s[0]));
    } else {
        let p = s.drop_last();
        lemma_rt_blob_front(p);
        assert(p.drop_first() =~= s.drop_first().drop_last());
        assert(s.drop_first().last() == s.last());
        assert(rt_blob(s.drop_first()) == rt_blob(s.drop_first().drop_last()) + rt_entry_bytes(s.last()));
        assert(rt_blob(s) =~= rt_entry_bytes(s[0]) + rt_blob(s.drop_first()));
    }
}

/// Decoding stored routing table entries found at `off` in `d` gives them
/// back, port info cut to 255 bytes.
pub proof fn lemma_rt_decode_at(d: Seq<u8>, off: int, s: Seq<(u16, u8, Seq<u8>)>)
    requires
        0 <= off,
        off + rt_blob(s).len() <= d.len(),
        d.subrange(off, off + rt_blob(s).len()) == rt_blob(s),
    ensures
        rt_decode(d, off, s.len()) == s.map_values(|e: (u16, u8, Seq<u8>)| rt_stored(e)),
    decreases s.len(),
{
    if s.len() == 0 {
        assert(rt_decode(d, off, s.len()) =~= s.map_values(|e: (u16, u8, Seq<u8>)| rt_stored(e)));
    } else {
        lemma_rt_blob_front(s);
        let e = s[0];
        let eb = rt_entry_bytes(e);
        let rest = s.drop_first();
        let rb = rt_blob(rest);
        let n: int = if e.2.len() <= 255 { e.2.len() as int } else { 255 };
        assert(eb.len() == 4 + n);
        assert(d.subrange(off, off + eb.len()) =~= eb) by {
            assert forall|k: int| 0 <= k < eb.len() implies d.subrange(off, off + eb.len())[k] == eb[k] by {
                assert(d[off + k] == rt_blob(s)[k]);
            }
        }
        assert(d[off] == eb[0]);
        assert(d[off + 1] == eb[1]);
        assert(d[off + 2] == eb[2]);
        assert(d[off + 3] == eb[3]);
        assert(d[off + 3] as int == n);
        crate::bytes::lemma_be16_roundtrip(e.0);
        let start = off + 4;
        assert(start + n <= d.len());
        assert(d.subrange(start, start + n) =~= e.2.take(n)) by {
            assert forall|k: int| 0 <= k < n implies d.subrange(start, start + n)[k] == e.2.take(n)[k] by {
                assert(d[start + k] == d.subrange(off, off + eb.len())[4 + k]);
                assert(eb[4 + k] == e.2.take(n)[k]);
            }
        }
        assert(d.subrange(off + eb.len(), off + eb.len() + rb.len()) =~= rb) by {
            assert forall|k: int| 0 <= k < rb.len() implies d.subrange(off + eb.len(), off + eb.len() + rb.len())[k] == rb[k] by {
                assert(d[off + eb.len() + k] == rt_blob(s)[eb.len() + k]);
            }
        }
        lemma_rt_decode_at(d, off + eb.len(), rest);
        assert(rt_stored(e) == (e.0, e.1, e.2.take(n))) by {
            if e.2.len() <= 255 {
                assert(e.2.take(n) =~= e.2);
            }
        }
        assert(s.map_values(|e: (u16, u8, Seq<u8>)| rt_stored(e)) =~= seq![rt_stored(e)] + rest.map_values(
            |e: (u16, u8, Seq<u8>)| rt_stored(e),
        ));
    }
}

/// Decoding the stored form of a routing table, with its entry count, gives
/// back its entries, port info cut to 255 bytes.
pub proof fn lemma_rt_roundtrip(s: Seq<(u16, u8, Seq<u8>)>)
    ensures
        rt_decode(rt_blob(s), 0, s.len()) == s.map_values(|e: (u16, u8, Seq<u8>)| rt_stored(e)),
{
    assert(rt_blob(s).subrange(0, rt_blob(s).len() as int) =~= rt_blob(s));
    lemma_rt_decode_at(rt_blob(s), 0, s);
}

impl NetworkTablePersistence {
    /// The stored form of a BDT: the entry count (at most 255) and the first
    /// that many entries, 10 bytes each.
    pub fn encode_bdt(entries: &[BdtEntryConfig]) -> (r: (u8, Vec<u8>))
        ensures
            r.0 == if entries@.len() <= 255 {
                entries@.len()
            } else {
                255
            },
            r.1@ == bdt_blob(entries@.take(r.0 as int)),
    {
        let count: u8 = if entries.len() <= 255 {
            entries.len() as u8
        } else {
            255
        };
        let mut buf: Vec<u8> = Vec::new();
        let mut i: usize = 0;
        while i < count as usize
            invariant
                count <= entries@.len(),
                i <= count,
                buf@ == bdt_blob(entries@.take(i as int)),
            decreases count - i,
        {
            let e = entries[i];
            buf.push(e.address.ip[0]);
            buf.push(e.address.ip[1]);
            buf.push(e.address.ip[2]);
            buf.push(e.address.ip[3]);
            buf.push(crate::bytes::high_byte(e.address.port));
            buf.push(crate::bytes::low_byte(e.address.port));
            crate::bytes::push_be32(&mut buf, e.broadcast_mask);
            assert(entries@.take(i as int + 1).drop_last() =~= entries@.take(i as int));
            i = i + 1;
            assert(buf@ =~= bdt_blob(entries@.take(i as int)));
        }
        (count, buf)
    }

    /// BDT entries stored in `data`, one per whole 10 bytes.
    pub fn decode_bdt(data: &[u8]) -> (r: Vec<BdtEntryConfig>)
        ensures
            r@ == bdt_decode(data@),
    {
        let n = data.len() / 10;
        let mut v: Vec<BdtEntryConfig> = Vec::new();
        let mut i: usize = 0;
        while i < n
            invariant
                n == data@.len() / 10,
                n * 10 <= data@.len(),
                data@.len() <= usize::MAX,
                i <= n,
                v@.len() == i,
                forall|k: int| 0 <= k < i ==> #[trigger] v@[k] == bdt_config_from(data@, k * 10),
            decreases n - i,
        {
            assert(i * 10 + 10 <= n * 10) by (nonlinear_arith)
                requires
                    i < n,
            ;
            let off = i * 10;
            let e = BdtEntryConfig {
                address: IpEndpoint {
                    ip: [data[off], data[off + 1], data[off + 2], data[off + 3]],
                    port: crate::bytes::read_be16(data[off + 4], data[off + 5]),
                },
                broadcast_mask: crate::bytes::read_be32(
                    data[off + 6],
                    data[off + 7],
                    data[off + 8],
                    data[off + 9],
                ),
            };
            v.push(e);
            i = i + 1;
        }
        assert(v@ =~= bdt_decode(data@));
        v
    }

    /// The stored form of a routing table: the entry count (at most 255) and
    /// the first that many entries.
    pub fn encode_routing_table(entries: &[RoutingTableEntryConfig]) -> (r: (u8, Vec<u8>))
        ensures
            r.0 == if entries@.len() <= 255 {
                entries@.len()
            } else {
                255
            },
            r.1@ == rt_blob(entries@.take(r.0 as int).map_values(|e: RoutingTableEntryConfig| rt_config_view(e))),
    {
        let count: u8 = if entries.len() <= 255 {
            entries.len() as u8
        } else {
            255
        };
        let ghost views = entries@.map_values(|e: RoutingTableEntryConfig| rt_config_view(e));
        let mut buf: Vec<u8> = Vec::new();
        let mut i: usize = 0;
        while i < count as usize
            invariant
                count <= entries@.len(),
                views == entries@.map_values(|e: RoutingTableEntryConfig| rt_config_view(e)),
                i <= count,
                buf@ == rt_blob(views.take(i as int)),
            decreases count - i,
        {
            let e = &entries[i];
            buf.push(crate::bytes::high_byte(e.network));
            buf.push(crate::bytes::low_byte(e.network));
            buf.push(e.port_id);
            let n: usize = if e.port_info.len() <= 255 {
                e.port_info.len()
            } else {
                255
            };
            buf.push(n as u8);
            let info = copy_range(e.port_info.as_slice(), 0, n);
            extend_bytes(&mut buf, info.as_slice());
            assert(views[i as int] == rt_config_view(*e));
            assert(views.take(i as int + 1).drop_last() =~= views.take(i as int));
            assert(e.port_info@.subrange(0, n as int) =~= e.port_info@.take(n as int));
            i = i + 1;
            assert(buf@ =~= rt_blob(views.take(i as int)));
        }
        assert(views.take(count as int) =~= entries@.take(count as int).map_values(
            |e: RoutingTableEntryConfig| rt_config_view(e),
        ));
        (count, buf)
    }

    /// Routing table entries stored in `data`, at most `count` of them.
    pub fn decode_routing_table(count: u8, data: &[u8]) -> (r: Vec<RoutingTableEntryConfig>)
        ensures
            r@.map_values(|e: RoutingTableEntryConfig| rt_config_view(e)) == rt_decode(data@, 0, count as nat),
    {
        let mut entries: Vec<RoutingTableEntryConfig> = Vec::new();
        let mut offset: usize = 0;
        let ghost target = rt_decode(data@, 0, count as nat);
        let dlen = data.len();
        while dlen - offset >= 4 && entries.len() < count as usize
            invariant
                dlen == data@.len(),
                offset <= dlen,
                entries@.len() <= count,
                target == entries@.map_values(|e: RoutingTableEntryConfig| rt_config_view(e))
                    + rt_decode(data@, offset as int, (count - entries@.len()) as nat),
            decreases dlen - offset,
        {
            let network = crate::bytes::read_be16(data[offset], data[offset + 1]);
            let port_id = data[offset + 2];
            let info_len = data[offset + 3] as usize;
            let start = offset + 4;
            let port_info = if info_len <= dlen - start {
                copy_range(data, start, start + info_len)
            } else {
                Vec::new()
            };
            let ghost prev = entries@.map_values(|e: RoutingTableEntryConfig| rt_config_view(e));
            let ghost left = (count - entries@.len()) as nat;
            let ghost e_view = (network, port_id, port_info@);
            assert(info_len > dlen - start ==> port_info@ =~= Seq::<u8>::empty());
            entries.push(RoutingTableEntryConfig { network, port_id, port_info });
            assert(entries@.map_values(|e: RoutingTableEntryConfig| rt_config_view(e)) =~= prev.push(e_view));
            assert(rt_decode(data@, offset as int, left) =~= seq![e_view] + rt_decode(
                data@,
                start + info_len,
                (left - 1) as nat,
            ));
            assert(prev + (seq![e_view] + rt_decode(data@, start + info_len, (left - 1) as nat))
                =~= prev.push(e_view) + rt_decode(data@, start + info_len, (left - 1) as nat));
            offset = if info_len <= dlen - start {
                start + info_len
            } else {
                dlen
            };
            proof {
                if info_len > dlen - start {
                    assert(rt_decode(data@, start + info_len, (left - 1) as nat) =~= Seq::<(u16, u8, Seq<u8>)>::empty());
                    assert(rt_decode(data@, offset as int, (left - 1) as nat) =~= Seq::<(u16, u8, Seq<u8>)>::empty());
                }
            }
        }
        proof {
            let left = (count - entries@.len()) as nat;
            assert(rt_decode(data@, offset as int, left) =~= Seq::<(u16, u8, Seq<u8>)>::empty());
            assert(target =~= entries@.map_values(|e: RoutingTableEntryConfig| rt_config_view(e)));
        }
        entries
    }
}

} // verus!
