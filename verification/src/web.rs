//! The web portal's state and logic: what the configuration and BDT forms
//! change, what the API endpoints answer, and the dynamic parts of the pages.
use vstd::prelude::*;
use crate::bytes::IpEndpoint;
use crate::config::{ConfigView, GatewayConfig};
use crate::form::{
    decode_form_value, form_value, pair_key, pair_value, parse_ipv4, parse_socket_v4,
    parse_unsigned, split_chars, split_pair, split_pieces, unsigned_of, utf8_len, utf8_length,
    ipv4_of, socket_v4_of,
};
use crate::local_device::DiscoveredDevice;
use crate::mstp_driver::{has_bit, MstpStats};
use crate::npdu::joined_hex;
use crate::text::{decimal, hex2_upper, hex_digit_lower, push_decimal, push_hex2_upper, push_str, str_chars, string_from_chars};

verus! {

/// MS/TP baud rates the configuration accepts.
pub open spec fn valid_baud_rate(v: nat) -> bool {
    v == 9600 || v == 19200 || v == 38400 || v == 76800 || v == 115200
}

/// The largest device instance the configuration accepts (2^22 - 2).
pub const MAX_DEVICE_INSTANCE: u32 = 4194302;

/// The configuration after one form field `key` = `value` (already decoded):
/// each setting is taken only when it passes its check, otherwise kept.
pub open spec fn apply_setting(c: ConfigView, key: Seq<char>, value: Seq<char>) -> ConfigView {
    let n = utf8_len(value);
    if key == "wifi_ssid"@ {
        if n <= 32 {
            ConfigView { wifi_ssid: value, ..c }
        } else {
            c
        }
    } else if key == "wifi_pass"@ {
        if n >= 8 && n <= 63 {
            ConfigView { wifi_password: value, ..c }
        } else {
            c
        }
    } else if key == "ap_ssid"@ {
        if n <= 32 && n > 0 {
            ConfigView { ap_ssid: value, ..c }
        } else {
            c
        }
    } else if key == "ap_pass"@ {
        if n >= 8 && n <= 63 {
            ConfigView { ap_password: value, ..c }
        } else {
            c
        }
    } else if key == "mstp_addr"@ {
        match unsigned_of(value) {
            Some(v) => if v <= 127 {
                ConfigView { mstp_address: v as u8, ..c }
            } else {
                c
            },
            None => c,
        }
    } else if key == "mstp_max"@ {
        match unsigned_of(value) {
            Some(v) => if v <= 127 && v >= c.mstp_address {
                ConfigView { mstp_max_master: v as u8, ..c }
            } else {
                c
            },
            None => c,
        }
    } else if key == "mstp_baud"@ {
        match unsigned_of(value) {
            Some(v) => if v <= u32::MAX && valid_baud_rate(v) {
                ConfigView { mstp_baud_rate: v as u32, ..c }
            } else {
                c
            },
            None => c,
        }
    } else if key == "mstp_net"@ {
        match unsigned_of(value) {
            Some(v) => if 1 <= v <= 65534 {
                ConfigView { mstp_network: v as u16, ..c }
            } else {
                c
            },
            None => c,
        }
    } else if key == "ip_port"@ {
        match unsigned_of(value) {
            Some(v) => if 1 <= v <= 65535 {
                ConfigView { bacnet_ip_port: v as u16, ..c }
            } else {
                c
            },
            None => c,
        }
    } else if key == "ip_net"@ {
        match unsigned_of(value) {
            Some(v) => if 1 <= v <= 65534 {
                ConfigView { ip_network: v as u16, ..c }
            } else {
                c
            },
            None => c,
        }
    } else if key == "dev_inst"@ {
        match unsigned_of(value) {
            Some(v) => if v <= MAX_DEVICE_INSTANCE {
                ConfigView { device_instance: v as u32, ..c }
            } else {
                c
            },
            None => c,
        }
    } else if key == "dev_name"@ {
        if n <= 64 && n > 0 {
            ConfigView { device_name: value, ..c }
        } else {
            c
        }
    } else {
        c
    }
}

/// The configuration after the `key=value` pairs `pairs`, in order.
pub open spec fn config_after_form(c: ConfigView, pairs: Seq<Seq<char>>) -> ConfigView
    decreases pairs.len(),
{
    if pairs.len() == 0 {
        c
    } else {
        let p = pairs.last();
        apply_setting(config_after_form(c, pairs.drop_last()), pair_key(p), form_value(pair_value(p)))
    }
}

/// The configuration after the `key=value` pairs `pairs`, each value taken
/// as written.
pub open spec fn config_after_plain_form(c: ConfigView, pairs: Seq<Seq<char>>) -> ConfigView
    decreases pairs.len(),
{
    if pairs.len() == 0 {
        c
    } else {
        let p = pairs.last();
        apply_setting(config_after_plain_form(c, pairs.drop_last()), pair_key(p), pair_value(p))
    }
}

/// Whether no value of the pairs `pairs` holds a `%` escape.
pub open spec fn values_plain(pairs: Seq<Seq<char>>) -> bool {
    forall|k: int| 0 <= k < pairs.len() ==> !(#[trigger] pair_value(pairs[k])).contains('%')
}

/// Whether the characters `a` spell `lit`.
fn chars_are(a: &[char], lit: &str) -> (r: bool)
    ensures
        r == (a@ == lit@),
{
    let b = str_chars(lit);
    if a.len() != b.len() {
        return false;
    }
    let mut i: usize = 0;
    while i < a.len()
        invariant
            i <= a@.len(),
            a@.len() == b@.len(),
            b@ == lit@,
            forall|j: int| 0 <= j < i ==> a@[j] == b@[j],
        decreases a@.len() - i,
    {
        if a[i] != b[i] {
            return false;
        }
        i = i + 1;
    }
    assert(a@ =~= b@);
    true
}

/// Apply one decoded form field to the configuration.
fn apply_setting_exec(config: &mut GatewayConfig, key: &[char], value: &Vec<char>)
    ensures
        final(config)@ == apply_setting(old(config)@, key@, value@),
{
    let n = utf8_length(value.as_slice());
    proof {
        if utf8_len(value@) > usize::MAX {
            assert(n == usize::MAX);
        }
    }
    if chars_are(key, "wifi_ssid") {
        if n <= 32 {
            config.wifi_ssid = string_from_chars(value);
        }
    } else if chars_are(key, "wifi_pass") {
        if n >= 8 && n <= 63 {
            config.wifi_password = string_from_chars(value);
        }
    } else if chars_are(key, "ap_ssid") {
        if n <= 32 && n > 0 {
            config.ap_ssid = string_from_chars(value);
        }
    } else if chars_are(key, "ap_pass") {
        if n >= 8 && n <= 63 {
            config.ap_password = string_from_chars(value);
        }
    } else if chars_are(key, "mstp_addr") {
        if let Some(v) = parse_unsigned(value.as_slice(), 255) {
            if v <= 127 {
                config.mstp_address = v as u8;
            }
        }
    } else if chars_are(key, "mstp_max") {
        if let Some(v) = parse_unsigned(value.as_slice(), 255) {
            if v <= 127 && v >= config.mstp_address as u64 {
                config.mstp_max_master = v as u8;
            }
        }
    } else if chars_are(key, "mstp_baud") {
        if let Some(v) = parse_unsigned(value.as_slice(), 0xFFFF_FFFF) {
            if v == 9600 || v == 19200 || v == 38400 || v == 76800 || v == 115200 {
                config.mstp_baud_rate = v as u32;
            }
        }
    } else if chars_are(key, "mstp_net") {
        if let Some(v) = parse_unsigned(value.as_slice(), 65535) {
            if 1 <= v && v <= 65534 {
                config.mstp_network = v as u16;
            }
        }
    } else if chars_are(key, "ip_port") {
        if let Some(v) = parse_unsigned(value.as_slice(), 65535) {
            if v >= 1 {
                config.bacnet_ip_port = v as u16;
            }
        }
    } else if chars_are(key, "ip_net") {
        if let Some(v) = parse_unsigned(value.as_slice(), 65535) {
            if 1 <= v && v <= 65534 {
                config.ip_network = v as u16;
            }
        }
    } else if chars_are(key, "dev_inst") {
        if let Some(v) = parse_unsigned(value.as_slice(), 0xFFFF_FFFF) {
            if v <= MAX_DEVICE_INSTANCE as u64 {
                config.device_instance = v as u32;
            }
        }
    } else if chars_are(key, "dev_name") {
        if n <= 64 && n > 0 {
            config.device_name = string_from_chars(value);
        }
    }
}

/// Apply a URL-encoded configuration form (`key=value` pairs joined by `&`)
/// to the configuration; each setting is taken only when it is valid.
pub fn parse_config_form(body: &str, config: &mut GatewayConfig)
    ensures
        final(config)@ == config_after_form(old(config)@, split_pieces(body@, '&')),
        values_plain(split_pieces(body@, '&')) ==> final(config)@ == config_after_plain_form(
            old(config)@,
            split_pieces(body@, '&'),
        ),
{
    let chars = str_chars(body);
    let pairs = split_chars(chars.as_slice(), '&');
    let ghost pv = pairs@.map_values(|p: Vec<char>| p@);
    let mut i: usize = 0;
    while i < pairs.len()
        invariant
            i <= pairs@.len(),
            pv == pairs@.map_values(|p: Vec<char>| p@),
            pv == split_pieces(body@, '&'),
            config@ == config_after_form(old(config)@, pv.take(i as int)),
            values_plain(pv.take(i as int)) ==> config@ == config_after_plain_form(
                old(config)@,
                pv.take(i as int),
            ),
        decreases pairs@.len() - i,
    {
        let (key, raw) = split_pair(pairs[i].as_slice());
        let value = decode_form_value(raw.as_slice());
        assert(pv[i as int] == pairs@[i as int]@);
        assert(pv.take(i as int + 1).drop_last() =~= pv.take(i as int));
        proof {
            let t = pv.take(i as int + 1);
            if values_plain(t) {
                assert(t[i as int] == pv[i as int]);
                assert(!pair_value(t[i as int]).contains('%'));
                assert forall|k: int| 0 <= k < pv.take(i as int).len() implies !(#[trigger] pair_value(
                    pv.take(i as int)[k],
                )).contains('%') by {
                    assert(pv.take(i as int)[k] == t[k]);
                }
            }
        }
        apply_setting_exec(config, key.as_slice(), &value);
        i = i + 1;
    }
    assert(pv.take(i as int) =~= pv);
}

/// Traffic counters shown by the portal.
#[derive(Debug, Clone, Copy)]
pub struct GatewayStats {
    pub mstp_to_ip_packets: u64,
    pub ip_to_mstp_packets: u64,
    pub mstp_to_ip_bytes: u64,
    pub ip_to_mstp_bytes: u64,
    pub routing_errors: u64,
    pub transaction_timeouts: u64,
}

impl Default for GatewayStats {
    /// All counters zero.
    fn default() -> (r: GatewayStats)
        ensures
            r == (GatewayStats {
                mstp_to_ip_packets: 0,
                ip_to_mstp_packets: 0,
                mstp_to_ip_bytes: 0,
                ip_to_mstp_bytes: 0,
                routing_errors: 0,
                transaction_timeouts: 0,
            }),
    {
        GatewayStats {
            mstp_to_ip_packets: 0,
            ip_to_mstp_packets: 0,
            mstp_to_ip_bytes: 0,
            ip_to_mstp_bytes: 0,
            routing_errors: 0,
            transaction_timeouts: 0,
        }
    }
}

/// How many received frames the portal keeps for its debug view.
pub const RX_FRAME_HISTORY: usize = 10;

/// What the portal shows and what its forms ask of the main loop.
pub struct WebState {
    pub config: GatewayConfig,
    pub mstp_stats: MstpStats,
    pub gateway_stats: GatewayStats,
    pub wifi_connected: bool,
    pub ip_address: String,
    pub reset_stats_requested: bool,
    pub scan_requested: bool,
    pub discovered_devices: Vec<DiscoveredDevice>,
    pub scan_in_progress: bool,
    /// Clock reading (ms) when the gateway started.
    pub start_time_ms: u64,
    /// The last received data frames: source station and hex text.
    pub last_rx_frames: Vec<(u8, String)>,
    /// BDT entries as the gateway holds them: peer and mask.
    pub bdt_entries: Vec<(IpEndpoint, [u8; 4])>,
    /// A BDT entry to add.
    pub bdt_add_request: Option<(IpEndpoint, [u8; 4])>,
    /// A BDT entry to remove, by peer.
    pub bdt_remove_request: Option<IpEndpoint>,
    /// Whether the BDT is to be cleared.
    pub bdt_clear_request: bool,
}

/// Mathematical view of the portal state.
pub struct WebStateView {
    pub config: ConfigView,
    pub mstp_stats: MstpStats,
    pub gateway_stats: GatewayStats,
    pub wifi_connected: bool,
    pub ip_address: Seq<char>,
    pub reset_stats_requested: bool,
    pub scan_requested: bool,
    pub discovered_devices: Seq<DiscoveredDevice>,
    pub scan_in_progress: bool,
    pub start_time_ms: u64,
    pub last_rx_frames: Seq<(u8, Seq<char>)>,
    pub bdt_entries: Seq<(IpEndpoint, [u8; 4])>,
    pub bdt_add_request: Option<(IpEndpoint, [u8; 4])>,
    pub bdt_remove_request: Option<IpEndpoint>,
    pub bdt_clear_request: bool,
}

impl View for WebState {
    type V = WebStateView;

    open spec fn view(&self) -> WebStateView {
        WebStateView {
            config: self.config@,
            mstp_stats: self.mstp_stats,
            gateway_stats: self.gateway_stats,
            wifi_connected: self.wifi_connected,
            ip_address: self.ip_address@,
            reset_stats_requested: self.reset_stats_requested,
            scan_requested: self.scan_requested,
            discovered_devices: self.discovered_devices@,
            scan_in_progress: self.scan_in_progress,
            start_time_ms: self.start_time_ms,
            last_rx_frames: frames_view(self.last_rx_frames@),
            bdt_entries: self.bdt_entries@,
            bdt_add_request: self.bdt_add_request,
            bdt_remove_request: self.bdt_remove_request,
            bdt_clear_request: self.bdt_clear_request,
        }
    }
}

/// The received-frame history as (station, text) pairs.
pub open spec fn frames_view(f: Seq<(u8, String)>) -> Seq<(u8, Seq<char>)> {
    f.map_values(|p: (u8, String)| (p.0, p.1@))
}

/// The last `RX_FRAME_HISTORY` entries of `f`.
pub open spec fn keep_last(f: Seq<(u8, Seq<char>)>) -> Seq<(u8, Seq<char>)> {
    if f.len() > RX_FRAME_HISTORY {
        f.subrange(f.len() - RX_FRAME_HISTORY, f.len() as int)
    } else {
        f
    }
}

/// Whole seconds from `start` to `now` (none when the clock went back).
pub open spec fn uptime_spec(start: u64, now: u64) -> u64 {
    if now >= start {
        ((now - start) / 1000) as u64
    } else {
        0
    }
}

/// Uptime text: `Dd Hh Mm`, `Hh Mm` under a day, `Mm` under an hour.
pub open spec fn uptime_text(secs: u64) -> Seq<char> {
    let days = secs / 86400;
    let hours = (secs % 86400) / 3600;
    let mins = (secs % 3600) / 60;
    if days > 0 {
        decimal(days as nat) + "d "@ + decimal(hours as nat) + "h "@ + decimal(mins as nat) + "m"@
    } else if hours > 0 {
        decimal(hours as nat) + "h "@ + decimal(mins as nat) + "m"@
    } else {
        decimal(mins as nat) + "m"@
    }
}

impl WebState {
    /// Portal state for `config`, started at clock reading `now_ms`: nothing
    /// seen, requested or discovered yet.
    pub fn new(config: GatewayConfig, now_ms: u64) -> (r: WebState)
        ensures
            r.config@ == config@,
            r.mstp_stats == crate::mstp_driver::stats_zero_spec(),
            r.gateway_stats == GatewayStats::default_spec(),
            !r.wifi_connected,
            r.ip_address@ == Seq::<char>::empty(),
            !r.reset_stats_requested,
            !r.scan_requested,
            r.discovered_devices@ == Seq::<DiscoveredDevice>::empty(),
            !r.scan_in_progress,
            r.start_time_ms == now_ms,
            r.last_rx_frames@ == Seq::<(u8, String)>::empty(),
            r.bdt_entries@ == Seq::<(IpEndpoint, [u8; 4])>::empty(),
            r.bdt_add_request is None,
            r.bdt_remove_request is None,
            !r.bdt_clear_request,
    {
        WebState {
            config,
            mstp_stats: MstpStats::default(),
            gateway_stats: GatewayStats::default(),
            wifi_connected: false,
            ip_address: String::new(),
            reset_stats_requested: false,
            scan_requested: false,
            discovered_devices: Vec::new(),
            scan_in_progress: false,
            start_time_ms: now_ms,
            last_rx_frames: Vec::new(),
            bdt_entries: Vec::new(),
            bdt_add_request: None,
            bdt_remove_request: None,
            bdt_clear_request: false,
        }
    }

    /// Keep a received frame (its bytes as spaced upper-case hex) for the
    /// debug view; only the last 10 are kept.
    pub fn add_rx_frame(&mut self, source_mac: u8, data: &[u8])
        ensures
            final(self)@ == (WebStateView {
                last_rx_frames: keep_last(old(self)@.last_rx_frames.push((source_mac, joined_hex(data@)))),
                ..old(self)@
            }),
    {
        let hex = joined_hex_string(data);
        let ghost before = frames_view(self.last_rx_frames@);
        let ghost hv = hex@;
        self.last_rx_frames.push((source_mac, hex));
        let ghost all = before.push((source_mac, hv));
        assert(frames_view(self.last_rx_frames@) =~= all);
        let ghost mut dropped: int = 0;
        while self.last_rx_frames.len() > RX_FRAME_HISTORY
            invariant
                0 <= dropped <= all.len(),
                frames_view(self.last_rx_frames@) == all.subrange(dropped, all.len() as int),
                self@ == (WebStateView { last_rx_frames: frames_view(self.last_rx_frames@), ..old(self)@ }),
                dropped > 0 ==> all.len() - dropped >= RX_FRAME_HISTORY,
            decreases self.last_rx_frames@.len(),
        {
            let ghost cur = self.last_rx_frames@;
            assert(frames_view(cur).len() == cur.len());
            self.last_rx_frames.remove(0);
            proof {
                let now_v = self.last_rx_frames@;
                assert(now_v == cur.remove(0));
                assert(frames_view(now_v).len() == all.subrange(dropped + 1, all.len() as int).len());
                assert forall|k: int| 0 <= k < now_v.len() implies frames_view(now_v)[k] == all.subrange(
                    dropped + 1,
                    all.len() as int,
                )[k] by {
                    assert(now_v[k] == cur[k + 1]);
                    assert(frames_view(cur)[k + 1] == all.subrange(dropped, all.len() as int)[k + 1]);
                }
                assert(frames_view(now_v) =~= all.subrange(dropped + 1, all.len() as int));
                dropped = dropped + 1;
            }
        }
        proof {
            if all.len() > RX_FRAME_HISTORY {
                assert(dropped == all.len() - RX_FRAME_HISTORY);
            } else {
                assert(dropped == 0);
                assert(all.subrange(0, all.len() as int) =~= all);
            }
        }
    }

    /// Whole seconds since the start, at clock reading `now_ms`.
    pub fn uptime_secs(&self, now_ms: u64) -> (r: u64)
        ensures
            r == uptime_spec(self.start_time_ms, now_ms),
    {
        if now_ms >= self.start_time_ms {
            (now_ms - self.start_time_ms) / 1000
        } else {
            0
        }
    }

    /// The uptime at clock reading `now_ms` as text (e.g. `2d 5h 30m`).
    pub fn uptime_formatted(&self, now_ms: u64) -> (r: String)
        ensures
            r@ == uptime_text(uptime_spec(self.start_time_ms, now_ms)),
    {
        let secs = self.uptime_secs(now_ms);
        let days = secs / 86400;
        let hours = (secs % 86400) / 3600;
        let mins = (secs % 3600) / 60;
        let mut v: Vec<char> = Vec::new();
        if days > 0 {
            push_decimal(&mut v, days);
            push_str(&mut v, "d ");
            push_decimal(&mut v, hours);
            push_str(&mut v, "h ");
            push_decimal(&mut v, mins);
            push_str(&mut v, "m");
        } else if hours > 0 {
            push_decimal(&mut v, hours);
            push_str(&mut v, "h ");
            push_decimal(&mut v, mins);
            push_str(&mut v, "m");
        } else {
            push_decimal(&mut v, mins);
            push_str(&mut v, "m");
        }
        assert(v@ =~= uptime_text(secs));
        string_from_chars(&v)
    }

    /// Ask for a Who-Is scan: refused while one runs; otherwise the list of
    /// discovered devices is cleared and the main loop is asked to scan.
    /// Returns the JSON answer.
    pub fn request_scan(&mut self) -> (r: &'static str)
        ensures
            old(self).scan_in_progress ==> r@ == "{\"status\":\"busy\",\"message\":\"Scan already in progress\"}"@
                && final(self)@ == old(self)@,
            !old(self).scan_in_progress ==> r@ == "{\"status\":\"ok\",\"message\":\"Scan started\"}"@
                && final(self)@ == (WebStateView {
                scan_requested: true,
                scan_in_progress: true,
                discovered_devices: Seq::empty(),
                ..old(self)@
            }),
    {
        if self.scan_in_progress {
            "{\"status\":\"busy\",\"message\":\"Scan already in progress\"}"
        } else {
            self.scan_requested = true;
            self.scan_in_progress = true;
            self.discovered_devices.clear();
            "{\"status\":\"ok\",\"message\":\"Scan started\"}"
        }
    }

    /// Stop the scan; returns the JSON answer.
    pub fn stop_scan(&mut self) -> (r: &'static str)
        ensures
            final(self)@ == (WebStateView { scan_in_progress: false, ..old(self)@ }),
            r@ == "{\"status\":\"ok\",\"message\":\"Scan stopped\"}"@,
    {
        self.scan_in_progress = false;
        "{\"status\":\"ok\",\"message\":\"Scan stopped\"}"
    }

    /// Ask the main loop to reset the MS/TP statistics; returns the JSON
    /// answer.
    pub fn request_stats_reset(&mut self) -> (r: &'static str)
        ensures
            final(self)@ == (WebStateView { reset_stats_requested: true, ..old(self)@ }),
            r@ == "{\"status\":\"ok\",\"message\":\"Statistics reset requested\"}"@,
    {
        self.reset_stats_requested = true;
        "{\"status\":\"ok\",\"message\":\"Statistics reset requested\"}"
    }

    /// Ask the main loop to clear the BDT; returns the page message.
    pub fn request_bdt_clear(&mut self) -> (r: &'static str)
        ensures
            final(self)@ == (WebStateView { bdt_clear_request: true, ..old(self)@ }),
            r@ == "BDT clear requested. Entries will be removed."@,
    {
        self.bdt_clear_request = true;
        "BDT clear requested. Entries will be removed."
    }

    /// Take a pending scan request (the main loop then sends the Who-Is
    /// broadcasts).
    pub fn take_scan_request(&mut self) -> (r: bool)
        ensures
            r == old(self).scan_requested,
            final(self)@ == (WebStateView { scan_requested: false, ..old(self)@ }),
    {
        let r = self.scan_requested;
        self.scan_requested = false;
        r
    }
}

impl GatewayStats {
    /// All counters zero.
    pub open spec fn default_spec() -> GatewayStats {
        GatewayStats {
            mstp_to_ip_packets: 0,
            ip_to_mstp_packets: 0,
            mstp_to_ip_bytes: 0,
            ip_to_mstp_bytes: 0,
            routing_errors: 0,
            transaction_timeouts: 0,
        }
    }
}

/// The bytes of `data` as spaced upper-case hex.
pub fn joined_hex_string(data: &[u8]) -> (r: String)
    ensures
        r@ == joined_hex(data@),
{
    let mut v: Vec<char> = Vec::new();
    let mut i: usize = 0;
    while i < data.len()
        invariant
            i <= data@.len(),
            v@ == joined_hex(data@.take(i as int)),
        decreases data@.len() - i,
    {
        if i > 0 {
            v.push(' ');
        }
        push_hex2_upper(&mut v, data[i]);
        proof {
            reveal_strlit(" ");
            let t = data@.take(i + 1);
            assert(t.drop_last() =~= data@.take(i as int));
            if i == 0 {
                assert(data@.take(0) =~= Seq::<u8>::empty());
                assert(joined_hex(t) == hex2_upper(data@[0]));
            } else {
                assert(joined_hex(t) == joined_hex(data@.take(i as int)) + " "@ + hex2_upper(
                    data@[i as int],
                ));
            }
        }
        i = i + 1;
        assert(v@ =~= joined_hex(data@.take(i as int)));
    }
    assert(data@.take(i as int) =~= data@);
    string_from_chars(&v)
}

/// The `ip`, `port` and `mask` fields of a BDT add form after `pairs`
/// (the port starts at 47808 and changes only to a valid number).
pub open spec fn bdt_add_fields(pairs: Seq<Seq<char>>) -> (Seq<char>, u16, Seq<char>)
    decreases pairs.len(),
{
    if pairs.len() == 0 {
        (Seq::empty(), 47808u16, Seq::empty())
    } else {
        let (ip, port, mask) = bdt_add_fields(pairs.drop_last());
        let p = pairs.last();
        let key = pair_key(p);
        let value = form_value(pair_value(p));
        if key == "ip"@ {
            (value, port, mask)
        } else if key == "port"@ {
            match unsigned_of(value) {
                Some(v) => if v <= 65535 {
                    (ip, v as u16, mask)
                } else {
                    (ip, port, mask)
                },
                None => (ip, port, mask),
            }
        } else if key == "mask"@ {
            (ip, port, value)
        } else {
            (ip, port, mask)
        }
    }
}

/// What a BDT add form asks for: the peer's address, port and mask (an empty
/// mask meaning 255.255.255.255), or the message refusing it.
pub open spec fn bdt_add_outcome(body: Seq<char>) -> Result<(Seq<u8>, u16, Seq<u8>), Seq<char>> {
    let (ip, port, mask) = bdt_add_fields(split_pieces(body, '&'));
    match ipv4_of(ip) {
        None => Err("Invalid IP address format"@),
        Some(a) => if mask.len() == 0 {
            Ok((a, port, seq![255u8, 255u8, 255u8, 255u8]))
        } else {
            match ipv4_of(mask) {
                Some(m) => Ok((a, port, m)),
                None => Err("Invalid subnet mask format"@),
            }
        },
    }
}

/// Read a BDT add form and, when it is valid, ask the main loop to add the
/// entry; returns the page message.
pub fn parse_bdt_add_form(body: &str, state: &mut WebState) -> (r: &'static str)
    ensures
        match bdt_add_outcome(body@) {
            Ok((ip, port, mask)) => final(state).bdt_add_request matches Some((e, m)) && e.ip@ == ip
                && e.port == port && m@ == mask && r@ == "BDT entry add requested. Entry will be added."@,
            Err(msg) => r@ == msg && final(state).bdt_add_request == old(state).bdt_add_request,
        },
        final(state)@ == (WebStateView { bdt_add_request: final(state)@.bdt_add_request, ..old(state)@ }),
{
    let chars = str_chars(body);
    let pairs = split_chars(chars.as_slice(), '&');
    let ghost pv = pairs@.map_values(|p: Vec<char>| p@);
    let mut ip_str: Vec<char> = Vec::new();
    let mut port: u16 = 47808;
    let mut mask_str: Vec<char> = Vec::new();
    let mut i: usize = 0;
    while i < pairs.len()
        invariant
            i <= pairs@.len(),
            pv == pairs@.map_values(|p: Vec<char>| p@),
            pv == split_pieces(body@, '&'),
            bdt_add_fields(pv.take(i as int)) == (ip_str@, port, mask_str@),
        decreases pairs@.len() - i,
    {
        let (key, raw) = split_pair(pairs[i].as_slice());
        let value = decode_form_value(raw.as_slice());
        assert(pv[i as int] == pairs@[i as int]@);
        assert(pv.take(i as int + 1).drop_last() =~= pv.take(i as int));
        if chars_are(key.as_slice(), "ip") {
            ip_str = value;
        } else if chars_are(key.as_slice(), "port") {
            if let Some(p) = parse_unsigned(value.as_slice(), 65535) {
                port = p as u16;
            }
        } else if chars_are(key.as_slice(), "mask") {
            mask_str = value;
        }
        i = i + 1;
    }
    assert(pv.take(i as int) =~= pv);
    let ip = match parse_ipv4(ip_str.as_slice()) {
        Some(a) => a,
        None => {
            return "Invalid IP address format";
        },
    };
    let mask: [u8; 4] = if mask_str.len() == 0 {
        let m: [u8; 4] = [255, 255, 255, 255];
        assert(m@ =~= seq![255u8, 255u8, 255u8, 255u8]);
        m
    } else {
        match parse_ipv4(mask_str.as_slice()) {
            Some(m) => m,
            None => {
                return "Invalid subnet mask format";
            },
        }
    };
    state.bdt_add_request = Some((IpEndpoint { ip, port }, mask));
    "BDT entry add requested. Entry will be added."
}

/// The `addr` field of a BDT remove form after `pairs` (the last one wins).
pub open spec fn bdt_remove_field(pairs: Seq<Seq<char>>) -> Seq<char>
    decreases pairs.len(),
{
    if pairs.len() == 0 {
        Seq::empty()
    } else if pair_key(pairs.last()) == "addr"@ {
        form_value(pair_value(pairs.last()))
    } else {
        bdt_remove_field(pairs.drop_last())
    }
}

/// Read a BDT remove form (`addr=IP:port`) and, when the address is valid,
/// ask the main loop to remove that entry; returns the page message.
pub fn parse_bdt_remove_form(body: &str, state: &mut WebState) -> (r: &'static str)
    ensures
        match socket_v4_of(bdt_remove_field(split_pieces(body@, '&'))) {
            Some((ip, port)) => final(state).bdt_remove_request matches Some(e) && e.ip@ == ip && e.port
                == port && r@ == "BDT entry remove requested. Entry will be removed."@,
            None => r@ == "Invalid address format (expected IP:port)"@ && final(state).bdt_remove_request
                == old(state).bdt_remove_request,
        },
        final(state)@ == (WebStateView { bdt_remove_request: final(state)@.bdt_remove_request, ..old(state)@ }),
{
    let chars = str_chars(body);
    let pairs = split_chars(chars.as_slice(), '&');
    let ghost pv = pairs@.map_values(|p: Vec<char>| p@);
    let mut addr_str: Vec<char> = Vec::new();
    let mut i: usize = 0;
    while i < pairs.len()
        invariant
            i <= pairs@.len(),
            pv == pairs@.map_values(|p: Vec<char>| p@),
            pv == split_pieces(body@, '&'),
            bdt_remove_field(pv.take(i as int)) == addr_str@,
        decreases pairs@.len() - i,
    {
        let (key, raw) = split_pair(pairs[i].as_slice());
        assert(pv[i as int] == pairs@[i as int]@);
        assert(pv.take(i as int + 1).drop_last() =~= pv.take(i as int));
        if chars_are(key.as_slice(), "addr") {
            addr_str = decode_form_value(raw.as_slice());
        }
        i = i + 1;
    }
    assert(pv.take(i as int) =~= pv);
    match parse_socket_v4(addr_str.as_slice()) {
        Some(e) => {
            state.bdt_remove_request = Some(e);
            "BDT entry remove requested. Entry will be removed."
        },
        None => "Invalid address format (expected IP:port)",
    }
}

/// Name of an MS/TP state number.
pub open spec fn state_label(state: u8) -> Seq<char> {
    if state == 0 {
        "Initialize"@
    } else if state == 1 {
        "Idle"@
    } else if state == 2 {
        "UseToken"@
    } else if state == 3 {
        "WaitForReply"@
    } else if state == 4 {
        "PassToken"@
    } else if state == 5 {
        "NoToken"@
    } else if state == 6 {
        "PollForMaster"@
    } else if state == 7 {
        "AnswerDataRequest"@
    } else if state == 8 {
        "DoneWithToken"@
    } else {
        "Unknown"@
    }
}

/// Name of an MS/TP state number (`Unknown` beyond the nine states).
pub fn get_state_name(state: u8) -> (r: &'static str)
    ensures
        r@ == state_label(state),
{
    match state {
        0 => "Initialize",
        1 => "Idle",
        2 => "UseToken",
        3 => "WaitForReply",
        4 => "PassToken",
        5 => "NoToken",
        6 => "PollForMaster",
        7 => "AnswerDataRequest",
        8 => "DoneWithToken",
        _ => "Unknown",
    }
}

/// The device-map cell of station `i`: this station, an active master, or
/// empty; stations that are present can be clicked.
pub open spec fn grid_cell(m: u128, station: u8, i: u8) -> Seq<char> {
    let present = has_bit(m, i);
    let class = if i == station {
        "grid-cell self"@
    } else if present {
        "grid-cell active"@
    } else {
        "grid-cell"@
    };
    let n = decimal(i as nat);
    if present || i == station {
        "<div class=\""@ + class + "\" id=\"dev-"@ + n + "\" title=\"Address "@ + n
            + "\" onclick=\"showGridDeviceInfo("@ + n + ")\">"@ + n + "</div>"@
    } else {
        "<div class=\""@ + class + "\" id=\"dev-"@ + n + "\" title=\"Address "@ + n + "\">"@ + n
            + "</div>"@
    }
}

/// The cells of stations `0..k`.
pub open spec fn grid_cells(m: u128, station: u8, k: nat) -> Seq<char>
    decreases k,
{
    if k == 0 {
        Seq::empty()
    } else {
        grid_cells(m, station, (k - 1) as nat) + grid_cell(m, station, (k - 1) as u8)
    }
}

fn push_grid_cell(v: &mut Vec<char>, discovered_masters: u128, station_address: u8, i: u8)
    requires
        i < 128,
    ensures
        final(v)@ == old(v)@ + grid_cell(discovered_masters, station_address, i),
{
    let present = (discovered_masters >> (i as u128)) & 1 == 1;
    let is_self = i == station_address;
    let ghost start = v@;
    push_str(v, "<div class=\"");
    if is_self {
        push_str(v, "grid-cell self");
    } else if present {
        push_str(v, "grid-cell active");
    } else {
        push_str(v, "grid-cell");
    }
    push_str(v, "\" id=\"dev-");
    push_decimal(v, i as u64);
    push_str(v, "\" title=\"Address ");
    push_decimal(v, i as u64);
    if present || is_self {
        push_str(v, "\" onclick=\"showGridDeviceInfo(");
        push_decimal(v, i as u64);
        push_str(v, ")\">");
    } else {
        push_str(v, "\">");
    }
    push_decimal(v, i as u64);
    push_str(v, "</div>");
    assert(v@ =~= start + grid_cell(discovered_masters, station_address, i));
}

/// The 128 cells of the device map (stations 0 to 127) for the bitmap of
/// discovered masters `m`.
pub fn generate_device_grid_html(discovered_masters: u128, station_address: u8) -> (r: String)
    ensures
        r@ == grid_cells(discovered_masters, station_address, 128),
{
    let mut v: Vec<char> = Vec::new();
    let mut i: u8 = 0;
    while i < 128
        invariant
            i <= 128,
            v@ == grid_cells(discovered_masters, station_address, i as nat),
        decreases 128 - i,
    {
        push_grid_cell(&mut v, discovered_masters, station_address, i);
        i = i + 1;
    }
    string_from_chars(&v)
}

/// The bitmap `m` as 32 lower-case hex digits (as `{:032x}`).
pub open spec fn hex32(m: u128) -> Seq<char> {
    Seq::new(32, |k: int| hex_digit_lower(((m >> ((4 * (31 - k)) as u128)) & 0xFu128) as nat))
}

/// Render the bitmap of discovered masters as 32 lower-case hex digits.
pub fn masters_hex(m: u128) -> (r: Vec<char>)
    ensures
        r@ == hex32(m),
{
    let mut v: Vec<char> = Vec::new();
    let mut k: u32 = 0;
    while k < 32
        invariant
            k <= 32,
            v@.len() == k,
            forall|j: int| 0 <= j < k ==> v@[j] == hex32(m)[j],
        decreases 32 - k,
    {
        let shift: u128 = (4 * (31 - k)) as u128;
        let d = ((m >> shift) & 0xF) as u8;
        assert((m >> shift) & 0xFu128 < 16) by (bit_vector);
        crate::text::push_hex_digit_lower(&mut v, d);
        k = k + 1;
    }
    assert(v@ =~= hex32(m));
    v
}

/// Text of a boolean as Rust prints it.
pub open spec fn bool_text(b: bool) -> Seq<char> {
    if b {
        "true"@
    } else {
        "false"@
    }
}

fn push_bool(out: &mut Vec<char>, b: bool)
    ensures
        final(out)@ == old(out)@ + bool_text(b),
{
    if b {
        push_str(out, "true");
    } else {
        push_str(out, "false");
    }
}

/// The status API's JSON for statistics `s` and `g`, WiFi state `wifi` and
/// uptime `up` seconds.
pub open spec fn status_json_spec(s: MstpStats, g: GatewayStats, wifi: bool, up: u64) -> Seq<char> {
    "{\"rx_frames\":"@ + decimal(s.rx_frames as nat)
        + ",\"tx_frames\":"@ + decimal(s.tx_frames as nat)
        + ",\"crc_errors\":"@ + decimal(s.crc_errors as nat)
        + ",\"frame_errors\":"@ + decimal(s.frame_errors as nat)
        + ",\"reply_timeouts\":"@ + decimal(s.reply_timeouts as nat)
        + ",\"tokens_received\":"@ + decimal(s.tokens_received as nat)
        + ",\"token_pass_failures\":"@ + decimal(s.token_pass_failures as nat)
        + ",\"token_loop_ms\":"@ + decimal(s.token_loop_time_ms as nat)
        + ",\"token_loop_min_ms\":"@ + decimal(s.token_loop_min_ms as nat)
        + ",\"token_loop_max_ms\":"@ + decimal(s.token_loop_max_ms as nat)
        + ",\"token_loop_avg_ms\":"@ + decimal(s.token_loop_avg_ms as nat)
        + ",\"master_count\":"@ + decimal(s.master_count as nat)
        + ",\"mstp_to_ip\":"@ + decimal(g.mstp_to_ip_packets as nat)
        + ",\"ip_to_mstp\":"@ + decimal(g.ip_to_mstp_packets as nat)
        + ",\"wifi_connected\":"@ + bool_text(wifi)
        + ",\"discovered_masters\":\""@ + hex32(s.discovered_masters) + "\""@
        + ",\"current_state\":"@ + decimal(s.current_state as nat)
        + ",\"next_station\":"@ + decimal(s.next_station as nat)
        + ",\"poll_station\":"@ + decimal(s.poll_station as nat)
        + ",\"silence_ms\":"@ + decimal(s.silence_ms as nat)
        + ",\"station_address\":"@ + decimal(s.station_address as nat)
        + ",\"sole_master\":"@ + bool_text(s.sole_master)
        + ",\"send_queue_len\":"@ + decimal(s.send_queue_len as nat)
        + ",\"receive_queue_len\":"@ + decimal(s.receive_queue_len as nat)
        + ",\"uptime_secs\":"@ + decimal(up as nat)
        + ",\"uptime\":\""@ + uptime_text(up) + "\"}"@
}

/// The status API's JSON at clock reading `now_ms`.
pub fn generate_status_json(state: &WebState, now_ms: u64) -> (r: String)
    ensures
        r@ == status_json_spec(
            state.mstp_stats,
            state.gateway_stats,
            state.wifi_connected,
            uptime_spec(state.start_time_ms, now_ms),
        ),
{
    let s = state.mstp_stats;
    let g = state.gateway_stats;
    let wifi = state.wifi_connected;
    let up = state.uptime_secs(now_ms);
    let mut v: Vec<char> = Vec::new();
    push_str(&mut v, "{\"rx_frames\":");
    push_decimal(&mut v, s.rx_frames as u64);
    push_str(&mut v, ",\"tx_frames\":");
    push_decimal(&mut v, s.tx_frames as u64);
    push_str(&mut v, ",\"crc_errors\":");
    push_decimal(&mut v, s.crc_errors as u64);
    push_str(&mut v, ",\"frame_errors\":");
    push_decimal(&mut v, s.frame_errors as u64);
    push_str(&mut v, ",\"reply_timeouts\":");
    push_decimal(&mut v, s.reply_timeouts as u64);
    push_str(&mut v, ",\"tokens_received\":");
    push_decimal(&mut v, s.tokens_received as u64);
    push_str(&mut v, ",\"token_pass_failures\":");
    push_decimal(&mut v, s.token_pass_failures as u64);
    push_str(&mut v, ",\"token_loop_ms\":");
    push_decimal(&mut v, s.token_loop_time_ms as u64);
    push_str(&mut v, ",\"token_loop_min_ms\":");
    push_decimal(&mut v, s.token_loop_min_ms as u64);
    push_str(&mut v, ",\"token_loop_max_ms\":");
    push_decimal(&mut v, s.token_loop_max_ms as u64);
    push_str(&mut v, ",\"token_loop_avg_ms\":");
    push_decimal(&mut v, s.token_loop_avg_ms as u64);
    push_str(&mut v, ",\"master_count\":");
    push_decimal(&mut v, s.master_count as u64);
    push_str(&mut v, ",\"mstp_to_ip\":");
    push_decimal(&mut v, g.mstp_to_ip_packets as u64);
    push_str(&mut v, ",\"ip_to_mstp\":");
    push_decimal(&mut v, g.ip_to_mstp_packets as u64);
    push_str(&mut v, ",\"wifi_connected\":");
    push_bool(&mut v, wifi);
    push_str(&mut v, ",\"discovered_masters\":\"");
    let mut hx = masters_hex(s.discovered_masters);
    v.append(&mut hx);
    push_str(&mut v, "\"");
    push_str(&mut v, ",\"current_state\":");
    push_decimal(&mut v, s.current_state as u64);
    push_str(&mut v, ",\"next_station\":");
    push_decimal(&mut v, s.next_station as u64);
    push_str(&mut v, ",\"poll_station\":");
    push_decimal(&mut v, s.poll_station as u64);
    push_str(&mut v, ",\"silence_ms\":");
    push_decimal(&mut v, s.silence_ms as u64);
    push_str(&mut v, ",\"station_address\":");
    push_decimal(&mut v, s.station_address as u64);
    push_str(&mut v, ",\"sole_master\":");
    push_bool(&mut v, s.sole_master);
    push_str(&mut v, ",\"send_queue_len\":");
    push_decimal(&mut v, s.send_queue_len as u64);
    push_str(&mut v, ",\"receive_queue_len\":");
    push_decimal(&mut v, s.receive_queue_len as u64);
    push_str(&mut v, ",\"uptime_secs\":");
    push_decimal(&mut v, up as u64);
    push_str(&mut v, ",\"uptime\":\"");
    let ut = state.uptime_formatted(now_ms);
    let mut utc = str_chars(ut.as_str());
    v.append(&mut utc);
    push_str(&mut v, "\"}");
    assert(v@ =~= status_json_spec(s, g, wifi, up));
    string_from_chars(&v)
}

/// One discovered device in the devices API's JSON.
pub open spec fn device_json(d: DiscoveredDevice) -> Seq<char> {
    "{\"mac\":"@ + decimal(d.mac_address as nat) + ",\"instance\":"@ + decimal(
        d.device_instance as nat,
    ) + ",\"vendor\":"@ + decimal(d.vendor_id as nat) + ",\"max_apdu\":"@ + decimal(
        d.max_apdu_length as nat,
    ) + ",\"segmentation\":"@ + decimal(d.segmentation as nat) + "}"@
}

/// The devices of `s` in JSON, separated by commas.
pub open spec fn devices_list(s: Seq<DiscoveredDevice>) -> Seq<char>
    decreases s.len(),
{
    if s.len() == 0 {
        Seq::empty()
    } else if s.len() == 1 {
        device_json(s[0])
    } else {
        devices_list(s.drop_last()) + ","@ + device_json(s.last())
    }
}

/// The devices API's JSON: whether a scan runs and the devices found.
pub open spec fn devices_json_spec(scanning: bool, s: Seq<DiscoveredDevice>) -> Seq<char> {
    "{\"scan_in_progress\":"@ + bool_text(scanning) + ",\"devices\":["@ + devices_list(s) + "]}"@
}

fn push_device_json(out: &mut Vec<char>, d: DiscoveredDevice)
    ensures
        final(out)@ == old(out)@ + device_json(d),
{
    push_str(out, "{\"mac\":");
    push_decimal(out, d.mac_address as u64);
    push_str(out, ",\"instance\":");
    push_decimal(out, d.device_instance as u64);
    push_str(out, ",\"vendor\":");
    push_decimal(out, d.vendor_id as u64);
    push_str(out, ",\"max_apdu\":");
    push_decimal(out, d.max_apdu_length as u64);
    push_str(out, ",\"segmentation\":");
    push_decimal(out, d.segmentation as u64);
    push_str(out, "}");
    assert(final(out)@ =~= old(out)@ + device_json(d));
}

fn push_bdt_entry_json(out: &mut Vec<char>, e: (IpEndpoint, [u8; 4]))
    ensures
        final(out)@ == old(out)@ + bdt_entry_json(e),
{
    push_str(out, "{\"address\":\"");
    push_dotted(out, e.0.ip);
    push_str(out, ":");
    push_decimal(out, e.0.port as u64);
    push_str(out, "\",\"mask\":\"");
    push_dotted(out, e.1);
    push_str(out, "\"}");
    assert(final(out)@ =~= old(out)@ + bdt_entry_json(e));
}

/// The devices API's JSON.
pub fn generate_devices_json(state: &WebState) -> (r: String)
    ensures
        r@ == devices_json_spec(state.scan_in_progress, state.discovered_devices@),
{
    let mut v: Vec<char> = Vec::new();
    push_str(&mut v, "{\"scan_in_progress\":");
    push_bool(&mut v, state.scan_in_progress);
    push_str(&mut v, ",\"devices\":[");
    let ghost start = v@;
    let list = &state.discovered_devices;
    let mut i: usize = 0;
    while i < list.len()
        invariant
            i <= list@.len(),
            v@ == start + devices_list(list@.take(i as int)),
        decreases list@.len() - i,
    {
        let d = list[i];
        let ghost before = v@;
        if i > 0 {
            push_str(&mut v, ",");
        }
        push_device_json(&mut v, d);
        proof {
            let t = list@.take(i + 1);
            assert(t.drop_last() =~= list@.take(i as int));
            if i == 0 {
                assert(list@.take(0) =~= Seq::<DiscoveredDevice>::empty());
                assert(v@ =~= before + device_json(d));
            } else {
                assert(v@ =~= before + ","@ + device_json(d));
            }
        }
        i = i + 1;
        assert(v@ =~= start + devices_list(list@.take(i as int)));
    }
    assert(list@.take(i as int) =~= list@);
    push_str(&mut v, "]}");
    assert(v@ =~= devices_json_spec(state.scan_in_progress, state.discovered_devices@));
    string_from_chars(&v)
}

/// An IPv4 address in dotted-quad form.
pub open spec fn dotted(a: Seq<u8>) -> Seq<char> {
    decimal(a[0] as nat) + "."@ + decimal(a[1] as nat) + "."@ + decimal(a[2] as nat) + "."@ + decimal(
        a[3] as nat,
    )
}

pub(crate) fn push_dotted(out: &mut Vec<char>, a: [u8; 4])
    ensures
        final(out)@ == old(out)@ + dotted(a@),
{
    push_decimal(out, a[0] as u64);
    push_str(out, ".");
    push_decimal(out, a[1] as u64);
    push_str(out, ".");
    push_decimal(out, a[2] as u64);
    push_str(out, ".");
    push_decimal(out, a[3] as u64);
    assert(final(out)@ =~= old(out)@ + dotted(a@));
}

/// One BDT entry in the BDT API's JSON.
pub open spec fn bdt_entry_json(e: (IpEndpoint, [u8; 4])) -> Seq<char> {
    "{\"address\":\""@ + dotted(e.0.ip@) + ":"@ + decimal(e.0.port as nat) + "\",\"mask\":\""@
        + dotted(e.1@) + "\"}"@
}

/// The BDT entries of `s` in JSON, separated by commas.
pub open spec fn bdt_list(s: Seq<(IpEndpoint, [u8; 4])>) -> Seq<char>
    decreases s.len(),
{
    if s.len() == 0 {
        Seq::empty()
    } else if s.len() == 1 {
        bdt_entry_json(s[0])
    } else {
        bdt_list(s.drop_last()) + ","@ + bdt_entry_json(s.last())
    }
}

/// The BDT API's JSON.
pub fn generate_bdt_json(state: &WebState) -> (r: String)
    ensures
        r@ == "{\"entries\":["@ + bdt_list(state.bdt_entries@) + "]}"@,
{
    let mut v: Vec<char> = Vec::new();
    push_str(&mut v, "{\"entries\":[");
    let ghost start = v@;
    let list = &state.bdt_entries;
    let mut i: usize = 0;
    while i < list.len()
        invariant
            i <= list@.len(),
            v@ == start + bdt_list(list@.take(i as int)),
        decreases list@.len() - i,
    {
        let e = list[i];
        let ghost before = v@;
        if i > 0 {
            push_str(&mut v, ",");
        }
        push_bdt_entry_json(&mut v, e);
        proof {
            let t = list@.take(i + 1);
            assert(t.drop_last() =~= list@.take(i as int));
            if i == 0 {
                assert(list@.take(0) =~= Seq::<(IpEndpoint, [u8; 4])>::empty());
                assert(v@ =~= before + bdt_entry_json(e));
            } else {
                assert(v@ =~= before + ","@ + bdt_entry_json(e));
            }
        }
        i = i + 1;
        assert(v@ =~= start + bdt_list(list@.take(i as int)));
    }
    assert(list@.take(i as int) =~= list@);
    push_str(&mut v, "]}");
    string_from_chars(&v)
}

/// One kept frame in the debug API's JSON.
pub open spec fn frame_json(f: (u8, Seq<char>)) -> Seq<char> {
    "{\"mac\":"@ + decimal(f.0 as nat) + ",\"data\":\""@ + f.1 + "\"}"@
}

/// The kept frames of `s` in JSON, separated by commas.
pub open spec fn frames_list(s: Seq<(u8, Seq<char>)>) -> Seq<char>
    decreases s.len(),
{
    if s.len() == 0 {
        Seq::empty()
    } else if s.len() == 1 {
        frame_json(s[0])
    } else {
        frames_list(s.drop_last()) + ","@ + frame_json(s.last())
    }
}

impl WebState {
    /// The debug API's JSON of the frames kept.
    pub fn debug_frames_json(&self) -> (r: String)
        ensures
            r@ == "{\"frames\":["@ + frames_list(frames_view(self.last_rx_frames@)) + "]}"@,
    {
        let mut v: Vec<char> = Vec::new();
        push_str(&mut v, "{\"frames\":[");
        let ghost start = v@;
        let ghost fv = frames_view(self.last_rx_frames@);
        let mut i: usize = 0;
        while i < self.last_rx_frames.len()
            invariant
                i <= self.last_rx_frames@.len(),
                fv == frames_view(self.last_rx_frames@),
                v@ == start + frames_list(fv.take(i as int)),
            decreases self.last_rx_frames@.len() - i,
        {
            let ghost before = v@;
            let mac = self.last_rx_frames[i].0;
            if i > 0 {
                push_str(&mut v, ",");
            }
            push_str(&mut v, "{\"mac\":");
            push_decimal(&mut v, mac as u64);
            push_str(&mut v, ",\"data\":\"");
            let mut data = str_chars(self.last_rx_frames[i].1.as_str());
            v.append(&mut data);
            push_str(&mut v, "\"}");
            proof {
                let t = fv.take(i + 1);
                assert(t.drop_last() =~= fv.take(i as int));
                assert(fv[i as int] == (mac, self.last_rx_frames@[i as int].1@));
                if i == 0 {
                    assert(fv.take(0) =~= Seq::<(u8, Seq<char>)>::empty());
                    assert(v@ =~= before + frame_json(fv[i as int]));
                } else {
                    assert(v@ =~= before + ","@ + frame_json(fv[i as int]));
                }
            }
            i = i + 1;
            assert(v@ =~= start + frames_list(fv.take(i as int)));
        }
        assert(fv.take(i as int) =~= fv);
        push_str(&mut v, "]}");
        string_from_chars(&v)
    }
}

/// The stations marked in `m` below `k`, in decimal, separated by commas.
pub open spec fn address_list(m: u128, k: nat) -> Seq<char>
    decreases k,
{
    if k == 0 {
        Seq::empty()
    } else if !has_bit(m, (k - 1) as u8) {
        address_list(m, (k - 1) as nat)
    } else if address_list(m, (k - 1) as nat).len() == 0 {
        decimal((k - 1) as nat)
    } else {
        address_list(m, (k - 1) as nat) + ","@ + decimal((k - 1) as nat)
    }
}

fn push_address_list(out: &mut Vec<char>, m: u128)
    ensures
        final(out)@ == old(out)@ + address_list(m, 128),
{
    let ghost start = out@;
    let mut first = true;
    let mut i: u8 = 0;
    while i < 128
        invariant
            i <= 128,
            out@ == start + address_list(m, i as nat),
            first == (address_list(m, i as nat).len() == 0),
        decreases 128 - i,
    {
        if (m >> (i as u128)) & 1 == 1 {
            if !first {
                push_str(out, ",");
            }
            push_decimal(out, i as u64);
            proof {
                reveal_with_fuel(decimal, 1);
            }
            assert(decimal(i as nat).len() > 0);
            first = false;
        }
        i = i + 1;
    }
}

fn push_string(out: &mut Vec<char>, s: &String)
    ensures
        final(out)@ == old(out)@ + s@,
{
    let mut c = str_chars(s.as_str());
    out.append(&mut c);
}

/// The export API's JSON for configuration `c`, statistics `s` and `g`, the
/// gateway's address text `ip`, WiFi state `wifi`, uptime `up` seconds and
/// the wall-clock reading `epoch_secs`.
pub open spec fn export_json_spec(
    c: ConfigView,
    s: MstpStats,
    g: GatewayStats,
    ip: Seq<char>,
    wifi: bool,
    up: u64,
    epoch_secs: u64,
) -> Seq<char> {
    "{\n  \"export_time\": \""@
        + "uptime_"@ + decimal(epoch_secs as nat) + "s"@
        + "\",\n  \"uptime_secs\": "@
        + decimal(up as nat)
        + ",\n  \"uptime\": \""@
        + uptime_text(up)
        + "\",\n  \"device\": {\n    \"name\": \""@
        + c.device_name
        + "\",\n    \"instance\": "@
        + decimal(c.device_instance as nat)
        + ",\n    \"station_address\": "@
        + decimal(s.station_address as nat)
        + ",\n    \"ip_address\": \""@
        + ip
        + "\"\n  },\n  \"networks\": {\n    \"mstp_network\": "@
        + decimal(c.mstp_network as nat)
        + ",\n    \"ip_network\": "@
        + decimal(c.ip_network as nat)
        + ",\n    \"baud_rate\": "@
        + decimal(c.mstp_baud_rate as nat)
        + "\n  },\n  \"mstp_stats\": {\n    \"rx_frames\": "@
        + decimal(s.rx_frames as nat)
        + ",\n    \"tx_frames\": "@
        + decimal(s.tx_frames as nat)
        + ",\n    \"tokens_received\": "@
        + decimal(s.tokens_received as nat)
        + ",\n    \"crc_errors\": "@
        + decimal(s.crc_errors as nat)
        + ",\n    \"frame_errors\": "@
        + decimal(s.frame_errors as nat)
        + ",\n    \"reply_timeouts\": "@
        + decimal(s.reply_timeouts as nat)
        + ",\n    \"token_pass_failures\": "@
        + decimal(s.token_pass_failures as nat)
        + ",\n    \"master_count\": "@
        + decimal(s.master_count as nat)
        + ",\n    \"discovered_masters_hex\": \""@
        + hex32(s.discovered_masters)
        + "\",\n    \"discovered_addresses\": ["@
        + address_list(s.discovered_masters, 128)
        + "]\n  },\n  \"token_loop_timing\": {\n    \"current_ms\": "@
        + decimal(s.token_loop_time_ms as nat)
        + ",\n    \"min_ms\": "@
        + decimal(s.token_loop_min_ms as nat)
        + ",\n    \"max_ms\": "@
        + decimal(s.token_loop_max_ms as nat)
        + ",\n    \"avg_ms\": "@
        + decimal(s.token_loop_avg_ms as nat)
        + "\n  },\n  \"queues\": {\n    \"send_queue_len\": "@
        + decimal(s.send_queue_len as nat)
        + ",\n    \"receive_queue_len\": "@
        + decimal(s.receive_queue_len as nat)
        + "\n  },\n  \"state_machine\": {\n    \"current_state\": \""@
        + state_label(s.current_state)
        + "\",\n    \"sole_master\": "@
        + bool_text(s.sole_master)
        + ",\n    \"next_station\": "@
        + decimal(s.next_station as nat)
        + ",\n    \"poll_station\": "@
        + decimal(s.poll_station as nat)
        + ",\n    \"silence_ms\": "@
        + decimal(s.silence_ms as nat)
        + "\n  },\n  \"gateway_stats\": {\n    \"mstp_to_ip_packets\": "@
        + decimal(g.mstp_to_ip_packets as nat)
        + ",\n    \"ip_to_mstp_packets\": "@
        + decimal(g.ip_to_mstp_packets as nat)
        + "\n  },\n  \"wifi\": {\n    \"connected\": "@
        + bool_text(wifi)
        + ",\n    \"ssid\": \""@
        + c.wifi_ssid
        + "\"\n  }\n}"@
}

/// The export API's JSON at clock reading `now_ms`, stamped with the
/// wall-clock reading `epoch_secs`.
pub fn generate_export_json(state: &WebState, now_ms: u64, epoch_secs: u64) -> (r: String)
    ensures
        r@ == export_json_spec(
            state.config@,
            state.mstp_stats,
            state.gateway_stats,
            state.ip_address@,
            state.wifi_connected,
            uptime_spec(state.start_time_ms, now_ms),
            epoch_secs,
        ),
{
    let s = state.mstp_stats;
    let up = state.uptime_secs(now_ms);
    let mut v: Vec<char> = Vec::new();
    push_str(&mut v, "{\n  \"export_time\": \"");
    push_str(&mut v, "uptime_");
    push_decimal(&mut v, epoch_secs);
    push_str(&mut v, "s");
    push_str(&mut v, "\",\n  \"uptime_secs\": ");
    push_decimal(&mut v, up as u64);
    push_str(&mut v, ",\n  \"uptime\": \"");
    let ut = state.uptime_formatted(now_ms);
    push_string(&mut v, &ut);
    push_str(&mut v, "\",\n  \"device\": {\n    \"name\": \"");
    push_string(&mut v, &state.config.device_name);
    push_str(&mut v, "\",\n    \"instance\": ");
    push_decimal(&mut v, state.config.device_instance as u64);
    push_str(&mut v, ",\n    \"station_address\": ");
    push_decimal(&mut v, s.station_address as u64);
    push_str(&mut v, ",\n    \"ip_address\": \"");
    push_string(&mut v, &state.ip_address);
    push_str(&mut v, "\"\n  },\n  \"networks\": {\n    \"mstp_network\": ");
    push_decimal(&mut v, state.config.mstp_network as u64);
    push_str(&mut v, ",\n    \"ip_network\": ");
    push_decimal(&mut v, state.config.ip_network as u64);
    push_str(&mut v, ",\n    \"baud_rate\": ");
    push_decimal(&mut v, state.config.mstp_baud_rate as u64);
    push_str(&mut v, "\n  },\n  \"mstp_stats\": {\n    \"rx_frames\": ");
    push_decimal(&mut v, s.rx_frames as u64);
    push_str(&mut v, ",\n    \"tx_frames\": ");
    push_decimal(&mut v, s.tx_frames as u64);
    push_str(&mut v, ",\n    \"tokens_received\": ");
    push_decimal(&mut v, s.tokens_received as u64);
    push_str(&mut v, ",\n    \"crc_errors\": ");
    push_decimal(&mut v, s.crc_errors as u64);
    push_str(&mut v, ",\n    \"frame_errors\": ");
    push_decimal(&mut v, s.frame_errors as u64);
    push_str(&mut v, ",\n    \"reply_timeouts\": ");
    push_decimal(&mut v, s.reply_timeouts as u64);
    push_str(&mut v, ",\n    \"token_pass_failures\": ");
    push_decimal(&mut v, s.token_pass_failures as u64);
    push_str(&mut v, ",\n    \"master_count\": ");
    push_decimal(&mut v, s.master_count as u64);
    push_str(&mut v, ",\n    \"discovered_masters_hex\": \"");
    let mut hx = masters_hex(s.discovered_masters);
    v.append(&mut hx);
    push_str(&mut v, "\",\n    \"discovered_addresses\": [");
    push_address_list(&mut v, s.discovered_masters);
    push_str(&mut v, "]\n  },\n  \"token_loop_timing\": {\n    \"current_ms\": ");
    push_decimal(&mut v, s.token_loop_time_ms as u64);
    push_str(&mut v, ",\n    \"min_ms\": ");
    push_decimal(&mut v, s.token_loop_min_ms as u64);
    push_str(&mut v, ",\n    \"max_ms\": ");
    push_decimal(&mut v, s.token_loop_max_ms as u64);
    push_str(&mut v, ",\n    \"avg_ms\": ");
    push_decimal(&mut v, s.token_loop_avg_ms as u64);
    push_str(&mut v, "\n  },\n  \"queues\": {\n    \"send_queue_len\": ");
    push_decimal(&mut v, s.send_queue_len as u64);
    push_str(&mut v, ",\n    \"receive_queue_len\": ");
    push_decimal(&mut v, s.receive_queue_len as u64);
    push_str(&mut v, "\n  },\n  \"state_machine\": {\n    \"current_state\": \"");
    push_str(&mut v, get_state_name(s.current_state));
    push_str(&mut v, "\",\n    \"sole_master\": ");
    push_bool(&mut v, s.sole_master);
    push_str(&mut v, ",\n    \"next_station\": ");
    push_decimal(&mut v, s.next_station as u64);
    push_str(&mut v, ",\n    \"poll_station\": ");
    push_decimal(&mut v, s.poll_station as u64);
    push_str(&mut v, ",\n    \"silence_ms\": ");
    push_decimal(&mut v, s.silence_ms as u64);
    push_str(&mut v, "\n  },\n  \"gateway_stats\": {\n    \"mstp_to_ip_packets\": ");
    push_decimal(&mut v, state.gateway_stats.mstp_to_ip_packets as u64);
    push_str(&mut v, ",\n    \"ip_to_mstp_packets\": ");
    push_decimal(&mut v, state.gateway_stats.ip_to_mstp_packets as u64);
    push_str(&mut v, "\n  },\n  \"wifi\": {\n    \"connected\": ");
    push_bool(&mut v, state.wifi_connected);
    push_str(&mut v, ",\n    \"ssid\": \"");
    push_string(&mut v, &state.config.wifi_ssid);
    push_str(&mut v, "\"\n  }\n}");
    assert(v@ =~= export_json_spec(
        state.config@,
        state.mstp_stats,
        state.gateway_stats,
        state.ip_address@,
        state.wifi_connected,
        up,
        epoch_secs,
    ));
    string_from_chars(&v)
}

} // verus!
