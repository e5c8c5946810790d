//! Tables a BACnet/IP router keeps: address translations with aging, the
//! foreign device table (Annex J.5), the broadcast distribution table
//! (Annex J.3) and the routing table (Clause 6.4), with the BVLC
//! acknowledgements that report them.
use vstd::prelude::*;
use crate::bytes::{be16, hi8, lo8, IpEndpoint};
use crate::mstp_driver::elapsed;
use crate::router_msgs::{bip_address, BVLC_READ_BDT_ACK, BVLC_READ_FDT_ACK};

verus! {

/// An address table entry stamped with the clock reading when it was last
/// seen (ms).
#[derive(Debug, Clone, Copy)]
pub struct AddressEntry<T> {
    pub address: T,
    pub last_seen_ms: u64,
}

impl<T: Copy> AddressEntry<T> {
    /// An entry first seen at `now_ms`.
    pub fn new(address: T, now_ms: u64) -> (r: AddressEntry<T>)
        ensures
            r.address == address,
            r.last_seen_ms == now_ms,
    {
        AddressEntry { address, last_seen_ms: now_ms }
    }

    /// Mark the entry seen at `now_ms`.
    pub fn touch(&mut self, now_ms: u64)
        ensures
            final(self).address == old(self).address,
            final(self).last_seen_ms == now_ms,
    {
        self.last_seen_ms = now_ms;
    }

    /// Whether more than `max_age_ms` has passed since the entry was seen.
    pub fn is_expired(&self, max_age_ms: u64, now_ms: u64) -> (r: bool)
        ensures
            r == (elapsed(now_ms, self.last_seen_ms) > max_age_ms),
    {
        let e = if now_ms >= self.last_seen_ms {
            now_ms - self.last_seen_ms
        } else {
            0
        };
        e > max_age_ms
    }
}

/// A foreign device registration (Annex J.5).
#[derive(Debug, Clone, Copy)]
pub struct ForeignDeviceEntry {
    /// B/IP address of the foreign device.
    pub address: IpEndpoint,
    /// Time-to-live it registered with, in seconds.
    pub ttl_seconds: u16,
    /// Clock reading of the registration or last refresh (ms).
    pub registered_at_ms: u64,
}

/// Whether a registration has outlived its time-to-live at `now`.
pub open spec fn fd_expired(e: ForeignDeviceEntry, now: u64) -> bool {
    elapsed(now, e.registered_at_ms) > (e.ttl_seconds as int) * 1000
}

/// Seconds of a registration's time-to-live left at `now`.
pub open spec fn fd_remaining(e: ForeignDeviceEntry, now: u64) -> u16 {
    let gone = ((elapsed(now, e.registered_at_ms) / 1000) % 65536) as u16;
    if e.ttl_seconds >= gone {
        (e.ttl_seconds - gone) as u16
    } else {
        0
    }
}

impl ForeignDeviceEntry {
    /// A registration made at `now_ms`.
    pub fn new(address: IpEndpoint, ttl_seconds: u16, now_ms: u64) -> (r: ForeignDeviceEntry)
        ensures
            r == (ForeignDeviceEntry { address, ttl_seconds, registered_at_ms: now_ms }),
    {
        ForeignDeviceEntry { address, ttl_seconds, registered_at_ms: now_ms }
    }

    /// Refresh the registration at `now_ms` with a new time-to-live.
    pub fn refresh(&mut self, ttl_seconds: u16, now_ms: u64)
        ensures
            *final(self) == (ForeignDeviceEntry {
                ttl_seconds,
                registered_at_ms: now_ms,
                ..*old(self)
            }),
    {
        self.ttl_seconds = ttl_seconds;
        self.registered_at_ms = now_ms;
    }

    /// Whether the registration has expired at `now_ms`.
    pub fn is_expired(&self, now_ms: u64) -> (r: bool)
        ensures
            r == fd_expired(*self, now_ms),
    {
        let e = if now_ms >= self.registered_at_ms {
            now_ms - self.registered_at_ms
        } else {
            0
        };
        e > (self.ttl_seconds as u64) * 1000
    }

    /// Seconds of time-to-live left at `now_ms`.
    pub fn remaining_ttl(&self, now_ms: u64) -> (r: u16)
        ensures
            r == fd_remaining(*self, now_ms),
    {
        let e = if now_ms >= self.registered_at_ms {
            now_ms - self.registered_at_ms
        } else {
            0
        };
        let gone = ((e / 1000) % 65536) as u16;
        self.ttl_seconds.saturating_sub(gone)
    }
}

/// A broadcast distribution table entry: a peer BBMD and its broadcast
/// distribution mask (Annex J.3).
#[derive(Debug, Clone, Copy)]
pub struct BdtEntry {
    pub address: IpEndpoint,
    pub mask: [u8; 4],
}

/// A routing table entry (Clause 6.4).
#[derive(Debug, Clone)]
pub struct RoutingTableEntry {
    /// Destination network number.
    pub network: u16,
    /// Port the network is reached through.
    pub port_id: u8,
    /// Port information (MAC address) given for it.
    pub port_info: Vec<u8>,
}

/// View of a routing table entry.
pub open spec fn route_view(e: RoutingTableEntry) -> (u16, u8, Seq<u8>) {
    (e.network, e.port_id, e.port_info@)
}

/// Index of the first entry keyed `k` at or after `i`.
pub open spec fn index_of_key_from<K, V>(s: Seq<(K, V)>, k: K, i: int) -> Option<int>
    decreases s.len() - i,
{
    if i < 0 || i >= s.len() {
        None
    } else if s[i].0 == k {
        Some(i)
    } else {
        index_of_key_from(s, k, i + 1)
    }
}

/// Index of the first entry keyed `k`.
pub open spec fn index_of_key<K, V>(s: Seq<(K, V)>, k: K) -> Option<int> {
    index_of_key_from(s, k, 0)
}

pub proof fn lemma_index_of_key_from<K, V>(s: Seq<(K, V)>, k: K, i: int)
    requires
        0 <= i,
    ensures
        index_of_key_from(s, k, i) matches Some(j) ==> i <= j < s.len() && s[j].0 == k,
        index_of_key_from(s, k, i) is None ==> forall|j: int| i <= j < s.len() ==> s[j].0 != k,
    decreases s.len() - i,
{
    if i < s.len() && s[i].0 != k {
        lemma_index_of_key_from(s, k, i + 1);
    }
}

/// Table `s` with key `k` mapped to `v`: the first entry keyed `k` is
/// replaced, or the pair is appended.
pub open spec fn upsert<K, V>(s: Seq<(K, V)>, k: K, v: V) -> Seq<(K, V)> {
    match index_of_key(s, k) {
        Some(i) => s.update(i, (k, v)),
        None => s.push((k, v)),
    }
}

/// Whether no key occurs twice in table `s`.
pub open spec fn keys_distinct<K, V>(s: Seq<(K, V)>) -> bool {
    forall|i: int, j: int| 0 <= i < j < s.len() ==> #[trigger] s[i].0 != #[trigger] s[j].0
}

/// Mapping a key keeps the keys of a table distinct.
pub proof fn lemma_upsert_keeps_keys_distinct<K, V>(s: Seq<(K, V)>, k: K, v: V)
    requires
        keys_distinct(s),
    ensures
        keys_distinct(upsert(s, k, v)),
{
    lemma_index_of_key_from(s, k, 0);
    let t = upsert(s, k, v);
    assert forall|i: int, j: int| 0 <= i < j < t.len() implies #[trigger] t[i].0 != #[trigger] t[j].0 by {
        match index_of_key(s, k) {
            Some(m) => {
                if i == m {
                    assert(s[j].0 != s[m].0);
                } else if j == m {
                    assert(s[i].0 != s[m].0);
                } else {
                    assert(s[i].0 != s[j].0);
                }
            },
            None => {
                if j < s.len() {
                    assert(s[i].0 != s[j].0);
                }
            },
        }
    }
}

/// Every key of the fresh entries of `s` is a key of `s`.
proof fn lemma_fresh_keys_from<K, V>(s: Seq<(K, AddressEntry<V>)>, max_age: u64, now: u64, k: int)
    requires
        0 <= k < fresh_entries(s, max_age, now).len(),
    ensures
        exists|j: int| 0 <= j < s.len() && s[j] == fresh_entries(s, max_age, now)[k],
    decreases s.len(),
{
    if s.len() > 0 {
        let f = fresh_entries(s.drop_last(), max_age, now);
        if k < f.len() {
            lemma_fresh_keys_from(s.drop_last(), max_age, now, k);
            let j = choose|j: int| 0 <= j < s.drop_last().len() && s.drop_last()[j] == f[k];
            assert(s[j] == f[k]);
        } else {
            assert(s[s.len() - 1] == fresh_entries(s, max_age, now)[k]);
        }
    }
}

/// Dropping stale entries keeps the keys of a table distinct.
pub proof fn lemma_fresh_keeps_keys_distinct<K, V>(s: Seq<(K, AddressEntry<V>)>, max_age: u64, now: u64)
    requires
        keys_distinct(s),
    ensures
        keys_distinct(fresh_entries(s, max_age, now)),
    decreases s.len(),
{
    if s.len() > 0 {
        let p = s.drop_last();
        assert(keys_distinct(p)) by {
            assert forall|i: int, j: int| 0 <= i < j < p.len() implies #[trigger] p[i].0 != #[trigger] p[j].0 by {
                assert(s[i].0 != s[j].0);
            }
        }
        lemma_fresh_keeps_keys_distinct(p, max_age, now);
        let f = fresh_entries(p, max_age, now);
        let t = fresh_entries(s, max_age, now);
        if !(elapsed(now, s.last().1.last_seen_ms) > max_age) {
            assert forall|i: int, j: int| 0 <= i < j < t.len() implies #[trigger] t[i].0 != #[trigger] t[j].0 by {
                if j == f.len() {
                    lemma_fresh_keys_from(p, max_age, now, i);
                    let a = choose|a: int| 0 <= a < p.len() && p[a] == f[i];
                    assert(s[a].0 != s[s.len() - 1].0);
                } else {
                    assert(f[i].0 != f[j].0);
                }
            }
        }
    }
}

/// Find the first entry keyed `k` (endpoint keys).
pub fn find_endpoint<V: Copy>(s: &Vec<(IpEndpoint, V)>, k: IpEndpoint) -> (r: Option<usize>)
    ensures
        match r {
            Some(i) => index_of_key(s@, k) == Some(i as int),
            None => index_of_key(s@, k) is None,
        },
{
    let mut i: usize = 0;
    while i < s.len()
        invariant
            i <= s@.len(),
            index_of_key(s@, k) == index_of_key_from(s@, k, i as int),
        decreases s@.len() - i,
    {
        if crate::bytes::endpoint_eq(&s[i].0, &k) {
            assert(s@[i as int].0.ip =~= k.ip);
            return Some(i);
        }
        proof {
            if s@[i as int].0 == k {
                assert(s@[i as int].0.ip@ == k.ip@);
            }
        }
        i = i + 1;
    }
    None
}

/// Find the first entry keyed `k` (byte keys).
pub fn find_u8_key<V: Copy>(s: &Vec<(u8, V)>, k: u8) -> (r: Option<usize>)
    ensures
        match r {
            Some(i) => index_of_key(s@, k) == Some(i as int),
            None => index_of_key(s@, k) is None,
        },
{
    let mut i: usize = 0;
    while i < s.len()
        invariant
            i <= s@.len(),
            index_of_key(s@, k) == index_of_key_from(s@, k, i as int),
        decreases s@.len() - i,
    {
        if s[i].0 == k {
            return Some(i);
        }
        i = i + 1;
    }
    None
}

/// Entries of an address table that are not older than `max_age` at `now`.
pub open spec fn fresh_entries<K, V>(s: Seq<(K, AddressEntry<V>)>, max_age: u64, now: u64) -> Seq<(K, AddressEntry<V>)>
    decreases s.len(),
{
    if s.len() == 0 {
        s
    } else if elapsed(now, s.last().1.last_seen_ms) > max_age {
        fresh_entries(s.drop_last(), max_age, now)
    } else {
        fresh_entries(s.drop_last(), max_age, now).push(s.last())
    }
}

/// Drop the entries of an address table older than `max_age_ms`.
pub fn prune_address_table<K: Copy, V: Copy>(s: &mut Vec<(K, AddressEntry<V>)>, max_age_ms: u64, now_ms: u64)
    ensures
        final(s)@ == fresh_entries(old(s)@, max_age_ms, now_ms),
{
    let ghost all = s@;
    let mut kept: Vec<(K, AddressEntry<V>)> = Vec::new();
    let mut i: usize = 0;
    while i < s.len()
        invariant
            s@ == all,
            i <= all.len(),
            kept@ == fresh_entries(all.take(i as int), max_age_ms, now_ms),
        decreases all.len() - i,
    {
        let e = s[i];
        assert(all.take(i as int + 1).drop_last() =~= all.take(i as int));
        if !e.1.is_expired(max_age_ms, now_ms) {
            kept.push(e);
        }
        i = i + 1;
    }
    assert(all.take(i as int) =~= all);
    *s = kept;
}

/// Registrations of `s` that have not expired at `now`.
pub open spec fn live_registrations(s: Seq<ForeignDeviceEntry>, now: u64) -> Seq<ForeignDeviceEntry>
    decreases s.len(),
{
    if s.len() == 0 {
        s
    } else if fd_expired(s.last(), now) {
        live_registrations(s.drop_last(), now)
    } else {
        live_registrations(s.drop_last(), now).push(s.last())
    }
}

/// Dropping expired registrations never adds any.
pub proof fn lemma_live_registrations_len(s: Seq<ForeignDeviceEntry>, now: u64)
    ensures
        live_registrations(s, now).len() <= s.len(),
    decreases s.len(),
{
    if s.len() > 0 {
        lemma_live_registrations_len(s.drop_last(), now);
    }
}

/// Drop expired registrations.
pub fn prune_foreign_devices(s: &mut Vec<ForeignDeviceEntry>, now_ms: u64)
    ensures
        final(s)@ == live_registrations(old(s)@, now_ms),
{
    let ghost all = s@;
    let mut kept: Vec<ForeignDeviceEntry> = Vec::new();
    let mut i: usize = 0;
    while i < s.len()
        invariant
            s@ == all,
            i <= all.len(),
            kept@ == live_registrations(all.take(i as int), now_ms),
        decreases all.len() - i,
    {
        let e = s[i];
        assert(all.take(i as int + 1).drop_last() =~= all.take(i as int));
        if !e.is_expired(now_ms) {
            kept.push(e);
        }
        i = i + 1;
    }
    assert(all.take(i as int) =~= all);
    *s = kept;
}

/// Whether endpoint `e` has address octets `ip` and port `port`.
pub open spec fn ep_is(e: IpEndpoint, ip: Seq<u8>, port: u16) -> bool {
    e.ip@ == ip && e.port == port
}

/// Index of the first registration of the endpoint `ip`:`port` at or after `i`.
pub open spec fn fd_index_from(s: Seq<ForeignDeviceEntry>, ip: Seq<u8>, port: u16, i: int) -> Option<int>
    decreases s.len() - i,
{
    if i < 0 || i >= s.len() {
        None
    } else if ep_is(s[i].address, ip, port) {
        Some(i)
    } else {
        fd_index_from(s, ip, port, i + 1)
    }
}

/// Index of the registration of the endpoint `ip`:`port`.
pub open spec fn fd_index(s: Seq<ForeignDeviceEntry>, ip: Seq<u8>, port: u16) -> Option<int> {
    fd_index_from(s, ip, port, 0)
}

pub proof fn lemma_fd_index_from(s: Seq<ForeignDeviceEntry>, ip: Seq<u8>, port: u16, i: int)
    requires
        0 <= i,
    ensures
        fd_index_from(s, ip, port, i) matches Some(j) ==> i <= j < s.len() && ep_is(s[j].address, ip, port),
        fd_index_from(s, ip, port, i) is None ==> forall|j: int|
            i <= j < s.len() ==> !ep_is(#[trigger] s[j].address, ip, port),
    decreases s.len() - i,
{
    if i < s.len() && !ep_is(s[i].address, ip, port) {
        lemma_fd_index_from(s, ip, port, i + 1);
    }
}

/// Find the registration of `a`.
pub fn find_foreign_device(s: &Vec<ForeignDeviceEntry>, a: IpEndpoint) -> (r: Option<usize>)
    ensures
        match r {
            Some(i) => fd_index(s@, a.ip@, a.port) == Some(i as int) && i < s@.len(),
            None => fd_index(s@, a.ip@, a.port) is None,
        },
{
    let mut i: usize = 0;
    while i < s.len()
        invariant
            i <= s@.len(),
            fd_index(s@, a.ip@, a.port) == fd_index_from(s@, a.ip@, a.port, i as int),
        decreases s@.len() - i,
    {
        if crate::bytes::endpoint_eq(&s[i].address, &a) {
            return Some(i);
        }
        i = i + 1;
    }
    None
}

/// `s` without the entry at index `i`.
pub fn remove_foreign_device(s: &mut Vec<ForeignDeviceEntry>, i: usize)
    requires
        i < old(s)@.len(),
    ensures
        final(s)@ == old(s)@.remove(i as int),
{
    s.remove(i);
}

/// Bytes of one Read-FDT-Ack entry: B/IP address, time-to-live, time left.
pub open spec fn fdt_entry_bytes(e: ForeignDeviceEntry, now: u64) -> Seq<u8> {
    let rem = fd_remaining(e, now);
    bip_address(e.address) + seq![hi8(e.ttl_seconds), lo8(e.ttl_seconds), hi8(rem), lo8(rem)]
}

/// Bytes of all Read-FDT-Ack entries.
pub open spec fn fdt_bytes(s: Seq<ForeignDeviceEntry>, now: u64) -> Seq<u8>
    decreases s.len(),
{
    if s.len() == 0 {
        Seq::empty()
    } else {
        fdt_bytes(s.drop_last(), now) + fdt_entry_bytes(s.last(), now)
    }
}

/// BVLC header of a table acknowledgement with `count` 10-byte entries.
pub open spec fn table_ack_header(function: u8, count: nat) -> Seq<u8> {
    let len = 4 + count * 10;
    seq![0x81u8, function, ((len / 256) % 256) as u8, (len % 256) as u8]
}

/// Bytes of a Read-Foreign-Device-Table-Ack.
pub open spec fn read_fdt_ack_spec(s: Seq<ForeignDeviceEntry>, now: u64) -> Seq<u8> {
    table_ack_header(BVLC_READ_FDT_ACK, s.len()) + fdt_bytes(s, now)
}

/// Build a Read-Foreign-Device-Table-Ack listing the registrations.
pub fn build_read_fdt_ack(s: &Vec<ForeignDeviceEntry>, now_ms: u64) -> (r: Vec<u8>)
    requires
        s@.len() * 10 + 4 <= usize::MAX,
    ensures
        r@ == read_fdt_ack_spec(s@, now_ms),
{
    let len = 4 + s.len() * 10;
    let mut v: Vec<u8> = Vec::new();
    v.push(0x81);
    v.push(BVLC_READ_FDT_ACK);
    v.push(((len / 256) % 256) as u8);
    v.push((len % 256) as u8);
    let ghost head = v@;
    assert(head =~= table_ack_header(BVLC_READ_FDT_ACK, s@.len()));
    let mut i: usize = 0;
    while i < s.len()
        invariant
            i <= s@.len(),
            v@ == head + fdt_bytes(s@.take(i as int), now_ms),
        decreases s@.len() - i,
    {
        let e = s[i];
        let rem = e.remaining_ttl(now_ms);
        v.push(e.address.ip[0]);
        v.push(e.address.ip[1]);
        v.push(e.address.ip[2]);
        v.push(e.address.ip[3]);
        v.push(crate::bytes::high_byte(e.address.port));
        v.push(crate::bytes::low_byte(e.address.port));
        v.push(crate::bytes::high_byte(e.ttl_seconds));
        v.push(crate::bytes::low_byte(e.ttl_seconds));
        v.push(crate::bytes::high_byte(rem));
        v.push(crate::bytes::low_byte(rem));
        assert(s@.take(i as int + 1).drop_last() =~= s@.take(i as int));
        i = i + 1;
        assert(v@ =~= head + fdt_bytes(s@.take(i as int), now_ms));
    }
    assert(s@.take(i as int) =~= s@);
    v
}

/// Bytes of one Read-BDT-Ack entry: B/IP address and mask.
pub open spec fn bdt_entry_bytes(e: BdtEntry) -> Seq<u8> {
    bip_address(e.address) + e.mask@
}

/// Bytes of all Read-BDT-Ack entries.
pub open spec fn bdt_bytes(s: Seq<BdtEntry>) -> Seq<u8>
    decreases s.len(),
{
    if s.len() == 0 {
        Seq::empty()
    } else {
        bdt_bytes(s.drop_last()) + bdt_entry_bytes(s.last())
    }
}

/// Bytes of a Read-Broadcast-Distribution-Table-Ack.
pub open spec fn read_bdt_ack_spec(s: Seq<BdtEntry>) -> Seq<u8> {
    table_ack_header(BVLC_READ_BDT_ACK, s.len()) + bdt_bytes(s)
}

/// Build a Read-Broadcast-Distribution-Table-Ack listing the entries.
pub fn build_read_bdt_ack(s: &Vec<BdtEntry>) -> (r: Vec<u8>)
    requires
        s@.len() * 10 + 4 <= usize::MAX,
    ensures
        r@ == read_bdt_ack_spec(s@),
{
    let len = 4 + s.len() * 10;
    let mut v: Vec<u8> = Vec::new();
    v.push(0x81);
    v.push(BVLC_READ_BDT_ACK);
    v.push(((len / 256) % 256) as u8);
    v.push((len % 256) as u8);
    let ghost head = v@;
    assert(head =~= table_ack_header(BVLC_READ_BDT_ACK, s@.len()));
    let mut i: usize = 0;
    while i < s.len()
        invariant
            i <= s@.len(),
            v@ == head + bdt_bytes(s@.take(i as int)),
        decreases s@.len() - i,
    {
        let e = s[i];
        v.push(e.address.ip[0]);
        v.push(e.address.ip[1]);
        v.push(e.address.ip[2]);
        v.push(e.address.ip[3]);
        v.push(crate::bytes::high_byte(e.address.port));
        v.push(crate::bytes::low_byte(e.address.port));
        v.push(e.mask[0]);
        v.push(e.mask[1]);
        v.push(e.mask[2]);
        v.push(e.mask[3]);
        assert(s@.take(i as int + 1).drop_last() =~= s@.take(i as int));
        i = i + 1;
        assert(v@ =~= head + bdt_bytes(s@.take(i as int)));
    }
    assert(s@.take(i as int) =~= s@);
    v
}

/// Whether `e` is the entry encoded in the 10 bytes of `d` at `off`.
pub open spec fn bdt_entry_at(e: BdtEntry, d: Seq<u8>, off: int) -> bool {
    &&& e.address.ip@ == d.subrange(off, off + 4)
    &&& e.address.port == be16(d[off + 4], d[off + 5])
    &&& e.mask@ == d.subrange(off + 6, off + 10)
}

/// Whether `s` lists the entries encoded in `d`, 10 bytes each.
pub open spec fn bdt_decoded(s: Seq<BdtEntry>, d: Seq<u8>) -> bool {
    &&& s.len() * 10 == d.len()
    &&& forall|i: int| 0 <= i < s.len() ==> #[trigger] bdt_entry_at(s[i], d, i * 10)
}

/// Decode BDT entries, 10 bytes each (address, port, mask).
pub fn decode_bdt_entries(d: &[u8]) -> (r: Vec<BdtEntry>)
    requires
        d@.len() % 10 == 0,
    ensures
        bdt_decoded(r@, d@),
{
    let n = d.len() / 10;
    let mut v: Vec<BdtEntry> = Vec::new();
    let mut i: usize = 0;
    while i < n
        invariant
            n * 10 == d@.len(),
            d@.len() <= usize::MAX,
            i <= n,
            v@.len() == i,
            forall|k: int| 0 <= k < i ==> #[trigger] bdt_entry_at(v@[k], d@, k * 10),
        decreases n - i,
    {
        assert(i * 10 + 10 <= n * 10) by (nonlinear_arith)
            requires
                i < n,
        ;
        let off = i * 10;
        let e = BdtEntry {
            address: IpEndpoint::new(
                d[off],
                d[off + 1],
                d[off + 2],
                d[off + 3],
                crate::bytes::read_be16(d[off + 4], d[off + 5]),
            ),
            mask: [d[off + 6], d[off + 7], d[off + 8], d[off + 9]],
        };
        assert(e.address.ip@ =~= d@.subrange(off as int, off + 4));
        assert(e.mask@ =~= d@.subrange(off + 6, off + 10));
        v.push(e);
        i = i + 1;
    }
    v
}

/// Entries decoded from table bytes encode back to those bytes: a
/// Read-BDT-Ack lists exactly what a Write-BDT wrote.
pub proof fn lemma_bdt_bytes_of_decoded(s: Seq<BdtEntry>, d: Seq<u8>)
    requires
        bdt_decoded(s, d),
    ensures
        bdt_bytes(s) == d,
    decreases s.len(),
{
    if s.len() > 0 {
        let n = s.len();
        let p = s.drop_last();
        let pd = d.take(10 * (n - 1));
        assert forall|i: int| 0 <= i < p.len() implies #[trigger] bdt_entry_at(p[i], pd, i * 10) by {
            assert(i * 10 + 10 <= 10 * (n - 1)) by (nonlinear_arith)
                requires
                    i < n - 1,
            ;
            assert(bdt_entry_at(s[i], d, i * 10));
            assert(pd.subrange(i * 10, i * 10 + 4) =~= d.subrange(i * 10, i * 10 + 4));
            assert(pd.subrange(i * 10 + 6, i * 10 + 10) =~= d.subrange(i * 10 + 6, i * 10 + 10));
        }
        assert(p.len() * 10 == pd.len());
        lemma_bdt_bytes_of_decoded(p, pd);
        let e = s.last();
        let off = 10 * (n - 1);
        assert((n - 1) * 10 == off);
        assert(bdt_entry_at(s[n - 1], d, (n - 1) * 10));
        crate::bytes::lemma_be16_split(d[off + 4], d[off + 5]);
        assert(bdt_entry_bytes(e) =~= d.subrange(off, off + 10)) by {
            assert(e.address.ip@[0] == d[off] && e.address.ip@[3] == d[off + 3]);
            assert(e.mask@[0] == d[off + 6] && e.mask@[3] == d[off + 9]);
        }
        assert(d =~= pd + d.subrange(off, off + 10));
    } else {
        assert(d =~= Seq::<u8>::empty());
    }
}

} // verus!
