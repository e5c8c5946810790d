//! The cadence of the gateway's main loop: which periodic jobs are due on
//! each pass (the loop runs every 10 ms).
use vstd::prelude::*;

verus! {

/// Passes between transaction timeout checks (1 s).
pub const TIMEOUT_CHECK_INTERVAL: u64 = 100;

/// Passes between router announcements (30 s).
pub const ROUTER_ANNOUNCE_INTERVAL: u64 = 3000;

/// Passes between WiFi checks (0.5 s).
pub const WIFI_CHECK_INTERVAL: u32 = 50;

/// The main loop's pass counters.
#[derive(Debug, Clone, Copy, PartialEq, Eq, Structural)]
pub struct LoopCounters {
    pub loop_count: u64,
    pub router_announce_counter: u64,
    pub wifi_check_counter: u32,
}

/// The periodic jobs due on one pass.
#[derive(Debug, Clone, Copy, PartialEq, Eq, Structural)]
pub struct LoopActions {
    pub check_timeouts: bool,
    pub announce: bool,
    pub check_wifi: bool,
}

/// The counters and the jobs due after one more pass from `c`.
pub open spec fn loop_step_spec(c: LoopCounters) -> (LoopCounters, LoopActions) {
    let count = (c.loop_count + 1) as u64;
    let announce_next = c.router_announce_counter + 1;
    let wifi_next = c.wifi_check_counter + 1;
    let announce = announce_next >= ROUTER_ANNOUNCE_INTERVAL;
    let check_wifi = wifi_next >= WIFI_CHECK_INTERVAL;
    (
        LoopCounters {
            loop_count: count,
            router_announce_counter: if announce {
                0
            } else {
                announce_next as u64
            },
            wifi_check_counter: if check_wifi {
                0
            } else {
                wifi_next as u32
            },
        },
        LoopActions { check_timeouts: count % TIMEOUT_CHECK_INTERVAL == 0, announce, check_wifi },
    )
}

impl LoopCounters {
    /// Counters before the first pass; the router announces itself on the
    /// first pass.
    pub fn new() -> (r: LoopCounters)
        ensures
            r == (LoopCounters {
                loop_count: 0,
                router_announce_counter: ROUTER_ANNOUNCE_INTERVAL,
                wifi_check_counter: 0,
            }),
    {
        LoopCounters { loop_count: 0, router_announce_counter: ROUTER_ANNOUNCE_INTERVAL, wifi_check_counter: 0 }
    }
}

/// One pass of the main loop: count it, and say which periodic jobs are due.
pub fn main_loop_step(c: LoopCounters) -> (r: (LoopCounters, LoopActions))
    requires
        c.loop_count < u64::MAX,
        c.router_announce_counter < u64::MAX,
        c.wifi_check_counter < u32::MAX,
    ensures
        r == loop_step_spec(c),
{
    let loop_count = c.loop_count + 1;
    let mut router_announce_counter = c.router_announce_counter + 1;
    let mut wifi_check_counter = c.wifi_check_counter + 1;
    let announce = router_announce_counter >= ROUTER_ANNOUNCE_INTERVAL;
    if announce {
        router_announce_counter = 0;
    }
    let check_wifi = wifi_check_counter >= WIFI_CHECK_INTERVAL;
    if check_wifi {
        wifi_check_counter = 0;
    }
    (
        LoopCounters { loop_count, router_announce_counter, wifi_check_counter },
        LoopActions { check_timeouts: loop_count % TIMEOUT_CHECK_INTERVAL == 0, announce, check_wifi },
    )
}

/// After an announcement (counter 0) the counter counts the passes, and the
/// router announces again exactly `ROUTER_ANNOUNCE_INTERVAL` passes later,
/// not before.
pub proof fn lemma_announce_period(c: LoopCounters, k: u64)
    requires
        k < ROUTER_ANNOUNCE_INTERVAL,
    ensures
        loop_step_spec(LoopCounters { router_announce_counter: k, ..c }).1.announce == (k + 1
            == ROUTER_ANNOUNCE_INTERVAL),
        k + 1 < ROUTER_ANNOUNCE_INTERVAL ==> loop_step_spec(
            LoopCounters { router_announce_counter: k, ..c },
        ).0.router_announce_counter == k + 1,
{
}

} // verus!
