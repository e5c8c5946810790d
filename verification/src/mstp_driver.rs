//! MS/TP master node: the token-passing state machine of ASHRAE 135 Clause 9,
//! driven by received bytes and the clock, with frames to transmit collected in
//! an outbox for the UART.
use vstd::prelude::*;
use std::collections::VecDeque;
use crate::mstp_frame::{build_frame, frame_spec, lemma_rx_step_shrinks, rx_next, rx_step, step_counts_valid_header, RxStep};
use crate::mstp_types::{MstpFrameType, MstpState, frame_type_of, state_code};
use crate::text::copy_range;

verus! {

/// Poll for new masters every this many tokens.
pub const NPOLL: u8 = 255;

/// Maximum retries of an unanswered request.
pub const MAX_RETRY: u8 = 3;

/// Broadcast MS/TP address.
pub const MSTP_BROADCAST_ADDRESS: u8 = 255;

/// Queue capacity for frames to send and frames received.
pub const QUEUE_LIMIT: usize = 16;

/// Driver errors.
#[derive(Debug)]
pub enum MstpError {
    IoError(String),
    InvalidFrame,
    CrcError,
    Timeout,
    BufferFull,
    BusyMedium,
}

/// The text of a driver error.
pub open spec fn mstp_error_text(e: MstpError) -> Seq<char> {
    match e {
        MstpError::IoError(s) => "I/O error: "@ + s@,
        MstpError::InvalidFrame => "Invalid frame"@,
        MstpError::CrcError => "CRC error"@,
        MstpError::Timeout => "Timeout"@,
        MstpError::BufferFull => "Buffer full"@,
        MstpError::BusyMedium => "Medium busy"@,
    }
}

impl MstpError {
    /// The error as text (e.g. `Buffer full`).
    pub fn message(&self) -> (r: String)
        ensures
            r@ == mstp_error_text(*self),
    {
        let mut v: Vec<char> = Vec::new();
        match self {
            MstpError::IoError(s) => {
                crate::text::push_str(&mut v, "I/O error: ");
                crate::text::push_str(&mut v, s.as_str());
            },
            MstpError::InvalidFrame => crate::text::push_str(&mut v, "Invalid frame"),
            MstpError::CrcError => crate::text::push_str(&mut v, "CRC error"),
            MstpError::Timeout => crate::text::push_str(&mut v, "Timeout"),
            MstpError::BufferFull => crate::text::push_str(&mut v, "Buffer full"),
            MstpError::BusyMedium => crate::text::push_str(&mut v, "Medium busy"),
        }
        proof {
            reveal_strlit("");
        }
        assert(v@ =~= mstp_error_text(*self));
        crate::text::string_from_chars(&v)
    }
}

/// Plain-valued state of an MS/TP node (configuration, state machine, timers
/// as clock readings in milliseconds, and counters).
#[derive(Debug, Clone, Copy)]
pub struct MstpCore {
    pub station_address: u8,
    pub max_master: u8,
    pub max_info_frames: u8,
    pub state: MstpState,
    pub token_count: u8,
    pub frame_count: u8,
    pub rx_poll_count: u64,
    pub rx_frame_count: u64,
    pub tx_frame_count: u64,
    pub retry_count: u8,
    pub next_station: u8,
    pub poll_station: u8,
    pub sole_master: bool,
    pub last_token_time: Option<u64>,
    pub token_loop_time_ms: u32,
    pub discovered_masters: u128,
    pub crc_errors: u64,
    pub frame_errors: u64,
    pub reply_timeouts: u64,
    pub tokens_received: u64,
    pub token_pass_failures: u64,
    pub token_loop_min_ms: u32,
    pub token_loop_max_ms: u32,
    pub token_loop_sum_ms: u64,
    pub token_loop_count: u64,
    pub silence_timer: u64,
    pub reply_timer: Option<u64>,
    pub usage_timer: Option<u64>,
    pub reply_delay_timer: Option<u64>,
    pub no_token_timer: u64,
    pub t_no_token: u64,
    pub t_reply_timeout: u64,
    pub t_reply_delay: u64,
    pub t_slot: u64,
    pub t_usage_timeout: u64,
}

/// MS/TP master node.
pub struct MstpDriver {
    core: MstpCore,
    send_queue: VecDeque<(Vec<u8>, u8, bool)>,
    receive_queue: VecDeque<(Vec<u8>, u8)>,
    rx_buffer: Vec<u8>,
    pending_request: Option<(Vec<u8>, u8)>,
    tx_frames: Vec<Vec<u8>>,
}

/// Mathematical view of the node.
pub struct MstpView {
    pub core: MstpCore,
    pub send_queue: Seq<(Seq<u8>, u8, bool)>,
    pub receive_queue: Seq<(Seq<u8>, u8)>,
    pub rx_buffer: Seq<u8>,
    pub pending_request: Option<(Seq<u8>, u8)>,
    pub tx_frames: Seq<Seq<u8>>,
}

impl View for MstpDriver {
    type V = MstpView;

    closed spec fn view(&self) -> MstpView {
        MstpView {
            core: self.core,
            send_queue: self.send_queue@.map_values(|e: (Vec<u8>, u8, bool)| (e.0@, e.1, e.2)),
            receive_queue: self.receive_queue@.map_values(|e: (Vec<u8>, u8)| (e.0@, e.1)),
            rx_buffer: self.rx_buffer@,
            pending_request: match self.pending_request {
                Some(p) => Some((p.0@, p.1)),
                None => None,
            },
            tx_frames: self.tx_frames@.map_values(|f: Vec<u8>| f@),
        }
    }
}

/// Milliseconds from `t` to `now` (zero if the clock reads earlier).
pub open spec fn elapsed(now: u64, t: u64) -> u64 {
    if now >= t {
        (now - t) as u64
    } else {
        0
    }
}

/// Counter increment that stops at the maximum.
pub open spec fn sat_inc(x: u64) -> u64 {
    if x < u64::MAX {
        (x + 1) as u64
    } else {
        x
    }
}

/// Whether address `a` is marked in the bitmap `m`.
pub open spec fn has_bit(m: u128, a: u8) -> bool {
    (m >> (a as u128)) & 1u128 == 1u128
}

/// The bitmap `m` with address `a` marked.
pub open spec fn with_bit(m: u128, a: u8) -> u128 {
    m | (1u128 << (a as u128))
}

/// The address `offset` stations after this one, wrapping at `max_master`.
pub open spec fn ring_addr(c: MstpCore, offset: int) -> u8 {
    ((c.station_address + offset) % (c.max_master + 1)) as u8
}

/// The first discovered master after this station at offset `offset` or later.
pub open spec fn next_master_from(c: MstpCore, offset: int) -> Option<u8>
    decreases c.max_master + 1 - offset,
{
    if offset < 1 || offset > c.max_master {
        None
    } else if ring_addr(c, offset) != c.station_address && has_bit(
        c.discovered_masters,
        ring_addr(c, offset),
    ) {
        Some(ring_addr(c, offset))
    } else {
        next_master_from(c, offset + 1)
    }
}

/// The next known master after this station in the ring, or the station right
/// after it when no other master is known.
pub open spec fn find_next_master_spec(c: MstpCore) -> u8 {
    match next_master_from(c, 1) {
        Some(a) => a,
        None => ring_addr(c, 1),
    }
}

/// Whether the station `k` places after this one in the ring (wrapping at
/// `max_master`) is another master marked as discovered.
pub open spec fn other_master_at(c: MstpCore, k: int) -> bool {
    let a = ((c.station_address + k) % (c.max_master + 1)) as u8;
    a != c.station_address && has_bit(c.discovered_masters, a)
}

proof fn lemma_next_master_from(c: MstpCore, o: int)
    requires
        1 <= o,
    ensures
        next_master_from(c, o) matches Some(a) ==> exists|j: int|
            o <= j <= c.max_master && a == ((c.station_address + j) % (c.max_master + 1)) as u8
                && other_master_at(c, j) && forall|k: int| o <= k < j ==> !#[trigger] other_master_at(c, k),
        next_master_from(c, o) is None ==> forall|k: int| o <= k <= c.max_master ==> !#[trigger] other_master_at(c, k),
    decreases c.max_master + 1 - o,
{
    if o <= c.max_master {
        lemma_next_master_from(c, o + 1);
        if !other_master_at(c, o) {
            if let Some(a) = next_master_from(c, o + 1) {
                let j = choose|j: int|
                    o + 1 <= j <= c.max_master && a == ((c.station_address + j) % (c.max_master + 1)) as u8
                        && other_master_at(c, j) && forall|k: int| o + 1 <= k < j ==> !#[trigger] other_master_at(c, k);
                assert forall|k: int| o <= k < j implies !#[trigger] other_master_at(c, k) by {
                    if k > o {
                        assert(o + 1 <= k < j);
                    }
                }
            }
        }
    }
}

/// The next master is the first other master marked as discovered after this
/// station going round the ring (addresses up to `max_master`); only when no
/// other master is marked is it simply the next address after this station.
pub proof fn lemma_next_master_is_first_discovered(c: MstpCore)
    ensures
        (exists|k: int| 1 <= k <= c.max_master && #[trigger] other_master_at(c, k)) ==> exists|j: int|
            1 <= j <= c.max_master && find_next_master_spec(c) == ((c.station_address + j) % (c.max_master
                + 1)) as u8 && other_master_at(c, j) && forall|k: int|
                1 <= k < j ==> !#[trigger] other_master_at(c, k),
        !(exists|k: int| 1 <= k <= c.max_master && #[trigger] other_master_at(c, k)) ==> find_next_master_spec(c)
            == ((c.station_address + 1) % (c.max_master + 1)) as u8,
{
    lemma_next_master_from(c, 1);
}

/// Well-formed configuration: station and max master are master addresses and
/// the no-token timeout can be doubled.
pub open spec fn core_wf(c: MstpCore) -> bool {
    c.station_address < 128 && c.max_master < 128 && c.t_no_token <= u64::MAX / 2
}

impl MstpView {
    pub open spec fn with_core(self, c: MstpCore) -> MstpView {
        MstpView { core: c, ..self }
    }

    /// Queue a frame of type `ft` to `dest` for transmission.
    pub open spec fn send(self, ft: u8, dest: u8, data: Seq<u8>, now: u64) -> MstpView {
        MstpView {
            tx_frames: self.tx_frames.push(frame_spec(ft, dest, self.core.station_address, data)),
            core: MstpCore {
                tx_frame_count: sat_inc(self.core.tx_frame_count),
                silence_timer: now,
                ..self.core
            },
            ..self
        }
    }

    /// Hand a received frame to the upper layer unless the queue is full.
    pub open spec fn deliver(self, data: Seq<u8>, source: u8) -> MstpView {
        if self.receive_queue.len() < 16 {
            MstpView { receive_queue: self.receive_queue.push((data, source)), ..self }
        } else {
            self
        }
    }

    /// The token arrived in Idle.
    pub open spec fn token_in_idle(self, source: u8, now: u64) -> MstpView {
        let c = self.core;
        let c1 = MstpCore {
            token_count: c.token_count.wrapping_add(1),
            tokens_received: sat_inc(c.tokens_received),
            frame_count: 0,
            state: MstpState::UseToken,
            usage_timer: Some(now),
            no_token_timer: now,
            ..c
        };
        let c2 = match c.last_token_time {
            Some(last) => {
                let lt = elapsed(now, last) as u32;
                MstpCore {
                    token_loop_time_ms: lt,
                    token_loop_min_ms: if lt < c1.token_loop_min_ms {
                        lt
                    } else {
                        c1.token_loop_min_ms
                    },
                    token_loop_max_ms: if lt > c1.token_loop_max_ms {
                        lt
                    } else {
                        c1.token_loop_max_ms
                    },
                    token_loop_sum_ms: c1.token_loop_sum_ms.saturating_add(lt as u64),
                    token_loop_count: c1.token_loop_count.saturating_add(1),
                    ..c1
                }
            },
            None => c1,
        };
        let c3 = MstpCore {
            last_token_time: Some(now),
            discovered_masters: if source <= 127 {
                with_bit(c2.discovered_masters, source)
            } else {
                c2.discovered_masters
            },
            sole_master: false,
            ..c2
        };
        self.with_core(MstpCore { next_station: find_next_master_spec(c3), ..c3 })
    }

    /// A PollForMaster arrived in Idle.
    pub open spec fn poll_in_idle(self, dest: u8, source: u8, now: u64) -> MstpView {
        let v1 = if dest == self.core.station_address {
            let v = self.send(2, source, Seq::empty(), now);
            v.with_core(MstpCore { no_token_timer: now, ..v.core })
        } else {
            self
        };
        if source <= 127 && !has_bit(v1.core.discovered_masters, source) {
            let c = MstpCore {
                discovered_masters: with_bit(v1.core.discovered_masters, source),
                sole_master: false,
                ..v1.core
            };
            v1.with_core(MstpCore { next_station: find_next_master_spec(c), ..c })
        } else if source <= 127 {
            v1.with_core(
                MstpCore {
                    discovered_masters: with_bit(v1.core.discovered_masters, source),
                    ..v1.core
                },
            )
        } else {
            v1
        }
    }

    /// A frame arrived in Idle.
    pub open spec fn frame_in_idle(self, ft: Option<MstpFrameType>, dest: u8, source: u8, data: Seq<u8>, now: u64) -> MstpView {
        let ts = self.core.station_address;
        match ft {
            Some(MstpFrameType::Token) => if dest == ts {
                self.token_in_idle(source, now)
            } else {
                self
            },
            Some(MstpFrameType::PollForMaster) => self.poll_in_idle(dest, source, now),
            Some(MstpFrameType::BacnetDataExpectingReply) => if dest == ts {
                MstpView {
                    pending_request: Some((data, source)),
                    core: MstpCore {
                        reply_delay_timer: Some(now),
                        state: MstpState::AnswerDataRequest,
                        ..self.core
                    },
                    ..self
                }
            } else if dest == 255 {
                self.deliver(data, source)
            } else {
                self
            },
            Some(MstpFrameType::BacnetDataNotExpectingReply) => if dest == ts || dest == 255 {
                self.deliver(data, source)
            } else {
                self
            },
            _ => self,
        }
    }

    /// A frame arrived while waiting for a reply: everything except Token,
    /// ReplyToPollForMaster, TestRequest and PollForMaster counts as the reply.
    pub open spec fn frame_in_wait_for_reply(self, ft: Option<MstpFrameType>, dest: u8, source: u8, data: Seq<u8>, now: u64) -> MstpView {
        let ts = self.core.station_address;
        if dest != ts && dest != 255 {
            self
        } else {
            match ft {
                Some(MstpFrameType::PollForMaster) => if dest == ts {
                    self.send(2, source, Seq::empty(), now)
                } else {
                    self
                },
                Some(MstpFrameType::Token)
                | Some(MstpFrameType::ReplyToPollForMaster)
                | Some(MstpFrameType::TestRequest) => self.with_core(
                    MstpCore {
                        reply_timer: None,
                        state: MstpState::Idle,
                        no_token_timer: now,
                        ..self.core
                    },
                ),
                _ => {
                    let v = self.deliver(data, source);
                    v.with_core(
                        MstpCore { reply_timer: None, state: MstpState::DoneWithToken, ..v.core },
                    )
                },
            }
        }
    }

    /// A frame arrived while polling for masters.
    pub open spec fn frame_in_poll_for_master(self, ft: Option<MstpFrameType>, dest: u8, source: u8, now: u64) -> MstpView {
        let ts = self.core.station_address;
        match ft {
            Some(MstpFrameType::PollForMaster) => if dest == ts {
                let v = self.send(2, source, Seq::empty(), now);
                v.with_core(
                    MstpCore {
                        discovered_masters: if source <= 127 {
                            with_bit(v.core.discovered_masters, source)
                        } else {
                            v.core.discovered_masters
                        },
                        sole_master: false,
                        state: MstpState::Idle,
                        no_token_timer: now,
                        ..v.core
                    },
                )
            } else {
                self
            },
            Some(MstpFrameType::ReplyToPollForMaster) => if dest == ts {
                let c = self.core;
                let p = ((source.wrapping_add(1) as int) % (c.max_master as int + 1)) as u8;
                let p2 = if p == ts {
                    next_poll(p, c.max_master)
                } else {
                    p
                };
                self.with_core(
                    MstpCore {
                        discovered_masters: if source <= 127 {
                            with_bit(c.discovered_masters, source)
                        } else {
                            c.discovered_masters
                        },
                        next_station: source,
                        sole_master: false,
                        poll_station: p2,
                        token_count: c.token_count.wrapping_add(1),
                        tokens_received: sat_inc(c.tokens_received),
                        frame_count: 0,
                        state: MstpState::UseToken,
                        usage_timer: Some(now),
                        ..c
                    },
                )
            } else {
                self
            },
            _ => self,
        }
    }

    /// A frame arrived in another state.
    pub open spec fn frame_basic(self, ft: Option<MstpFrameType>, dest: u8, source: u8, data: Seq<u8>, now: u64) -> MstpView {
        let ts = self.core.station_address;
        match ft {
            Some(MstpFrameType::Token) => if dest == ts {
                self.with_core(
                    MstpCore {
                        token_count: self.core.token_count.wrapping_add(1),
                        frame_count: 0,
                        state: MstpState::UseToken,
                        usage_timer: Some(now),
                        ..self.core
                    },
                )
            } else {
                self
            },
            Some(MstpFrameType::PollForMaster) => if dest == ts {
                self.send(2, source, Seq::empty(), now)
            } else {
                self
            },
            Some(MstpFrameType::BacnetDataNotExpectingReply) => if dest == ts || dest == 255 {
                self.deliver(data, source)
            } else {
                self
            },
            _ => self,
        }
    }

    /// A valid frame arrived: Initialize gives way to Idle, then the frame is
    /// handled according to the state.
    pub open spec fn frame_received(self, frame_type: u8, dest: u8, source: u8, data: Seq<u8>, now: u64) -> MstpView {
        let ft = frame_type_of(frame_type);
        let v = if self.core.state == MstpState::Initialize {
            self.with_core(MstpCore { state: MstpState::Idle, no_token_timer: now, ..self.core })
        } else {
            self
        };
        match v.core.state {
            MstpState::Idle => v.frame_in_idle(ft, dest, source, data, now),
            MstpState::WaitForReply => v.frame_in_wait_for_reply(ft, dest, source, data, now),
            MstpState::PollForMaster => v.frame_in_poll_for_master(ft, dest, source, now),
            _ => v.frame_basic(ft, dest, source, data, now),
        }
    }

    /// Start polling the station after this one for a master (no token seen).
    pub open spec fn start_poll(self, now: u64) -> MstpView {
        let p = ring_addr(self.core, 1);
        let v = self.with_core(MstpCore { poll_station: p, ..self.core }).send(1, p, Seq::empty(), now);
        v.with_core(MstpCore { state: MstpState::PollForMaster, silence_timer: now, ..v.core })
    }

    /// UseToken: send queued frames up to `max_info_frames`, holding an unused
    /// token for 5 ms before giving it up.
    pub open spec fn use_token(self, now: u64) -> MstpView {
        let c = self.core;
        let done = self.with_core(MstpCore { state: MstpState::DoneWithToken, ..c });
        if c.usage_timer is Some && elapsed(now, c.usage_timer->0) > c.t_usage_timeout {
            done
        } else if c.frame_count < c.max_info_frames {
            if self.send_queue.len() > 0 {
                let (data, dest, er) = self.send_queue[0];
                let v = MstpView { send_queue: self.send_queue.drop_first(), ..self }.send(
                    if er {
                        5
                    } else {
                        6
                    },
                    dest,
                    data,
                    now,
                );
                let c2 = MstpCore { frame_count: (v.core.frame_count + 1) as u8, ..v.core };
                v.with_core(
                    if er {
                        MstpCore { reply_timer: Some(now), state: MstpState::WaitForReply, ..c2 }
                    } else {
                        c2
                    },
                )
            } else if c.frame_count == 0 && c.usage_timer is Some && elapsed(
                now,
                c.usage_timer->0,
            ) < 5 {
                self
            } else {
                done
            }
        } else {
            done
        }
    }

    /// WaitForReply: a reply timeout ends the wait and counts a retry.
    pub open spec fn wait_for_reply(self, now: u64) -> MstpView {
        let c = self.core;
        match c.reply_timer {
            Some(t) => if elapsed(now, t) > c.t_reply_timeout {
                let rc = c.retry_count.saturating_add(1);
                let c1 = MstpCore {
                    reply_timer: None,
                    reply_timeouts: sat_inc(c.reply_timeouts),
                    state: MstpState::DoneWithToken,
                    ..c
                };
                self.with_core(
                    if rc >= 3 {
                        MstpCore {
                            retry_count: 0,
                            token_pass_failures: sat_inc(c.token_pass_failures),
                            ..c1
                        }
                    } else {
                        MstpCore { retry_count: rc, ..c1 }
                    },
                )
            } else {
                self
            },
            None => self,
        }
    }

    /// AnswerDataRequest: after the reply delay the request goes to the upper
    /// layer and the node returns to Idle.
    pub open spec fn answer_data_request(self, now: u64) -> MstpView {
        let c = self.core;
        match c.reply_delay_timer {
            Some(t) => if elapsed(now, t) >= c.t_reply_delay {
                let v = match self.pending_request {
                    Some((d, s)) => MstpView { pending_request: None, ..self }.deliver(d, s),
                    None => self,
                };
                v.with_core(
                    MstpCore {
                        reply_delay_timer: None,
                        state: MstpState::Idle,
                        no_token_timer: now,
                        ..v.core
                    },
                )
            } else {
                self
            },
            None => self.with_core(
                MstpCore { state: MstpState::Idle, no_token_timer: now, ..c },
            ),
        }
    }

    /// DoneWithToken: every `NPOLL` tokens poll one station for a new master,
    /// otherwise pass the token.
    pub open spec fn done_with_token(self, now: u64) -> MstpView {
        let c = self.core;
        if c.token_count >= NPOLL {
            let ps = if c.poll_station == c.station_address {
                next_poll(c.poll_station, c.max_master)
            } else {
                c.poll_station
            };
            let v = self.with_core(MstpCore { token_count: 0, poll_station: ps, ..c }).send(
                1,
                ps,
                Seq::empty(),
                now,
            );
            v.with_core(MstpCore { state: MstpState::PollForMaster, silence_timer: now, ..v.core })
        } else {
            self.with_core(MstpCore { state: MstpState::PassToken, ..c })
        }
    }

    /// PollForMaster: after a slot without reply move on to the next station
    /// and pass the token; after twice the no-token time return to Idle.
    pub open spec fn poll_for_master(self, now: u64) -> MstpView {
        let c = self.core;
        let v1 = if elapsed(now, c.silence_timer) > c.t_slot {
            let p1 = next_poll(c.poll_station, c.max_master);
            let p2 = if p1 == c.station_address {
                next_poll(p1, c.max_master)
            } else {
                p1
            };
            self.with_core(MstpCore { poll_station: p2, state: MstpState::PassToken, ..c })
        } else {
            self
        };
        if elapsed(now, c.no_token_timer) > c.t_no_token * 2 {
            v1.with_core(MstpCore { state: MstpState::Idle, no_token_timer: now, ..v1.core })
        } else {
            v1
        }
    }

    /// One run of the state machine at clock reading `now`.
    pub open spec fn tick(self, now: u64) -> MstpView {
        let c = self.core;
        match c.state {
            MstpState::Initialize => if elapsed(now, c.silence_timer) > c.t_no_token {
                self.with_core(MstpCore { state: MstpState::Idle, no_token_timer: now, ..c })
            } else {
                self
            },
            MstpState::Idle => if elapsed(now, c.no_token_timer) > c.t_no_token {
                self.start_poll(now)
            } else {
                self
            },
            MstpState::UseToken => self.use_token(now),
            MstpState::WaitForReply => self.wait_for_reply(now),
            MstpState::AnswerDataRequest => self.answer_data_request(now),
            MstpState::DoneWithToken => self.done_with_token(now),
            MstpState::PassToken => {
                let v = self.send(0, c.next_station, Seq::empty(), now);
                v.with_core(MstpCore { state: MstpState::Idle, no_token_timer: now, ..v.core })
            },
            MstpState::NoToken => if elapsed(now, c.silence_timer) > c.t_no_token {
                self.start_poll(now)
            } else {
                self
            },
            MstpState::PollForMaster => self.poll_for_master(now),
        }
    }

    /// The node's bytes received so far and `rx` appended, with the poll
    /// counted and the silence timer restarted when bytes arrived.
    pub open spec fn with_rx(self, rx: Seq<u8>, now: u64) -> MstpView {
        MstpView {
            rx_buffer: self.rx_buffer + rx,
            core: MstpCore {
                rx_poll_count: sat_inc(self.core.rx_poll_count),
                silence_timer: if rx.len() > 0 {
                    now
                } else {
                    self.core.silence_timer
                },
                ..self.core
            },
            ..self
        }
    }

    /// Receive bytes, extract and handle every complete frame, then run the
    /// state machine once.
    pub open spec fn poll(self, rx: Seq<u8>, now: u64) -> MstpView {
        let v = self.with_rx(rx, now);
        parse_buf(v, v.rx_buffer, now).tick(now)
    }
}

/// The poll station after `p`, wrapping at `max_master`.
pub open spec fn next_poll(p: u8, max_master: u8) -> u8 {
    ((p as int + 1) % (max_master as int + 1)) as u8
}

/// Handle every frame in receive buffer `buf` in turn; what cannot yet be
/// parsed stays as the receive buffer. A header that checks out counts as a
/// received frame, also while its data is still incomplete.
pub open spec fn parse_buf(v: MstpView, buf: Seq<u8>, now: u64) -> MstpView
    decreases buf.len(),
{
    proof {
        lemma_rx_step_shrinks(buf);
    }
    let c = v.core;
    match rx_step(buf) {
        RxStep::NeedMore(b) => MstpView {
            rx_buffer: b,
            core: MstpCore {
                rx_frame_count: if step_counts_valid_header(b) {
                    sat_inc(c.rx_frame_count)
                } else {
                    c.rx_frame_count
                },
                ..c
            },
            ..v
        },
        RxStep::HeaderCrcError(b) => parse_buf(
            v.with_core(MstpCore { crc_errors: sat_inc(c.crc_errors), ..c }),
            b,
            now,
        ),
        RxStep::Oversized(b) => parse_buf(
            v.with_core(MstpCore { frame_errors: sat_inc(c.frame_errors), ..c }),
            b,
            now,
        ),
        RxStep::DataCrcError(b) => parse_buf(
            v.with_core(
                MstpCore {
                    rx_frame_count: sat_inc(c.rx_frame_count),
                    crc_errors: sat_inc(c.crc_errors),
                    ..c
                },
            ),
            b,
            now,
        ),
        RxStep::Frame(t, d, s, data, b) => parse_buf(
            v.with_core(MstpCore { rx_frame_count: sat_inc(c.rx_frame_count), ..c }).frame_received(
                t,
                d,
                s,
                data,
                now,
            ),
            b,
            now,
        ),
    }
}



/// Milliseconds from `t` to `now` (zero if the clock reads earlier).
fn elapsed_ms(now: u64, t: u64) -> (r: u64)
    ensures
        r == elapsed(now, t),
{
    if now >= t {
        now - t
    } else {
        0
    }
}

fn inc_sat(x: u64) -> (r: u64)
    ensures
        r == sat_inc(x),
{
    if x < u64::MAX {
        x + 1
    } else {
        x
    }
}

/// Whether address `a` is marked in bitmap `m`.
fn bit_is_set(m: u128, a: u8) -> (r: bool)
    requires
        a < 128,
    ensures
        r == has_bit(m, a),
{
    (m >> (a as u128)) & 1u128 == 1u128
}

/// Bitmap `m` with address `a` marked.
fn bit_set(m: u128, a: u8) -> (r: u128)
    requires
        a < 128,
    ensures
        r == with_bit(m, a),
{
    m | (1u128 << (a as u128))
}

/// The poll station after `p`, wrapping at `max_master`.
fn next_poll_exec(p: u8, max_master: u8) -> (r: u8)
    ensures
        r == next_poll(p, max_master),
{
    (((p as u16) + 1) % ((max_master as u16) + 1)) as u8
}

/// The next known master after this station in the ring, or the station right
/// after it when no other master is known.
fn next_master_of(c: &MstpCore) -> (r: u8)
    requires
        core_wf(*c),
    ensures
        r == find_next_master_spec(*c),
{
    let mut offset: u16 = 1;
    while offset <= c.max_master as u16
        invariant
            core_wf(*c),
            1 <= offset <= c.max_master + 1,
            next_master_from(*c, 1) == next_master_from(*c, offset as int),
        decreases c.max_master + 1 - offset,
    {
        let addr = (((c.station_address as u16) + offset) % ((c.max_master as u16) + 1)) as u8;
        assert(addr == ring_addr(*c, offset as int));
        if addr != c.station_address && bit_is_set(c.discovered_masters, addr) {
            return addr;
        }
        offset = offset + 1;
    }
    (((c.station_address as u16) + 1) % ((c.max_master as u16) + 1)) as u8
}

impl MstpDriver {
    /// Queue a frame of type `ft` for transmission.
    fn send_raw_frame(&mut self, ft: u8, dest: u8, data: &[u8], now: u64)
        ensures
            final(self)@ == old(self)@.send(ft, dest, data@, now),
    {
        let f = build_frame(ft, dest, self.core.station_address, data);
        self.tx_frames.push(f);
        self.core.tx_frame_count = inc_sat(self.core.tx_frame_count);
        self.core.silence_timer = now;
        assert(self.tx_frames@.map_values(|f: Vec<u8>| f@) =~= old(self).tx_frames@.map_values(
            |f: Vec<u8>| f@,
        ).push(frame_spec(ft, dest, old(self).core.station_address, data@)));
    }

    /// Hand a received frame to the upper layer unless the queue is full.
    fn deliver(&mut self, data: Vec<u8>, source: u8)
        ensures
            final(self)@ == old(self)@.deliver(data@, source),
    {
        if self.receive_queue.len() < QUEUE_LIMIT {
            self.receive_queue.push_back((data, source));
            assert(self.receive_queue@.map_values(|e: (Vec<u8>, u8)| (e.0@, e.1))
                =~= old(self).receive_queue@.map_values(|e: (Vec<u8>, u8)| (e.0@, e.1)).push(
                (data@, source),
            ));
        }
    }

    fn token_in_idle(&mut self, source: u8, now: u64)
        requires
            core_wf(old(self).core),
        ensures
            final(self)@ == old(self)@.token_in_idle(source, now),
            core_wf(final(self).core),
    {
        let c = self.core;
        let mut c1 = c;
        c1.token_count = c.token_count.wrapping_add(1);
        c1.tokens_received = inc_sat(c.tokens_received);
        c1.frame_count = 0;
        c1.state = MstpState::UseToken;
        c1.usage_timer = Some(now);
        c1.no_token_timer = now;
        let mut c2 = c1;
        if let Some(last) = c.last_token_time {
            let lt = elapsed_ms(now, last) as u32;
            c2.token_loop_time_ms = lt;
            if lt < c1.token_loop_min_ms {
                c2.token_loop_min_ms = lt;
            }
            if lt > c1.token_loop_max_ms {
                c2.token_loop_max_ms = lt;
            }
            c2.token_loop_sum_ms = c1.token_loop_sum_ms.saturating_add(lt as u64);
            c2.token_loop_count = c1.token_loop_count.saturating_add(1);
        }
        let mut c3 = c2;
        c3.last_token_time = Some(now);
        if source <= 127 {
            c3.discovered_masters = bit_set(c2.discovered_masters, source);
        }
        c3.sole_master = false;
        let next = next_master_of(&c3);
        c3.next_station = next;
        self.core = c3;
    }

    fn poll_in_idle(&mut self, dest: u8, source: u8, now: u64)
        requires
            core_wf(old(self).core),
        ensures
            final(self)@ == old(self)@.poll_in_idle(dest, source, now),
            core_wf(final(self).core),
    {
        if dest == self.core.station_address {
            self.send_raw_frame(2, source, &[], now);
            self.core.no_token_timer = now;
        }
        if source <= 127 {
            let was_known = bit_is_set(self.core.discovered_masters, source);
            self.core.discovered_masters = bit_set(self.core.discovered_masters, source);
            if !was_known {
                self.core.sole_master = false;
                let next = next_master_of(&self.core);
                self.core.next_station = next;
            }
        }
    }

    fn handle_frame_in_idle(&mut self, ft: Option<MstpFrameType>, dest: u8, source: u8, data: Vec<u8>, now: u64)
        requires
            core_wf(old(self).core),
        ensures
            final(self)@ == old(self)@.frame_in_idle(ft, dest, source, data@, now),
            core_wf(final(self).core),
    {
        let ts = self.core.station_address;
        match ft {
            Some(MstpFrameType::Token) => {
                if dest == ts {
                    self.token_in_idle(source, now);
                }
            },
            Some(MstpFrameType::PollForMaster) => {
                self.poll_in_idle(dest, source, now);
            },
            Some(MstpFrameType::BacnetDataExpectingReply) => {
                if dest == ts {
                    self.pending_request = Some((data, source));
                    self.core.reply_delay_timer = Some(now);
                    self.core.state = MstpState::AnswerDataRequest;
                } else if dest == MSTP_BROADCAST_ADDRESS {
                    self.deliver(data, source);
                }
            },
            Some(MstpFrameType::BacnetDataNotExpectingReply) => {
                if dest == ts || dest == MSTP_BROADCAST_ADDRESS {
                    self.deliver(data, source);
                }
            },
            _ => {},
        }
    }

    fn handle_frame_in_wait_for_reply(
        &mut self,
        ft: Option<MstpFrameType>,
        dest: u8,
        source: u8,
        data: Vec<u8>,
        now: u64,
    )
        requires
            core_wf(old(self).core),
        ensures
            final(self)@ == old(self)@.frame_in_wait_for_reply(ft, dest, source, data@, now),
            core_wf(final(self).core),
    {
        let ts = self.core.station_address;
        if dest != ts && dest != MSTP_BROADCAST_ADDRESS {
            return ;
        }
        match ft {
            Some(MstpFrameType::PollForMaster) => {
                if dest == ts {
                    self.send_raw_frame(2, source, &[], now);
                }
            },
            Some(MstpFrameType::Token)
            | Some(MstpFrameType::ReplyToPollForMaster)
            | Some(MstpFrameType::TestRequest) => {
                self.core.reply_timer = None;
                self.core.state = MstpState::Idle;
                self.core.no_token_timer = now;
            },
            _ => {
                self.deliver(data, source);
                self.core.reply_timer = None;
                self.core.state = MstpState::DoneWithToken;
            },
        }
    }

    fn handle_frame_in_poll_for_master(&mut self, ft: Option<MstpFrameType>, dest: u8, source: u8, now: u64)
        requires
            core_wf(old(self).core),
        ensures
            final(self)@ == old(self)@.frame_in_poll_for_master(ft, dest, source, now),
            core_wf(final(self).core),
    {
        let ts = self.core.station_address;
        match ft {
            Some(MstpFrameType::PollForMaster) => {
                if dest == ts {
                    self.send_raw_frame(2, source, &[], now);
                    if source <= 127 {
                        self.core.discovered_masters = bit_set(self.core.discovered_masters, source);
                    }
                    self.core.sole_master = false;
                    self.core.state = MstpState::Idle;
                    self.core.no_token_timer = now;
                }
            },
            Some(MstpFrameType::ReplyToPollForMaster) => {
                if dest == ts {
                    let c = self.core;
                    let p = (((source.wrapping_add(1)) as u16) % ((c.max_master as u16) + 1)) as u8;
                    let p2 = if p == ts {
                        next_poll_exec(p, c.max_master)
                    } else {
                        p
                    };
                    let mut c1 = c;
                    if source <= 127 {
                        c1.discovered_masters = bit_set(c.discovered_masters, source);
                    }
                    c1.next_station = source;
                    c1.sole_master = false;
                    c1.poll_station = p2;
                    c1.token_count = c.token_count.wrapping_add(1);
                    c1.tokens_received = inc_sat(c.tokens_received);
                    c1.frame_count = 0;
                    c1.state = MstpState::UseToken;
                    c1.usage_timer = Some(now);
                    self.core = c1;
                }
            },
            _ => {},
        }
    }

    fn handle_frame_basic(&mut self, ft: Option<MstpFrameType>, dest: u8, source: u8, data: Vec<u8>, now: u64)
        requires
            core_wf(old(self).core),
        ensures
            final(self)@ == old(self)@.frame_basic(ft, dest, source, data@, now),
            core_wf(final(self).core),
    {
        let ts = self.core.station_address;
        match ft {
            Some(MstpFrameType::Token) => {
                if dest == ts {
                    self.core.token_count = self.core.token_count.wrapping_add(1);
                    self.core.frame_count = 0;
                    self.core.state = MstpState::UseToken;
                    self.core.usage_timer = Some(now);
                }
            },
            Some(MstpFrameType::PollForMaster) => {
                if dest == ts {
                    self.send_raw_frame(2, source, &[], now);
                }
            },
            Some(MstpFrameType::BacnetDataNotExpectingReply) => {
                if dest == ts || dest == MSTP_BROADCAST_ADDRESS {
                    self.deliver(data, source);
                }
            },
            _ => {},
        }
    }

    /// Handle a valid received frame according to the state.
    fn handle_received_frame(&mut self, frame_type: u8, dest: u8, source: u8, data: Vec<u8>, now: u64)
        requires
            core_wf(old(self).core),
        ensures
            final(self)@ == old(self)@.frame_received(frame_type, dest, source, data@, now),
            core_wf(final(self).core),
    {
        let ft = MstpFrameType::from_u8(frame_type);
        if self.core.state == MstpState::Initialize {
            self.core.state = MstpState::Idle;
            self.core.no_token_timer = now;
        }
        match self.core.state {
            MstpState::Idle => self.handle_frame_in_idle(ft, dest, source, data, now),
            MstpState::WaitForReply => self.handle_frame_in_wait_for_reply(ft, dest, source, data, now),
            MstpState::PollForMaster => self.handle_frame_in_poll_for_master(ft, dest, source, now),
            _ => self.handle_frame_basic(ft, dest, source, data, now),
        }
    }
}


impl MstpDriver {
    fn start_poll(&mut self, now: u64)
        requires
            core_wf(old(self).core),
        ensures
            final(self)@ == old(self)@.start_poll(now),
            core_wf(final(self).core),
    {
        let p = (((self.core.station_address as u16) + 1) % ((self.core.max_master as u16) + 1)) as u8;
        self.core.poll_station = p;
        self.send_raw_frame(1, p, &[], now);
        self.core.state = MstpState::PollForMaster;
        self.core.silence_timer = now;
    }

    fn use_token(&mut self, now: u64)
        requires
            core_wf(old(self).core),
        ensures
            final(self)@ == old(self)@.use_token(now),
            core_wf(final(self).core),
    {
        if let Some(t) = self.core.usage_timer {
            if elapsed_ms(now, t) > self.core.t_usage_timeout {
                self.core.state = MstpState::DoneWithToken;
                return ;
            }
        }
        if self.core.frame_count < self.core.max_info_frames {
            let ghost q = self.send_queue@;
            match self.send_queue.pop_front() {
                Some(entry) => {
                    assert(self.send_queue@.map_values(|e: (Vec<u8>, u8, bool)| (e.0@, e.1, e.2))
                        =~= old(self)@.send_queue.drop_first());
                    let (data, dest, er) = entry;
                    let ft: u8 = if er {
                        5
                    } else {
                        6
                    };
                    self.send_raw_frame(ft, dest, data.as_slice(), now);
                    self.core.frame_count = self.core.frame_count + 1;
                    if er {
                        self.core.reply_timer = Some(now);
                        self.core.state = MstpState::WaitForReply;
                    }
                },
                None => {
                    if self.core.frame_count == 0 {
                        if let Some(t) = self.core.usage_timer {
                            if elapsed_ms(now, t) < 5 {
                                return ;
                            }
                        }
                    }
                    self.core.state = MstpState::DoneWithToken;
                },
            }
        } else {
            self.core.state = MstpState::DoneWithToken;
        }
    }

    fn wait_for_reply(&mut self, now: u64)
        requires
            core_wf(old(self).core),
        ensures
            final(self)@ == old(self)@.wait_for_reply(now),
            core_wf(final(self).core),
    {
        if let Some(t) = self.core.reply_timer {
            if elapsed_ms(now, t) > self.core.t_reply_timeout {
                let c = self.core;
                let rc = c.retry_count.saturating_add(1);
                let mut c1 = c;
                c1.reply_timer = None;
                c1.reply_timeouts = inc_sat(c.reply_timeouts);
                c1.state = MstpState::DoneWithToken;
                if rc >= MAX_RETRY {
                    c1.retry_count = 0;
                    c1.token_pass_failures = inc_sat(c.token_pass_failures);
                } else {
                    c1.retry_count = rc;
                }
                self.core = c1;
            }
        }
    }

    fn answer_data_request(&mut self, now: u64)
        requires
            core_wf(old(self).core),
        ensures
            final(self)@ == old(self)@.answer_data_request(now),
            core_wf(final(self).core),
    {
        match self.core.reply_delay_timer {
            Some(t) => {
                if elapsed_ms(now, t) >= self.core.t_reply_delay {
                    match self.pending_request.take() {
                        Some(req) => {
                            let (d, s) = req;
                            self.deliver(d, s);
                        },
                        None => {},
                    }
                    self.core.reply_delay_timer = None;
                    self.core.state = MstpState::Idle;
                    self.core.no_token_timer = now;
                }
            },
            None => {
                self.core.state = MstpState::Idle;
                self.core.no_token_timer = now;
            },
        }
    }

    fn done_with_token(&mut self, now: u64)
        requires
            core_wf(old(self).core),
        ensures
            final(self)@ == old(self)@.done_with_token(now),
            core_wf(final(self).core),
    {
        if self.core.token_count >= NPOLL {
            self.core.token_count = 0;
            if self.core.poll_station == self.core.station_address {
                self.core.poll_station = next_poll_exec(self.core.poll_station, self.core.max_master);
            }
            let ps = self.core.poll_station;
            self.send_raw_frame(1, ps, &[], now);
            self.core.state = MstpState::PollForMaster;
            self.core.silence_timer = now;
        } else {
            self.core.state = MstpState::PassToken;
        }
    }

    fn poll_for_master(&mut self, now: u64)
        requires
            core_wf(old(self).core),
        ensures
            final(self)@ == old(self)@.poll_for_master(now),
            core_wf(final(self).core),
    {
        let c = self.core;
        if elapsed_ms(now, c.silence_timer) > c.t_slot {
            let p1 = next_poll_exec(c.poll_station, c.max_master);
            let p2 = if p1 == c.station_address {
                next_poll_exec(p1, c.max_master)
            } else {
                p1
            };
            self.core.poll_station = p2;
            self.core.state = MstpState::PassToken;
        }
        if elapsed_ms(now, c.no_token_timer) > c.t_no_token * 2 {
            self.core.state = MstpState::Idle;
            self.core.no_token_timer = now;
        }
    }

    /// One run of the state machine at clock reading `now`.
    fn run_state_machine(&mut self, now: u64)
        requires
            core_wf(old(self).core),
        ensures
            final(self)@ == old(self)@.tick(now),
            core_wf(final(self).core),
    {
        match self.core.state {
            MstpState::Initialize => {
                if elapsed_ms(now, self.core.silence_timer) > self.core.t_no_token {
                    self.core.state = MstpState::Idle;
                    self.core.no_token_timer = now;
                }
            },
            MstpState::Idle => {
                if elapsed_ms(now, self.core.no_token_timer) > self.core.t_no_token {
                    self.start_poll(now);
                }
            },
            MstpState::UseToken => self.use_token(now),
            MstpState::WaitForReply => self.wait_for_reply(now),
            MstpState::AnswerDataRequest => self.answer_data_request(now),
            MstpState::DoneWithToken => self.done_with_token(now),
            MstpState::PassToken => {
                let next = self.core.next_station;
                self.send_raw_frame(0, next, &[], now);
                self.core.state = MstpState::Idle;
                self.core.no_token_timer = now;
            },
            MstpState::NoToken => {
                if elapsed_ms(now, self.core.silence_timer) > self.core.t_no_token {
                    self.start_poll(now);
                }
            },
            MstpState::PollForMaster => self.poll_for_master(now),
        }
    }

    /// Extract and handle every complete frame in the receive buffer.
    fn parse_frames(&mut self, now: u64)
        requires
            core_wf(old(self).core),
        ensures
            final(self)@ == parse_buf(old(self)@, old(self)@.rx_buffer, now),
            core_wf(final(self).core),
    {
        let mut buf = copy_range(self.rx_buffer.as_slice(), 0, self.rx_buffer.len());
        assert(buf@ =~= old(self)@.rx_buffer);
        let ghost target = parse_buf(old(self)@, old(self)@.rx_buffer, now);
        loop
            invariant_except_break
                core_wf(self.core),
                parse_buf(self@, buf@, now) == target,
            ensures
                core_wf(self.core),
                self@ == target,
            decreases buf@.len(),
        {
            proof {
                lemma_rx_step_shrinks(buf@);
            }
            let (kind, frame, rest) = rx_next(buf.as_slice());
            if kind == 0 {
                if rest.len() >= 8 && crate::mstp_frame::header_counts(rest.as_slice()) {
                    self.core.rx_frame_count = inc_sat(self.core.rx_frame_count);
                }
                self.rx_buffer = rest;
                break;
            } else if kind == 1 {
                self.core.crc_errors = inc_sat(self.core.crc_errors);
            } else if kind == 2 {
                self.core.frame_errors = inc_sat(self.core.frame_errors);
            } else if kind == 3 {
                self.core.rx_frame_count = inc_sat(self.core.rx_frame_count);
                self.core.crc_errors = inc_sat(self.core.crc_errors);
            } else {
                self.core.rx_frame_count = inc_sat(self.core.rx_frame_count);
                match frame {
                    Some(fr) => {
                        let (t, d, s, data) = fr;
                        self.handle_received_frame(t, d, s, data, now);
                    },
                    None => {},
                }
            }
            buf = rest;
        }
    }
}


/// Statistics of an MS/TP node.
#[derive(Debug, Clone, Copy)]
pub struct MstpStats {
    pub rx_frames: u64,
    pub tx_frames: u64,
    pub crc_errors: u64,
    pub frame_errors: u64,
    pub reply_timeouts: u64,
    pub tokens_received: u64,
    pub token_pass_failures: u64,
    pub token_loop_time_ms: u32,
    pub token_loop_min_ms: u32,
    pub token_loop_max_ms: u32,
    pub token_loop_avg_ms: u32,
    pub master_count: u8,
    pub discovered_masters: u128,
    pub current_state: u8,
    pub next_station: u8,
    pub poll_station: u8,
    pub silence_ms: u32,
    pub station_address: u8,
    pub sole_master: bool,
    pub send_queue_len: u8,
    pub receive_queue_len: u8,
}

/// All counters zero.
pub open spec fn stats_zero_spec() -> MstpStats {
    MstpStats {
        rx_frames: 0,
        tx_frames: 0,
        crc_errors: 0,
        frame_errors: 0,
        reply_timeouts: 0,
        tokens_received: 0,
        token_pass_failures: 0,
        token_loop_time_ms: 0,
        token_loop_min_ms: 0,
        token_loop_max_ms: 0,
        token_loop_avg_ms: 0,
        master_count: 0,
        discovered_masters: 0,
        current_state: 0,
        next_station: 0,
        poll_station: 0,
        silence_ms: 0,
        station_address: 0,
        sole_master: false,
        send_queue_len: 0,
        receive_queue_len: 0,
    }
}

impl Default for MstpStats {
    /// All counters zero.
    fn default() -> (r: MstpStats)
        ensures
            r == stats_zero_spec(),
    {
        MstpStats {
            rx_frames: 0,
            tx_frames: 0,
            crc_errors: 0,
            frame_errors: 0,
            reply_timeouts: 0,
            tokens_received: 0,
            token_pass_failures: 0,
            token_loop_time_ms: 0,
            token_loop_min_ms: 0,
            token_loop_max_ms: 0,
            token_loop_avg_ms: 0,
            master_count: 0,
            discovered_masters: 0,
            current_state: 0,
            next_station: 0,
            poll_station: 0,
            silence_ms: 0,
            station_address: 0,
            sole_master: false,
            send_queue_len: 0,
            receive_queue_len: 0,
        }
    }
}

/// A Poll-For-Master addressed to this station is answered, in every state,
/// with a Reply-To-Poll-For-Master to the poller, put out after the frames
/// already waiting.
pub proof fn lemma_poll_for_master_answered(v: MstpView, source: u8, data: Seq<u8>, now: u64)
    ensures
        v.frame_received(1, v.core.station_address, source, data, now).tx_frames == v.tx_frames.push(
            frame_spec(2, source, v.core.station_address, Seq::empty()),
        ),
{
    assert(frame_type_of(1) == Some(MstpFrameType::PollForMaster));
}

/// A token addressed to an idle (or initializing) station gives it the
/// token: it moves to UseToken with no frames sent yet.
pub proof fn lemma_token_taken(v: MstpView, source: u8, data: Seq<u8>, now: u64)
    requires
        v.core.state == MstpState::Idle || v.core.state == MstpState::Initialize,
    ensures
        v.frame_received(0, v.core.station_address, source, data, now).core.state == MstpState::UseToken,
        v.frame_received(0, v.core.station_address, source, data, now).core.frame_count == 0,
        v.frame_received(0, v.core.station_address, source, data, now).tx_frames == v.tx_frames,
{
    assert(frame_type_of(0) == Some(MstpFrameType::Token));
}

/// A data frame expecting no reply, addressed to this station or broadcast,
/// is handed to the upper layer unless 16 frames already wait there (in any
/// state but PollForMaster, where the station only looks for replies to its
/// polls).
pub proof fn lemma_data_delivered(v: MstpView, dest: u8, source: u8, data: Seq<u8>, now: u64)
    requires
        dest == v.core.station_address || dest == 255,
        v.core.state != MstpState::PollForMaster,
    ensures
        v.frame_received(6, dest, source, data, now).receive_queue == if v.receive_queue.len() < 16 {
            v.receive_queue.push((data, source))
        } else {
            v.receive_queue
        },
{
    assert(frame_type_of(6) == Some(MstpFrameType::BacnetDataNotExpectingReply));
}

/// Number of addresses below `k` marked in bitmap `m`.
pub open spec fn bits_below(m: u128, k: nat) -> nat
    decreases k,
{
    if k == 0 {
        0
    } else {
        bits_below(m, (k - 1) as nat) + if has_bit(m, (k - 1) as u8) {
            1nat
        } else {
            0nat
        }
    }
}

/// Statistics of node `v` at clock reading `now`.
pub open spec fn stats_spec(v: MstpView, now: u64) -> MstpStats {
    let c = v.core;
    MstpStats {
        rx_frames: c.rx_frame_count,
        tx_frames: c.tx_frame_count,
        crc_errors: c.crc_errors,
        frame_errors: c.frame_errors,
        reply_timeouts: c.reply_timeouts,
        tokens_received: c.tokens_received,
        token_pass_failures: c.token_pass_failures,
        token_loop_time_ms: c.token_loop_time_ms,
        token_loop_min_ms: if c.token_loop_min_ms == u32::MAX {
            0
        } else {
            c.token_loop_min_ms
        },
        token_loop_max_ms: c.token_loop_max_ms,
        token_loop_avg_ms: if c.token_loop_count > 0 {
            (c.token_loop_sum_ms / c.token_loop_count) as u32
        } else {
            0
        },
        master_count: bits_below(c.discovered_masters, 128) as u8,
        discovered_masters: c.discovered_masters,
        current_state: state_code(c.state),
        next_station: c.next_station,
        poll_station: c.poll_station,
        silence_ms: elapsed(now, c.silence_timer) as u32,
        station_address: c.station_address,
        sole_master: c.sole_master,
        send_queue_len: v.send_queue.len() as u8,
        receive_queue_len: v.receive_queue.len() as u8,
    }
}

/// Name of a state.
pub open spec fn state_name(s: MstpState) -> Seq<char> {
    match s {
        MstpState::Initialize => "Initialize"@,
        MstpState::Idle => "Idle"@,
        MstpState::UseToken => "UseToken"@,
        MstpState::WaitForReply => "WaitForReply"@,
        MstpState::PassToken => "PassToken"@,
        MstpState::NoToken => "NoToken"@,
        MstpState::PollForMaster => "PollForMaster"@,
        MstpState::AnswerDataRequest => "AnswerDataRequest"@,
        MstpState::DoneWithToken => "DoneWithToken"@,
    }
}

/// Whether the node holds the token in state `s`.
pub open spec fn holds_token(s: MstpState) -> bool {
    s == MstpState::UseToken || s == MstpState::WaitForReply || s == MstpState::DoneWithToken
        || s == MstpState::AnswerDataRequest
}

/// State of a node just created at clock reading `now`.
pub open spec fn initial_core(station_address: u8, max_master: u8, now: u64) -> MstpCore {
    MstpCore {
        station_address,
        max_master,
        max_info_frames: 1,
        state: MstpState::Initialize,
        token_count: 0,
        frame_count: 0,
        rx_poll_count: 0,
        rx_frame_count: 0,
        tx_frame_count: 0,
        retry_count: 0,
        next_station: ((station_address as int + 1) % (max_master as int + 1)) as u8,
        poll_station: station_address,
        sole_master: false,
        last_token_time: None,
        token_loop_time_ms: 0,
        discovered_masters: with_bit(0, station_address),
        crc_errors: 0,
        frame_errors: 0,
        reply_timeouts: 0,
        tokens_received: 0,
        token_pass_failures: 0,
        token_loop_min_ms: u32::MAX,
        token_loop_max_ms: 0,
        token_loop_sum_ms: 0,
        token_loop_count: 0,
        silence_timer: now,
        reply_timer: None,
        usage_timer: None,
        reply_delay_timer: None,
        no_token_timer: now,
        t_no_token: 5000,
        t_reply_timeout: 255,
        t_reply_delay: 250,
        t_slot: 10,
        t_usage_timeout: 50,
    }
}

impl MstpDriver {
    /// Create a node with the given station address and highest master
    /// address, started at clock reading `now`.
    pub fn new(station_address: u8, max_master: u8, now: u64) -> (r: MstpDriver)
        requires
            station_address < 128,
            max_master < 128,
        ensures
            r@ == (MstpView {
                core: initial_core(station_address, max_master, now),
                send_queue: Seq::empty(),
                receive_queue: Seq::empty(),
                rx_buffer: Seq::empty(),
                pending_request: None,
                tx_frames: Seq::empty(),
            }),
            core_wf(r@.core),
    {
        let core = MstpCore {
            station_address,
            max_master,
            max_info_frames: 1,
            state: MstpState::Initialize,
            token_count: 0,
            frame_count: 0,
            rx_poll_count: 0,
            rx_frame_count: 0,
            tx_frame_count: 0,
            retry_count: 0,
            next_station: next_poll_exec(station_address, max_master),
            poll_station: station_address,
            sole_master: false,
            last_token_time: None,
            token_loop_time_ms: 0,
            discovered_masters: bit_set(0, station_address),
            crc_errors: 0,
            frame_errors: 0,
            reply_timeouts: 0,
            tokens_received: 0,
            token_pass_failures: 0,
            token_loop_min_ms: u32::MAX,
            token_loop_max_ms: 0,
            token_loop_sum_ms: 0,
            token_loop_count: 0,
            silence_timer: now,
            reply_timer: None,
            usage_timer: None,
            reply_delay_timer: None,
            no_token_timer: now,
            t_no_token: 5000,
            t_reply_timeout: 255,
            t_reply_delay: 250,
            t_slot: 10,
            t_usage_timeout: 50,
        };
        let r = MstpDriver {
            core,
            send_queue: VecDeque::new(),
            receive_queue: VecDeque::new(),
            rx_buffer: Vec::new(),
            pending_request: None,
            tx_frames: Vec::new(),
        };
        assert(r@.send_queue =~= Seq::empty());
        assert(r@.receive_queue =~= Seq::empty());
        assert(r@.tx_frames =~= Seq::empty());
        r
    }

    /// Queue a frame for transmission with the next token; `BufferFull` when
    /// 16 frames are already waiting.
    pub fn send_frame(&mut self, data: &[u8], destination: u8, expecting_reply: bool) -> (r: Result<(), MstpError>)
        ensures
            old(self)@.send_queue.len() >= 16 ==> (r matches Err(MstpError::BufferFull) && final(self)@ == old(self)@),
            old(self)@.send_queue.len() < 16 ==> r is Ok && final(self)@ == (MstpView {
                send_queue: old(self)@.send_queue.push((data@, destination, expecting_reply)),
                ..old(self)@
            }),
    {
        if self.send_queue.len() >= QUEUE_LIMIT {
            return Err(MstpError::BufferFull);
        }
        let v = copy_range(data, 0, data.len());
        assert(data@.subrange(0, data@.len() as int) =~= data@);
        self.send_queue.push_back((v, destination, expecting_reply));
        assert(self.send_queue@.map_values(|e: (Vec<u8>, u8, bool)| (e.0@, e.1, e.2))
            =~= old(self)@.send_queue.push((data@, destination, expecting_reply)));
        Ok(())
    }

    /// Queue a frame that expects no reply.
    pub fn send_frame_simple(&mut self, data: &[u8], destination: u8) -> (r: Result<(), MstpError>)
        ensures
            old(self)@.send_queue.len() >= 16 ==> (r matches Err(MstpError::BufferFull) && final(self)@ == old(self)@),
            old(self)@.send_queue.len() < 16 ==> r is Ok && final(self)@ == (MstpView {
                send_queue: old(self)@.send_queue.push((data@, destination, false)),
                ..old(self)@
            }),
    {
        self.send_frame(data, destination, false)
    }

    /// Take in the bytes `rx` read from the line at clock reading `now`:
    /// handle every complete frame, run the state machine once, and return the
    /// oldest frame for the upper layer (its data and source address).
    pub fn receive_frame(&mut self, rx: &[u8], now: u64) -> (r: Option<(Vec<u8>, u8)>)
        requires
            core_wf(old(self)@.core),
        ensures
            core_wf(final(self)@.core),
            ({
                let v = old(self)@.poll(rx@, now);
                if v.receive_queue.len() > 0 {
                    &&& r matches Some((d, s)) && d@ == v.receive_queue[0].0 && s == v.receive_queue[0].1
                    &&& final(self)@ == (MstpView { receive_queue: v.receive_queue.drop_first(), ..v })
                } else {
                    r is None && final(self)@ == v
                }
            }),
    {
        crate::text::extend_bytes(&mut self.rx_buffer, rx);
        self.core.rx_poll_count = inc_sat(self.core.rx_poll_count);
        if rx.len() > 0 {
            self.core.silence_timer = now;
        }
        assert(self@ == old(self)@.with_rx(rx@, now));
        self.parse_frames(now);
        self.run_state_machine(now);
        let ghost v = self@;
        let ghost q = self.receive_queue@;
        let r = self.receive_queue.pop_front();
        proof {
            if q.len() > 0 {
                assert forall|i: int| 0 <= i < self@.receive_queue.len() implies self@.receive_queue[i]
                    == v.receive_queue.drop_first()[i] by {
                    assert(self.receive_queue@[i] == q[i + 1]);
                }
                assert(self@.receive_queue =~= v.receive_queue.drop_first());
            }
        }
        r
    }

    /// Hand over the frames waiting for transmission, oldest first.
    pub fn take_tx_frames(&mut self) -> (r: Vec<Vec<u8>>)
        ensures
            r@.map_values(|f: Vec<u8>| f@) == old(self)@.tx_frames,
            final(self)@ == (MstpView { tx_frames: Seq::empty(), ..old(self)@ }),
    {
        let mut out: Vec<Vec<u8>> = Vec::new();
        std::mem::swap(&mut out, &mut self.tx_frames);
        assert(self@.tx_frames =~= Seq::empty());
        out
    }

    /// Send a reply to a data request at clock reading `now`: a BACnet data
    /// frame expecting no reply, put out ahead of the token rotation.
    pub fn send_reply(&mut self, data: &[u8], destination: u8, now: u64) -> (r: Result<(), MstpError>)
        ensures
            r is Ok,
            final(self)@ == old(self)@.send(6, destination, data@, now),
    {
        self.send_raw_frame(6, destination, data, now);
        Ok(())
    }

    /// Received and transmitted frame counts.
    pub fn get_frame_stats(&self) -> (r: (u64, u64))
        ensures
            r == (self@.core.rx_frame_count, self@.core.tx_frame_count),
    {
        (self.core.rx_frame_count, self.core.tx_frame_count)
    }

    /// The next known master after this station in the token ring.
    pub fn find_next_master(&self) -> (r: u8)
        requires
            core_wf(self@.core),
        ensures
            r == find_next_master_spec(self@.core),
    {
        next_master_of(&self.core)
    }

    /// Statistics at clock reading `now`.
    pub fn get_stats(&self, now: u64) -> (r: MstpStats)
        ensures
            r == stats_spec(self@, now),
    {
        let c = self.core;
        let avg: u32 = if c.token_loop_count > 0 {
            (c.token_loop_sum_ms / c.token_loop_count) as u32
        } else {
            0
        };
        let min: u32 = if c.token_loop_min_ms == u32::MAX {
            0
        } else {
            c.token_loop_min_ms
        };
        let mut count: u8 = 0;
        let mut i: u8 = 0;
        while i < 128
            invariant
                i <= 128,
                count == bits_below(c.discovered_masters, i as nat),
                count <= i,
            decreases 128 - i,
        {
            if bit_is_set(c.discovered_masters, i) {
                count = count + 1;
            }
            i = i + 1;
        }
        let r = MstpStats {
            rx_frames: c.rx_frame_count,
            tx_frames: c.tx_frame_count,
            crc_errors: c.crc_errors,
            frame_errors: c.frame_errors,
            reply_timeouts: c.reply_timeouts,
            tokens_received: c.tokens_received,
            token_pass_failures: c.token_pass_failures,
            token_loop_time_ms: c.token_loop_time_ms,
            token_loop_min_ms: min,
            token_loop_max_ms: c.token_loop_max_ms,
            token_loop_avg_ms: avg,
            master_count: count,
            discovered_masters: c.discovered_masters,
            current_state: c.state.code(),
            next_station: c.next_station,
            poll_station: c.poll_station,
            silence_ms: elapsed_ms(now, c.silence_timer) as u32,
            station_address: c.station_address,
            sole_master: c.sole_master,
            send_queue_len: self.send_queue.len() as u8,
            receive_queue_len: self.receive_queue.len() as u8,
        };
        r
    }

    /// Name of the current state.
    pub fn get_state_name(&self) -> (r: &'static str)
        ensures
            r@ == state_name(self@.core.state),
    {
        match self.core.state {
            MstpState::Initialize => "Initialize",
            MstpState::Idle => "Idle",
            MstpState::UseToken => "UseToken",
            MstpState::WaitForReply => "WaitForReply",
            MstpState::PassToken => "PassToken",
            MstpState::NoToken => "NoToken",
            MstpState::PollForMaster => "PollForMaster",
            MstpState::AnswerDataRequest => "AnswerDataRequest",
            MstpState::DoneWithToken => "DoneWithToken",
        }
    }

    /// Clear the statistics counters; the known masters are kept.
    pub fn reset_stats(&mut self)
        ensures
            final(self)@ == old(self)@.with_core(
                MstpCore {
                    rx_frame_count: 0,
                    tx_frame_count: 0,
                    crc_errors: 0,
                    reply_timeouts: 0,
                    tokens_received: 0,
                    frame_errors: 0,
                    token_pass_failures: 0,
                    rx_poll_count: 0,
                    token_loop_time_ms: 0,
                    token_loop_min_ms: u32::MAX,
                    token_loop_max_ms: 0,
                    token_loop_sum_ms: 0,
                    token_loop_count: 0,
                    ..old(self)@.core
                },
            ),
    {
        self.core.rx_frame_count = 0;
        self.core.tx_frame_count = 0;
        self.core.crc_errors = 0;
        self.core.reply_timeouts = 0;
        self.core.tokens_received = 0;
        self.core.frame_errors = 0;
        self.core.token_pass_failures = 0;
        self.core.rx_poll_count = 0;
        self.core.token_loop_time_ms = 0;
        self.core.token_loop_min_ms = u32::MAX;
        self.core.token_loop_max_ms = 0;
        self.core.token_loop_sum_ms = 0;
        self.core.token_loop_count = 0;
    }

    /// Whether the node holds the token.
    pub fn has_token(&self) -> (r: bool)
        ensures
            r == holds_token(self@.core.state),
    {
        match self.core.state {
            MstpState::UseToken
            | MstpState::WaitForReply
            | MstpState::DoneWithToken
            | MstpState::AnswerDataRequest => true,
            _ => false,
        }
    }

    /// This station's address.
    pub fn get_station_address(&self) -> (r: u8)
        ensures
            r == self@.core.station_address,
    {
        self.core.station_address
    }

    /// The highest master address.
    pub fn get_max_master(&self) -> (r: u8)
        ensures
            r == self@.core.max_master,
    {
        self.core.max_master
    }

    /// The node's current state.
    pub fn state(&self) -> (r: MstpState)
        ensures
            r == self@.core.state,
    {
        self.core.state
    }
}

} // verus!
