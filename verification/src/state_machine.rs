//! A compact MS/TP master-node state machine whose transitions are driven by
//! explicit events, with a log of every transition and its reason.
use vstd::prelude::*;
use crate::mstp_types::MstpState;

verus! {

/// Frame types seen by the event-driven state machine.
#[derive(Debug, Clone, Copy, PartialEq, Eq, Structural)]
pub enum FrameType {
    Token,
    PollForMaster,
    ReplyToPollForMaster,
    TestRequest,
    TestResponse,
    BACnetDataExpectingReply,
    BACnetDataNotExpectingReply,
    ReplyPostponed,
}

/// Event-driven MS/TP state machine.
pub struct TestStateMachine {
    pub state: MstpState,
    pub station_address: u8,
    pub next_station: u8,
    pub poll_station: u8,
    pub max_master: u8,
    pub sole_master: bool,
    pub token_count: u8,
    pub frame_count: u8,
    pub max_info_frames: u8,
    pub t_no_token: u64,
    pub t_reply_timeout: u64,
    pub t_slot: u64,
    /// Every transition taken: (from, to, reason).
    pub transitions: Vec<(MstpState, MstpState, String)>,
}

/// Mathematical view of the state machine.
pub struct SmView {
    pub state: MstpState,
    pub station_address: u8,
    pub next_station: u8,
    pub poll_station: u8,
    pub max_master: u8,
    pub sole_master: bool,
    pub token_count: u8,
    pub frame_count: u8,
    pub max_info_frames: u8,
    pub t_no_token: u64,
    pub t_reply_timeout: u64,
    pub t_slot: u64,
    pub transitions: Seq<(MstpState, MstpState, Seq<char>)>,
}

impl View for TestStateMachine {
    type V = SmView;

    open spec fn view(&self) -> SmView {
        SmView {
            state: self.state,
            station_address: self.station_address,
            next_station: self.next_station,
            poll_station: self.poll_station,
            max_master: self.max_master,
            sole_master: self.sole_master,
            token_count: self.token_count,
            frame_count: self.frame_count,
            max_info_frames: self.max_info_frames,
            t_no_token: self.t_no_token,
            t_reply_timeout: self.t_reply_timeout,
            t_slot: self.t_slot,
            transitions: self.transitions@.map_values(
                |t: (MstpState, MstpState, String)| (t.0, t.1, t.2@),
            ),
        }
    }
}

impl SmView {
    /// The view after moving to `to`, logging the move with `reason`.
    pub open spec fn goto(self, to: MstpState, reason: Seq<char>) -> SmView {
        SmView { state: to, transitions: self.transitions.push((self.state, to, reason)), ..self }
    }

    pub open spec fn after_silence_timeout(self) -> SmView {
        if self.state == MstpState::Initialize {
            self.goto(MstpState::Idle, "Tno_token silence"@)
        } else {
            self
        }
    }

    pub open spec fn after_no_token_timeout(self) -> SmView {
        if self.state == MstpState::Idle {
            SmView {
                poll_station: ((self.station_address + 1) % (self.max_master + 1)) as u8,
                ..self
            }.goto(MstpState::PollForMaster, "Tno_token expired, start polling"@)
        } else {
            self
        }
    }

    pub open spec fn after_frame_received(self, frame_type: FrameType, dest: u8, source: u8) -> SmView {
        match self.state {
            MstpState::Initialize => self.goto(
                MstpState::Idle,
                "Valid frame received in Initialize"@,
            ),
            MstpState::Idle => {
                if frame_type == FrameType::Token && dest == self.station_address {
                    SmView {
                        token_count: (self.token_count + 1) as u8,
                        frame_count: 0,
                        ..self
                    }.goto(MstpState::UseToken, "Token received"@)
                } else if frame_type == FrameType::BACnetDataExpectingReply && dest
                    == self.station_address {
                    self.goto(MstpState::AnswerDataRequest, "DataExpectingReply received"@)
                } else {
                    self
                }
            },
            MstpState::WaitForReply => {
                if frame_type == FrameType::Token || frame_type == FrameType::PollForMaster
                    || frame_type == FrameType::ReplyToPollForMaster || frame_type
                    == FrameType::TestRequest {
                    self.goto(
                        MstpState::Idle,
                        "Unexpected frame in WaitForReply (negative list reject)"@,
                    )
                } else {
                    self.goto(
                        MstpState::DoneWithToken,
                        "Valid reply received (negative list accept)"@,
                    )
                }
            },
            MstpState::PollForMaster => {
                if frame_type == FrameType::ReplyToPollForMaster && dest == self.station_address {
                    SmView { next_station: source, sole_master: false, ..self }.goto(
                        MstpState::UseToken,
                        "ReplyToPollForMaster received"@,
                    )
                } else {
                    self
                }
            },
            _ => self,
        }
    }

    pub open spec fn after_frame_sent(self, expecting_reply: bool) -> SmView {
        if self.state == MstpState::UseToken {
            let s = SmView { frame_count: (self.frame_count + 1) as u8, ..self };
            if expecting_reply {
                s.goto(MstpState::WaitForReply, "Sent DataExpectingReply"@)
            } else if s.frame_count >= s.max_info_frames {
                s.goto(MstpState::DoneWithToken, "Max info frames sent"@)
            } else {
                s
            }
        } else {
            self
        }
    }

    pub open spec fn after_no_frames_to_send(self) -> SmView {
        if self.state == MstpState::UseToken {
            self.goto(MstpState::DoneWithToken, "No frames to send"@)
        } else {
            self
        }
    }

    pub open spec fn after_reply_timeout(self) -> SmView {
        if self.state == MstpState::WaitForReply {
            self.goto(MstpState::DoneWithToken, "Treply_timeout expired"@)
        } else {
            self
        }
    }

    pub open spec fn after_slot_timeout(self) -> SmView {
        if self.state == MstpState::PollForMaster {
            let p = ((self.poll_station + 1) % (self.max_master + 1)) as u8;
            let s = SmView { poll_station: p, ..self };
            if p == self.station_address {
                SmView { sole_master: true, next_station: self.station_address, ..s }.goto(
                    MstpState::UseToken,
                    "Sole master - polled all, no response"@,
                )
            } else {
                s
            }
        } else {
            self
        }
    }

    pub open spec fn after_done_with_token(self) -> SmView {
        if self.state == MstpState::DoneWithToken {
            if self.token_count >= 50 {
                SmView {
                    token_count: 0,
                    poll_station: ((self.next_station + 1) % (self.max_master + 1)) as u8,
                    ..self
                }.goto(MstpState::PollForMaster, "Poll interval reached (NPOLL)"@)
            } else {
                self.goto(MstpState::PassToken, "Ready to pass token"@)
            }
        } else {
            self
        }
    }

    pub open spec fn after_token_passed(self) -> SmView {
        if self.state == MstpState::PassToken {
            self.goto(MstpState::Idle, "Token passed"@)
        } else {
            self
        }
    }

    pub open spec fn after_reply_delay_timeout(self) -> SmView {
        if self.state == MstpState::AnswerDataRequest {
            self.goto(MstpState::Idle, "Reply sent/timeout"@)
        } else {
            self
        }
    }
}

impl TestStateMachine {
    /// A machine in Initialize for `station_address`, with the default timing.
    pub fn new(station_address: u8) -> (r: TestStateMachine)
        requires
            station_address < 255,
        ensures
            r@ == (SmView {
                state: MstpState::Initialize,
                station_address,
                next_station: ((station_address + 1) % 128) as u8,
                poll_station: 0,
                max_master: 127,
                sole_master: false,
                token_count: 0,
                frame_count: 0,
                max_info_frames: 1,
                t_no_token: 500,
                t_reply_timeout: 255,
                t_slot: 10,
                transitions: Seq::empty(),
            }),
    {
        let r = TestStateMachine {
            state: MstpState::Initialize,
            station_address,
            next_station: (station_address + 1) % 128,
            poll_station: 0,
            max_master: 127,
            sole_master: false,
            token_count: 0,
            frame_count: 0,
            max_info_frames: 1,
            t_no_token: 500,
            t_reply_timeout: 255,
            t_slot: 10,
            transitions: Vec::new(),
        };
        assert(r@.transitions =~= Seq::<(MstpState, MstpState, Seq<char>)>::empty());
        r
    }

    /// Move to `new_state`, logging the move with `reason`.
    pub fn transition_to(&mut self, new_state: MstpState, reason: &str)
        ensures
            final(self)@ == old(self)@.goto(new_state, reason@),
    {
        let old_state = self.state;
        let ghost old_view = self@;
        self.transitions.push((old_state, new_state, reason.to_owned()));
        self.state = new_state;
        assert(self@.transitions =~= old_view.transitions.push((old_state, new_state, reason@)));
    }

    /// Silence timeout: Initialize moves to Idle.
    pub fn on_silence_timeout(&mut self)
        ensures
            final(self)@ == old(self)@.after_silence_timeout(),
    {
        if self.state == MstpState::Initialize {
            self.transition_to(MstpState::Idle, "Tno_token silence");
        }
    }

    /// No-token timeout: Idle starts polling from the station after this one.
    pub fn on_no_token_timeout(&mut self)
        requires
            old(self).state == MstpState::Idle ==> old(self).station_address < 255
                && old(self).max_master < 255,
        ensures
            final(self)@ == old(self)@.after_no_token_timeout(),
    {
        if self.state == MstpState::Idle {
            self.poll_station = (self.station_address + 1) % (self.max_master + 1);
            self.transition_to(MstpState::PollForMaster, "Tno_token expired, start polling");
        }
    }

    /// A frame was received.
    pub fn on_frame_received(&mut self, frame_type: FrameType, dest: u8, source: u8)
        requires
            old(self).state == MstpState::Idle && frame_type == FrameType::Token && dest == old(self).station_address ==> old(self).token_count < 255,
        ensures
            final(self)@ == old(self)@.after_frame_received(frame_type, dest, source),
    {
        match self.state {
            MstpState::Initialize => {
                self.transition_to(MstpState::Idle, "Valid frame received in Initialize");
            },
            MstpState::Idle => {
                if frame_type == FrameType::Token && dest == self.station_address {
                    self.token_count = self.token_count + 1;
                    self.frame_count = 0;
                    self.transition_to(MstpState::UseToken, "Token received");
                } else if frame_type == FrameType::PollForMaster && dest == self.station_address {
                    // The reply would be sent here; the state stays Idle.
                } else if frame_type == FrameType::BACnetDataExpectingReply && dest
                    == self.station_address {
                    self.transition_to(MstpState::AnswerDataRequest, "DataExpectingReply received");
                }
            },
            MstpState::WaitForReply => {
                match frame_type {
                    FrameType::Token
                    | FrameType::PollForMaster
                    | FrameType::ReplyToPollForMaster
                    | FrameType::TestRequest => {
                        self.transition_to(
                            MstpState::Idle,
                            "Unexpected frame in WaitForReply (negative list reject)",
                        );
                    },
                    _ => {
                        self.transition_to(
                            MstpState::DoneWithToken,
                            "Valid reply received (negative list accept)",
                        );
                    },
                }
            },
            MstpState::PollForMaster => {
                if frame_type == FrameType::ReplyToPollForMaster && dest == self.station_address {
                    self.next_station = source;
                    self.sole_master = false;
                    self.transition_to(MstpState::UseToken, "ReplyToPollForMaster received");
                }
            },
            _ => {},
        }
    }

    /// A frame was sent while holding the token.
    pub fn on_frame_sent(&mut self, expecting_reply: bool)
        requires
            old(self).state == MstpState::UseToken ==> old(self).frame_count < 255,
        ensures
            final(self)@ == old(self)@.after_frame_sent(expecting_reply),
    {
        if self.state == MstpState::UseToken {
            self.frame_count = self.frame_count + 1;
            if expecting_reply {
                self.transition_to(MstpState::WaitForReply, "Sent DataExpectingReply");
            } else if self.frame_count >= self.max_info_frames {
                self.transition_to(MstpState::DoneWithToken, "Max info frames sent");
            }
        }
    }

    /// Nothing is queued while holding the token.
    pub fn on_no_frames_to_send(&mut self)
        ensures
            final(self)@ == old(self)@.after_no_frames_to_send(),
    {
        if self.state == MstpState::UseToken {
            self.transition_to(MstpState::DoneWithToken, "No frames to send");
        }
    }

    /// The reply timer expired.
    pub fn on_reply_timeout(&mut self)
        ensures
            final(self)@ == old(self)@.after_reply_timeout(),
    {
        if self.state == MstpState::WaitForReply {
            self.transition_to(MstpState::DoneWithToken, "Treply_timeout expired");
        }
    }

    /// A poll slot expired without reply: poll the next station, or become sole
    /// master after coming back round to this station.
    pub fn on_slot_timeout(&mut self)
        requires
            old(self).state == MstpState::PollForMaster ==> old(self).poll_station < 255 && old(self).max_master < 255,
        ensures
            final(self)@ == old(self)@.after_slot_timeout(),
    {
        if self.state == MstpState::PollForMaster {
            self.poll_station = (self.poll_station + 1) % (self.max_master + 1);
            if self.poll_station == self.station_address {
                self.sole_master = true;
                self.next_station = self.station_address;
                self.transition_to(MstpState::UseToken, "Sole master - polled all, no response");
            }
        }
    }

    /// Done with the token: pass it, or poll for masters every fifty tokens.
    pub fn on_done_with_token(&mut self)
        requires
            old(self).state == MstpState::DoneWithToken && old(self).token_count >= 50 ==> old(self).next_station < 255 && old(self).max_master < 255,
        ensures
            final(self)@ == old(self)@.after_done_with_token(),
    {
        if self.state == MstpState::DoneWithToken {
            if self.token_count >= 50 {
                self.token_count = 0;
                self.poll_station = (self.next_station + 1) % (self.max_master + 1);
                self.transition_to(MstpState::PollForMaster, "Poll interval reached (NPOLL)");
            } else {
                self.transition_to(MstpState::PassToken, "Ready to pass token");
            }
        }
    }

    /// The token was passed on.
    pub fn on_token_passed(&mut self)
        ensures
            final(self)@ == old(self)@.after_token_passed(),
    {
        if self.state == MstpState::PassToken {
            self.transition_to(MstpState::Idle, "Token passed");
        }
    }

    /// The reply delay expired while answering a data request.
    pub fn on_reply_delay_timeout(&mut self)
        ensures
            final(self)@ == old(self)@.after_reply_delay_timeout(),
    {
        if self.state == MstpState::AnswerDataRequest {
            self.transition_to(MstpState::Idle, "Reply sent/timeout");
        }
    }
}

} // verus!
