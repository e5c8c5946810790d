//! MS/TP frame types and node states (ASHRAE 135 Clause 9).
use vstd::prelude::*;

verus! {

/// MS/TP frame types, in the order of their wire codes 0..=7.
#[derive(Debug, Clone, Copy, PartialEq, Eq, Structural)]
pub enum MstpFrameType {
    Token,
    PollForMaster,
    ReplyToPollForMaster,
    TestRequest,
    TestResponse,
    BacnetDataExpectingReply,
    BacnetDataNotExpectingReply,
    ReplyPostponed,
}

/// Wire code of a frame type.
pub open spec fn frame_type_code(t: MstpFrameType) -> u8 {
    match t {
        MstpFrameType::Token => 0,
        MstpFrameType::PollForMaster => 1,
        MstpFrameType::ReplyToPollForMaster => 2,
        MstpFrameType::TestRequest => 3,
        MstpFrameType::TestResponse => 4,
        MstpFrameType::BacnetDataExpectingReply => 5,
        MstpFrameType::BacnetDataNotExpectingReply => 6,
        MstpFrameType::ReplyPostponed => 7,
    }
}

/// Frame type with wire code `v`; `None` for codes above 7.
pub open spec fn frame_type_of(v: u8) -> Option<MstpFrameType> {
    if v == 0 {
        Some(MstpFrameType::Token)
    } else if v == 1 {
        Some(MstpFrameType::PollForMaster)
    } else if v == 2 {
        Some(MstpFrameType::ReplyToPollForMaster)
    } else if v == 3 {
        Some(MstpFrameType::TestRequest)
    } else if v == 4 {
        Some(MstpFrameType::TestResponse)
    } else if v == 5 {
        Some(MstpFrameType::BacnetDataExpectingReply)
    } else if v == 6 {
        Some(MstpFrameType::BacnetDataNotExpectingReply)
    } else if v == 7 {
        Some(MstpFrameType::ReplyPostponed)
    } else {
        None
    }
}

impl MstpFrameType {
    /// Frame type for a wire code; `None` for codes above 7.
    pub fn from_u8(value: u8) -> (r: Option<MstpFrameType>)
        ensures
            r == frame_type_of(value),
            value <= 7 <==> r is Some,
            r matches Some(t) ==> frame_type_code(t) == value,
    {
        match value {
            0 => Some(MstpFrameType::Token),
            1 => Some(MstpFrameType::PollForMaster),
            2 => Some(MstpFrameType::ReplyToPollForMaster),
            3 => Some(MstpFrameType::TestRequest),
            4 => Some(MstpFrameType::TestResponse),
            5 => Some(MstpFrameType::BacnetDataExpectingReply),
            6 => Some(MstpFrameType::BacnetDataNotExpectingReply),
            7 => Some(MstpFrameType::ReplyPostponed),
            _ => None,
        }
    }

    /// Wire code of this frame type.
    pub fn code(&self) -> (r: u8)
        ensures
            r == frame_type_code(*self),
    {
        match self {
            MstpFrameType::Token => 0,
            MstpFrameType::PollForMaster => 1,
            MstpFrameType::ReplyToPollForMaster => 2,
            MstpFrameType::TestRequest => 3,
            MstpFrameType::TestResponse => 4,
            MstpFrameType::BacnetDataExpectingReply => 5,
            MstpFrameType::BacnetDataNotExpectingReply => 6,
            MstpFrameType::ReplyPostponed => 7,
        }
    }
}

/// Decoding a frame type's code gives the frame type back.
pub proof fn lemma_frame_type_code_roundtrip(t: MstpFrameType, c: u8)
    requires
        c == frame_type_code(t),
    ensures
        c <= 7,
        forall|u: MstpFrameType| frame_type_code(u) == c ==> u == t,
{
}

/// MS/TP node state machine states.
#[derive(Debug, Clone, Copy, PartialEq, Eq, Structural)]
pub enum MstpState {
    Initialize,
    Idle,
    UseToken,
    WaitForReply,
    PassToken,
    NoToken,
    PollForMaster,
    AnswerDataRequest,
    DoneWithToken,
}

/// Number of a state, in declaration order.
pub open spec fn state_code(s: MstpState) -> u8 {
    match s {
        MstpState::Initialize => 0,
        MstpState::Idle => 1,
        MstpState::UseToken => 2,
        MstpState::WaitForReply => 3,
        MstpState::PassToken => 4,
        MstpState::NoToken => 5,
        MstpState::PollForMaster => 6,
        MstpState::AnswerDataRequest => 7,
        MstpState::DoneWithToken => 8,
    }
}

impl MstpState {
    /// Number of this state, in declaration order.
    pub fn code(&self) -> (r: u8)
        ensures
            r == state_code(*self),
    {
        match self {
            MstpState::Initialize => 0,
            MstpState::Idle => 1,
            MstpState::UseToken => 2,
            MstpState::WaitForReply => 3,
            MstpState::PassToken => 4,
            MstpState::NoToken => 5,
            MstpState::PollForMaster => 6,
            MstpState::AnswerDataRequest => 7,
            MstpState::DoneWithToken => 8,
        }
    }
}

} // verus!
