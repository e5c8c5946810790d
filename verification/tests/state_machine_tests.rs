use mstp_gateway::mstp_types::MstpState;
use mstp_gateway::state_machine::{FrameType, TestStateMachine};

fn holding_token() -> TestStateMachine {
    let mut sm = TestStateMachine::new(3);
    sm.on_silence_timeout();
    sm.on_frame_received(FrameType::Token, 3, 5);
    sm
}

#[test]
fn initialize_to_idle_on_silence() {
    let mut sm = TestStateMachine::new(3);
    assert_eq!(sm.state, MstpState::Initialize);
    sm.on_silence_timeout();
    assert_eq!(sm.transitions[0].0, MstpState::Initialize);
    assert_eq!(sm.state, MstpState::Idle);
    assert_eq!(sm.transitions[0].2, "Tno_token silence");
}

#[test]
fn initialize_to_idle_on_any_frame() {
    let mut sm = TestStateMachine::new(3);
    sm.on_frame_received(FrameType::Token, 5, 10);
    assert_eq!(sm.state, MstpState::Idle);
}

#[test]
fn idle_to_use_token_on_token() {
    let sm = holding_token();
    assert_eq!(sm.state, MstpState::UseToken);
    assert_eq!(sm.token_count, 1);
    assert_eq!(sm.frame_count, 0);
}

#[test]
fn idle_to_poll_for_master_on_no_token() {
    let mut sm = TestStateMachine::new(3);
    sm.on_silence_timeout();
    sm.on_no_token_timeout();
    assert_eq!(sm.state, MstpState::PollForMaster);
    assert_eq!(sm.poll_station, 4);
}

#[test]
fn use_token_to_done_and_wait() {
    let mut sm = holding_token();
    sm.on_no_frames_to_send();
    assert_eq!(sm.state, MstpState::DoneWithToken);

    let mut sm = holding_token();
    sm.on_frame_sent(true);
    assert_eq!(sm.state, MstpState::WaitForReply);

    let mut sm = holding_token();
    sm.on_frame_sent(false);
    assert_eq!(sm.state, MstpState::DoneWithToken);
}

#[test]
fn wait_for_reply_negative_list() {
    for ftype in [FrameType::Token, FrameType::PollForMaster, FrameType::ReplyToPollForMaster, FrameType::TestRequest] {
        let mut sm = holding_token();
        sm.on_frame_sent(true);
        assert_eq!(sm.state, MstpState::WaitForReply);
        sm.on_frame_received(ftype, 3, 10);
        assert_eq!(sm.state, MstpState::Idle);
    }
    for ftype in [FrameType::BACnetDataNotExpectingReply, FrameType::TestResponse, FrameType::ReplyPostponed] {
        let mut sm = holding_token();
        sm.on_frame_sent(true);
        sm.on_frame_received(ftype, 3, 10);
        assert_eq!(sm.state, MstpState::DoneWithToken);
    }
}

#[test]
fn wait_for_reply_timeout() {
    let mut sm = holding_token();
    sm.on_frame_sent(true);
    sm.on_reply_timeout();
    assert_eq!(sm.state, MstpState::DoneWithToken);
}

#[test]
fn poll_for_master_reply_and_sole_master() {
    let mut sm = TestStateMachine::new(3);
    sm.on_silence_timeout();
    sm.on_no_token_timeout();
    sm.on_frame_received(FrameType::ReplyToPollForMaster, 3, 10);
    assert_eq!(sm.state, MstpState::UseToken);
    assert_eq!(sm.next_station, 10);

    let mut sm = TestStateMachine::new(3);
    sm.max_master = 5;
    sm.on_silence_timeout();
    sm.on_no_token_timeout();
    for _ in 0..10 {
        if sm.state == MstpState::UseToken {
            break;
        }
        sm.on_slot_timeout();
    }
    assert!(sm.sole_master);
    assert_eq!(sm.next_station, sm.station_address);
}

#[test]
fn answer_data_request_and_token_cycle() {
    let mut sm = TestStateMachine::new(3);
    sm.on_silence_timeout();
    sm.on_frame_received(FrameType::BACnetDataExpectingReply, 3, 10);
    assert_eq!(sm.state, MstpState::AnswerDataRequest);
    sm.on_reply_delay_timeout();
    assert_eq!(sm.state, MstpState::Idle);

    let mut sm = holding_token();
    sm.on_no_frames_to_send();
    sm.on_done_with_token();
    assert_eq!(sm.state, MstpState::PassToken);
    sm.on_token_passed();
    assert_eq!(sm.state, MstpState::Idle);
}
