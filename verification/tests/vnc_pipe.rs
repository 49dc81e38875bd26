use vnc_bridge::signaling::{CandidateValue, IceServerConfig};
use vnc_bridge::vnc_pipe::{
    forward, spawn_vnc_pipe, vnc_read, Bridge, Direction, ForwardAction, ForwardEvent, IceAction,
    OfferError, PeerState, PipeAction, PipeEvent,
};

const SECOND: u128 = 1_000_000_000;

fn bridge() -> Bridge {
    let server = IceServerConfig {
        urls: vec!["turn:t".to_string()],
        username: None,
        credential: None,
    };
    Bridge::new("127.0.0.1:5900".to_string(), vec![server])
}

fn text(candidate: &str) -> Option<CandidateValue> {
    Some(CandidateValue::Text(candidate.to_string()))
}

#[test]
fn new_bridge_has_no_session() {
    let bridge = bridge();
    assert_eq!(bridge.vnc_addr(), "127.0.0.1:5900");
    assert_eq!(bridge.ice_servers().len(), 1);
    assert_eq!(bridge.ice_servers()[0].urls, vec!["turn:t"]);
    assert_eq!(bridge.session_id(), None);
}

#[test]
fn first_offer_is_taken_up() {
    let mut bridge = bridge();
    assert_eq!(bridge.handle_offer(0, PeerState::Unspecified), Ok(None));
    let (replaced, waiting) = bridge.start_session(1, 5);
    assert_eq!(replaced, None);
    assert!(waiting.is_empty());
    assert_eq!(bridge.session_id(), Some(1));
}

#[test]
fn quick_repeat_is_refused_while_the_session_lives() {
    for state in [PeerState::New, PeerState::Connecting, PeerState::Connected] {
        let mut bridge = bridge();
        bridge.start_session(1, 100);
        let refused = bridge.handle_offer(100 + 10 * SECOND - 1, state);
        assert_eq!(refused, Err(OfferError::Duplicate));
        assert_eq!(bridge.session_id(), Some(1));
    }
    assert_eq!(OfferError::Duplicate.message(), "duplicate offer ignored");
}

#[test]
fn later_offer_replaces_the_session() {
    let mut bridge = bridge();
    bridge.start_session(1, 100);
    let taken = bridge.handle_offer(100 + 10 * SECOND, PeerState::Connected);
    assert_eq!(taken, Ok(Some(1)));
    assert_eq!(bridge.session_id(), None);
    bridge.start_session(2, 200 + 10 * SECOND);
    assert_eq!(bridge.session_id(), Some(2));
}

#[test]
fn dead_session_is_replaced_at_once() {
    let dead = [
        PeerState::Unspecified,
        PeerState::Disconnected,
        PeerState::Failed,
        PeerState::Closed,
    ];
    for state in dead {
        let mut bridge = bridge();
        bridge.start_session(1, 100);
        assert_eq!(bridge.handle_offer(101, state), Ok(Some(1)));
    }
}

#[test]
fn clock_that_lags_counts_as_no_time() {
    let mut bridge = bridge();
    bridge.start_session(1, 20 * SECOND);
    assert_eq!(bridge.handle_offer(0, PeerState::New), Err(OfferError::Duplicate));
}

#[test]
fn early_candidates_wait_for_the_session() {
    let mut bridge = bridge();
    let buffered = bridge.handle_ice_candidate(text("a"), Some("m".to_string()), Some(1));
    assert!(matches!(buffered, IceAction::Buffered));
    assert!(matches!(bridge.handle_ice_candidate(None, None, None), IceAction::Buffered));
    assert_eq!(bridge.handle_offer(0, PeerState::Unspecified), Ok(None));
    assert!(matches!(bridge.handle_ice_candidate(text("b"), None, None), IceAction::Buffered));
    let (_, flushed) = bridge.start_session(1, 1);
    assert_eq!(flushed.len(), 2);
    assert_eq!(flushed[0].candidate, "a");
    assert_eq!(flushed[0].sdp_mid, "m");
    assert_eq!(flushed[0].sdp_mline_index, 1);
    assert_eq!(flushed[1].candidate, "b");
    assert_eq!(flushed[1].sdp_mid, "0");
    assert!(bridge.start_session(2, 2).1.is_empty());
}

#[test]
fn candidates_go_to_the_session_being_served() {
    let mut bridge = bridge();
    bridge.start_session(7, 0);
    match bridge.handle_ice_candidate(text("c"), None, None) {
        IceAction::Add { session, init } => {
            assert_eq!(session, 7);
            assert_eq!(init.candidate, "c");
        }
        _ => panic!("the candidate must be added"),
    }
    assert!(matches!(bridge.handle_ice_candidate(text(""), None, None), IceAction::Skip));
    assert!(bridge.start_session(8, 0).1.is_empty());
}

#[test]
fn pipe_connects_once_the_channel_is_open() {
    let pipe = spawn_vnc_pipe("host:5900".to_string());
    assert!(matches!(
        pipe.on_event(PipeEvent::ChannelOpen),
        PipeAction::ConnectVnc(addr) if addr == "host:5900"
    ));
    assert!(matches!(
        pipe.on_event(PipeEvent::VncConnected(true)),
        PipeAction::Forward(65536)
    ));
    assert!(matches!(pipe.on_event(PipeEvent::VncConnected(false)), PipeAction::Stop));
}

#[test]
fn pipe_stops_with_either_direction() {
    let pipe = spawn_vnc_pipe("host:5900".to_string());
    for direction in [Direction::ToBrowser, Direction::ToVnc] {
        assert!(matches!(
            pipe.on_event(PipeEvent::DirectionEnded(direction)),
            PipeAction::Stop
        ));
    }
}

#[test]
fn sessions_of_two_offers_at_once_leave_one() {
    let mut bridge = bridge();
    assert_eq!(bridge.handle_offer(0, PeerState::Unspecified), Ok(None));
    assert_eq!(bridge.handle_offer(1, PeerState::Unspecified), Ok(None));
    assert_eq!(bridge.start_session(1, 2).0, None);
    assert_eq!(bridge.start_session(2, 3).0, Some(1));
    assert_eq!(bridge.session_id(), Some(2));
    assert_eq!(bridge.handle_offer(4, PeerState::Failed), Ok(Some(2)));
    assert_eq!(bridge.session_id(), None);
}

#[test]
fn reads_are_cut_to_what_came() {
    match vnc_read(&[1, 2, 3, 4], 3) {
        ForwardEvent::Chunk(chunk) => assert_eq!(chunk, vec![1, 2, 3]),
        _ => panic!("a chunk was expected"),
    }
    assert!(matches!(vnc_read(&[1, 2], 0), ForwardEvent::SourceClosed));
}

#[test]
fn bytes_pass_in_order() {
    let mut delivered: Vec<u8> = Vec::new();
    for chunk in [vec![1u8, 2], vec![], vec![3]] {
        match forward(ForwardEvent::Chunk(chunk)) {
            ForwardAction::Deliver(bytes) => delivered.extend(bytes),
            _ => panic!("a chunk must be delivered"),
        }
        assert!(matches!(forward(ForwardEvent::Delivered), ForwardAction::Fetch));
    }
    assert_eq!(delivered, vec![1, 2, 3]);
}

#[test]
fn direction_ends_with_its_source_or_sink() {
    assert!(matches!(forward(ForwardEvent::SourceClosed), ForwardAction::Stop));
    assert!(matches!(forward(ForwardEvent::SourceFailed), ForwardAction::Stop));
    assert!(matches!(forward(ForwardEvent::DeliveryFailed), ForwardAction::Stop));
}
