use vnc_bridge::signaling::{CandidateValue, IceServerConfig, JsonMember};
use vnc_bridge::webrtc_peer::{
    add_ice_candidate, after_parsing, data_channel, handle_offer, peer_configuration, Negotiation,
    NegotiationAction, NegotiationError, NegotiationEvent, Network, TransportPolicy,
};

const OFFER: &str = "v=0\r\no=- 1 2 IN IP4 127.0.0.1\r\ns=-\r\nt=0 0\r\n";

fn servers() -> Vec<IceServerConfig> {
    vec![
        IceServerConfig {
            urls: vec!["stun:a".to_string(), "stun:b".to_string()],
            username: None,
            credential: None,
        },
        IceServerConfig {
            urls: vec!["turn:c".to_string()],
            username: Some("u".to_string()),
            credential: Some("p".to_string()),
        },
    ]
}

fn negotiation(offer: &str) -> Negotiation {
    handle_offer(offer, &servers()).0
}

fn member(name: &str, text: Option<&str>) -> JsonMember {
    JsonMember { name: name.to_string(), text: text.map(|t| t.to_string()) }
}

#[test]
fn configuration_keeps_the_servers() {
    let configuration = peer_configuration(&servers());
    assert_eq!(configuration.ice_servers.len(), 2);
    assert_eq!(configuration.ice_servers[0].urls, vec!["stun:a", "stun:b"]);
    assert_eq!(configuration.ice_servers[0].username, "");
    assert_eq!(configuration.ice_servers[0].credential, "");
    assert_eq!(configuration.ice_servers[1].urls, vec!["turn:c"]);
    assert_eq!(configuration.ice_servers[1].username, "u");
    assert_eq!(configuration.ice_servers[1].credential, "p");
    assert_eq!(configuration.transport_policy, TransportPolicy::Relay);
    assert_eq!(configuration.networks, vec![Network::Udp4]);
}

#[test]
fn channel_is_negotiated_beforehand() {
    let channel = data_channel();
    assert_eq!(channel.label, "vnc");
    assert!(channel.ordered);
    assert_eq!(channel.protocol, "binary");
    assert_eq!(channel.negotiated, 0);
    assert_eq!(channel.capacity, 256);
}

#[test]
fn offer_is_answered_step_by_step() {
    let (negotiation, first) = handle_offer(OFFER, &servers());
    match first {
        NegotiationAction::CreatePeer(configuration) => {
            assert_eq!(configuration.ice_servers.len(), 2)
        }
        _ => panic!("the peer connection comes first"),
    }
    assert!(matches!(
        negotiation.on_event(NegotiationEvent::PeerCreated(true)),
        NegotiationAction::CreateChannel(_)
    ));
    match negotiation.on_event(NegotiationEvent::ChannelCreated(true)) {
        NegotiationAction::SetRemote(sdp) => assert_eq!(sdp, OFFER),
        _ => panic!("the offer must be set"),
    }
    assert!(matches!(
        negotiation.on_event(NegotiationEvent::RemoteSet(true)),
        NegotiationAction::CreateAnswer
    ));
    assert!(matches!(
        negotiation.on_event(NegotiationEvent::AnswerCreated(true)),
        NegotiationAction::SetLocal
    ));
    assert!(matches!(
        negotiation.on_event(NegotiationEvent::LocalSet(true)),
        NegotiationAction::AwaitGathering(10)
    ));
    assert!(matches!(
        negotiation.on_event(NegotiationEvent::GatheringComplete),
        NegotiationAction::ReadLocal
    ));
    match negotiation.on_event(NegotiationEvent::LocalRead(Some("answer".to_string()))) {
        NegotiationAction::Finish(sdp) => assert_eq!(sdp, "answer"),
        _ => panic!("the answer must be given"),
    }
}

#[test]
fn late_candidates_are_done_without() {
    assert!(matches!(
        negotiation(OFFER).on_event(NegotiationEvent::GatheringTimedOut),
        NegotiationAction::ReadLocal
    ));
}

#[test]
fn offer_that_is_no_session_description() {
    for offer in ["", "hello", "v=1\r\n"] {
        match negotiation(offer).on_event(NegotiationEvent::ChannelCreated(true)) {
            NegotiationAction::Abort(error) => {
                assert!(matches!(error, NegotiationError::Offer(_)));
                assert_eq!(error.context(), None);
            }
            _ => panic!("the offer must be refused"),
        }
    }
}

#[test]
fn parsed_offer_is_set() {
    assert!(matches!(
        after_parsing(Ok("v=0".to_string())),
        NegotiationAction::SetRemote(sdp) if sdp == "v=0"
    ));
    assert!(matches!(
        after_parsing(Err(webrtc::Error::ErrUnknownType)),
        NegotiationAction::Abort(NegotiationError::Offer(webrtc::Error::ErrUnknownType))
    ));
}

fn context_after(event: NegotiationEvent) -> Option<&'static str> {
    match negotiation(OFFER).on_event(event) {
        NegotiationAction::Abort(error) => error.context(),
        _ => panic!("a failure must abort"),
    }
}

#[test]
fn each_failure_aborts_with_its_context() {
    assert_eq!(context_after(NegotiationEvent::PeerCreated(false)), None);
    assert_eq!(
        context_after(NegotiationEvent::ChannelCreated(false)),
        Some("create negotiated data channel")
    );
    assert_eq!(
        context_after(NegotiationEvent::RemoteSet(false)),
        Some("set remote description")
    );
    assert_eq!(context_after(NegotiationEvent::AnswerCreated(false)), Some("create answer"));
    assert_eq!(context_after(NegotiationEvent::LocalSet(false)), Some("set local description"));
    assert_eq!(
        context_after(NegotiationEvent::LocalRead(None)),
        Some("no local description after answer")
    );
}

#[test]
fn candidate_as_text() {
    let text = CandidateValue::Text("candidate:1 1 udp".to_string());
    let init = add_ice_candidate(Some(text), Some("data".to_string()), Some(3)).unwrap();
    assert_eq!(init.candidate, "candidate:1 1 udp");
    assert_eq!(init.sdp_mid, "data");
    assert_eq!(init.sdp_mline_index, 3);
}

#[test]
fn candidate_in_an_object() {
    let object = CandidateValue::Object(vec![
        member("sdpMid", Some("1")),
        member("candidate", Some("candidate:2")),
    ]);
    let init = add_ice_candidate(Some(object), None, None).unwrap();
    assert_eq!(init.candidate, "candidate:2");
    assert_eq!(init.sdp_mid, "0");
    assert_eq!(init.sdp_mline_index, 0);
}

#[test]
fn nothing_is_added_without_a_text() {
    let nothing = vec![
        None,
        Some(CandidateValue::Other),
        Some(CandidateValue::Text(String::new())),
        Some(CandidateValue::Object(Vec::new())),
        Some(CandidateValue::Object(vec![member("candidate", None)])),
        Some(CandidateValue::Object(vec![member("candidate", Some(""))])),
        Some(CandidateValue::Object(vec![member("other", Some("x"))])),
    ];
    for candidate in nothing {
        assert!(add_ice_candidate(candidate, Some("1".to_string()), Some(1)).is_none());
    }
}
