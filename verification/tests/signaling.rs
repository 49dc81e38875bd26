use vnc_bridge::signaling::{
    read_request, run, CandidateValue, Delivery, LoopAction, LoopEvent, Request, ServeAction,
    ServeEvent, Signaling, SignalingMessage,
};

fn signaling(url: &str, token: &str) -> Signaling {
    run(url.to_string(), token.to_string(), "devices/1".to_string(), 4711)
}

fn message(msg_type: &str, sdp: Option<&str>) -> SignalingMessage {
    SignalingMessage {
        msg_type: msg_type.to_string(),
        sdp: sdp.map(|s| s.to_string()),
        candidate: Some(CandidateValue::Text("candidate:1".to_string())),
        sdp_mid: Some("data".to_string()),
        sdp_mline_index: Some(2),
    }
}

#[test]
fn settings_of_a_run() {
    let run = signaling("wss://mqtt.example/mqtt", "secret");
    assert_eq!(run.url, "wss://mqtt.example/mqtt?client_id=vnc-bridge-4711");
    assert_eq!(run.keep_alive_secs, 30);
    assert_eq!(run.credentials, Some(("vnc-bridge".to_string(), "secret".to_string())));
    assert_eq!(run.connection_capacity, 64);
    assert_eq!(run.queue_capacity, 8);
    assert_eq!(run.request_topic, "devices/1/signaling/request");
    assert_eq!(run.request_delivery, Delivery::AtLeastOnce);
    assert_eq!(run.response_topic, "devices/1/signaling/response");
}

#[test]
fn client_joins_a_query_that_is_there() {
    let run = signaling("mqtt://h:1883?keep_alive_secs=5", "");
    assert_eq!(run.url, "mqtt://h:1883?keep_alive_secs=5&client_id=vnc-bridge-4711");
    assert_eq!(run.credentials, None);
}

#[test]
fn requests_are_parsed_and_queued() {
    let run = signaling("mqtt://h", "");
    let published = LoopEvent::Published {
        topic: "devices/1/signaling/request".to_string(),
        payload: vec![1, 2, 3],
    };
    match run.on_event(published) {
        LoopAction::Parse(payload) => assert_eq!(payload, vec![1, 2, 3]),
        _ => panic!("a request must be parsed"),
    }
    match run.on_event(LoopEvent::Parsed(Some(message("offer", Some("v=0"))))) {
        LoopAction::Queue(queued) => assert_eq!(queued.sdp, Some("v=0".to_string())),
        _ => panic!("a message must be queued"),
    }
    assert!(matches!(run.on_event(LoopEvent::Queued(true)), LoopAction::Poll));
}

#[test]
fn other_topics_are_left_alone() {
    let run = signaling("mqtt://h", "");
    for topic in ["devices/1/signaling/response", "devices/2/signaling/request", ""] {
        let published = LoopEvent::Published { topic: topic.to_string(), payload: Vec::new() };
        assert!(matches!(run.on_event(published), LoopAction::Poll));
    }
}

#[test]
fn loop_survives_all_but_a_closed_queue() {
    let run = signaling("mqtt://h", "");
    assert!(matches!(run.on_event(LoopEvent::Parsed(None)), LoopAction::Poll));
    assert!(matches!(run.on_event(LoopEvent::Connected), LoopAction::Poll));
    assert!(matches!(run.on_event(LoopEvent::OtherPacket), LoopAction::Poll));
    assert!(matches!(run.on_event(LoopEvent::Failed), LoopAction::Sleep(3)));
    assert!(matches!(run.on_event(LoopEvent::Slept), LoopAction::Poll));
    assert!(matches!(run.on_event(LoopEvent::Queued(false)), LoopAction::Stop));
}

#[test]
fn offers_and_candidates_are_told_apart() {
    match read_request(message("offer", Some("v=0"))) {
        Request::Offer(sdp) => assert_eq!(sdp, "v=0"),
        _ => panic!("an offer was expected"),
    }
    match read_request(message("ice", None)) {
        Request::IceCandidate { candidate, sdp_mid, sdp_mline_index } => {
            assert!(matches!(candidate, Some(CandidateValue::Text(t)) if t == "candidate:1"));
            assert_eq!(sdp_mid, Some("data".to_string()));
            assert_eq!(sdp_mline_index, Some(2));
        }
        _ => panic!("a candidate was expected"),
    }
    assert!(matches!(read_request(message("offer", None)), Request::Ignored));
    assert!(matches!(read_request(message("answer", Some("v=0"))), Request::Ignored));
    assert!(matches!(read_request(message("Offer", Some("v=0"))), Request::Ignored));
}

#[test]
fn answered_offers_are_published() {
    let run = signaling("mqtt://h", "");
    let publication = run.answer_offer(Some("v=0 answer".to_string())).unwrap();
    assert_eq!(publication.topic, "devices/1/signaling/response");
    assert_eq!(publication.delivery, Delivery::AtLeastOnce);
    assert!(!publication.retain);
    assert_eq!(publication.message.msg_type, "answer");
    assert_eq!(publication.message.sdp, "v=0 answer");
}

#[test]
fn run_begins_with_its_subscription() {
    let run = signaling("mqtt://h", "");
    match run.on_event(LoopEvent::Started) {
        LoopAction::Subscribe { topic, delivery } => {
            assert_eq!(topic, "devices/1/signaling/request");
            assert_eq!(delivery, Delivery::AtLeastOnce);
        }
        _ => panic!("the subscription comes first"),
    }
    assert!(matches!(run.on_event(LoopEvent::Subscribed(true)), LoopAction::Poll));
    assert!(matches!(run.on_event(LoopEvent::Subscribed(false)), LoopAction::Abort));
}

/// Serves a queue of messages, answering each offer by its reply, and lists what was done.
fn serve(messages: Vec<SignalingMessage>, replies: Vec<Option<&str>>) -> Vec<String> {
    let run = signaling("mqtt://h", "");
    let mut messages = messages.into_iter();
    let mut replies = replies.into_iter();
    let mut done: Vec<String> = Vec::new();
    let mut action = ServeAction::Take;
    loop {
        let event = match action {
            ServeAction::Take => ServeEvent::Taken(messages.next()),
            ServeAction::HandleOffer(sdp) => {
                done.push(format!("offer {sdp}"));
                ServeEvent::OfferHandled(replies.next().unwrap().map(|s| s.to_string()))
            }
            ServeAction::HandleCandidate { .. } => {
                done.push("candidate".to_string());
                ServeEvent::CandidateHandled
            }
            ServeAction::Publish(publication) => {
                assert_eq!(publication.topic, "devices/1/signaling/response");
                done.push(format!("answer {}", publication.message.sdp));
                ServeEvent::Published(false)
            }
            ServeAction::Stop => return done,
        };
        action = run.on_serve_event(event);
    }
}

#[test]
fn messages_are_served_one_after_the_other() {
    let messages = vec![
        message("offer", Some("1")),
        message("offer", Some("2")),
        message("ice", None),
        message("offer", Some("3")),
    ];
    let done = serve(messages, vec![Some("a"), None, Some("c")]);
    let expected = vec!["offer 1", "answer a", "offer 2", "candidate", "offer 3", "answer c"];
    assert_eq!(done, expected);
}

#[test]
fn messages_that_ask_for_nothing_change_nothing() {
    let with = vec![
        message("answer", Some("x")),
        message("offer", Some("1")),
        message("offer", None),
        message("ice", None),
        message("", None),
    ];
    let without = vec![message("offer", Some("1")), message("ice", None)];
    assert_eq!(serve(with, vec![Some("a")]), serve(without, vec![Some("a")]));
}

#[test]
fn refused_offers_are_not_answered() {
    assert!(signaling("mqtt://h", "").answer_offer(None).is_none());
}
