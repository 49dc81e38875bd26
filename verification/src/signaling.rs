//! MQTT signaling for the WebRTC offer, answer and ICE exchange.
//!
//! The bridge listens on `{topic}/signaling/request` and answers on
//! `{topic}/signaling/response`. Two loops share the work: one takes packets off the
//! connection and queues the requests among them, the other serves the queue. What
//! each does next is decided here, from what happened last.

use crate::text;
use vstd::prelude::*;
use vstd::string::*;

verus! {

/// A STUN or TURN server for the peer connection.
#[derive(Debug, Clone)]
pub struct IceServerConfig {
    pub urls: Vec<String>,
    pub username: Option<String>,
    pub credential: Option<String>,
}

/// A member of a JSON object: its name, and its value where that is a string.
#[derive(Debug, Clone)]
pub struct JsonMember {
    pub name: String,
    pub text: Option<String>,
}

/// The JSON value in the `candidate` field of a signaling message.
#[derive(Debug, Clone)]
pub enum CandidateValue {
    /// A string.
    Text(String),
    /// An object.
    Object(Vec<JsonMember>),
    /// Any other value.
    Other,
}

/// A request from a browser.
#[derive(Debug, Clone)]
pub struct SignalingMessage {
    pub msg_type: String,
    pub sdp: Option<String>,
    pub candidate: Option<CandidateValue>,
    pub sdp_mid: Option<String>,
    pub sdp_mline_index: Option<u16>,
}

/// The answer to an offer.
#[derive(Debug, Clone)]
pub struct AnswerMessage {
    pub msg_type: String,
    pub sdp: String,
}

/// MQTT's levels of delivery.
#[derive(Debug, Clone, Copy, PartialEq, Eq, Structural)]
pub enum Delivery {
    AtMostOnce,
    AtLeastOnce,
    ExactlyOnce,
}

/// A message to publish.
#[derive(Debug, Clone)]
pub struct Publication {
    pub topic: String,
    pub delivery: Delivery,
    pub retain: bool,
    pub message: AnswerMessage,
}

/// What happened in the connection loop.
pub enum LoopEvent {
    /// It was begun.
    Started,
    /// The subscription was made (`true`), or could not be.
    Subscribed(bool),
    /// A packet came in that was published to a topic.
    Published { topic: String, payload: Vec<u8> },
    /// The broker accepted the connection.
    Connected,
    /// Some other packet came in or went out.
    OtherPacket,
    /// The connection failed.
    Failed,
    /// A payload was parsed, to a message if it holds one.
    Parsed(Option<SignalingMessage>),
    /// A message was queued, unless the queue was closed (`false`).
    Queued(bool),
    /// A pause is over.
    Slept,
}

/// What the connection loop does next.
pub enum LoopAction {
    /// Subscribe to a topic.
    Subscribe { topic: String, delivery: Delivery },
    /// Wait for the next packet.
    Poll,
    /// Parse a payload.
    Parse(Vec<u8>),
    /// Queue a message.
    Queue(SignalingMessage),
    /// Pause for so many seconds.
    Sleep(u64),
    /// Leave the loop.
    Stop,
    /// End the run, for want of a subscription.
    Abort,
}

/// What happened in the loop that serves the queue.
pub enum ServeEvent {
    /// A message was taken from the queue, or the queue is closed (`None`).
    Taken(Option<SignalingMessage>),
    /// An offer was handled, with the session description that answers it unless it was
    /// refused.
    OfferHandled(Option<String>),
    /// An ICE candidate was handled.
    CandidateHandled,
    /// A message was published (`true`), or could not be.
    Published(bool),
}

/// What the loop that serves the queue does next.
pub enum ServeAction {
    /// Take the next message from the queue.
    Take,
    /// Hand this offer to the bridge.
    HandleOffer(String),
    /// Hand an ICE candidate to the bridge.
    HandleCandidate {
        candidate: Option<CandidateValue>,
        sdp_mid: Option<String>,
        sdp_mline_index: Option<u16>,
    },
    /// Publish a message.
    Publish(Publication),
    /// Leave the loop.
    Stop,
}

/// What a queued message asks for.
pub enum Request {
    /// Answer the offer with this session description.
    Offer(String),
    /// Take in an ICE candidate.
    IceCandidate {
        candidate: Option<CandidateValue>,
        sdp_mid: Option<String>,
        sdp_mline_index: Option<u16>,
    },
    /// Nothing: it is an offer without a session description, or of no known type.
    Ignored,
}

/// The connection URL, which names the client after the process.
pub open spec fn client_url(mqtt_url: Seq<char>, process_id: u32) -> Seq<char> {
    mqtt_url + seq![
        if mqtt_url.contains('?') {
            '&'
        } else {
            '?'
        },
    ] + "client_id=vnc-bridge-"@ + text::decimal(process_id as nat)
}

/// The topic that requests come in on.
pub open spec fn request_topic(topic: Seq<char>) -> Seq<char> {
    topic + "/signaling/request"@
}

/// The topic that answers go out on.
pub open spec fn response_topic(topic: Seq<char>) -> Seq<char> {
    topic + "/signaling/response"@
}

/// The settings of a signaling run.
pub struct Signaling {
    /// The broker's URL, with the client's name in it.
    pub url: String,
    pub keep_alive_secs: u64,
    /// User name and password, if the broker wants any.
    pub credentials: Option<(String, String)>,
    /// How many requests to the connection may be pending.
    pub connection_capacity: usize,
    /// How many messages may be queued.
    pub queue_capacity: usize,
    pub request_topic: String,
    /// How requests are to be delivered.
    pub request_delivery: Delivery,
    pub response_topic: String,
}

/// Whether `settings` are those of a run for the given broker, token, device topic and
/// process.
pub open spec fn set_up(
    settings: Signaling,
    mqtt_url: Seq<char>,
    token: Seq<char>,
    topic: Seq<char>,
    process_id: u32,
) -> bool {
    &&& settings.url@ == client_url(mqtt_url, process_id)
    &&& settings.keep_alive_secs == 30
    &&& match settings.credentials {
        Some((user, password)) => token.len() > 0 && user@ == "vnc-bridge"@ && password@ == token,
        None => token.len() == 0,
    }
    &&& settings.connection_capacity == 64
    &&& settings.queue_capacity == 8
    &&& settings.request_topic@ == request_topic(topic)
    &&& settings.request_delivery == Delivery::AtLeastOnce
    &&& settings.response_topic@ == response_topic(topic)
}

/// Sets up a signaling run: how to connect to the broker and what to listen to. The
/// token, unless it is empty, is the password that goes with the user `vnc-bridge`.
pub fn run(mqtt_url: String, token: String, topic: String, process_id: u32) -> (res: Signaling)
    ensures
        set_up(res, mqtt_url@, token@, topic@, process_id),
        mqtt_url@.contains('?') ==> res.url@ == mqtt_url@ + seq!['&'] + "client_id=vnc-bridge-"@
            + text::decimal(process_id as nat),
        !mqtt_url@.contains('?') ==> res.url@ == mqtt_url@ + seq!['?'] + "client_id=vnc-bridge-"@
            + text::decimal(process_id as nat),
        res.keep_alive_secs == 30,
        token@.len() == 0 ==> res.credentials is None,
        token@.len() > 0 ==> {
            &&& res.credentials matches Some((user, password))
            &&& user@ == "vnc-bridge"@
            &&& password@ == token@
        },
        res.connection_capacity == 64,
        res.queue_capacity == 8,
        res.request_topic@ == topic@ + "/signaling/request"@,
        res.request_delivery == Delivery::AtLeastOnce,
        res.response_topic@ == topic@ + "/signaling/response"@,
{
    proof {
        reveal_strlit("&");
        reveal_strlit("?");
    }
    assert("&"@ =~= seq!['&']);
    assert("?"@ =~= seq!['?']);
    let separator = if text::contains_char(mqtt_url.as_str(), '?') {
        "&"
    } else {
        "?"
    };
    let mut url = mqtt_url;
    url.append(separator);
    url.append("client_id=vnc-bridge-");
    url.append(text::decimal_text(process_id as u64).as_str());
    let mut request_topic = topic.clone();
    request_topic.append("/signaling/request");
    let mut response_topic = topic;
    response_topic.append("/signaling/response");
    let credentials = if token.as_str().is_empty() {
        None
    } else {
        Some(("vnc-bridge".to_owned(), token))
    };
    Signaling {
        url,
        keep_alive_secs: 30,
        credentials,
        connection_capacity: 64,
        queue_capacity: 8,
        request_topic,
        request_delivery: Delivery::AtLeastOnce,
        response_topic,
    }
}

impl Signaling {
    /// What the connection loop does after an event.
    pub open spec fn loop_action(self, event: LoopEvent) -> LoopAction {
        match event {
            LoopEvent::Started => LoopAction::Subscribe {
                topic: self.request_topic,
                delivery: self.request_delivery,
            },
            LoopEvent::Subscribed(true) => LoopAction::Poll,
            LoopEvent::Subscribed(false) => LoopAction::Abort,
            LoopEvent::Published { topic, payload } => if topic@ == self.request_topic@ {
                LoopAction::Parse(payload)
            } else {
                LoopAction::Poll
            },
            LoopEvent::Connected => LoopAction::Poll,
            LoopEvent::OtherPacket => LoopAction::Poll,
            LoopEvent::Failed => LoopAction::Sleep(3),
            LoopEvent::Parsed(Some(message)) => LoopAction::Queue(message),
            LoopEvent::Parsed(None) => LoopAction::Poll,
            LoopEvent::Queued(true) => LoopAction::Poll,
            LoopEvent::Queued(false) => LoopAction::Stop,
            LoopEvent::Slept => LoopAction::Poll,
        }
    }
}

/// What a message asks for.
pub open spec fn requested(message: SignalingMessage) -> Request {
    if message.msg_type@ == "offer"@ {
        match message.sdp {
            Some(sdp) => Request::Offer(sdp),
            None => Request::Ignored,
        }
    } else if message.msg_type@ == "ice"@ {
        Request::IceCandidate {
            candidate: message.candidate,
            sdp_mid: message.sdp_mid,
            sdp_mline_index: message.sdp_mline_index,
        }
    } else {
        Request::Ignored
    }
}

/// Reads what a message asks for.
pub fn read_request(message: SignalingMessage) -> (res: Request)
    ensures
        res == requested(message),
        message.msg_type@ == "offer"@ ==> match message.sdp {
            Some(sdp) => res == Request::Offer(sdp),
            None => res == Request::Ignored,
        },
        message.msg_type@ == "ice"@ ==> {
            &&& res matches Request::IceCandidate { candidate, sdp_mid, sdp_mline_index }
            &&& candidate == message.candidate
            &&& sdp_mid == message.sdp_mid
            &&& sdp_mline_index == message.sdp_mline_index
        },
        message.msg_type@ != "offer"@ && message.msg_type@ != "ice"@ ==> res == Request::Ignored,
{
    proof {
        reveal_strlit("offer");
        reveal_strlit("ice");
        assert("offer"@.len() != "ice"@.len());
    }
    if message.msg_type == "offer".to_owned() {
        match message.sdp {
            Some(sdp) => Request::Offer(sdp),
            None => Request::Ignored,
        }
    } else if message.msg_type == "ice".to_owned() {
        Request::IceCandidate {
            candidate: message.candidate,
            sdp_mid: message.sdp_mid,
            sdp_mline_index: message.sdp_mline_index,
        }
    } else {
        Request::Ignored
    }
}

/// Whether `publication` answers an offer with `sdp`, on `topic`.
pub open spec fn is_answer(publication: Publication, topic: Seq<char>, sdp: Seq<char>) -> bool {
    &&& publication.topic@ == topic
    &&& publication.delivery == Delivery::AtLeastOnce
    &&& !publication.retain
    &&& publication.message.msg_type@ == "answer"@
    &&& publication.message.sdp@ == sdp
}

/// Whether `action` is what the loop that serves the queue does after `event`, when
/// answers go to `topic`.
pub open spec fn serve_follows(topic: Seq<char>, event: ServeEvent, action: ServeAction) -> bool {
    match event {
        ServeEvent::Taken(Some(message)) => match requested(message) {
            Request::Offer(sdp) => action == ServeAction::HandleOffer(sdp),
            Request::IceCandidate { candidate, sdp_mid, sdp_mline_index } => action
                == (ServeAction::HandleCandidate { candidate, sdp_mid, sdp_mline_index }),
            Request::Ignored => action == ServeAction::Take,
        },
        ServeEvent::Taken(None) => action == ServeAction::Stop,
        ServeEvent::OfferHandled(Some(sdp)) => action matches ServeAction::Publish(publication)
            && is_answer(publication, topic, sdp@),
        ServeEvent::OfferHandled(None) => action == ServeAction::Take,
        ServeEvent::CandidateHandled => action == ServeAction::Take,
        ServeEvent::Published(_) => action == ServeAction::Take,
    }
}

impl Signaling {
    /// Says what the connection loop does after an event. It begins with the one
    /// subscription. Only a closed queue ends the loop after that; a failed connection is
    /// tried again after three seconds.
    pub fn on_event(&self, event: LoopEvent) -> (action: LoopAction)
        ensures
            action == self.loop_action(event),
            event is Started ==> {
                &&& action matches LoopAction::Subscribe { topic, delivery }
                &&& topic@ == self.request_topic@
                &&& delivery == self.request_delivery
            },
            event matches LoopEvent::Published { topic, payload } ==> action == if topic@
                == self.request_topic@ {
                LoopAction::Parse(payload)
            } else {
                LoopAction::Poll
            },
            event matches LoopEvent::Parsed(Some(message)) ==> action == LoopAction::Queue(message),
            event == LoopEvent::Queued(false) ==> action == LoopAction::Stop,
            event == LoopEvent::Subscribed(false) ==> action == LoopAction::Abort,
            event is Failed ==> action == LoopAction::Sleep(3),
            event == LoopEvent::Subscribed(true) || event == LoopEvent::Parsed(None) || event
                == LoopEvent::Queued(true) || event is Connected || event is OtherPacket
                || event is Slept ==> action == LoopAction::Poll,
    {
        match event {
            LoopEvent::Started => LoopAction::Subscribe {
                topic: self.request_topic.clone(),
                delivery: self.request_delivery,
            },
            LoopEvent::Subscribed(made) => {
                if made {
                    LoopAction::Poll
                } else {
                    LoopAction::Abort
                }
            },
            LoopEvent::Published { topic, payload } => {
                if topic == self.request_topic {
                    LoopAction::Parse(payload)
                } else {
                    LoopAction::Poll
                }
            },
            LoopEvent::Connected | LoopEvent::OtherPacket | LoopEvent::Slept => LoopAction::Poll,
            LoopEvent::Failed => LoopAction::Sleep(3),
            LoopEvent::Parsed(Some(message)) => LoopAction::Queue(message),
            LoopEvent::Parsed(None) => LoopAction::Poll,
            LoopEvent::Queued(open) => {
                if open {
                    LoopAction::Poll
                } else {
                    LoopAction::Stop
                }
            },
        }
    }

    /// What to publish once an offer was handled: the answer's session description on
    /// the response topic, or nothing where the offer was refused.
    pub fn answer_offer(&self, answer_sdp: Option<String>) -> (res: Option<Publication>)
        ensures
            match answer_sdp {
                Some(sdp) => res matches Some(publication) && is_answer(
                    publication,
                    self.response_topic@,
                    sdp@,
                ),
                None => res is None,
            },
            answer_sdp matches Some(sdp) ==> {
                &&& res matches Some(publication)
                &&& publication.topic@ == self.response_topic@
                &&& publication.delivery == Delivery::AtLeastOnce
                &&& !publication.retain
                &&& publication.message.msg_type@ == "answer"@
                &&& publication.message.sdp@ == sdp@
            },
    {
        match answer_sdp {
            Some(sdp) => Some(
                Publication {
                    topic: self.response_topic.clone(),
                    delivery: Delivery::AtLeastOnce,
                    retain: false,
                    message: AnswerMessage { msg_type: "answer".to_owned(), sdp },
                },
            ),
            None => None,
        }
    }

    /// Says what the loop that serves the queue does after an event. It begins by taking a
    /// message, and takes the next one only when that message is dealt with.
    pub fn on_serve_event(&self, event: ServeEvent) -> (action: ServeAction)
        ensures
            serve_follows(self.response_topic@, event, action),
            event matches ServeEvent::Taken(Some(message)) ==> {
                &&& message.msg_type@ == "offer"@ ==> match message.sdp {
                    Some(sdp) => action == ServeAction::HandleOffer(sdp),
                    None => action == ServeAction::Take,
                }
                &&& message.msg_type@ == "ice"@ ==> {
                    &&& action matches ServeAction::HandleCandidate {
                        candidate,
                        sdp_mid,
                        sdp_mline_index,
                    }
                    &&& candidate == message.candidate
                    &&& sdp_mid == message.sdp_mid
                    &&& sdp_mline_index == message.sdp_mline_index
                }
                &&& message.msg_type@ != "offer"@ && message.msg_type@ != "ice"@ ==> action
                    == ServeAction::Take
            },
            event == ServeEvent::Taken(None) ==> action == ServeAction::Stop,
            event matches ServeEvent::OfferHandled(Some(sdp)) ==> {
                &&& action matches ServeAction::Publish(publication)
                &&& publication.topic@ == self.response_topic@
                &&& publication.delivery == Delivery::AtLeastOnce
                &&& !publication.retain
                &&& publication.message.msg_type@ == "answer"@
                &&& publication.message.sdp@ == sdp@
            },
            event == ServeEvent::OfferHandled(None) || event is CandidateHandled
                || event is Published ==> action == ServeAction::Take,
    {
        match event {
            ServeEvent::Taken(Some(message)) => match read_request(message) {
                Request::Offer(sdp) => ServeAction::HandleOffer(sdp),
                Request::IceCandidate { candidate, sdp_mid, sdp_mline_index } => {
                    ServeAction::HandleCandidate { candidate, sdp_mid, sdp_mline_index }
                },
                Request::Ignored => ServeAction::Take,
            },
            ServeEvent::Taken(None) => ServeAction::Stop,
            ServeEvent::OfferHandled(answer_sdp) => match self.answer_offer(answer_sdp) {
                Some(publication) => ServeAction::Publish(publication),
                None => ServeAction::Take,
            },
            ServeEvent::CandidateHandled | ServeEvent::Published(_) => ServeAction::Take,
        }
    }
}

/// No answer is ever published where a bridge listens, whatever the two device topics.
pub proof fn answers_are_no_requests(topic1: Seq<char>, topic2: Seq<char>)
    ensures
        request_topic(topic1) != response_topic(topic2),
{
    reveal_strlit("/signaling/request");
    reveal_strlit("/signaling/response");
    assert(request_topic(topic1).last() == 't');
    assert(response_topic(topic2).last() == 'e');
}

/// Bridges of different devices share neither the request nor the response topic.
pub proof fn devices_share_no_topic(topic1: Seq<char>, topic2: Seq<char>)
    requires
        topic1 != topic2,
    ensures
        request_topic(topic1) != request_topic(topic2),
        response_topic(topic1) != response_topic(topic2),
{
    if request_topic(topic1) == request_topic(topic2) {
        let len1 = request_topic(topic1).len() - "/signaling/request"@.len();
        assert(topic1 =~= request_topic(topic1).subrange(0, len1));
        assert(topic2 =~= request_topic(topic2).subrange(0, len1));
    }
    if response_topic(topic1) == response_topic(topic2) {
        let len1 = response_topic(topic1).len() - "/signaling/response"@.len();
        assert(topic1 =~= response_topic(topic1).subrange(0, len1));
        assert(topic2 =~= response_topic(topic2).subrange(0, len1));
    }
}

/// The connection loop ends in two cases only: the queue is closed, or the subscription
/// could not be made.
pub proof fn only_a_closed_queue_stops(settings: Signaling, event: LoopEvent)
    ensures
        settings.loop_action(event) is Stop <==> event == LoopEvent::Queued(false),
        settings.loop_action(event) is Abort <==> event == LoopEvent::Subscribed(false),
{
}

/// A payload is parsed in one case only: it was published to the topic listened to.
pub proof fn only_requests_are_parsed(settings: Signaling, event: LoopEvent)
    ensures
        settings.loop_action(event) is Parse <==> (event matches LoopEvent::Published { topic, .. }
            && topic@ == settings.request_topic@),
{
}

/// The connection URL begins with the broker's and names the client in its query,
/// whether or not the broker's URL has a query of its own.
pub proof fn client_is_named_in_the_query(mqtt_url: Seq<char>, process_id: u32)
    ensures
        client_url(mqtt_url, process_id).subrange(0, mqtt_url.len() as int) == mqtt_url,
        client_url(mqtt_url, process_id)[mqtt_url.len() as int] == '?' <==> !mqtt_url.contains('?'),
        client_url(mqtt_url, process_id)[mqtt_url.len() as int] == '&' <==> mqtt_url.contains('?'),
        client_url(mqtt_url, process_id).subrange(
            mqtt_url.len() as int + 1,
            client_url(mqtt_url, process_id).len() as int,
        ) == "client_id=vnc-bridge-"@ + text::decimal(process_id as nat),
{
    let url = client_url(mqtt_url, process_id);
    assert(url.subrange(0, mqtt_url.len() as int) =~= mqtt_url);
    assert(url.subrange(mqtt_url.len() as int + 1, url.len() as int) =~= "client_id=vnc-bridge-"@
        + text::decimal(process_id as nat));
}

/// Whether `event` reports on what `action` of the connection loop asked for.
pub open spec fn loop_reports_on(event: LoopEvent, action: LoopAction) -> bool {
    match action {
        LoopAction::Subscribe { .. } => event is Subscribed,
        LoopAction::Poll => event is Published || event is Connected || event is OtherPacket
            || event is Failed,
        LoopAction::Parse(_) => event is Parsed,
        LoopAction::Queue(_) => event is Queued,
        LoopAction::Sleep(_) => event is Slept,
        LoopAction::Stop => false,
        LoopAction::Abort => false,
    }
}

/// A course that the connection loop can take: each event reports on the action before
/// it, and each further action follows the event before it.
pub open spec fn loop_course(
    settings: Signaling,
    actions: Seq<LoopAction>,
    events: Seq<LoopEvent>,
) -> bool {
    &&& actions.len() == events.len() + 1
    &&& actions[0] == settings.loop_action(LoopEvent::Started)
    &&& forall|i: int|
        0 <= i < events.len() ==> {
            &&& loop_reports_on(#[trigger] events[i], actions[i])
            &&& actions[i + 1] == settings.loop_action(events[i])
        }
}

/// Whether `event` reports on what `action` of the loop that serves the queue asked for.
pub open spec fn serve_reports_on(event: ServeEvent, action: ServeAction) -> bool {
    match action {
        ServeAction::Take => event is Taken,
        ServeAction::HandleOffer(_) => event is OfferHandled,
        ServeAction::HandleCandidate { .. } => event is CandidateHandled,
        ServeAction::Publish(_) => event is Published,
        ServeAction::Stop => false,
    }
}

/// A course that the loop that serves the queue can take: it begins by taking a message,
/// each event reports on the action before it, and each further action follows the event
/// before it.
pub open spec fn serve_course(
    settings: Signaling,
    actions: Seq<ServeAction>,
    events: Seq<ServeEvent>,
) -> bool {
    &&& actions.len() == events.len() + 1
    &&& actions[0] is Take
    &&& forall|i: int|
        0 <= i < events.len() ==> {
            &&& serve_reports_on(#[trigger] events[i], actions[i])
            &&& serve_follows(settings.response_topic@, events[i], actions[i + 1])
        }
}

/// A message that came in: the topic it was published to, and what its payload was parsed
/// to where it was parsed with success.
pub struct Incoming {
    pub topic: Seq<char>,
    pub message: Option<SignalingMessage>,
}

/// The topic that the last of `events` was published to.
pub open spec fn last_topic(events: Seq<LoopEvent>) -> Seq<char> {
    match events.last() {
        LoopEvent::Published { topic, .. } => topic@,
        _ => Seq::empty(),
    }
}

/// The messages that came in among the events of the connection loop: those on another
/// topic as soon as they are published, those on the topic listened to once they are
/// parsed.
pub open spec fn stream_of(settings: Signaling, events: Seq<LoopEvent>) -> Seq<Incoming>
    decreases events.len(),
{
    if events.len() == 0 {
        Seq::empty()
    } else {
        let before = stream_of(settings, events.drop_last());
        match events.last() {
            LoopEvent::Published { topic, .. } => if topic@ == settings.request_topic@ {
                before
            } else {
                before.push(Incoming { topic: topic@, message: None })
            },
            LoopEvent::Parsed(message) => before.push(
                Incoming { topic: last_topic(events.drop_last()), message },
            ),
            _ => before,
        }
    }
}

/// The messages among `stream` that came on `topic` and could be parsed.
pub open spec fn listened(topic: Seq<char>, stream: Seq<Incoming>) -> Seq<SignalingMessage>
    decreases stream.len(),
{
    if stream.len() == 0 {
        Seq::empty()
    } else {
        let before = listened(topic, stream.drop_last());
        match stream.last().message {
            Some(message) => if stream.last().topic == topic {
                before.push(message)
            } else {
                before
            },
            None => before,
        }
    }
}

/// The messages that the connection loop queues.
pub open spec fn queued(actions: Seq<LoopAction>) -> Seq<SignalingMessage>
    decreases actions.len(),
{
    if actions.len() == 0 {
        Seq::empty()
    } else {
        match actions.last() {
            LoopAction::Queue(message) => queued(actions.drop_last()).push(message),
            _ => queued(actions.drop_last()),
        }
    }
}

/// The messages that are taken from the queue.
pub open spec fn taken(events: Seq<ServeEvent>) -> Seq<SignalingMessage>
    decreases events.len(),
{
    if events.len() == 0 {
        Seq::empty()
    } else {
        match events.last() {
            ServeEvent::Taken(Some(message)) => taken(events.drop_last()).push(message),
            _ => taken(events.drop_last()),
        }
    }
}

/// What the bridge makes of the offers handed to it: the session description that answers
/// each, `None` where it is refused.
pub open spec fn replies(events: Seq<ServeEvent>) -> Seq<Option<Seq<char>>>
    decreases events.len(),
{
    if events.len() == 0 {
        Seq::empty()
    } else {
        let before = replies(events.drop_last());
        match events.last() {
            ServeEvent::OfferHandled(Some(sdp)) => before.push(Some(sdp@)),
            ServeEvent::OfferHandled(None) => before.push(None),
            _ => before,
        }
    }
}

/// What serving the queue does to the world.
pub enum Effect {
    /// The bridge is handed an offer.
    Offer(Seq<char>),
    /// The bridge is handed an ICE candidate.
    Candidate {
        candidate: Option<CandidateValue>,
        sdp_mid: Option<String>,
        sdp_mline_index: Option<u16>,
    },
    /// A message is published.
    Publish {
        topic: Seq<char>,
        delivery: Delivery,
        retain: bool,
        msg_type: Seq<char>,
        sdp: Seq<char>,
    },
}

/// The effect of publishing the answer `sdp` on `topic`.
pub open spec fn answer_effect(topic: Seq<char>, sdp: Seq<char>) -> Effect {
    Effect::Publish {
        topic,
        delivery: Delivery::AtLeastOnce,
        retain: false,
        msg_type: "answer"@,
        sdp,
    }
}

/// The effects of actions, in their order.
pub open spec fn effects(actions: Seq<ServeAction>) -> Seq<Effect>
    decreases actions.len(),
{
    if actions.len() == 0 {
        Seq::empty()
    } else {
        let before = effects(actions.drop_last());
        match actions.last() {
            ServeAction::HandleOffer(sdp) => before.push(Effect::Offer(sdp@)),
            ServeAction::HandleCandidate { candidate, sdp_mid, sdp_mline_index } => before.push(
                Effect::Candidate { candidate, sdp_mid, sdp_mline_index },
            ),
            ServeAction::Publish(publication) => before.push(
                Effect::Publish {
                    topic: publication.topic@,
                    delivery: publication.delivery,
                    retain: publication.retain,
                    msg_type: publication.message.msg_type@,
                    sdp: publication.message.sdp@,
                },
            ),
            _ => before,
        }
    }
}

/// How many of the messages are offers with a session description.
pub open spec fn offers(messages: Seq<SignalingMessage>) -> nat
    decreases messages.len(),
{
    if messages.len() == 0 {
        0
    } else if requested(messages.last()) is Offer {
        offers(messages.drop_last()) + 1
    } else {
        offers(messages.drop_last())
    }
}

/// The effects owed to messages, one message after the other: an offer is handed to the
/// bridge and its answer published unless it is refused; a candidate is handed to the
/// bridge; anything else has no effect. The offer with index `i` gets the reply with that
/// index.
pub open spec fn owed(
    topic: Seq<char>,
    messages: Seq<SignalingMessage>,
    replies: Seq<Option<Seq<char>>>,
) -> Seq<Effect>
    decreases messages.len(),
{
    if messages.len() == 0 {
        Seq::empty()
    } else {
        let before = owed(topic, messages.drop_last(), replies);
        match requested(messages.last()) {
            Request::Offer(sdp) => {
                let handed = before.push(Effect::Offer(sdp@));
                match replies[offers(messages.drop_last()) as int] {
                    Some(answer) => handed.push(answer_effect(topic, answer)),
                    None => handed,
                }
            },
            Request::IceCandidate { candidate, sdp_mid, sdp_mline_index } => before.push(
                Effect::Candidate { candidate, sdp_mid, sdp_mline_index },
            ),
            Request::Ignored => before,
        }
    }
}

/// Whether a message that came in asks the bridge on `topic` for something.
pub open spec fn is_request(topic: Seq<char>, incoming: Incoming) -> bool {
    match incoming.message {
        Some(message) => incoming.topic == topic && requested(message) !is Ignored,
        None => false,
    }
}

/// `stream` without the messages that ask the bridge on `topic` for nothing: those on
/// another topic, those that could not be parsed, those of an unknown type, and offers
/// without a session description.
pub open spec fn without_ignored(topic: Seq<char>, stream: Seq<Incoming>) -> Seq<Incoming>
    decreases stream.len(),
{
    if stream.len() == 0 {
        Seq::empty()
    } else if is_request(topic, stream.last()) {
        without_ignored(topic, stream.drop_last()).push(stream.last())
    } else {
        without_ignored(topic, stream.drop_last())
    }
}

proof fn shorter_loop_course(
    settings: Signaling,
    actions: Seq<LoopAction>,
    events: Seq<LoopEvent>,
)
    requires
        loop_course(settings, actions, events),
        events.len() > 0,
    ensures
        loop_course(settings, actions.drop_last(), events.drop_last()),
        actions.drop_last().last() == actions[events.len() - 1],
        loop_reports_on(events.last(), actions[events.len() - 1]),
        actions.last() == settings.loop_action(events.last()),
{
    let last = events.len() - 1;
    assert(loop_reports_on(events[last], actions[last]));
    assert(actions[last + 1] == settings.loop_action(events[last]));
    let fewer = actions.drop_last();
    let before = events.drop_last();
    assert forall|i: int| 0 <= i < before.len() implies {
        &&& loop_reports_on(#[trigger] before[i], fewer[i])
        &&& fewer[i + 1] == settings.loop_action(before[i])
    } by {
        assert(before[i] == events[i]);
    }
}

proof fn shorter_serve_course(
    settings: Signaling,
    actions: Seq<ServeAction>,
    events: Seq<ServeEvent>,
)
    requires
        serve_course(settings, actions, events),
        events.len() > 0,
    ensures
        serve_course(settings, actions.drop_last(), events.drop_last()),
        actions.drop_last().last() == actions[events.len() - 1],
        serve_reports_on(events.last(), actions[events.len() - 1]),
        serve_follows(settings.response_topic@, events.last(), actions.last()),
{
    let last = events.len() - 1;
    assert(serve_reports_on(events[last], actions[last]));
    assert(serve_follows(settings.response_topic@, events[last], actions[last + 1]));
    let fewer = actions.drop_last();
    let before = events.drop_last();
    assert forall|i: int| 0 <= i < before.len() implies {
        &&& serve_reports_on(#[trigger] before[i], fewer[i])
        &&& serve_follows(settings.response_topic@, before[i], fewer[i + 1])
    } by {
        assert(before[i] == events[i]);
    }
}

/// The connection loop queues exactly the messages that came on the topic listened to and
/// could be parsed, in the order they came.
pub proof fn requests_are_queued_in_order(
    settings: Signaling,
    actions: Seq<LoopAction>,
    events: Seq<LoopEvent>,
)
    requires
        loop_course(settings, actions, events),
    ensures
        queued(actions) == listened(settings.request_topic@, stream_of(settings, events)),
    decreases events.len(),
{
    let topic = settings.request_topic@;
    if events.len() == 0 {
        assert(queued(actions.drop_last()) =~= Seq::empty());
        assert(actions.last() == actions[0]);
    } else {
        let before = events.drop_last();
        shorter_loop_course(settings, actions, events);
        requests_are_queued_in_order(settings, actions.drop_last(), before);
        let stream = stream_of(settings, before);
        if let LoopEvent::Parsed(message) = events.last() {
            assert(actions.drop_last().last() is Parse);
            if before.len() == 0 {
                assert(actions.drop_last().last() == actions[0]);
            } else {
                shorter_loop_course(settings, actions.drop_last(), before);
                assert(actions.drop_last().last() == settings.loop_action(before.last()));
            }
            assert(last_topic(before) == topic);
            let incoming = Incoming { topic: last_topic(before), message };
            assert(stream.push(incoming).drop_last() =~= stream);
        } else if let LoopEvent::Published { topic: to, .. } = events.last() {
            let incoming = Incoming { topic: to@, message: None };
            assert(stream.push(incoming).drop_last() =~= stream);
        }
    }
}

proof fn owed_reads_no_further(
    topic: Seq<char>,
    messages: Seq<SignalingMessage>,
    replies1: Seq<Option<Seq<char>>>,
    replies2: Seq<Option<Seq<char>>>,
)
    requires
        offers(messages) <= replies1.len(),
        offers(messages) <= replies2.len(),
        forall|i: int| 0 <= i < offers(messages) ==> #[trigger] replies1[i] == replies2[i],
    ensures
        owed(topic, messages, replies1) == owed(topic, messages, replies2),
    decreases messages.len(),
{
    if messages.len() > 0 {
        owed_reads_no_further(topic, messages.drop_last(), replies1, replies2);
        if requested(messages.last()) is Offer {
            let i = offers(messages.drop_last()) as int;
            assert(replies1[i] == replies2[i]);
        }
    }
}

/// What holds at every point of a course of the loop that serves the queue: all messages
/// but an offer under way have got their effects.
proof fn served_so_far(settings: Signaling, actions: Seq<ServeAction>, events: Seq<ServeEvent>)
    requires
        serve_course(settings, actions, events),
    ensures
        ({
            let topic = settings.response_topic@;
            let messages = taken(events);
            match actions.last() {
                ServeAction::HandleOffer(sdp) => {
                    &&& messages.len() > 0
                    &&& requested(messages.last()) == Request::Offer(sdp)
                    &&& replies(events).len() == offers(messages.drop_last())
                    &&& effects(actions) == owed(topic, messages.drop_last(), replies(events)).push(
                        Effect::Offer(sdp@),
                    )
                },
                _ => {
                    &&& replies(events).len() == offers(messages)
                    &&& effects(actions) == owed(topic, messages, replies(events))
                },
            }
        }),
    decreases events.len(),
{
    let topic = settings.response_topic@;
    if events.len() == 0 {
        assert(effects(actions.drop_last()) =~= Seq::empty());
        assert(actions.last() == actions[0]);
    } else {
        let before = events.drop_last();
        let fewer = actions.drop_last();
        shorter_serve_course(settings, actions, events);
        served_so_far(settings, fewer, before);
        match events.last() {
            ServeEvent::Taken(Some(message)) => {
                assert(taken(events).drop_last() =~= taken(before));
            },
            ServeEvent::OfferHandled(_) => {
                owed_reads_no_further(
                    topic,
                    taken(before).drop_last(),
                    replies(before),
                    replies(events),
                );
            },
            _ => {},
        }
    }
}

/// Messages are served one at a time, in the order they were queued: whenever the next
/// message is waited for, and at the end, each message taken so far has had exactly the
/// effects owed to it, its answer included, and none of a later message has come between
/// them. So just the offers that the bridge took up are answered, and one that it refused
/// holds up none after it.
pub proof fn messages_are_served_in_order(
    settings: Signaling,
    actions: Seq<ServeAction>,
    events: Seq<ServeEvent>,
)
    requires
        serve_course(settings, actions, events),
        actions.last() is Take || actions.last() is Stop,
    ensures
        effects(actions) == owed(settings.response_topic@, taken(events), replies(events)),
        replies(events).len() == offers(taken(events)),
{
    served_so_far(settings, actions, events);
}

/// Requests are served in the order they came, none left out: where the messages taken
/// from the queue are the first of those queued, the effects so far are those owed to the
/// first messages that came on the topic listened to and could be parsed.
pub proof fn requests_are_served_in_order(
    settings: Signaling,
    loop_actions: Seq<LoopAction>,
    loop_events: Seq<LoopEvent>,
    serve_actions: Seq<ServeAction>,
    serve_events: Seq<ServeEvent>,
)
    requires
        loop_course(settings, loop_actions, loop_events),
        serve_course(settings, serve_actions, serve_events),
        taken(serve_events).is_prefix_of(queued(loop_actions)),
        serve_actions.last() is Take || serve_actions.last() is Stop,
    ensures
        effects(serve_actions) == owed(
            settings.response_topic@,
            listened(settings.request_topic@, stream_of(settings, loop_events)).subrange(
                0,
                taken(serve_events).len() as int,
            ),
            replies(serve_events),
        ),
{
    requests_are_queued_in_order(settings, loop_actions, loop_events);
    messages_are_served_in_order(settings, serve_actions, serve_events);
    assert(taken(serve_events) =~= queued(loop_actions).subrange(
        0,
        taken(serve_events).len() as int,
    ));
}

proof fn ignored_messages_owe_nothing(
    request_topic: Seq<char>,
    response_topic: Seq<char>,
    stream: Seq<Incoming>,
    replies: Seq<Option<Seq<char>>>,
)
    ensures
        ({
            let all = listened(request_topic, stream);
            let some = listened(request_topic, without_ignored(request_topic, stream));
            &&& offers(all) == offers(some)
            &&& owed(response_topic, all, replies) == owed(response_topic, some, replies)
        }),
    decreases stream.len(),
{
    if stream.len() > 0 {
        let before = stream.drop_last();
        ignored_messages_owe_nothing(request_topic, response_topic, before, replies);
        let all = listened(request_topic, before);
        let kept = without_ignored(request_topic, before);
        let some = listened(request_topic, kept);
        assert(kept.push(stream.last()).drop_last() =~= kept);
        if let Some(message) = stream.last().message {
            assert(all.push(message).drop_last() =~= all);
            assert(some.push(message).drop_last() =~= some);
        }
    }
}

/// Messages that ask for nothing change nothing. Take two runs in which every queued
/// message has been served, the stream of the second being that of the first without the
/// messages that ask for nothing. Where the bridge replies alike, both make the same calls
/// of the bridge and publish the same answers, in the same order.
pub proof fn ignored_messages_change_nothing(
    settings: Signaling,
    loop_actions1: Seq<LoopAction>,
    loop_events1: Seq<LoopEvent>,
    serve_actions1: Seq<ServeAction>,
    serve_events1: Seq<ServeEvent>,
    loop_actions2: Seq<LoopAction>,
    loop_events2: Seq<LoopEvent>,
    serve_actions2: Seq<ServeAction>,
    serve_events2: Seq<ServeEvent>,
)
    requires
        loop_course(settings, loop_actions1, loop_events1),
        serve_course(settings, serve_actions1, serve_events1),
        taken(serve_events1) == queued(loop_actions1),
        serve_actions1.last() is Take || serve_actions1.last() is Stop,
        loop_course(settings, loop_actions2, loop_events2),
        serve_course(settings, serve_actions2, serve_events2),
        taken(serve_events2) == queued(loop_actions2),
        serve_actions2.last() is Take || serve_actions2.last() is Stop,
        stream_of(settings, loop_events2) == without_ignored(
            settings.request_topic@,
            stream_of(settings, loop_events1),
        ),
        replies(serve_events1) == replies(serve_events2),
    ensures
        effects(serve_actions1) == effects(serve_actions2),
{
    requests_are_queued_in_order(settings, loop_actions1, loop_events1);
    requests_are_queued_in_order(settings, loop_actions2, loop_events2);
    messages_are_served_in_order(settings, serve_actions1, serve_events1);
    messages_are_served_in_order(settings, serve_actions2, serve_events2);
    ignored_messages_owe_nothing(
        settings.request_topic@,
        settings.response_topic@,
        stream_of(settings, loop_events1),
        replies(serve_events1),
    );
}

/// A run touches two topics only. It subscribes once, to the request topic and before it
/// waits for the first packet; all it publishes are answers on the response topic,
/// delivered at least once and not retained.
pub proof fn one_subscription_and_one_response_topic(
    settings: Signaling,
    mqtt_url: Seq<char>,
    token: Seq<char>,
    topic: Seq<char>,
    process_id: u32,
    loop_actions: Seq<LoopAction>,
    loop_events: Seq<LoopEvent>,
    serve_actions: Seq<ServeAction>,
    serve_events: Seq<ServeEvent>,
)
    requires
        set_up(settings, mqtt_url, token, topic, process_id),
        loop_course(settings, loop_actions, loop_events),
        serve_course(settings, serve_actions, serve_events),
    ensures
        loop_actions[0] matches LoopAction::Subscribe { topic: to, delivery } && to@
            == request_topic(topic) && delivery == Delivery::AtLeastOnce,
        forall|i: int| 0 < i < loop_actions.len() ==> #[trigger] loop_actions[i] !is Subscribe,
        loop_events.len() > 0 ==> loop_events[0] is Subscribed,
        forall|i: int|
            0 <= i < serve_actions.len() ==> (#[trigger] serve_actions[i] matches
                ServeAction::Publish(publication) ==> is_answer(
                publication,
                response_topic(topic),
                publication.message.sdp@,
            )),
{
    assert forall|i: int| 0 < i < loop_actions.len() implies #[trigger] loop_actions[i]
        !is Subscribe by {
        assert(loop_reports_on(loop_events[i - 1], loop_actions[i - 1]));
        assert(loop_actions[i - 1 + 1] == settings.loop_action(loop_events[i - 1]));
    }
    if loop_events.len() > 0 {
        assert(loop_reports_on(loop_events[0], loop_actions[0]));
    }
    assert forall|i: int| 0 <= i < serve_actions.len() implies (#[trigger] serve_actions[i] matches
        ServeAction::Publish(publication) ==> is_answer(
        publication,
        response_topic(topic),
        publication.message.sdp@,
    )) by {
        if i > 0 {
            assert(serve_reports_on(serve_events[i - 1], serve_actions[i - 1]));
            assert(serve_follows(
                settings.response_topic@,
                serve_events[i - 1],
                serve_actions[i - 1 + 1],
            ));
        }
    }
}

/// What a message asks for is told by its type alone: an offer with a session description
/// asks for an answer to it, whatever else the message holds; a message of the type `ice`
/// hands on its candidate fields as they are, whatever they are and whether or not there
/// is a session description; anything else asks for nothing.
pub proof fn requests_go_by_their_type(message: SignalingMessage)
    ensures
        message.msg_type@ == "offer"@ && message.sdp is Some ==> requested(message)
            == Request::Offer(message.sdp->0),
        message.msg_type@ == "ice"@ ==> {
            &&& requested(message) is IceCandidate
            &&& requested(message)->candidate == message.candidate
            &&& requested(message)->sdp_mid == message.sdp_mid
            &&& requested(message)->sdp_mline_index == message.sdp_mline_index
        },
        requested(message) is Ignored <==> message.msg_type@ != "ice"@ && (message.msg_type@
            != "offer"@ || message.sdp is None),
{
    reveal_strlit("offer");
    reveal_strlit("ice");
    assert("offer"@.len() != "ice"@.len());
}

/// In every course of the loop that serves the queue, an offer with a session description
/// is handed to the bridge as it came, candidate fields go there as they came, and an
/// answer of the bridge is published as it came. The loop takes the next message in all
/// other cases, and stops just when the queue is closed.
pub proof fn messages_reach_the_bridge_as_they_came(
    settings: Signaling,
    actions: Seq<ServeAction>,
    events: Seq<ServeEvent>,
    i: int,
)
    requires
        serve_course(settings, actions, events),
        0 <= i < events.len(),
    ensures
        events[i] matches ServeEvent::Taken(Some(message)) ==> {
            &&& message.msg_type@ == "offer"@ && message.sdp is Some ==> actions[i + 1]
                == ServeAction::HandleOffer(message.sdp->0)
            &&& message.msg_type@ == "ice"@ ==> actions[i + 1] == (ServeAction::HandleCandidate {
                candidate: message.candidate,
                sdp_mid: message.sdp_mid,
                sdp_mline_index: message.sdp_mline_index,
            })
            &&& message.msg_type@ != "ice"@ && (message.msg_type@ != "offer"@
                || message.sdp is None) ==> actions[i + 1] is Take
        },
        events[i] matches ServeEvent::OfferHandled(Some(sdp)) ==> {
            &&& actions[i + 1] matches ServeAction::Publish(publication)
            &&& publication.topic@ == settings.response_topic@
            &&& publication.delivery == Delivery::AtLeastOnce
            &&& !publication.retain
            &&& publication.message.msg_type@ == "answer"@
            &&& publication.message.sdp@ == sdp@
        },
        events[i] == ServeEvent::OfferHandled(None) || events[i] is CandidateHandled
            || events[i] is Published ==> actions[i + 1] is Take,
        actions[i + 1] is Stop <==> events[i] == ServeEvent::Taken(None),
{
    assert(serve_follows(settings.response_topic@, events[i], actions[i + 1]));
    if let ServeEvent::Taken(Some(message)) = events[i] {
        requests_go_by_their_type(message);
    }
}

/// In every course of the connection loop, a payload is parsed exactly if it was published
/// to the topic listened to, and as it came; what it was parsed to is queued as it is. A
/// failed connection is left alone for three seconds, and the loop waits for the next
/// packet after everything else that does not end it.
pub proof fn connection_loop_goes_on(
    settings: Signaling,
    actions: Seq<LoopAction>,
    events: Seq<LoopEvent>,
    i: int,
)
    requires
        loop_course(settings, actions, events),
        0 <= i < events.len(),
    ensures
        events[i] matches LoopEvent::Published { topic, payload } ==> actions[i + 1] == if topic@
            == settings.request_topic@ {
            LoopAction::Parse(payload)
        } else {
            LoopAction::Poll
        },
        events[i] matches LoopEvent::Parsed(Some(message)) ==> actions[i + 1] == LoopAction::Queue(
            message,
        ),
        events[i] is Failed ==> actions[i + 1] == LoopAction::Sleep(3),
        events[i] == LoopEvent::Subscribed(true) || events[i] == LoopEvent::Parsed(None)
            || events[i] == LoopEvent::Queued(true) || events[i] is Connected
            || events[i] is OtherPacket || events[i] is Slept ==> actions[i + 1] is Poll,
        actions[i + 1] is Stop <==> events[i] == LoopEvent::Queued(false),
        actions[i + 1] is Abort <==> events[i] == LoopEvent::Subscribed(false),
{
    assert(actions[i + 1] == settings.loop_action(events[i]));
}

/// Requests come in below the device topic under `/signaling/request`, and answers go out
/// below it under `/signaling/response`.
pub proof fn topics_of_a_device(topic: Seq<char>)
    ensures
        request_topic(topic) == topic + "/signaling/request"@,
        response_topic(topic) == topic + "/signaling/response"@,
{
}

} // verus!
