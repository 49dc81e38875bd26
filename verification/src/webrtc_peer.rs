//! WebRTC peer connections: how one is set up to answer an offer, and what is made of
//! the ICE candidates that come for it.
//!
//! Both the browser and the bridge create the data channel themselves, as one that was
//! negotiated beforehand under the id 0.

use crate::signaling::{CandidateValue, IceServerConfig, JsonMember};
use vstd::prelude::*;
use vstd::string::*;
use webrtc::peer_connection::sdp::session_description::RTCSessionDescription;

verus! {

/// A STUN or TURN server, with empty credentials where it has none.
#[derive(Debug, Clone)]
pub struct IceServer {
    pub urls: Vec<String>,
    pub username: String,
    pub credential: String,
}

/// Which ICE candidates may be used.
#[derive(Debug, Clone, Copy, PartialEq, Eq, Structural)]
pub enum TransportPolicy {
    All,
    Relay,
}

/// A network that candidates are gathered on.
#[derive(Debug, Clone, Copy, PartialEq, Eq, Structural)]
pub enum Network {
    Udp4,
    Udp6,
    Tcp4,
    Tcp6,
}

/// The configuration of a peer connection.
#[derive(Debug, Clone)]
pub struct PeerConfiguration {
    pub ice_servers: Vec<IceServer>,
    pub transport_policy: TransportPolicy,
    pub networks: Vec<Network>,
}

/// The data channel that carries the VNC bytes.
#[derive(Debug, Clone)]
pub struct DataChannelSettings {
    pub label: String,
    pub ordered: bool,
    pub protocol: String,
    /// The id that both ends have agreed on.
    pub negotiated: u16,
    /// How many chunks of bytes may be pending in each direction.
    pub capacity: usize,
}

/// What an optional text reads as where a text must be given.
pub open spec fn text_or_empty(text: Option<String>) -> Seq<char> {
    match text {
        Some(t) => t@,
        None => Seq::empty(),
    }
}

/// Whether `server` is `config` with empty texts for what it lacks.
pub open spec fn server_of(server: IceServer, config: IceServerConfig) -> bool {
    &&& server.urls@ == config.urls@
    &&& server.username@ == text_or_empty(config.username)
    &&& server.credential@ == text_or_empty(config.credential)
}

/// Whether `configuration` has the given servers in their order, uses candidates from
/// relays only, and gathers them over IPv4 only.
pub open spec fn configured(
    configuration: PeerConfiguration,
    ice_servers: Seq<IceServerConfig>,
) -> bool {
    &&& configuration.ice_servers@.len() == ice_servers.len()
    &&& forall|i: int|
        0 <= i < ice_servers.len() ==> server_of(
            #[trigger] configuration.ice_servers@[i],
            ice_servers[i],
        )
    &&& configuration.transport_policy == TransportPolicy::Relay
    &&& configuration.networks@ == seq![Network::Udp4]
}

/// The text, or an empty one where there is none.
fn or_empty(text: &Option<String>) -> (res: String)
    ensures
        res@ == text_or_empty(*text),
{
    match text {
        Some(t) => t.clone(),
        None => String::new(),
    }
}

/// Copies a list of texts.
fn copy_texts(texts: &Vec<String>) -> (res: Vec<String>)
    ensures
        res@ == texts@,
{
    let mut res: Vec<String> = Vec::new();
    for i in 0..texts.len()
        invariant
            res@ == texts@.subrange(0, i as int),
    {
        res.push(texts[i].clone());
        assert(texts@.subrange(0, i + 1) =~= texts@.subrange(0, i as int).push(texts@[i as int]));
    }
    assert(texts@.subrange(0, texts@.len() as int) =~= texts@);
    res
}

/// The configuration of the peer connection that answers offers: every server of
/// `ice_servers` in its order, candidates from relays only, gathered over IPv4 only.
/// (The deployments have no IPv6, and a failed IPv6 lookup would take the IPv4
/// candidates down with it.)
pub fn peer_configuration(ice_servers: &[IceServerConfig]) -> (res: PeerConfiguration)
    ensures
        configured(res, ice_servers@),
        res.ice_servers@.len() == ice_servers@.len(),
        forall|i: int|
            0 <= i < ice_servers@.len() ==> {
                let config = ice_servers@[i];
                &&& (#[trigger] res.ice_servers@[i]).urls@ == config.urls@
                &&& match config.username {
                    Some(username) => res.ice_servers@[i].username@ == username@,
                    None => res.ice_servers@[i].username@.len() == 0,
                }
                &&& match config.credential {
                    Some(credential) => res.ice_servers@[i].credential@ == credential@,
                    None => res.ice_servers@[i].credential@.len() == 0,
                }
            },
        res.transport_policy == TransportPolicy::Relay,
        res.networks@.len() == 1,
        res.networks@[0] == Network::Udp4,
{
    let mut servers: Vec<IceServer> = Vec::new();
    for i in 0..ice_servers.len()
        invariant
            servers@.len() == i,
            forall|j: int|
                0 <= j < i ==> server_of(#[trigger] servers@[j], ice_servers@[j]),
    {
        let config = &ice_servers[i];
        servers.push(
            IceServer {
                urls: copy_texts(&config.urls),
                username: or_empty(&config.username),
                credential: or_empty(&config.credential),
            },
        );
    }
    let mut networks: Vec<Network> = Vec::new();
    networks.push(Network::Udp4);
    assert(networks@ =~= seq![Network::Udp4]);
    PeerConfiguration {
        ice_servers: servers,
        transport_policy: TransportPolicy::Relay,
        networks,
    }
}

/// The data channel that the browser creates too: ordered, negotiated under the id 0.
pub fn data_channel() -> (res: DataChannelSettings)
    ensures
        res.label@ == "vnc"@,
        res.ordered,
        res.protocol@ == "binary"@,
        res.negotiated == 0,
        res.capacity == 256,
{
    DataChannelSettings {
        label: "vnc".to_owned(),
        ordered: true,
        protocol: "binary".to_owned(),
        negotiated: 0,
        capacity: 256,
    }
}

/// The error of `webrtc`, carried through unread.
#[verifier::external_type_specification]
#[verifier::external_body]
pub struct ExWebrtcError(webrtc::Error);

/// Whether `webrtc` can parse `sdp` as a session description.
pub uninterp spec fn sdp_accepted(sdp: Seq<char>) -> bool;

/// `RTCSessionDescription::offer`: the offer's text as it was given, or an error exactly
/// where the text cannot be parsed. Which error it is stays unsaid.
#[verifier::external_body]
fn parse_offer(sdp: String) -> (res: Result<String, webrtc::Error>)
    ensures
        match res {
            Ok(text) => sdp_accepted(sdp@) && text@ == sdp@,
            Err(_) => !sdp_accepted(sdp@),
        },
{
    RTCSessionDescription::offer(sdp).map(|description| description.sdp)
}

/// What happened while an offer is being answered.
pub enum NegotiationEvent {
    /// The peer connection was created (`true`), or could not be.
    PeerCreated(bool),
    /// The data channel was created, or could not be.
    ChannelCreated(bool),
    /// The offer was set as the remote description, or could not be.
    RemoteSet(bool),
    /// The answer was created, or could not be.
    AnswerCreated(bool),
    /// The answer was set as the local description, or could not be.
    LocalSet(bool),
    /// All local candidates are gathered.
    GatheringComplete,
    /// The time for gathering is over.
    GatheringTimedOut,
    /// The local description was read, if there is one.
    LocalRead(Option<String>),
}

/// Why an offer was not answered.
#[derive(Debug)]
pub enum NegotiationError {
    /// The peer connection could not be created.
    Peer,
    /// The data channel could not be created.
    Channel,
    /// The offer is no session description.
    Offer(webrtc::Error),
    /// The offer was refused.
    Remote,
    /// No answer could be created.
    Answer,
    /// The answer was refused.
    Local,
    /// There is no local description after all.
    NoLocalDescription,
}

impl NegotiationError {
    /// What was being done, where the error that came of it does not say.
    pub fn context(&self) -> (res: Option<&'static str>)
        ensures
            match (*self, res) {
                (NegotiationError::Channel, Some(text)) => text@
                    == "create negotiated data channel"@,
                (NegotiationError::Remote, Some(text)) => text@ == "set remote description"@,
                (NegotiationError::Answer, Some(text)) => text@ == "create answer"@,
                (NegotiationError::Local, Some(text)) => text@ == "set local description"@,
                (NegotiationError::NoLocalDescription, Some(text)) => text@
                    == "no local description after answer"@,
                (NegotiationError::Peer, None) => true,
                (NegotiationError::Offer(_), None) => true,
                _ => false,
            },
    {
        match self {
            NegotiationError::Peer | NegotiationError::Offer(_) => None,
            NegotiationError::Channel => Some("create negotiated data channel"),
            NegotiationError::Remote => Some("set remote description"),
            NegotiationError::Answer => Some("create answer"),
            NegotiationError::Local => Some("set local description"),
            NegotiationError::NoLocalDescription => Some("no local description after answer"),
        }
    }
}

/// What is done next to answer an offer.
pub enum NegotiationAction {
    /// Create the peer connection.
    CreatePeer(PeerConfiguration),
    /// Create the data channel.
    CreateChannel(DataChannelSettings),
    /// Set this offer as the remote description.
    SetRemote(String),
    /// Create the answer.
    CreateAnswer,
    /// Set the answer as the local description.
    SetLocal,
    /// Wait until the candidates are gathered, for so many seconds at most.
    AwaitGathering(u64),
    /// Read the local description.
    ReadLocal,
    /// End with this session description as the answer.
    Finish(String),
    /// End without an answer.
    Abort(NegotiationError),
}

/// An offer that is being answered.
pub struct Negotiation {
    pub offer_sdp: String,
}

/// What follows the parsing of the offer.
pub fn after_parsing(parsed: Result<String, webrtc::Error>) -> (action: NegotiationAction)
    ensures
        action == match parsed {
            Ok(text) => NegotiationAction::SetRemote(text),
            Err(e) => NegotiationAction::Abort(NegotiationError::Offer(e)),
        },
{
    match parsed {
        Ok(text) => NegotiationAction::SetRemote(text),
        Err(e) => NegotiationAction::Abort(NegotiationError::Offer(e)),
    }
}

/// Whether `action` is what follows `event` when `offer_sdp` is being answered.
pub open spec fn follows(
    offer_sdp: Seq<char>,
    event: NegotiationEvent,
    action: NegotiationAction,
) -> bool {
    match event {
        NegotiationEvent::PeerCreated(true) => {
            &&& action matches NegotiationAction::CreateChannel(settings)
            &&& settings.label@ == "vnc"@
            &&& settings.ordered
            &&& settings.protocol@ == "binary"@
            &&& settings.negotiated == 0
            &&& settings.capacity == 256
        },
        NegotiationEvent::PeerCreated(false) => action == NegotiationAction::Abort(
            NegotiationError::Peer,
        ),
        NegotiationEvent::ChannelCreated(true) => if sdp_accepted(offer_sdp) {
            action matches NegotiationAction::SetRemote(text) && text@ == offer_sdp
        } else {
            action matches NegotiationAction::Abort(NegotiationError::Offer(_))
        },
        NegotiationEvent::ChannelCreated(false) => action == NegotiationAction::Abort(
            NegotiationError::Channel,
        ),
        NegotiationEvent::RemoteSet(true) => action == NegotiationAction::CreateAnswer,
        NegotiationEvent::RemoteSet(false) => action == NegotiationAction::Abort(
            NegotiationError::Remote,
        ),
        NegotiationEvent::AnswerCreated(true) => action == NegotiationAction::SetLocal,
        NegotiationEvent::AnswerCreated(false) => action == NegotiationAction::Abort(
            NegotiationError::Answer,
        ),
        NegotiationEvent::LocalSet(true) => action == NegotiationAction::AwaitGathering(10),
        NegotiationEvent::LocalSet(false) => action == NegotiationAction::Abort(
            NegotiationError::Local,
        ),
        NegotiationEvent::GatheringComplete => action == NegotiationAction::ReadLocal,
        NegotiationEvent::GatheringTimedOut => action == NegotiationAction::ReadLocal,
        NegotiationEvent::LocalRead(Some(sdp)) => action == NegotiationAction::Finish(sdp),
        NegotiationEvent::LocalRead(None) => action == NegotiationAction::Abort(
            NegotiationError::NoLocalDescription,
        ),
    }
}

/// Begins to answer an offer, with the peer connection that is to be created for it.
pub fn handle_offer(offer_sdp: &str, ice_servers: &[IceServerConfig]) -> (res: (
    Negotiation,
    NegotiationAction,
))
    ensures
        res.0.offer_sdp@ == offer_sdp@,
        ({
            &&& res.1 matches NegotiationAction::CreatePeer(configuration)
            &&& configured(configuration, ice_servers@)
        }),
        res.1->CreatePeer_0.ice_servers@.len() == ice_servers@.len(),
        forall|i: int|
            0 <= i < ice_servers@.len() ==> {
                let config = ice_servers@[i];
                &&& (#[trigger] res.1->CreatePeer_0.ice_servers@[i]).urls@ == config.urls@
                &&& match config.username {
                    Some(username) => res.1->CreatePeer_0.ice_servers@[i].username@ == username@,
                    None => res.1->CreatePeer_0.ice_servers@[i].username@.len() == 0,
                }
                &&& match config.credential {
                    Some(credential) => res.1->CreatePeer_0.ice_servers@[i].credential@ == credential@,
                    None => res.1->CreatePeer_0.ice_servers@[i].credential@.len() == 0,
                }
            },
        res.1->CreatePeer_0.transport_policy == TransportPolicy::Relay,
        res.1->CreatePeer_0.networks@.len() == 1,
        res.1->CreatePeer_0.networks@[0] == Network::Udp4,
{
    (
        Negotiation { offer_sdp: offer_sdp.to_owned() },
        NegotiationAction::CreatePeer(peer_configuration(ice_servers)),
    )
}

impl Negotiation {
    /// Says what is done after an event. Each failure ends the negotiation, except that
    /// candidates still missing when the time for gathering is over are done without.
    pub fn on_event(&self, event: NegotiationEvent) -> (action: NegotiationAction)
        ensures
            follows(self.offer_sdp@, event, action),
            match event {
                NegotiationEvent::PeerCreated(made) => if made {
                    &&& action matches NegotiationAction::CreateChannel(settings)
                    &&& settings.label@ == "vnc"@
                    &&& settings.ordered
                    &&& settings.protocol@ == "binary"@
                    &&& settings.negotiated == 0
                    &&& settings.capacity == 256
                } else {
                    action == NegotiationAction::Abort(NegotiationError::Peer)
                },
                NegotiationEvent::ChannelCreated(made) => if !made {
                    action == NegotiationAction::Abort(NegotiationError::Channel)
                } else if sdp_accepted(self.offer_sdp@) {
                    action matches NegotiationAction::SetRemote(text) && text@ == self.offer_sdp@
                } else {
                    action matches NegotiationAction::Abort(NegotiationError::Offer(_))
                },
                NegotiationEvent::RemoteSet(set) => action == if set {
                    NegotiationAction::CreateAnswer
                } else {
                    NegotiationAction::Abort(NegotiationError::Remote)
                },
                NegotiationEvent::AnswerCreated(made) => action == if made {
                    NegotiationAction::SetLocal
                } else {
                    NegotiationAction::Abort(NegotiationError::Answer)
                },
                NegotiationEvent::LocalSet(set) => action == if set {
                    NegotiationAction::AwaitGathering(10)
                } else {
                    NegotiationAction::Abort(NegotiationError::Local)
                },
                NegotiationEvent::GatheringComplete => action == NegotiationAction::ReadLocal,
                NegotiationEvent::GatheringTimedOut => action == NegotiationAction::ReadLocal,
                NegotiationEvent::LocalRead(read) => match read {
                    Some(sdp) => action == NegotiationAction::Finish(sdp),
                    None => action == NegotiationAction::Abort(
                        NegotiationError::NoLocalDescription,
                    ),
                },
            },
    {
        match event {
            NegotiationEvent::PeerCreated(true) => NegotiationAction::CreateChannel(
                data_channel(),
            ),
            NegotiationEvent::PeerCreated(false) => NegotiationAction::Abort(
                NegotiationError::Peer,
            ),
            NegotiationEvent::ChannelCreated(true) => after_parsing(
                parse_offer(self.offer_sdp.clone()),
            ),
            NegotiationEvent::ChannelCreated(false) => NegotiationAction::Abort(
                NegotiationError::Channel,
            ),
            NegotiationEvent::RemoteSet(true) => NegotiationAction::CreateAnswer,
            NegotiationEvent::RemoteSet(false) => NegotiationAction::Abort(
                NegotiationError::Remote,
            ),
            NegotiationEvent::AnswerCreated(true) => NegotiationAction::SetLocal,
            NegotiationEvent::AnswerCreated(false) => NegotiationAction::Abort(
                NegotiationError::Answer,
            ),
            NegotiationEvent::LocalSet(true) => NegotiationAction::AwaitGathering(10),
            NegotiationEvent::LocalSet(false) => NegotiationAction::Abort(NegotiationError::Local),
            NegotiationEvent::GatheringComplete | NegotiationEvent::GatheringTimedOut =>
            NegotiationAction::ReadLocal,
            NegotiationEvent::LocalRead(Some(sdp)) => NegotiationAction::Finish(sdp),
            NegotiationEvent::LocalRead(None) => NegotiationAction::Abort(
                NegotiationError::NoLocalDescription,
            ),
        }
    }
}

/// A remote ICE candidate to add to a peer connection.
#[derive(Debug, Clone)]
pub struct IceCandidateInit {
    pub candidate: String,
    pub sdp_mid: String,
    pub sdp_mline_index: u16,
}

/// What an [`IceCandidateInit`] says.
pub struct IceCandidate {
    pub candidate: Seq<char>,
    pub sdp_mid: Seq<char>,
    pub sdp_mline_index: u16,
}

impl View for IceCandidateInit {
    type V = IceCandidate;

    open spec fn view(&self) -> IceCandidate {
        IceCandidate {
            candidate: self.candidate@,
            sdp_mid: self.sdp_mid@,
            sdp_mline_index: self.sdp_mline_index,
        }
    }
}

/// The text of the member with this name, if there is one and it is a string.
pub open spec fn member_text(members: Seq<JsonMember>, name: Seq<char>) -> Option<String>
    decreases members.len(),
{
    if members.len() == 0 {
        None
    } else if members[0].name@ == name {
        members[0].text
    } else {
        member_text(members.drop_first(), name)
    }
}

/// The candidate in the `candidate` field of a message: the string it is, or the string
/// under `candidate` in the object it is; empty otherwise.
pub open spec fn candidate_text(candidate: Option<CandidateValue>) -> Seq<char> {
    match candidate {
        Some(CandidateValue::Text(text)) => text@,
        Some(CandidateValue::Object(members)) => text_or_empty(
            member_text(members@, "candidate"@),
        ),
        _ => Seq::empty(),
    }
}

/// What is added for a remote candidate: nothing where it has no text; otherwise that
/// text, for the media `0` and the media line 0 unless others are given.
pub open spec fn remote_candidate(
    candidate: Option<CandidateValue>,
    sdp_mid: Option<String>,
    sdp_mline_index: Option<u16>,
) -> Option<IceCandidate> {
    if candidate_text(candidate).len() == 0 {
        None
    } else {
        Some(
            IceCandidate {
                candidate: candidate_text(candidate),
                sdp_mid: match sdp_mid {
                    Some(mid) => mid@,
                    None => "0"@,
                },
                sdp_mline_index: match sdp_mline_index {
                    Some(index) => index,
                    None => 0,
                },
            },
        )
    }
}

/// Looks the member with this name up.
fn find_text(members: &Vec<JsonMember>, name: &String) -> (res: String)
    ensures
        res@ == text_or_empty(member_text(members@, name@)),
        forall|i: int|
            0 <= i < members@.len() && (#[trigger] members@[i]).name@ == name@ && (forall|j: int|
                0 <= j < i ==> (#[trigger] members@[j]).name@ != name@) ==> match members@[i].text {
                Some(text) => res@ == text@,
                None => res@.len() == 0,
            },
        (forall|i: int| 0 <= i < members@.len() ==> (#[trigger] members@[i]).name@ != name@)
            ==> res@.len() == 0,
{
    let len: usize = members.len();
    let mut i: usize = 0;
    assert(members@.subrange(0, len as int) =~= members@);
    while i < len
        invariant
            i <= len,
            len == members@.len(),
            member_text(members@, name@) == member_text(
                members@.subrange(i as int, len as int),
                name@,
            ),
        decreases len - i,
    {
        let member = &members[i];
        assert(members@.subrange(i as int, len as int)[0] == members@[i as int]);
        if member.name == *name {
            proof {
                first_member_counts_everywhere(members@, name@);
            }
            return or_empty(&member.text);
        }
        assert(members@.subrange(i as int, len as int).drop_first() =~= members@.subrange(
            i + 1,
            len as int,
        ));
        i = i + 1;
    }
    proof {
        first_member_counts_everywhere(members@, name@);
    }
    String::new()
}

/// Makes of a remote candidate what is to be added to the peer connection, if anything.
pub fn add_ice_candidate(
    candidate: Option<CandidateValue>,
    sdp_mid: Option<String>,
    sdp_mline_index: Option<u16>,
) -> (res: Option<IceCandidateInit>)
    ensures
        match res {
            Some(init) => remote_candidate(candidate, sdp_mid, sdp_mline_index) == Some(init@),
            None => remote_candidate(candidate, sdp_mid, sdp_mline_index) is None,
        },
        candidate is None || candidate == Some(CandidateValue::Other) ==> res is None,
        candidate matches Some(CandidateValue::Text(text)) ==> if text@.len() > 0 {
            res matches Some(init) && init.candidate@ == text@
        } else {
            res is None
        },
        candidate matches Some(CandidateValue::Object(members)) ==> {
            &&& forall|i: int|
                0 <= i < members@.len() && (#[trigger] members@[i]).name@ == "candidate"@ && (
                forall|j: int| 0 <= j < i ==> (#[trigger] members@[j]).name@ != "candidate"@)
                    ==> match members@[i].text {
                    Some(text) => if text@.len() > 0 {
                        res matches Some(init) && init.candidate@ == text@
                    } else {
                        res is None
                    },
                    None => res is None,
                }
            &&& (forall|i: int|
                0 <= i < members@.len() ==> (#[trigger] members@[i]).name@ != "candidate"@)
                ==> res is None
        },
        res matches Some(init) ==> {
            &&& match sdp_mid {
                Some(mid) => init.sdp_mid@ == mid@,
                None => init.sdp_mid@ == "0"@,
            }
            &&& match sdp_mline_index {
                Some(index) => init.sdp_mline_index == index,
                None => init.sdp_mline_index == 0,
            }
        },
{
    let text = match candidate {
        Some(CandidateValue::Text(text)) => text,
        Some(CandidateValue::Object(members)) => find_text(&members, &"candidate".to_owned()),
        _ => return None,
    };
    if text.as_str().is_empty() {
        return None;
    }
    Some(
        IceCandidateInit {
            candidate: text,
            sdp_mid: match sdp_mid {
                Some(mid) => mid,
                None => "0".to_owned(),
            },
            sdp_mline_index: match sdp_mline_index {
                Some(index) => index,
                None => 0,
            },
        },
    )
}

/// Whether `event` reports on what `action` asked for.
pub open spec fn reports_on(event: NegotiationEvent, action: NegotiationAction) -> bool {
    match action {
        NegotiationAction::CreatePeer(_) => event is PeerCreated,
        NegotiationAction::CreateChannel(_) => event is ChannelCreated,
        NegotiationAction::SetRemote(_) => event is RemoteSet,
        NegotiationAction::CreateAnswer => event is AnswerCreated,
        NegotiationAction::SetLocal => event is LocalSet,
        NegotiationAction::AwaitGathering(_) => event is GatheringComplete
            || event is GatheringTimedOut,
        NegotiationAction::ReadLocal => event is LocalRead,
        NegotiationAction::Finish(_) => false,
        NegotiationAction::Abort(_) => false,
    }
}

/// Whether `event` reports that something failed.
pub open spec fn is_failure(event: NegotiationEvent) -> bool {
    match event {
        NegotiationEvent::PeerCreated(done) => !done,
        NegotiationEvent::ChannelCreated(done) => !done,
        NegotiationEvent::RemoteSet(done) => !done,
        NegotiationEvent::AnswerCreated(done) => !done,
        NegotiationEvent::LocalSet(done) => !done,
        NegotiationEvent::GatheringComplete => false,
        NegotiationEvent::GatheringTimedOut => false,
        NegotiationEvent::LocalRead(sdp) => sdp is None,
    }
}

/// A course that the answering of `offer_sdp` can take: it begins with the peer
/// connection, each event reports on the action before it, and each further action
/// follows the event before it.
pub open spec fn negotiation_course(
    offer_sdp: Seq<char>,
    actions: Seq<NegotiationAction>,
    events: Seq<NegotiationEvent>,
) -> bool {
    &&& actions.len() == events.len() + 1
    &&& actions[0] is CreatePeer
    &&& forall|i: int|
        0 <= i < events.len() ==> {
            &&& reports_on(#[trigger] events[i], actions[i])
            &&& follows(offer_sdp, events[i], actions[i + 1])
        }
}

/// The place of an action in the course, the two ends behind all others.
spec fn place(action: NegotiationAction) -> int {
    match action {
        NegotiationAction::CreatePeer(_) => 0,
        NegotiationAction::CreateChannel(_) => 1,
        NegotiationAction::SetRemote(_) => 2,
        NegotiationAction::CreateAnswer => 3,
        NegotiationAction::SetLocal => 4,
        NegotiationAction::AwaitGathering(_) => 5,
        NegotiationAction::ReadLocal => 6,
        NegotiationAction::Finish(_) => 7,
        NegotiationAction::Abort(_) => 7,
    }
}

proof fn places_in_order(
    offer_sdp: Seq<char>,
    actions: Seq<NegotiationAction>,
    events: Seq<NegotiationEvent>,
    i: int,
)
    requires
        negotiation_course(offer_sdp, actions, events),
        0 <= i < events.len(),
    ensures
        place(actions[i]) == i,
        i > 0 ==> !is_failure(events[i - 1]),
        i == 2 ==> sdp_accepted(offer_sdp),
    decreases i,
{
    assert(reports_on(events[i], actions[i]));
    if i > 0 {
        places_in_order(offer_sdp, actions, events, i - 1);
        assert(reports_on(events[i - 1], actions[i - 1]));
        assert(follows(offer_sdp, events[i - 1], actions[i]));
    }
}

/// Every course ends after seven events at most.
pub proof fn negotiation_ends(
    offer_sdp: Seq<char>,
    actions: Seq<NegotiationAction>,
    events: Seq<NegotiationEvent>,
)
    requires
        negotiation_course(offer_sdp, actions, events),
    ensures
        events.len() <= 7,
        events.len() == 7 ==> actions[7] is Finish || actions[7] is Abort,
{
    if events.len() > 7 {
        places_in_order(offer_sdp, actions, events, 7);
        assert(reports_on(events[7], actions[7]));
    } else if events.len() == 7 {
        places_in_order(offer_sdp, actions, events, 6);
        assert(reports_on(events[6], actions[6]));
        assert(follows(offer_sdp, events[6], actions[7]));
    }
}

/// An offer is answered only if it is a session description and nothing failed on the
/// way; the answer is then the local description that was read last.
pub proof fn answer_means_success(
    offer_sdp: Seq<char>,
    actions: Seq<NegotiationAction>,
    events: Seq<NegotiationEvent>,
)
    requires
        negotiation_course(offer_sdp, actions, events),
        actions.last() is Finish,
    ensures
        events.len() == 7,
        sdp_accepted(offer_sdp),
        forall|i: int| 0 <= i < 7 ==> !is_failure(#[trigger] events[i]),
        events[6] == NegotiationEvent::LocalRead(Some(actions.last()->Finish_0)),
{
    let last = events.len() - 1;
    if last < 0 {
        assert(actions.last() == actions[0]);
    } else {
        places_in_order(offer_sdp, actions, events, last);
        assert(reports_on(events[last], actions[last]));
        assert(follows(offer_sdp, events[last], actions[last + 1]));
        assert(last == 6);
        places_in_order(offer_sdp, actions, events, 2);
        assert forall|i: int| 0 <= i < 7 implies !is_failure(#[trigger] events[i]) by {
            if i < 6 {
                places_in_order(offer_sdp, actions, events, i + 1);
            }
        }
    }
}

/// Where nothing fails and the offer is a session description, the course goes on to an
/// answer.
pub proof fn success_means_answer(
    offer_sdp: Seq<char>,
    actions: Seq<NegotiationAction>,
    events: Seq<NegotiationEvent>,
)
    requires
        negotiation_course(offer_sdp, actions, events),
        sdp_accepted(offer_sdp),
        forall|i: int| 0 <= i < events.len() ==> !is_failure(#[trigger] events[i]),
    ensures
        actions.last() !is Abort,
        actions.last() is Finish <==> events.len() == 7,
{
    let last = events.len() - 1;
    if last >= 0 {
        places_in_order(offer_sdp, actions, events, last);
        negotiation_ends(offer_sdp, actions, events);
        assert(reports_on(events[last], actions[last]));
        assert(follows(offer_sdp, events[last], actions[last + 1]));
    }
}

/// The first failure ends the course, without an answer.
pub proof fn failure_aborts(
    offer_sdp: Seq<char>,
    actions: Seq<NegotiationAction>,
    events: Seq<NegotiationEvent>,
    i: int,
)
    requires
        negotiation_course(offer_sdp, actions, events),
        0 <= i < events.len(),
        is_failure(events[i]),
    ensures
        i == events.len() - 1,
        actions.last() is Abort,
{
    assert(follows(offer_sdp, events[i], actions[i + 1]));
    if i + 1 < events.len() {
        places_in_order(offer_sdp, actions, events, i + 1);
    }
}

proof fn first_member_counts(members: Seq<JsonMember>, name: Seq<char>, i: int)
    requires
        0 <= i < members.len(),
        members[i].name@ == name,
        forall|j: int| 0 <= j < i ==> (#[trigger] members[j]).name@ != name,
    ensures
        member_text(members, name) == members[i].text,
    decreases i,
{
    if i > 0 {
        assert(members[0].name@ != name);
        let rest = members.drop_first();
        assert forall|j: int| 0 <= j < i - 1 implies (#[trigger] rest[j]).name@ != name by {
            assert(rest[j] == members[j + 1]);
        }
        first_member_counts(rest, name, i - 1);
    }
}

proof fn no_member_counts(members: Seq<JsonMember>, name: Seq<char>)
    requires
        forall|j: int| 0 <= j < members.len() ==> (#[trigger] members[j]).name@ != name,
    ensures
        member_text(members, name) is None,
    decreases members.len(),
{
    if members.len() > 0 {
        assert(members[0].name@ != name);
        let rest = members.drop_first();
        assert forall|j: int| 0 <= j < rest.len() implies (#[trigger] rest[j]).name@ != name by {
            assert(rest[j] == members[j + 1]);
        }
        no_member_counts(rest, name);
    }
}

proof fn first_member_counts_everywhere(members: Seq<JsonMember>, name: Seq<char>)
    ensures
        forall|i: int|
            0 <= i < members.len() && (#[trigger] members[i]).name@ == name && (forall|j: int|
                0 <= j < i ==> (#[trigger] members[j]).name@ != name) ==> member_text(members, name)
                == members[i].text,
        (forall|i: int| 0 <= i < members.len() ==> (#[trigger] members[i]).name@ != name)
            ==> member_text(members, name) is None,
{
    assert forall|i: int|
        0 <= i < members.len() && (#[trigger] members[i]).name@ == name && (forall|j: int|
            0 <= j < i ==> (#[trigger] members[j]).name@ != name) implies member_text(members, name)
        == members[i].text by {
        first_member_counts(members, name, i);
    }
    if forall|i: int| 0 <= i < members.len() ==> (#[trigger] members[i]).name@ != name {
        no_member_counts(members, name);
    }
}

/// The candidate in an object counts wherever its member stands, as long as no other
/// member before it has its name: its text, unless it is empty or no text, becomes the
/// candidate, for the media and the media line given, or for `0` and 0.
pub proof fn candidate_counts_at_any_place(
    members: Vec<JsonMember>,
    i: int,
    sdp_mid: Option<String>,
    sdp_mline_index: Option<u16>,
)
    requires
        0 <= i < members@.len(),
        members@[i].name@ == "candidate"@,
        forall|j: int| 0 <= j < i ==> (#[trigger] members@[j]).name@ != "candidate"@,
    ensures
        ({
            let added = remote_candidate(
                Some(CandidateValue::Object(members)),
                sdp_mid,
                sdp_mline_index,
            );
            match members@[i].text {
                Some(text) => if text@.len() > 0 {
                    &&& added is Some
                    &&& added->0.candidate == text@
                    &&& sdp_mid matches Some(mid) ==> added->0.sdp_mid == mid@
                    &&& sdp_mid is None ==> added->0.sdp_mid == "0"@
                    &&& sdp_mline_index matches Some(index) ==> added->0.sdp_mline_index == index
                    &&& sdp_mline_index is None ==> added->0.sdp_mline_index == 0
                } else {
                    added is None
                },
                None => added is None,
            }
        }),
{
    first_member_counts(members@, "candidate"@, i);
}

/// A candidate that is a text counts as it is unless it is empty, for the media and the
/// media line given, or for `0` and 0. An object without a member of that name counts for
/// nothing, and so does any other value or none.
pub proof fn candidate_text_counts_as_it_is(
    text: String,
    members: Vec<JsonMember>,
    sdp_mid: Option<String>,
    sdp_mline_index: Option<u16>,
)
    requires
        forall|j: int| 0 <= j < members@.len() ==> (#[trigger] members@[j]).name@ != "candidate"@,
    ensures
        ({
            let added = remote_candidate(
                Some(CandidateValue::Text(text)),
                sdp_mid,
                sdp_mline_index,
            );
            if text@.len() > 0 {
                &&& added is Some
                &&& added->0.candidate == text@
                &&& sdp_mid matches Some(mid) ==> added->0.sdp_mid == mid@
                &&& sdp_mid is None ==> added->0.sdp_mid == "0"@
                &&& sdp_mline_index matches Some(index) ==> added->0.sdp_mline_index == index
                &&& sdp_mline_index is None ==> added->0.sdp_mline_index == 0
            } else {
                added is None
            }
        }),
        remote_candidate(Some(CandidateValue::Object(members)), sdp_mid, sdp_mline_index) is None,
        remote_candidate(Some(CandidateValue::Other), sdp_mid, sdp_mline_index) is None,
        remote_candidate(None, sdp_mid, sdp_mline_index) is None,
{
    no_member_counts(members@, "candidate"@);
}

/// In every course the data channel is created as the browser creates it: ordered, under
/// the id 0, with the label `vnc` and the protocol `binary`. The offer is set as it came,
/// and candidates are waited for ten seconds at most.
pub proof fn courses_create_the_shared_channel(
    offer_sdp: Seq<char>,
    actions: Seq<NegotiationAction>,
    events: Seq<NegotiationEvent>,
    i: int,
)
    requires
        negotiation_course(offer_sdp, actions, events),
        0 <= i < actions.len(),
    ensures
        actions[i] matches NegotiationAction::CreateChannel(settings) ==> {
            &&& settings.ordered
            &&& settings.negotiated == 0
            &&& settings.label@ == "vnc"@
            &&& settings.protocol@ == "binary"@
            &&& settings.capacity == 256
        },
        actions[i] matches NegotiationAction::SetRemote(text) ==> text@ == offer_sdp
            && sdp_accepted(offer_sdp),
        actions[i] matches NegotiationAction::AwaitGathering(secs) ==> secs == 10,
{
    if i > 0 {
        assert(follows(offer_sdp, events[i - 1], actions[i - 1 + 1]));
    }
}

/// In every course each step that is carried out leads to the next one: the peer
/// connection to the channel, the channel to the offer (where it is a session
/// description), the offer to an answer, the answer to gathering, gathering, complete or
/// not, to the local description, and that one to the end with it as the answer.
pub proof fn each_step_leads_to_the_next(
    offer_sdp: Seq<char>,
    actions: Seq<NegotiationAction>,
    events: Seq<NegotiationEvent>,
    i: int,
)
    requires
        negotiation_course(offer_sdp, actions, events),
        0 <= i < events.len(),
    ensures
        events[i] == NegotiationEvent::PeerCreated(true) ==> actions[i + 1] is CreateChannel,
        events[i] == NegotiationEvent::ChannelCreated(true) ==> if sdp_accepted(offer_sdp) {
            actions[i + 1] is SetRemote
        } else {
            actions[i + 1] matches NegotiationAction::Abort(NegotiationError::Offer(_))
        },
        events[i] == NegotiationEvent::RemoteSet(true) ==> actions[i + 1] is CreateAnswer,
        events[i] == NegotiationEvent::AnswerCreated(true) ==> actions[i + 1] is SetLocal,
        events[i] == NegotiationEvent::LocalSet(true) ==> actions[i + 1] is AwaitGathering,
        events[i] is GatheringComplete || events[i] is GatheringTimedOut ==> actions[i + 1]
            is ReadLocal,
        events[i] matches NegotiationEvent::LocalRead(Some(sdp)) ==> actions[i + 1]
            == NegotiationAction::Finish(sdp),
        events[i] == NegotiationEvent::PeerCreated(false) ==> actions[i + 1]
            == NegotiationAction::Abort(NegotiationError::Peer),
        events[i] == NegotiationEvent::ChannelCreated(false) ==> actions[i + 1]
            == NegotiationAction::Abort(NegotiationError::Channel),
        events[i] == NegotiationEvent::RemoteSet(false) ==> actions[i + 1]
            == NegotiationAction::Abort(NegotiationError::Remote),
        events[i] == NegotiationEvent::AnswerCreated(false) ==> actions[i + 1]
            == NegotiationAction::Abort(NegotiationError::Answer),
        events[i] == NegotiationEvent::LocalSet(false) ==> actions[i + 1]
            == NegotiationAction::Abort(NegotiationError::Local),
        events[i] == NegotiationEvent::LocalRead(None) ==> actions[i + 1]
            == NegotiationAction::Abort(NegotiationError::NoLocalDescription),
{
    assert(follows(offer_sdp, events[i], actions[i + 1]));
}

/// A configuration that fits keeps every server in its place, with all its addresses and
/// with its own user name and credential; it allows relays only, over IPv4 only.
pub proof fn configuration_keeps_the_servers(
    configuration: PeerConfiguration,
    ice_servers: Seq<IceServerConfig>,
    i: int,
)
    requires
        configured(configuration, ice_servers),
        0 <= i < ice_servers.len(),
    ensures
        configuration.ice_servers@.len() == ice_servers.len(),
        configuration.ice_servers@[i].urls@ == ice_servers[i].urls@,
        ice_servers[i].username matches Some(username)
            ==> configuration.ice_servers@[i].username@ == username@,
        ice_servers[i].username is None ==> configuration.ice_servers@[i].username@.len() == 0,
        ice_servers[i].credential matches Some(credential)
            ==> configuration.ice_servers@[i].credential@ == credential@,
        ice_servers[i].credential is None ==> configuration.ice_servers@[i].credential@.len() == 0,
        configuration.transport_policy == TransportPolicy::Relay,
        configuration.networks@ == seq![Network::Udp4],
{
    assert(server_of(configuration.ice_servers@[i], ice_servers[i]));
}

} // verus!
