//! The bridge between a VNC server and the browser it is shown in.
//!
//! The bridge serves one session at a time. A new offer replaces the session before
//! it, unless it comes so soon that it can only be the same offer again; where two
//! offers are being answered at once, the session started last replaces the other. ICE
//! candidates that come before there is a session wait for it.
//!
//! Once the data channel of a session is open, its bytes are piped to the VNC server
//! and back, until either side closes.

use crate::signaling::{CandidateValue, IceServerConfig};
use crate::webrtc_peer;
use crate::webrtc_peer::IceCandidateInit;
use vstd::prelude::*;

verus! {

/// The state of a peer connection.
#[derive(Debug, Clone, Copy, PartialEq, Eq, Structural)]
pub enum PeerState {
    Unspecified,
    New,
    Connecting,
    Connected,
    Disconnected,
    Failed,
    Closed,
}

/// The session that is being served.
#[derive(Debug, Clone, Copy, PartialEq, Eq, Structural)]
pub struct ActiveSession {
    /// The number that its peer connection is known by.
    pub id: u64,
    /// When it was set up, in nanoseconds on a clock that never runs backwards.
    pub created_at: u128,
}

/// An ICE candidate that waits for a session.
#[derive(Debug, Clone)]
pub struct PendingIce {
    pub candidate: Option<CandidateValue>,
    pub sdp_mid: Option<String>,
    pub sdp_mline_index: Option<u16>,
}

impl PendingIce {
    /// What is added to a peer connection for it.
    pub open spec fn addition(self) -> Option<webrtc_peer::IceCandidate> {
        webrtc_peer::remote_candidate(self.candidate, self.sdp_mid, self.sdp_mline_index)
    }
}

/// Why an offer is not taken up.
#[derive(Debug, Clone, Copy, PartialEq, Eq, Structural)]
pub enum OfferError {
    /// It repeats the offer of the session being served.
    Duplicate,
}

impl OfferError {
    /// What went wrong.
    pub fn message(&self) -> (res: &'static str)
        ensures
            res@ == "duplicate offer ignored"@,
    {
        "duplicate offer ignored"
    }
}

/// What is done with an ICE candidate.
pub enum IceAction {
    /// It is added to the peer connection of a session.
    Add { session: u64, init: IceCandidateInit },
    /// It is empty, and nothing is done.
    Skip,
    /// It waits for a session.
    Buffered,
}

/// The bridge: where the VNC server is, which servers help to reach browsers, the
/// session being served and the candidates that wait for one.
pub struct Bridge {
    vnc_addr: String,
    ice_servers: Vec<IceServerConfig>,
    session: Option<ActiveSession>,
    pending_ice: Vec<PendingIce>,
}

/// What a [`Bridge`] holds.
pub struct BridgeState {
    pub vnc_addr: Seq<char>,
    pub ice_servers: Seq<IceServerConfig>,
    pub session: Option<ActiveSession>,
    pub pending_ice: Seq<PendingIce>,
}

impl View for Bridge {
    type V = BridgeState;

    closed spec fn view(&self) -> BridgeState {
        BridgeState {
            vnc_addr: self.vnc_addr@,
            ice_servers: self.ice_servers@,
            session: self.session,
            pending_ice: self.pending_ice@,
        }
    }
}

/// Whether a peer connection in this state may still come to serve, or serves.
pub open spec fn is_live(state: PeerState) -> bool {
    state == PeerState::New || state == PeerState::Connecting || state == PeerState::Connected
}

/// How long ago `then` was at `now`.
pub open spec fn age(now: u128, then: u128) -> int {
    if now >= then {
        now - then
    } else {
        0
    }
}

/// The candidates to add for those that waited, in the order they came.
pub open spec fn additions(pending: Seq<PendingIce>) -> Seq<webrtc_peer::IceCandidate>
    decreases pending.len(),
{
    if pending.len() == 0 {
        Seq::empty()
    } else {
        match pending.last().addition() {
            Some(candidate) => additions(pending.drop_last()).push(candidate),
            None => additions(pending.drop_last()),
        }
    }
}

/// What candidates to add say.
pub open spec fn init_views(inits: Seq<IceCandidateInit>) -> Seq<webrtc_peer::IceCandidate> {
    inits.map_values(|init: IceCandidateInit| init@)
}

impl BridgeState {
    /// While a session is served no candidate waits.
    pub open spec fn wf(self) -> bool {
        self.session is Some ==> self.pending_ice.len() == 0
    }

    /// Whether an offer at `now` repeats that of the session being served, whose peer
    /// connection is in `state`: it comes within ten seconds and the session is alive.
    pub open spec fn is_duplicate(self, now: u128, state: PeerState) -> bool {
        match self.session {
            Some(session) => age(now, session.created_at) < 10_000_000_000 && is_live(state),
            None => false,
        }
    }

    /// The number of the session being served.
    pub open spec fn session_id(self) -> Option<u64> {
        match self.session {
            Some(session) => Some(session.id),
            None => None,
        }
    }

    /// What an offer leaves: the session is given up, unless the offer repeats its.
    pub open spec fn after_offer(self, now: u128, state: PeerState) -> BridgeState {
        if self.is_duplicate(now, state) {
            self
        } else {
            BridgeState { session: None, ..self }
        }
    }

    /// What the start of a session leaves: that session, and no waiting candidates.
    pub open spec fn after_start(self, id: u64, now: u128) -> BridgeState {
        BridgeState {
            session: Some(ActiveSession { id, created_at: now }),
            pending_ice: Seq::empty(),
            ..self
        }
    }

    /// What a candidate leaves: it waits where there is no session.
    pub open spec fn after_candidate(self, candidate: PendingIce) -> BridgeState {
        match self.session {
            Some(_) => self,
            None => BridgeState { pending_ice: self.pending_ice.push(candidate), ..self },
        }
    }
}

impl Bridge {
    /// A bridge to the VNC server at `vnc_addr`, without a session.
    pub fn new(vnc_addr: String, ice_servers: Vec<IceServerConfig>) -> (res: Self)
        ensures
            res@ == (BridgeState {
                vnc_addr: vnc_addr@,
                ice_servers: ice_servers@,
                session: None,
                pending_ice: Seq::empty(),
            }),
            res@.wf(),
    {
        Bridge { vnc_addr, ice_servers, session: None, pending_ice: Vec::new() }
    }

    /// The address of the VNC server.
    pub fn vnc_addr(&self) -> (res: &str)
        ensures
            res@ == self@.vnc_addr,
    {
        self.vnc_addr.as_str()
    }

    /// The servers that help to reach browsers.
    pub fn ice_servers(&self) -> (res: &[IceServerConfig])
        ensures
            res@ == self@.ice_servers,
    {
        self.ice_servers.as_slice()
    }

    /// The number of the session being served.
    pub fn session_id(&self) -> (res: Option<u64>)
        ensures
            res == self@.session_id(),
            match self@.session {
                Some(session) => res == Some(session.id),
                None => res is None,
            },
    {
        match self.session {
            Some(session) => Some(session.id),
            None => None,
        }
    }

    /// Takes up an offer at `now`, where `state` is that of the peer connection of the
    /// session being served, if any. An offer that repeats that session's is refused;
    /// any other ends it, and gives back its number so that it be closed.
    pub fn handle_offer(&mut self, now: u128, state: PeerState) -> (res: Result<
        Option<u64>,
        OfferError,
    >)
        ensures
            final(self)@ == old(self)@.after_offer(now, state),
            old(self)@.wf() ==> final(self)@.wf(),
            final(self)@.vnc_addr == old(self)@.vnc_addr,
            final(self)@.ice_servers == old(self)@.ice_servers,
            final(self)@.pending_ice == old(self)@.pending_ice,
            match old(self)@.session {
                Some(session) => if now < session.created_at + 10_000_000_000 && (state
                    == PeerState::New || state == PeerState::Connecting || state
                    == PeerState::Connected) {
                    res == Err::<Option<u64>, _>(OfferError::Duplicate) && final(self)@.session
                        == Some(session)
                } else {
                    res == Ok::<_, OfferError>(Some(session.id)) && final(self)@.session is None
                },
                None => res == Ok::<Option<u64>, OfferError>(None) && final(self)@.session is None,
            },
            res == (if old(self)@.is_duplicate(now, state) {
                Err(OfferError::Duplicate)
            } else {
                Ok(old(self)@.session_id())
            }),
    {
        match self.session {
            Some(session) => {
                let live = state == PeerState::New || state == PeerState::Connecting || state
                    == PeerState::Connected;
                let elapsed: u128 = if now >= session.created_at {
                    now - session.created_at
                } else {
                    0
                };
                if elapsed < 10_000_000_000 && live {
                    return Err(OfferError::Duplicate);
                }
                self.session = None;
                Ok(Some(session.id))
            },
            None => Ok(None),
        }
    }

    /// Enters the session that answers an offer. Gives back the number of the session
    /// that it replaces, if any, so that it be closed, and hands out the candidates that
    /// waited, in the order they came.
    pub fn start_session(&mut self, id: u64, now: u128) -> (out: (
        Option<u64>,
        Vec<IceCandidateInit>,
    ))
        ensures
            final(self)@ == old(self)@.after_start(id, now),
            final(self)@.wf(),
            out.0 == old(self)@.session_id(),
            init_views(out.1@) == additions(old(self)@.pending_ice),
            final(self)@.vnc_addr == old(self)@.vnc_addr,
            final(self)@.ice_servers == old(self)@.ice_servers,
            final(self)@.session == Some(ActiveSession { id, created_at: now }),
            final(self)@.pending_ice.len() == 0,
            match old(self)@.session {
                Some(session) => out.0 == Some(session.id),
                None => out.0 is None,
            },
            out.1@.len() == additions(old(self)@.pending_ice).len(),
            forall|i: int|
                0 <= i < out.1@.len() ==> {
                    let addition = additions(old(self)@.pending_ice)[i];
                    &&& (#[trigger] out.1@[i]).candidate@ == addition.candidate
                    &&& out.1@[i].sdp_mid@ == addition.sdp_mid
                    &&& out.1@[i].sdp_mline_index == addition.sdp_mline_index
                },
    {
        let replaced = self.session_id();
        self.session = Some(ActiveSession { id, created_at: now });
        let mut pending: Vec<PendingIce> = Vec::new();
        std::mem::swap(&mut pending, &mut self.pending_ice);
        let ghost all = pending@;
        let mut res: Vec<IceCandidateInit> = Vec::new();
        assert(init_views(res@) =~= additions(all.subrange(0, 0)));
        for p in it: pending
            invariant
                it.seq() == all,
                init_views(res@) == additions(all.subrange(0, it.index() as int)),
        {
            proof {
                let i = it.index() as int;
                assert(all.subrange(0, i + 1).drop_last() =~= all.subrange(0, i));
                assert(all.subrange(0, i + 1).last() == p);
            }
            let ghost before = res@;
            if let Some(init) = webrtc_peer::add_ice_candidate(
                p.candidate,
                p.sdp_mid,
                p.sdp_mline_index,
            ) {
                res.push(init);
                assert(init_views(res@) =~= init_views(before).push(init@));
            }
        }
        assert(all.subrange(0, all.len() as int) =~= all);
        assert forall|i: int| 0 <= i < res@.len() implies init_views(res@)[i] == (
        #[trigger] res@[i])@ by {}
        (replaced, res)
    }

    /// Takes in an ICE candidate: for the session being served, or to wait for one.
    pub fn handle_ice_candidate(
        &mut self,
        candidate: Option<CandidateValue>,
        sdp_mid: Option<String>,
        sdp_mline_index: Option<u16>,
    ) -> (action: IceAction)
        ensures
            final(self)@ == old(self)@.after_candidate(
                PendingIce { candidate, sdp_mid, sdp_mline_index },
            ),
            old(self)@.wf() ==> final(self)@.wf(),
            final(self)@.vnc_addr == old(self)@.vnc_addr,
            final(self)@.ice_servers == old(self)@.ice_servers,
            final(self)@.session == old(self)@.session,
            match old(self)@.session {
                Some(session) => {
                    &&& final(self)@.pending_ice == old(self)@.pending_ice
                    &&& match webrtc_peer::remote_candidate(candidate, sdp_mid, sdp_mline_index) {
                        Some(addition) => {
                            &&& action matches IceAction::Add { session: id, init }
                            &&& id == session.id
                            &&& init.candidate@ == addition.candidate
                            &&& init.sdp_mid@ == addition.sdp_mid
                            &&& init.sdp_mline_index == addition.sdp_mline_index
                        },
                        None => action is Skip,
                    }
                },
                None => {
                    &&& action is Buffered
                    &&& final(self)@.pending_ice == old(self)@.pending_ice.push(
                        PendingIce { candidate, sdp_mid, sdp_mline_index },
                    )
                },
            },
            match old(self)@.session_id() {
                Some(id) => match webrtc_peer::remote_candidate(
                    candidate,
                    sdp_mid,
                    sdp_mline_index,
                ) {
                    Some(addition) => action matches IceAction::Add { session, init } && session
                        == id && init@ == addition,
                    None => action is Skip,
                },
                None => action is Buffered,
            },
    {
        match self.session {
            Some(session) => {
                match webrtc_peer::add_ice_candidate(candidate, sdp_mid, sdp_mline_index) {
                    Some(init) => IceAction::Add { session: session.id, init },
                    None => IceAction::Skip,
                }
            },
            None => {
                self.pending_ice.push(PendingIce { candidate, sdp_mid, sdp_mline_index });
                IceAction::Buffered
            },
        }
    }
}

/// Something that happens to a bridge.
pub enum BridgeOp {
    /// An offer comes in at this time, with the peer connection in this state.
    Offer { now: u128, state: PeerState },
    /// A session with this number is started at this time.
    Start { id: u64, now: u128 },
    /// A candidate comes in.
    Candidate(PendingIce),
}

/// The state that an operation leaves.
pub open spec fn bridge_after(bridge: BridgeState, op: BridgeOp) -> BridgeState {
    match op {
        BridgeOp::Offer { now, state } => bridge.after_offer(now, state),
        BridgeOp::Start { id, now } => bridge.after_start(id, now),
        BridgeOp::Candidate(candidate) => bridge.after_candidate(candidate),
    }
}

/// The candidates that an operation hands to the session being served afterwards.
pub open spec fn handed_out(bridge: BridgeState, op: BridgeOp) -> Seq<webrtc_peer::IceCandidate> {
    match op {
        BridgeOp::Offer { .. } => Seq::empty(),
        BridgeOp::Start { .. } => additions(bridge.pending_ice),
        BridgeOp::Candidate(candidate) => match (bridge.session, candidate.addition()) {
            (Some(_), Some(addition)) => seq![addition],
            _ => Seq::empty(),
        },
    }
}

/// The state that operations leave.
pub open spec fn bridge_after_all(bridge: BridgeState, ops: Seq<BridgeOp>) -> BridgeState
    decreases ops.len(),
{
    if ops.len() == 0 {
        bridge
    } else {
        bridge_after(bridge_after_all(bridge, ops.drop_last()), ops.last())
    }
}

/// The candidates that operations hand to sessions.
pub open spec fn all_handed_out(bridge: BridgeState, ops: Seq<BridgeOp>) -> Seq<
    webrtc_peer::IceCandidate,
>
    decreases ops.len(),
{
    if ops.len() == 0 {
        Seq::empty()
    } else {
        all_handed_out(bridge, ops.drop_last()) + handed_out(
            bridge_after_all(bridge, ops.drop_last()),
            ops.last(),
        )
    }
}

/// The candidates that come in among operations.
pub open spec fn candidates_of(ops: Seq<BridgeOp>) -> Seq<PendingIce>
    decreases ops.len(),
{
    if ops.len() == 0 {
        Seq::empty()
    } else {
        match ops.last() {
            BridgeOp::Candidate(candidate) => candidates_of(ops.drop_last()).push(candidate),
            _ => candidates_of(ops.drop_last()),
        }
    }
}

/// No operation lets candidates wait while a session is served.
pub proof fn operations_keep_wf(bridge: BridgeState, op: BridgeOp)
    requires
        bridge.wf(),
    ensures
        bridge_after(bridge, op).wf(),
{
}

proof fn all_operations_keep_wf(bridge: BridgeState, ops: Seq<BridgeOp>)
    requires
        bridge.wf(),
    ensures
        bridge_after_all(bridge, ops).wf(),
    decreases ops.len(),
{
    if ops.len() > 0 {
        all_operations_keep_wf(bridge, ops.drop_last());
    }
}

/// Of the candidates that waited each is handed out in its turn, as it would have been
/// added at once, and one that would not have been added is left out.
pub proof fn additions_push(pending: Seq<PendingIce>, p: PendingIce)
    ensures
        additions(Seq::empty()).len() == 0,
        additions(pending.push(p)) == match webrtc_peer::remote_candidate(
            p.candidate,
            p.sdp_mid,
            p.sdp_mline_index,
        ) {
            Some(addition) => additions(pending).push(addition),
            None => additions(pending),
        },
        p.addition() == webrtc_peer::remote_candidate(
            p.candidate,
            p.sdp_mid,
            p.sdp_mline_index,
        ),
{
    assert(pending.push(p).drop_last() =~= pending);
}

/// No candidate is lost, added twice or overtaken: what was handed to sessions, followed
/// by what still waits, is what waited at first, followed by what has come in since.
pub proof fn candidates_are_conserved(bridge: BridgeState, ops: Seq<BridgeOp>)
    requires
        bridge.wf(),
    ensures
        all_handed_out(bridge, ops) + additions(bridge_after_all(bridge, ops).pending_ice)
            == additions(bridge.pending_ice) + additions(candidates_of(ops)),
    decreases ops.len(),
{
    if ops.len() == 0 {
        assert(all_handed_out(bridge, ops) + additions(bridge.pending_ice) =~= additions(
            bridge.pending_ice,
        ) + additions(candidates_of(ops)));
    } else {
        let before = ops.drop_last();
        candidates_are_conserved(bridge, before);
        all_operations_keep_wf(bridge, before);
        let mid = bridge_after_all(bridge, before);
        let given = all_handed_out(bridge, before);
        let come = additions(bridge.pending_ice) + additions(candidates_of(before));
        match ops.last() {
            BridgeOp::Offer { .. } => {
                assert(given + Seq::<webrtc_peer::IceCandidate>::empty() =~= given);
            },
            BridgeOp::Start { .. } => {
                assert((given + additions(mid.pending_ice)) + additions(Seq::empty()) =~= given
                    + additions(mid.pending_ice));
            },
            BridgeOp::Candidate(candidate) => {
                additions_push(candidates_of(before), candidate);
                additions_push(mid.pending_ice, candidate);
                assert(given + Seq::<webrtc_peer::IceCandidate>::empty() =~= given);
                if let Some(addition) = candidate.addition() {
                    assert(additions(bridge.pending_ice) + additions(candidates_of(before)).push(
                        addition,
                    ) =~= come.push(addition));
                    if mid.session is Some {
                        assert(additions(mid.pending_ice) =~= Seq::empty());
                        assert((given + seq![addition]) + additions(mid.pending_ice) =~= (given
                            + additions(mid.pending_ice)).push(addition));
                    } else {
                        assert(given + additions(mid.pending_ice).push(addition) =~= (given
                            + additions(mid.pending_ice)).push(addition));
                    }
                }
            },
        }
    }
}

/// A new offer replaces the session before it: once its session is started, that one is
/// served.
pub proof fn new_offer_replaces_session(
    bridge: BridgeState,
    now: u128,
    state: PeerState,
    id: u64,
    started: u128,
)
    requires
        !bridge.is_duplicate(now, state),
    ensures
        bridge.after_offer(now, state).session is None,
        bridge.after_offer(now, state).after_start(id, started).session == Some(
            ActiveSession { id, created_at: started },
        ),
{
}

/// The number of the session being served, as a sequence of at most one.
pub open spec fn served(bridge: BridgeState) -> Seq<u64> {
    match bridge.session_id() {
        Some(id) => seq![id],
        None => Seq::empty(),
    }
}

/// The numbers of the sessions that an operation hands out to be closed.
pub open spec fn closed_by(bridge: BridgeState, op: BridgeOp) -> Seq<u64> {
    match op {
        BridgeOp::Offer { now, state } => if bridge.is_duplicate(now, state) {
            Seq::empty()
        } else {
            served(bridge)
        },
        BridgeOp::Start { .. } => served(bridge),
        BridgeOp::Candidate(_) => Seq::empty(),
    }
}

/// The numbers of the sessions that operations hand out to be closed.
pub open spec fn all_closed(bridge: BridgeState, ops: Seq<BridgeOp>) -> Seq<u64>
    decreases ops.len(),
{
    if ops.len() == 0 {
        Seq::empty()
    } else {
        all_closed(bridge, ops.drop_last()) + closed_by(
            bridge_after_all(bridge, ops.drop_last()),
            ops.last(),
        )
    }
}

/// The numbers of the sessions that are started among operations.
pub open spec fn started(ops: Seq<BridgeOp>) -> Seq<u64>
    decreases ops.len(),
{
    if ops.len() == 0 {
        Seq::empty()
    } else {
        match ops.last() {
            BridgeOp::Start { id, .. } => started(ops.drop_last()).push(id),
            _ => started(ops.drop_last()),
        }
    }
}

/// There is one session at a time, however offers and starts follow each other: every
/// session but the one being served has been handed out to be closed, once and in order.
/// The numbers handed out, followed by the one being served, are the one served at first,
/// followed by those started.
pub proof fn one_session_at_a_time(bridge: BridgeState, ops: Seq<BridgeOp>)
    ensures
        all_closed(bridge, ops) + served(bridge_after_all(bridge, ops)) == served(bridge)
            + started(ops),
    decreases ops.len(),
{
    if ops.len() == 0 {
        assert(all_closed(bridge, ops) + served(bridge) =~= served(bridge) + started(ops));
    } else {
        let before = ops.drop_last();
        one_session_at_a_time(bridge, before);
        let mid = bridge_after_all(bridge, before);
        let closed = all_closed(bridge, before);
        match ops.last() {
            BridgeOp::Offer { now, state } => {
                if mid.is_duplicate(now, state) {
                    assert(closed + Seq::<u64>::empty() =~= closed);
                } else {
                    assert((closed + served(mid)) + Seq::<u64>::empty() =~= closed + served(mid));
                }
            },
            BridgeOp::Start { id, .. } => {
                assert((closed + served(mid)) + seq![id] =~= served(bridge) + started(before).push(
                    id,
                ));
            },
            BridgeOp::Candidate(_) => {
                assert(closed + Seq::<u64>::empty() =~= closed);
            },
        }
    }
}

/// An offer within ten seconds of the start of a session that is alive is refused and
/// changes nothing; any later one, or one after the session died, is taken up.
pub proof fn only_quick_repeats_are_refused(
    bridge: BridgeState,
    id: u64,
    started: u128,
    now: u128,
    state: PeerState,
)
    requires
        started <= now,
    ensures
        bridge.after_start(id, started).is_duplicate(now, state) <==> now - started
            < 10_000_000_000 && is_live(state),
        bridge.after_start(id, started).is_duplicate(now, state) ==> bridge.after_start(
            id,
            started,
        ).after_offer(now, state) == bridge.after_start(id, started),
{
}

/// A direction of the pipe.
#[derive(Debug, Clone, Copy, PartialEq, Eq, Structural)]
pub enum Direction {
    /// From the VNC server to the browser.
    ToBrowser,
    /// From the browser to the VNC server.
    ToVnc,
}

/// What happened to the pipe of a session.
pub enum PipeEvent {
    /// The data channel is open.
    ChannelOpen,
    /// The VNC server was connected to (`true`), or could not be.
    VncConnected(bool),
    /// A direction has ended.
    DirectionEnded(Direction),
}

/// What the pipe of a session does next.
pub enum PipeAction {
    /// Connect to the VNC server at this address.
    ConnectVnc(String),
    /// Forward both ways, reading from the VNC server into a buffer of so many bytes.
    Forward(usize),
    /// End, with both directions.
    Stop,
}

/// Whether `action` is what the pipe to the VNC server at `vnc_addr` does after `event`.
pub open spec fn pipe_follows(vnc_addr: Seq<char>, event: PipeEvent, action: PipeAction) -> bool {
    match event {
        PipeEvent::ChannelOpen => action matches PipeAction::ConnectVnc(addr) && addr@ == vnc_addr,
        PipeEvent::VncConnected(true) => action == PipeAction::Forward(65536),
        PipeEvent::VncConnected(false) => action == PipeAction::Stop,
        PipeEvent::DirectionEnded(_) => action == PipeAction::Stop,
    }
}

/// The pipe between the data channel of a session and the VNC server. It begins by
/// waiting for the data channel.
pub struct VncPipe {
    pub vnc_addr: String,
}

/// Sets up the pipe to the VNC server at `vnc_addr`.
pub fn spawn_vnc_pipe(vnc_addr: String) -> (res: VncPipe)
    ensures
        res.vnc_addr@ == vnc_addr@,
{
    VncPipe { vnc_addr }
}

impl VncPipe {
    /// Says what the pipe does after an event: it connects once the channel is open,
    /// forwards once it is connected, and stops once either direction has ended.
    pub fn on_event(&self, event: PipeEvent) -> (action: PipeAction)
        ensures
            pipe_follows(self.vnc_addr@, event, action),
            event is ChannelOpen ==> (action matches PipeAction::ConnectVnc(addr) && addr@
                == self.vnc_addr@),
            event == PipeEvent::VncConnected(true) ==> action == PipeAction::Forward(65536),
            event == PipeEvent::VncConnected(false) ==> action == PipeAction::Stop,
            event is DirectionEnded ==> action == PipeAction::Stop,
    {
        match event {
            PipeEvent::ChannelOpen => PipeAction::ConnectVnc(self.vnc_addr.clone()),
            PipeEvent::VncConnected(true) => PipeAction::Forward(65536),
            PipeEvent::VncConnected(false) | PipeEvent::DirectionEnded(_) => PipeAction::Stop,
        }
    }
}

/// What happened in one direction of the pipe.
pub enum ForwardEvent {
    /// A chunk of bytes came.
    Chunk(Vec<u8>),
    /// The source has no more bytes.
    SourceClosed,
    /// The source failed.
    SourceFailed,
    /// The chunk was delivered.
    Delivered,
    /// The chunk could not be delivered.
    DeliveryFailed,
}

/// What is done next in one direction of the pipe.
pub enum ForwardAction {
    /// Wait for the next chunk.
    Fetch,
    /// Deliver this chunk.
    Deliver(Vec<u8>),
    /// End.
    Stop,
}

/// What follows an event in one direction of the pipe.
pub open spec fn forward_action(event: ForwardEvent) -> ForwardAction {
    match event {
        ForwardEvent::Chunk(chunk) => ForwardAction::Deliver(chunk),
        ForwardEvent::SourceClosed => ForwardAction::Stop,
        ForwardEvent::SourceFailed => ForwardAction::Stop,
        ForwardEvent::Delivered => ForwardAction::Fetch,
        ForwardEvent::DeliveryFailed => ForwardAction::Stop,
    }
}

/// Says what is done after an event in one direction of the pipe. The direction begins by
/// waiting for a chunk.
pub fn forward(event: ForwardEvent) -> (action: ForwardAction)
    ensures
        action == forward_action(event),
        event matches ForwardEvent::Chunk(chunk) ==> action == ForwardAction::Deliver(chunk),
        event is Delivered ==> action == ForwardAction::Fetch,
        event is SourceClosed || event is SourceFailed || event is DeliveryFailed ==> action
            == ForwardAction::Stop,
{
    match event {
        ForwardEvent::Chunk(chunk) => ForwardAction::Deliver(chunk),
        ForwardEvent::Delivered => ForwardAction::Fetch,
        ForwardEvent::SourceClosed | ForwardEvent::SourceFailed | ForwardEvent::DeliveryFailed =>
        ForwardAction::Stop,
    }
}

/// What a read from the VNC server brought, where `count` bytes were read into `buffer`:
/// those bytes, or the end of the stream where there are none.
pub fn vnc_read(buffer: &[u8], count: usize) -> (event: ForwardEvent)
    requires
        count <= buffer@.len(),
    ensures
        if count == 0 {
            event == ForwardEvent::SourceClosed
        } else {
            event matches ForwardEvent::Chunk(chunk) && chunk@ == buffer@.subrange(
                0,
                count as int,
            )
        },
{
    if count == 0 {
        return ForwardEvent::SourceClosed;
    }
    let mut chunk: Vec<u8> = Vec::new();
    let mut i: usize = 0;
    while i < count
        invariant
            i <= count <= buffer@.len(),
            chunk@ == buffer@.subrange(0, i as int),
        decreases count - i,
    {
        chunk.push(buffer[i]);
        assert(buffer@.subrange(0, i + 1) =~= buffer@.subrange(0, i as int).push(
            buffer@[i as int],
        ));
        i = i + 1;
    }
    ForwardEvent::Chunk(chunk)
}

/// A course that one direction of the pipe can take: it begins by waiting for a chunk,
/// each event reports on the action before it, and each further action follows the event
/// before it.
pub open spec fn forward_course(actions: Seq<ForwardAction>, events: Seq<ForwardEvent>) -> bool {
    &&& actions.len() == events.len() + 1
    &&& actions[0] is Fetch
    &&& forall|i: int|
        0 <= i < events.len() ==> {
            &&& match actions[i] {
                ForwardAction::Fetch => events[i] is Chunk || events[i] is SourceClosed
                    || events[i] is SourceFailed,
                ForwardAction::Deliver(_) => events[i] is Delivered || events[i] is DeliveryFailed,
                ForwardAction::Stop => false,
            }
            &&& actions[i + 1] == forward_action(#[trigger] events[i])
        }
}

/// The bytes of the chunks that came.
pub open spec fn bytes_fetched(events: Seq<ForwardEvent>) -> Seq<u8>
    decreases events.len(),
{
    if events.len() == 0 {
        Seq::empty()
    } else {
        match events.last() {
            ForwardEvent::Chunk(chunk) => bytes_fetched(events.drop_last()) + chunk@,
            _ => bytes_fetched(events.drop_last()),
        }
    }
}

/// The bytes of the chunks that were delivered.
pub open spec fn bytes_delivered(actions: Seq<ForwardAction>, events: Seq<ForwardEvent>) -> Seq<u8>
    decreases events.len(),
{
    if events.len() == 0 {
        Seq::empty()
    } else {
        let before = bytes_delivered(actions, events.drop_last());
        match (actions[events.len() - 1], events.last()) {
            (ForwardAction::Deliver(chunk), ForwardEvent::Delivered) => before + chunk@,
            _ => before,
        }
    }
}

/// The pipe neither loses, adds nor reorders bytes: what one direction has delivered is
/// what came, less the chunk that is on its way or, at the end, could not be delivered.
pub proof fn bytes_are_forwarded_in_order(
    actions: Seq<ForwardAction>,
    events: Seq<ForwardEvent>,
)
    requires
        forward_course(actions, events),
    ensures
        match actions.last() {
            ForwardAction::Fetch => bytes_delivered(actions, events) == bytes_fetched(events),
            ForwardAction::Deliver(chunk) => bytes_delivered(actions, events) + chunk@
                == bytes_fetched(events),
            ForwardAction::Stop => if events.last() is DeliveryFailed {
                &&& actions[events.len() - 1] matches ForwardAction::Deliver(chunk)
                &&& bytes_delivered(actions, events) + chunk@ == bytes_fetched(events)
            } else {
                bytes_delivered(actions, events) == bytes_fetched(events)
            },
        },
    decreases events.len(),
{
    if events.len() > 0 {
        let last = events.len() - 1;
        let fewer = actions.drop_last();
        let before = events.drop_last();
        assert(forward_course(fewer, before)) by {
            assert forall|i: int| 0 <= i < before.len() implies {
                &&& match fewer[i] {
                    ForwardAction::Fetch => before[i] is Chunk || before[i] is SourceClosed
                        || before[i] is SourceFailed,
                    ForwardAction::Deliver(_) => before[i] is Delivered
                        || before[i] is DeliveryFailed,
                    ForwardAction::Stop => false,
                }
                &&& fewer[i + 1] == forward_action(#[trigger] before[i])
            } by {
                assert(before[i] == events[i]);
            }
        }
        bytes_are_forwarded_in_order(fewer, before);
        delivered_reads_no_further(actions, fewer, before);
        assert(actions[last + 1] == forward_action(events[last]));
    }
}

proof fn delivered_reads_no_further(
    actions1: Seq<ForwardAction>,
    actions2: Seq<ForwardAction>,
    events: Seq<ForwardEvent>,
)
    requires
        events.len() <= actions1.len(),
        events.len() <= actions2.len(),
        forall|i: int| 0 <= i < events.len() ==> #[trigger] actions1[i] == actions2[i],
    ensures
        bytes_delivered(actions1, events) == bytes_delivered(actions2, events),
    decreases events.len(),
{
    if events.len() > 0 {
        delivered_reads_no_further(actions1, actions2, events.drop_last());
        assert(actions1[events.len() - 1] == actions2[events.len() - 1]);
    }
}

/// In one direction, nothing is forwarded after its source or its sink closed or failed.
pub proof fn stopped_forwarding_stays_stopped(
    actions: Seq<ForwardAction>,
    events: Seq<ForwardEvent>,
    i: int,
)
    requires
        forward_course(actions, events),
        0 <= i < events.len(),
        events[i] is SourceClosed || events[i] is SourceFailed || events[i] is DeliveryFailed,
    ensures
        i == events.len() - 1,
        actions.last() is Stop,
{
    assert(actions[i + 1] == forward_action(events[i]));
    if i + 1 < events.len() {
        assert(actions[i + 2] == forward_action(events[i + 1]));
    }
}

/// What happens while the pipe forwards: an event in one of its directions.
pub struct PipeStep {
    pub direction: Direction,
    pub event: ForwardEvent,
}

/// The events of one direction.
pub open spec fn events_of(steps: Seq<PipeStep>, direction: Direction) -> Seq<ForwardEvent>
    decreases steps.len(),
{
    if steps.len() == 0 {
        Seq::empty()
    } else if steps.last().direction == direction {
        events_of(steps.drop_last(), direction).push(steps.last().event)
    } else {
        events_of(steps.drop_last(), direction)
    }
}

/// Whether a step stops the whole pipe: its direction ends with it, and stopping is all
/// that the pipe does when that direction has ended.
pub open spec fn stops_pipe(vnc_addr: Seq<char>, step: PipeStep) -> bool {
    &&& forward_action(step.event) is Stop
    &&& forall|action: PipeAction|
        pipe_follows(vnc_addr, PipeEvent::DirectionEnded(step.direction), action)
            ==> action is Stop
}

/// The actions of a direction that begins by waiting for a chunk.
pub open spec fn direction_actions(events: Seq<ForwardEvent>) -> Seq<ForwardAction> {
    Seq::new(
        events.len() + 1,
        |i: int|
            if i == 0 {
                ForwardAction::Fetch
            } else {
                forward_action(events[i - 1])
            },
    )
}

/// A course that the forwarding of the pipe can take: the events of the two directions,
/// interleaved in any way, each direction by its own rules, and none once the pipe is
/// stopped.
pub open spec fn pipe_course(vnc_addr: Seq<char>, steps: Seq<PipeStep>) -> bool {
    &&& forall|direction: Direction|
        forward_course(
            direction_actions(#[trigger] events_of(steps, direction)),
            events_of(steps, direction),
        )
    &&& forall|i: int| 0 <= i < steps.len() - 1 ==> !stops_pipe(vnc_addr, #[trigger] steps[i])
}

/// The pipe forwards until either side closes: once one direction has lost its source or
/// its sink, nothing more happens in it nor in the other. What the given direction has
/// delivered by then is a beginning of what came, byte for byte.
pub proof fn either_end_stops_the_pipe(
    vnc_addr: Seq<char>,
    steps: Seq<PipeStep>,
    direction: Direction,
)
    requires
        pipe_course(vnc_addr, steps),
    ensures
        forall|i: int|
            0 <= i < steps.len() && ((#[trigger] steps[i]).event is SourceClosed
                || steps[i].event is SourceFailed || steps[i].event is DeliveryFailed) ==> i
                == steps.len() - 1,
        bytes_delivered(
            direction_actions(events_of(steps, direction)),
            events_of(steps, direction),
        ).is_prefix_of(bytes_fetched(events_of(steps, direction))),
{
    assert forall|i: int|
        0 <= i < steps.len() && ((#[trigger] steps[i]).event is SourceClosed
            || steps[i].event is SourceFailed || steps[i].event is DeliveryFailed) implies i
        == steps.len() - 1 by {
        assert(stops_pipe(vnc_addr, steps[i]));
    }
    let events = events_of(steps, direction);
    let actions = direction_actions(events);
    bytes_are_forwarded_in_order(actions, events);
}

/// The age of a session counts from its start, whatever came in since. After any sequence
/// of candidates and quick repeats of the offer the session is the one that was started,
/// and an offer is refused exactly within ten seconds of that start and while the peer
/// connection is new, connecting or connected. Any other offer ends that session.
pub proof fn age_counts_from_the_start(
    bridge: BridgeState,
    id: u64,
    started: u128,
    ops: Seq<BridgeOp>,
    now: u128,
    state: PeerState,
)
    requires
        forall|i: int|
            0 <= i < ops.len() ==> match #[trigger] ops[i] {
                BridgeOp::Offer { now: then, state: at } => then < started + 10_000_000_000 && (at
                    == PeerState::New || at == PeerState::Connecting || at
                    == PeerState::Connected),
                BridgeOp::Start { .. } => false,
                BridgeOp::Candidate(_) => true,
            },
    ensures
        ({
            let served = bridge_after_all(bridge.after_start(id, started), ops);
            let refused = now < started + 10_000_000_000 && (state == PeerState::New || state
                == PeerState::Connecting || state == PeerState::Connected);
            &&& served.session == Some(ActiveSession { id, created_at: started })
            &&& served.pending_ice.len() == 0
            &&& served.vnc_addr == bridge.vnc_addr
            &&& served.ice_servers == bridge.ice_servers
            &&& served.is_duplicate(now, state) <==> refused
            &&& refused ==> served.after_offer(now, state) == served && closed_by(
                served,
                BridgeOp::Offer { now, state },
            ) == Seq::<u64>::empty()
            &&& !refused ==> served.after_offer(now, state).session is None && closed_by(
                served,
                BridgeOp::Offer { now, state },
            ) == seq![id]
        }),
    decreases ops.len(),
{
    if ops.len() > 0 {
        assert(ops[ops.len() - 1] == ops.last());
        age_counts_from_the_start(bridge, id, started, ops.drop_last(), now, state);
        if let BridgeOp::Offer { now: then, state: at } = ops.last() {
            age_counts_from_the_start(bridge, id, started, ops.drop_last(), then, at);
        }
    }
}

/// What waits for a session is what came in while there was none: without a session, an
/// offer is taken up at any time and in any state and changes nothing, and each candidate
/// is kept as it came, behind those before it.
pub proof fn bridge_without_session_waits(
    bridge: BridgeState,
    now: u128,
    state: PeerState,
    candidate: PendingIce,
)
    requires
        bridge.session is None,
    ensures
        !bridge.is_duplicate(now, state),
        bridge.after_offer(now, state) == bridge,
        bridge.after_candidate(candidate).session is None,
        bridge.after_candidate(candidate).pending_ice == bridge.pending_ice.push(candidate),
        bridge.after_candidate(candidate).vnc_addr == bridge.vnc_addr,
        bridge.after_candidate(candidate).ice_servers == bridge.ice_servers,
{
}

/// A course that a pipe can take from the opening of its channel on: each action follows
/// the event at its place, and each further event reports on the action before it.
pub open spec fn opened_course(
    vnc_addr: Seq<char>,
    events: Seq<PipeEvent>,
    actions: Seq<PipeAction>,
) -> bool {
    &&& events.len() == actions.len()
    &&& events.len() > 0
    &&& events[0] is ChannelOpen
    &&& forall|i: int|
        0 <= i < events.len() ==> pipe_follows(vnc_addr, #[trigger] events[i], actions[i])
    &&& forall|i: int|
        0 < i < events.len() ==> match actions[i - 1] {
            PipeAction::ConnectVnc(_) => #[trigger] events[i] is VncConnected,
            PipeAction::Forward(_) => events[i] is DirectionEnded,
            PipeAction::Stop => false,
        }
}

/// A pipe whose channel opens connects to the address it was set up with, whatever that
/// is. It forwards exactly if the connection is made, and goes on until a direction ends;
/// then it stops.
pub proof fn open_channel_leads_to_forwarding(
    vnc_addr: Seq<char>,
    events: Seq<PipeEvent>,
    actions: Seq<PipeAction>,
)
    requires
        opened_course(vnc_addr, events, actions),
    ensures
        actions[0] matches PipeAction::ConnectVnc(addr) && addr@ == vnc_addr,
        events.len() > 1 ==> events[1] is VncConnected,
        events.len() > 1 && events[1] == PipeEvent::VncConnected(true) ==> actions[1]
            == PipeAction::Forward(65536),
        events.len() > 1 && events[1] == PipeEvent::VncConnected(false) ==> actions[1]
            == PipeAction::Stop && events.len() == 2,
        events.len() > 2 ==> events[2] is DirectionEnded && actions[2] == PipeAction::Stop,
        events.len() <= 3,
        actions.last() is Stop <==> events.last() is DirectionEnded || events.last()
            == PipeEvent::VncConnected(false),
{
    assert(pipe_follows(vnc_addr, events[0], actions[0]));
    if events.len() > 1 {
        assert(events[1] is VncConnected);
        assert(pipe_follows(vnc_addr, events[1], actions[1]));
    }
    if events.len() > 2 {
        assert(events[2] is DirectionEnded);
        assert(pipe_follows(vnc_addr, events[2], actions[2]));
    }
    if events.len() > 3 {
        assert(events[3] is DirectionEnded || events[3] is VncConnected);
    }
}

/// One direction goes on for as long as neither its source nor its sink closes or fails:
/// every chunk that comes is to be delivered as it is, and every delivery is followed by
/// the next chunk.
pub proof fn forwarding_goes_on(actions: Seq<ForwardAction>, events: Seq<ForwardEvent>, i: int)
    requires
        forward_course(actions, events),
        0 <= i < events.len(),
    ensures
        events[i] matches ForwardEvent::Chunk(chunk) ==> actions[i + 1] == ForwardAction::Deliver(
            chunk,
        ),
        events[i] is Delivered ==> actions[i + 1] is Fetch,
        actions[i + 1] is Stop <==> events[i] is SourceClosed || events[i] is SourceFailed
            || events[i] is DeliveryFailed,
{
    assert(actions[i + 1] == forward_action(events[i]));
}

} // verus!
