//! The session manager: one peer table, freshness and lag policies,
//! lifecycle transitions, and encrypted at-rest persistence.

use vstd::prelude::*;
use crate::aead;
use crate::auth::{UserId, UserPublicKeys, UserSecretKeys, USER_ID_SIZE};
use crate::clock::timestamp_millis;
use crate::persist::{
    push_in_req, push_out_req, push_session, read_in_req, read_out_req, read_session,
    spec_enc_in_req, spec_enc_out_req, spec_enc_session,
};
use crate::rng::fill_random;
use crate::session::{
    spec_seeker_bytes, FeedIncomingMessageOutput, IncomingInitiationRequest,
    OutgoingInitiationRequest, SendOutgoingMessageOutput, Session,
};
use crate::wire::{
    push_framed, push_u128_be, push_u64_be, read_framed, read_u128_be, read_u64_be, spec_framed,
    spec_u128_be, spec_u64_be,
};
use crate::PADDING_BLOCK_SIZE;

verus! {

/// A random identifier for one session.
pub struct SessionId {
    bytes: Vec<u8>,
}

impl SessionId {
    /// The identifier bytes.
    pub closed spec fn view(&self) -> Seq<u8> {
        self.bytes@
    }

    /// A session id holds 32 bytes.
    pub open spec fn wf(&self) -> bool {
        self@.len() == 32
    }

    /// Draws a fresh random session id.
    pub fn new() -> (r: SessionId)
        ensures
            r.wf(),
    {
        SessionId { bytes: fill_random(32) }
    }

    /// Wraps id bytes.
    pub fn from_bytes(bytes: Vec<u8>) -> (r: SessionId)
        requires
            bytes@.len() == 32,
        ensures
            r@ == bytes@,
            r.wf(),
    {
        SessionId { bytes }
    }

    /// The id as a byte slice.
    pub fn as_bytes(&self) -> (r: &[u8])
        ensures
            r@ == self@,
    {
        self.bytes.as_slice()
    }
}

/// The session state of one peer, as the manager reports it.
#[derive(Clone, Copy, Debug, PartialEq, Eq, Structural)]
pub enum SessionStatus {
    /// An active session exists and the lag is below the limit.
    Active,
    /// The peer is not in the manager at all.
    UnknownPeer,
    /// The peer is known but neither direction has an initiation request.
    NoSession,
    /// The peer requested a session; we have not answered.
    PeerRequested,
    /// We requested a session; the peer has not answered.
    SelfRequested,
    /// Both directions are present but no session was formed.
    Killed,
    /// An active session exists but the lag reached the limit; sends are
    /// refused.
    Saturated,
}

/// The manager's policy configuration.
pub struct SessionManagerConfig {
    /// Oldest acceptable incoming announcement, in milliseconds.
    pub max_incoming_announcement_age_millis: u128,
    /// Furthest-future acceptable incoming announcement, in milliseconds.
    pub max_incoming_announcement_future_millis: u128,
    /// Oldest acceptable incoming message, in milliseconds.
    pub max_incoming_message_age_millis: u128,
    /// Furthest-future acceptable incoming message, in milliseconds.
    pub max_incoming_message_future_millis: u128,
    /// Inactivity after which a session is dropped, in milliseconds.
    pub max_session_inactivity_millis: u128,
    /// Interval after which a keep-alive send is due, in milliseconds.
    pub keep_alive_interval_millis: u128,
    /// Lag at which sends are refused.
    pub max_session_lag_length: u64,
}

impl SessionManagerConfig {
    /// The recommended defaults: one week for the announcement, message and
    /// inactivity windows, one minute of clock-skew allowance, one day
    /// between keep-alives, and a lag limit of ten thousand.
    pub fn new_default() -> (r: SessionManagerConfig)
        ensures
            r.max_incoming_announcement_age_millis == 604_800_000,
            r.max_incoming_announcement_future_millis == 60_000,
            r.max_incoming_message_age_millis == 604_800_000,
            r.max_incoming_message_future_millis == 60_000,
            r.max_session_inactivity_millis == 604_800_000,
            r.keep_alive_interval_millis == 86_400_000,
            r.max_session_lag_length == 10_000,
    {
        SessionManagerConfig {
            max_incoming_announcement_age_millis: 604_800_000,
            max_incoming_announcement_future_millis: 60_000,
            max_incoming_message_age_millis: 604_800_000,
            max_incoming_message_future_millis: 60_000,
            max_session_inactivity_millis: 604_800_000,
            keep_alive_interval_millis: 86_400_000,
            max_session_lag_length: 10_000,
        }
    }
}

/// Whether a timestamp is inside the acceptance window `[now - max_age,
/// now + max_future]`.  A value exactly at `now - max_age` is accepted; one
/// below it is rejected.
pub open spec fn spec_fresh(ts: u128, now: u128, max_age: u128, max_future: u128) -> bool {
    &&& ts + max_age >= now
    &&& ts <= now + max_future
}

/// Decides the freshness window; the boundary value `now - max_age` itself
/// is accepted.
pub fn is_fresh(ts: u128, now: u128, max_age: u128, max_future: u128) -> (r: bool)
    ensures
        r == spec_fresh(ts, now, max_age, max_future),
{
    if ts < now.saturating_sub(max_age) {
        return false;
    }
    if ts > now.saturating_add(max_future) {
        return false;
    }
    true
}

/// Whether an incoming announcement is admitted: it must be inside the
/// freshness window and strictly newer than the last one stored for the
/// same peer, so a replayed announcement never changes state.
pub open spec fn spec_admit_announcement(
    ts: u128,
    stored_ts: Option<u128>,
    now: u128,
    max_age: u128,
    max_future: u128,
) -> bool {
    &&& spec_fresh(ts, now, max_age, max_future)
    &&& match stored_ts {
        Some(prev) => ts > prev,
        None => true,
    }
}

/// Decides announcement admission.
pub fn admit_announcement(
    ts: u128,
    stored_ts: Option<u128>,
    now: u128,
    max_age: u128,
    max_future: u128,
) -> (r: bool)
    ensures
        r == spec_admit_announcement(ts, stored_ts, now, max_age, max_future),
{
    if !is_fresh(ts, now, max_age, max_future) {
        return false;
    }
    match stored_ts {
        Some(prev) => ts > prev,
        None => true,
    }
}

/// An active session and the two timestamps the policies watch.
pub struct SessionInfo {
    /// The live session.
    pub session: Session,
    /// Timestamp of the last accepted incoming message.
    pub last_incoming_message_timestamp: u128,
    /// Timestamp of the last outgoing send.
    pub last_outgoing_message_timestamp: u128,
}

/// Everything the manager tracks about one peer.
pub struct PeerInfo {
    /// The active session, if one was formed.
    pub active_session: Option<SessionInfo>,
    /// The newest admitted incoming initiation request.
    pub latest_incoming_init_request: Option<IncomingInitiationRequest>,
    /// Our newest outgoing initiation request.
    pub latest_outgoing_init_request: Option<OutgoingInitiationRequest>,
}

impl PeerInfo {
    /// Structural soundness of the parts.
    pub open spec fn wf(&self) -> bool {
        &&& match self.active_session {
            Some(ref si) => si.session.wf(),
            None => true,
        }
        &&& match self.latest_incoming_init_request {
            Some(ref req) => req.wf(),
            None => true,
        }
        &&& match self.latest_outgoing_init_request {
            Some(ref req) => req.wf(),
            None => true,
        }
    }
}

/// Whether two session records hold the same values.
pub open spec fn spec_sessinfo_eq(a: &SessionInfo, b: &SessionInfo) -> bool {
    &&& Session::spec_session_eq(&a.session, &b.session)
    &&& a.last_incoming_message_timestamp == b.last_incoming_message_timestamp
    &&& a.last_outgoing_message_timestamp == b.last_outgoing_message_timestamp
}

/// Whether two optional session records hold the same values.
pub open spec fn spec_opt_sessinfo_eq(a: &Option<SessionInfo>, b: &Option<SessionInfo>) -> bool {
    match (a, b) {
        (Some(x), Some(y)) => spec_sessinfo_eq(x, y),
        (None, None) => true,
        _ => false,
    }
}

/// Whether two optional incoming initiation requests hold the same values.
pub open spec fn spec_opt_in_req_eq(
    a: &Option<IncomingInitiationRequest>,
    b: &Option<IncomingInitiationRequest>,
) -> bool {
    match (a, b) {
        (Some(x), Some(y)) => crate::session::spec_in_req_eq(x, y),
        (None, None) => true,
        _ => false,
    }
}

/// Whether two optional outgoing initiation requests hold the same values.
pub open spec fn spec_opt_out_req_eq(
    a: &Option<OutgoingInitiationRequest>,
    b: &Option<OutgoingInitiationRequest>,
) -> bool {
    match (a, b) {
        (Some(x), Some(y)) => crate::session::spec_out_req_eq(x, y),
        (None, None) => true,
        _ => false,
    }
}

/// Whether two peer records hold the same values.
pub open spec fn spec_peer_info_eq(a: &PeerInfo, b: &PeerInfo) -> bool {
    &&& spec_opt_sessinfo_eq(&a.active_session, &b.active_session)
    &&& spec_opt_in_req_eq(&a.latest_incoming_init_request, &b.latest_incoming_init_request)
    &&& spec_opt_out_req_eq(&a.latest_outgoing_init_request, &b.latest_outgoing_init_request)
}

/// Whether two peer table entries hold the same values.
pub open spec fn spec_entry_eq(a: &(UserId, PeerInfo), b: &(UserId, PeerInfo)) -> bool {
    &&& a.0@ == b.0@
    &&& spec_peer_info_eq(&a.1, &b.1)
}

/// The per-peer session manager.
pub struct SessionManager {
    /// The policy configuration.
    pub config: SessionManagerConfig,
    /// The peer table: one entry per known peer id.
    pub peers: Vec<(UserId, PeerInfo)>,
}

impl SessionManager {
    /// Structural soundness: every entry is sound and peer ids are unique.
    pub open spec fn wf(&self) -> bool {
        &&& forall|i: int|
            0 <= i < self.peers@.len() ==> {
                &&& (#[trigger] self.peers@[i]).0.wf()
                &&& self.peers@[i].1.wf()
            }
        &&& forall|i: int, j: int|
            0 <= i < j < self.peers@.len() ==> (#[trigger] self.peers@[i]).0@ != (
            #[trigger] self.peers@[j]).0@
    }

    /// Whether some entry carries this peer id.
    pub open spec fn spec_has_peer(&self, id: Seq<u8>) -> bool {
        exists|i: int| 0 <= i < self.peers@.len() && (#[trigger] self.peers@[i]).0@ == id
    }

    /// Whether two managers hold the same values.
    pub open spec fn spec_manager_eq(a: &SessionManager, b: &SessionManager) -> bool {
        &&& a.config == b.config
        &&& a.peers@.len() == b.peers@.len()
        &&& forall|i: int|
            0 <= i < a.peers@.len() ==> spec_entry_eq(
                #[trigger] &a.peers@[i],
                &b.peers@[i],
            )
    }

    /// The status the manager reports for a peer info entry.
    pub open spec fn spec_status_of(info: &PeerInfo, max_lag: u64) -> SessionStatus {
        match info.active_session {
            Some(ref si) => if si.session.agraphon_instance.spec_lag() >= max_lag {
                SessionStatus::Saturated
            } else {
                SessionStatus::Active
            },
            None => match (info.latest_incoming_init_request, info.latest_outgoing_init_request) {
                (Some(_), Some(_)) => SessionStatus::Killed,
                (Some(_), None) => SessionStatus::PeerRequested,
                (None, Some(_)) => SessionStatus::SelfRequested,
                (None, None) => SessionStatus::NoSession,
            },
        }
    }

    /// Creates an empty manager.
    pub fn new(config: SessionManagerConfig) -> (r: SessionManager)
        ensures
            r.wf(),
            r.peers@.len() == 0,
    {
        SessionManager { config, peers: Vec::new() }
    }

    /// Finds the entry of a peer id.
    fn find_peer(&self, peer_id: &UserId) -> (r: Option<usize>)
        ensures
            match r {
                Some(i) => i < self.peers@.len() && self.peers@[i as int].0@ == peer_id@,
                None => !self.spec_has_peer(peer_id@),
            },
    {
        let n: usize = self.peers.len();
        let mut i: usize = 0;
        while i < n
            invariant
                i <= n,
                n == self.peers@.len(),
                forall|j: int| 0 <= j < i ==> (#[trigger] self.peers@[j]).0@ != peer_id@,
            decreases n - i,
        {
            if self.peers[i].0.same_as(peer_id) {
                return Some(i);
            }
            i = i + 1;
        }
        None
    }

    /// The peers the manager knows.
    pub fn peer_list(&self) -> (r: Vec<UserId>)
        requires
            self.wf(),
        ensures
            r@.len() == self.peers@.len(),
            forall|i: int| 0 <= i < r@.len() ==> (#[trigger] r@[i])@ == self.peers@[i].0@,
    {
        let n: usize = self.peers.len();
        let mut out: Vec<UserId> = Vec::new();
        let mut i: usize = 0;
        while i < n
            invariant
                i <= n,
                n == self.peers@.len(),
                out@.len() == i,
                forall|j: int| 0 <= j < i ==> (#[trigger] out@[j])@ == self.peers@[j].0@,
            decreases n - i,
        {
            out.push(self.peers[i].0.duplicate());
            i = i + 1;
        }
        out
    }

    /// Forgets a peer entirely; every other entry is untouched.
    pub fn peer_discard(&mut self, peer_id: &UserId)
        requires
            old(self).wf(),
        ensures
            final(self).wf(),
            !final(self).spec_has_peer(peer_id@),
            !old(self).spec_has_peer(peer_id@) ==> Self::spec_manager_eq(final(self), old(self)),
            final(self).config == old(self).config,
            old(self).spec_has_peer(peer_id@) ==> exists|i: int|
                #![trigger old(self).peers@[i]]
                {
                    &&& 0 <= i < old(self).peers@.len()
                    &&& old(self).peers@[i].0@ == peer_id@
                    &&& final(self).peers@.len() == old(self).peers@.len() - 1
                    &&& forall|j: int|
                        0 <= j < i ==> spec_entry_eq(
                            #[trigger] &final(self).peers@[j],
                            &old(self).peers@[j],
                        )
                    &&& forall|j: int|
                        i <= j < final(self).peers@.len() ==> spec_entry_eq(
                            #[trigger] &final(self).peers@[j],
                            &old(self).peers@[j + 1],
                        )
                },
    {
        let found = self.find_peer(peer_id);
        let Some(i) = found else {
            proof {
                assert(Self::spec_manager_eq(self, old(self)));
            }
            return;
        };
        let removed = self.peers.remove(i);
        proof {
            let _ = removed;
            assert forall|a: int, b: int|
                0 <= a < b < self.peers@.len() implies (#[trigger] self.peers@[a]).0@ != (
                #[trigger] self.peers@[b]).0@ by {
                if a < i {
                    assert(self.peers@[a] == old(self).peers@[a]);
                } else {
                    assert(self.peers@[a] == old(self).peers@[a + 1]);
                }
                if b < i {
                    assert(self.peers@[b] == old(self).peers@[b]);
                } else {
                    assert(self.peers@[b] == old(self).peers@[b + 1]);
                }
            }
            assert forall|j: int| 0 <= j < self.peers@.len() implies (
            #[trigger] self.peers@[j]).0@ != peer_id@ by {
                if j < i {
                    assert(self.peers@[j] == old(self).peers@[j]);
                    assert(old(self).peers@[i as int].0@ == peer_id@);
                } else {
                    assert(self.peers@[j] == old(self).peers@[j + 1]);
                    assert(old(self).peers@[i as int].0@ == peer_id@);
                }
            }
            assert forall|j: int| 0 <= j < i as int implies spec_entry_eq(
                #[trigger] &self.peers@[j],
                &old(self).peers@[j],
            ) by {
                assert(self.peers@[j] == old(self).peers@[j]);
            }
            assert forall|j: int| i as int <= j < self.peers@.len() implies spec_entry_eq(
                #[trigger] &self.peers@[j],
                &old(self).peers@[j + 1],
            ) by {
                assert(self.peers@[j] == old(self).peers@[j + 1]);
            }
        }
    }

    /// The session status of a peer: active or saturated when a session
    /// exists, depending on the lag limit; otherwise derived from which
    /// initiation requests are present; unknown when the peer is not in
    /// the table.
    pub fn peer_session_status(&self, peer_id: &UserId) -> (r: SessionStatus)
        requires
            self.wf(),
        ensures
            !self.spec_has_peer(peer_id@) ==> r == SessionStatus::UnknownPeer,
            forall|i: int|
                0 <= i < self.peers@.len() && (#[trigger] self.peers@[i]).0@ == peer_id@ ==> r
                    == Self::spec_status_of(&self.peers@[i].1, self.config.max_session_lag_length),
    {
        let found = self.find_peer(peer_id);
        let Some(i) = found else {
            return SessionStatus::UnknownPeer;
        };
        let info = &self.peers[i].1;
        match &info.active_session {
            Some(si) => {
                if si.session.lag_length() >= self.config.max_session_lag_length {
                    SessionStatus::Saturated
                } else {
                    SessionStatus::Active
                }
            },
            None => {
                let has_in = info.latest_incoming_init_request.is_some();
                let has_out = info.latest_outgoing_init_request.is_some();
                if has_in && has_out {
                    SessionStatus::Killed
                } else if has_in {
                    SessionStatus::PeerRequested
                } else if has_out {
                    SessionStatus::SelfRequested
                } else {
                    SessionStatus::NoSession
                }
            },
        }
    }

    /// What storing a fresh outgoing initiation request for peer `id`
    /// changes: the request becomes the stored outgoing one (the entry is
    /// appended if the peer was unknown), a session is formed from the
    /// pair exactly when an incoming request is stored and the two
    /// handshake ids differ, with both timestamps stamped from the
    /// requests, and every other entry and field is untouched.
    pub open spec fn spec_established_change(
        pre: &SessionManager,
        post: &SessionManager,
        id: Seq<u8>,
        req: &OutgoingInitiationRequest,
    ) -> bool {
        &&& post.config == pre.config
        &&& if pre.spec_has_peer(id) {
            &&& post.peers@.len() == pre.peers@.len()
            &&& exists|i: int|
                #![trigger pre.peers@[i]]
                {
                    &&& 0 <= i < pre.peers@.len()
                    &&& pre.peers@[i].0@ == id
                    &&& post.peers@[i].0@ == id
                    &&& (post.peers@[i].1.latest_outgoing_init_request matches Some(stored)
                        && crate::session::spec_out_req_eq(&stored, req))
                    &&& spec_opt_in_req_eq(
                        &post.peers@[i].1.latest_incoming_init_request,
                        &pre.peers@[i].1.latest_incoming_init_request,
                    )
                    &&& match pre.peers@[i].1.latest_incoming_init_request {
                        Some(ref incoming) => if incoming.agraphon_announcement.id@
                            != req.agraphon_announcement.id@ {
                            post.peers@[i].1.active_session matches Some(si)
                                && Session::spec_paired(req, incoming, &si.session)
                                && si.last_incoming_message_timestamp
                                == incoming.timestamp_millis
                                && si.last_outgoing_message_timestamp == req.timestamp_millis
                        } else {
                            spec_opt_sessinfo_eq(
                                &post.peers@[i].1.active_session,
                                &pre.peers@[i].1.active_session,
                            )
                        },
                        None => spec_opt_sessinfo_eq(
                            &post.peers@[i].1.active_session,
                            &pre.peers@[i].1.active_session,
                        ),
                    }
                    &&& forall|j: int|
                        0 <= j < pre.peers@.len() && j != i ==> spec_entry_eq(
                            #[trigger] &post.peers@[j],
                            &pre.peers@[j],
                        )
                }
        } else {
            &&& post.peers@.len() == pre.peers@.len() + 1
            &&& post.peers@.last().0@ == id
            &&& post.peers@.last().1.active_session is None
            &&& post.peers@.last().1.latest_incoming_init_request is None
            &&& (post.peers@.last().1.latest_outgoing_init_request matches Some(stored)
                && crate::session::spec_out_req_eq(&stored, req))
            &&& forall|j: int|
                0 <= j < pre.peers@.len() ==> spec_entry_eq(
                    #[trigger] &post.peers@[j],
                    &pre.peers@[j],
                )
        }
    }

    /// Creates an outgoing initiation request to a peer; if an admitted
    /// incoming request from that peer is already stored, the session is
    /// formed from the pair at once and both timestamps are stamped.
    /// Returns the announcement bytes to publish, or nothing if signing
    /// fails.
    pub fn establish_outgoing_session(
        &mut self,
        peer_pk: &UserPublicKeys,
        our_pk: &UserPublicKeys,
        our_sk: &UserSecretKeys,
    ) -> (r: Option<Vec<u8>>)
        requires
            old(self).wf(),
            peer_pk.wf(),
            our_pk.wf(),
            our_sk.dsa_signing_key.wf(),
            our_sk.secondary_secret_key@.len()
                == crate::secondary::SECONDARY_SECRET_KEY_SIZE,
        ensures
            final(self).wf(),
            r is None ==> Self::spec_manager_eq(final(self), old(self)),
            match r {
                Some(bytes) => exists|req: OutgoingInitiationRequest|
                    {
                        &&& req.wf()
                        &&& req.agraphon_announcement.announcement_bytes@ == bytes@
                        &&& #[trigger] Self::spec_established_change(
                            old(self),
                            final(self),
                            peer_pk.spec_id(),
                            &req,
                        )
                    },
                None => true,
            },
    {
        let peer_id = peer_pk.derive_id();
        let Some((announcement_bytes, outgoing_req)) = OutgoingInitiationRequest::new(
            our_pk,
            our_sk,
            peer_pk,
        ) else {
            proof {
                assert(Self::spec_manager_eq(self, old(self)));
            }
            return None;
        };
        let ghost req0 = outgoing_req;
        let found = self.find_peer(&peer_id);
        match found {
            Some(i) => {
                let entry = &self.peers[i].1;
                let new_session: Option<SessionInfo> = match &entry.latest_incoming_init_request {
                    Some(incoming_req) => {
                        match Session::from_initiation_request_pair(&outgoing_req, incoming_req) {
                            Some(session) => Some(
                                SessionInfo {
                                    session,
                                    last_incoming_message_timestamp: incoming_req.timestamp_millis,
                                    last_outgoing_message_timestamp:
                                        outgoing_req.timestamp_millis,
                                },
                            ),
                            None => None,
                        }
                    },
                    None => None,
                };
                let info = &mut self.peers[i].1;
                if new_session.is_some() {
                    info.active_session = new_session;
                }
                info.latest_outgoing_init_request = Some(outgoing_req);
                proof {
                    assert(self.peers@[i as int].0@ == peer_id@);
                    assert(Self::spec_established_change(
                        old(self),
                        self,
                        peer_pk.spec_id(),
                        &req0,
                    ));
                }
            },
            None => {
                self.peers.push(
                    (
                        peer_id,
                        PeerInfo {
                            active_session: None,
                            latest_incoming_init_request: None,
                            latest_outgoing_init_request: Some(outgoing_req),
                        },
                    ),
                );
                proof {
                    let n = self.peers@.len();
                    assert(self.peers@[n - 1].0@ == peer_pk.spec_id());
                    assert forall|a: int, b: int|
                        0 <= a < b < n implies (#[trigger] self.peers@[a]).0@ != (
                        #[trigger] self.peers@[b]).0@ by {
                        if b < n - 1 {
                            assert(self.peers@[a] == old(self).peers@[a]);
                            assert(self.peers@[b] == old(self).peers@[b]);
                        } else {
                            assert(self.peers@[a] == old(self).peers@[a]);
                            assert(!old(self).spec_has_peer(peer_pk.spec_id()));
                        }
                    }
                    assert(Self::spec_established_change(
                        old(self),
                        self,
                        peer_pk.spec_id(),
                        &req0,
                    ));
                }
            },
        }
        Some(announcement_bytes)
    }

    /// What admitting an initiation request at clock value `now` changes:
    /// the request becomes the stored incoming one for its peer (the entry
    /// is appended if the peer was unknown), a session is formed from the
    /// pair exactly when an outgoing request is stored and the two
    /// handshake ids differ, with both timestamps stamped from the
    /// requests, and every other entry and field is untouched.
    pub open spec fn spec_admitted_change(
        pre: &SessionManager,
        post: &SessionManager,
        req: &IncomingInitiationRequest,
        now: u128,
    ) -> bool {
        let id = req.origin_public_keys.spec_id();
        &&& post.config == pre.config
        &&& if pre.spec_has_peer(id) {
            &&& post.peers@.len() == pre.peers@.len()
            &&& exists|i: int|
                #![trigger pre.peers@[i]]
                {
                    &&& 0 <= i < pre.peers@.len()
                    &&& pre.peers@[i].0@ == id
                    &&& post.peers@[i].0@ == id
                    &&& (post.peers@[i].1.latest_incoming_init_request matches Some(stored)
                        && crate::session::spec_in_req_eq(&stored, req))
                    &&& spec_opt_out_req_eq(
                        &post.peers@[i].1.latest_outgoing_init_request,
                        &pre.peers@[i].1.latest_outgoing_init_request,
                    )
                    &&& match pre.peers@[i].1.latest_outgoing_init_request {
                        Some(ref outgoing) => if outgoing.agraphon_announcement.id@
                            != req.agraphon_announcement.id@ {
                            post.peers@[i].1.active_session matches Some(si)
                                && Session::spec_paired(outgoing, req, &si.session)
                                && si.last_incoming_message_timestamp == req.timestamp_millis
                                && si.last_outgoing_message_timestamp
                                == outgoing.timestamp_millis
                        } else {
                            spec_opt_sessinfo_eq(
                                &post.peers@[i].1.active_session,
                                &pre.peers@[i].1.active_session,
                            )
                        },
                        None => spec_opt_sessinfo_eq(
                            &post.peers@[i].1.active_session,
                            &pre.peers@[i].1.active_session,
                        ),
                    }
                    &&& forall|j: int|
                        0 <= j < pre.peers@.len() && j != i ==> spec_entry_eq(
                            #[trigger] &post.peers@[j],
                            &pre.peers@[j],
                        )
                }
        } else {
            &&& post.peers@.len() == pre.peers@.len() + 1
            &&& post.peers@.last().0@ == id
            &&& post.peers@.last().1.active_session is None
            &&& (post.peers@.last().1.latest_incoming_init_request matches Some(stored)
                && crate::session::spec_in_req_eq(&stored, req))
            &&& post.peers@.last().1.latest_outgoing_init_request is None
            &&& forall|j: int|
                0 <= j < pre.peers@.len() ==> spec_entry_eq(
                    #[trigger] &post.peers@[j],
                    &pre.peers@[j],
                )
        }
    }

    /// Admits or drops one parsed initiation request at an explicit clock
    /// value.  The request is admitted exactly when its timestamp is inside
    /// the announcement freshness window at `now` and strictly newer than
    /// the stored incoming request of the same peer; only an admitted
    /// request changes state, as [`SessionManager::spec_admitted_change`]
    /// describes, so replayed bytes are a no-op.
    pub fn admit_incoming_request(
        &mut self,
        incoming_req: IncomingInitiationRequest,
        now: u128,
    ) -> (admitted: bool)
        requires
            old(self).wf(),
            incoming_req.wf(),
        ensures
            final(self).wf(),
            forall|i: int|
                0 <= i < old(self).peers@.len() && (#[trigger] old(self).peers@[i]).0@
                    == incoming_req.origin_public_keys.spec_id() ==> admitted
                    == spec_admit_announcement(
                    incoming_req.timestamp_millis,
                    match old(self).peers@[i].1.latest_incoming_init_request {
                        Some(ref r) => Some(r.timestamp_millis),
                        None => None,
                    },
                    now,
                    old(self).config.max_incoming_announcement_age_millis,
                    old(self).config.max_incoming_announcement_future_millis,
                ),
            !old(self).spec_has_peer(incoming_req.origin_public_keys.spec_id()) ==> admitted
                == spec_admit_announcement(
                incoming_req.timestamp_millis,
                None,
                now,
                old(self).config.max_incoming_announcement_age_millis,
                old(self).config.max_incoming_announcement_future_millis,
            ),
            !admitted ==> Self::spec_manager_eq(final(self), old(self)),
            admitted ==> Self::spec_admitted_change(old(self), final(self), &incoming_req, now),
    {
        let ghost req0 = incoming_req;
        let peer_id = incoming_req.origin_public_keys.derive_id();
        let found = self.find_peer(&peer_id);
        let stored_ts: Option<u128> = match found {
            Some(i) => {
                match &self.peers[i].1.latest_incoming_init_request {
                    Some(req) => Some(req.timestamp_millis),
                    None => None,
                }
            },
            None => None,
        };
        if !admit_announcement(
            incoming_req.timestamp_millis,
            stored_ts,
            now,
            self.config.max_incoming_announcement_age_millis,
            self.config.max_incoming_announcement_future_millis,
        ) {
            proof {
                assert(Self::spec_manager_eq(self, old(self)));
            }
            return false;
        }
        match found {
            Some(i) => {
                let entry = &self.peers[i].1;
                let new_session: Option<SessionInfo> = match &entry.latest_outgoing_init_request {
                    Some(outgoing_req) => {
                        match Session::from_initiation_request_pair(outgoing_req, &incoming_req) {
                            Some(session) => Some(
                                SessionInfo {
                                    session,
                                    last_incoming_message_timestamp:
                                        incoming_req.timestamp_millis,
                                    last_outgoing_message_timestamp:
                                        outgoing_req.timestamp_millis,
                                },
                            ),
                            None => None,
                        }
                    },
                    None => None,
                };
                let info = &mut self.peers[i].1;
                if new_session.is_some() {
                    info.active_session = new_session;
                }
                info.latest_incoming_init_request = Some(incoming_req);
                proof {
                    assert(Self::spec_admitted_change(old(self), self, &req0, now));
                }
            },
            None => {
                self.peers.push(
                    (
                        peer_id,
                        PeerInfo {
                            active_session: None,
                            latest_incoming_init_request: Some(incoming_req),
                            latest_outgoing_init_request: None,
                        },
                    ),
                );
                proof {
                    let n = self.peers@.len();
                    assert forall|a: int, b: int|
                        0 <= a < b < n implies (#[trigger] self.peers@[a]).0@ != (
                        #[trigger] self.peers@[b]).0@ by {
                        if b < n - 1 {
                            assert(self.peers@[a] == old(self).peers@[a]);
                            assert(self.peers@[b] == old(self).peers@[b]);
                        } else {
                            assert(self.peers@[a] == old(self).peers@[a]);
                        }
                    }
                    assert(Self::spec_admitted_change(old(self), self, &req0, now));
                }
            },
        }
        true
    }

    /// Feeds announcement bytes read from the board.  Malformed or
    /// unauthenticated bytes are dropped; a parsed request goes through
    /// [`SessionManager::admit_incoming_request`] at the current clock
    /// value, which admits it only inside the freshness window and only if
    /// strictly newer than the one already stored for that peer, so
    /// replayed bytes never change state.
    pub fn feed_incoming_announcement(
        &mut self,
        announcement_bytes: &[u8],
        our_pk: &UserPublicKeys,
        our_sk: &UserSecretKeys,
    )
        requires
            old(self).wf(),
            our_pk.wf(),
            our_sk.kem_secret_key.wf(),
        ensures
            final(self).wf(),
            Self::spec_manager_eq(final(self), old(self)) || exists|
                req: IncomingInitiationRequest,
                now: u128,
            |
                {
                    &&& req.wf()
                    &&& crate::session::spec_parsed_request(
                        announcement_bytes@,
                        our_pk.kem_public_key@,
                        our_sk.kem_secret_key@,
                        &req,
                    )
                    &&& #[trigger] Self::spec_admitted_change(old(self), final(self), &req, now)
                },
    {
        let Some(incoming_req) = IncomingInitiationRequest::try_from(
            announcement_bytes,
            our_pk,
            our_sk,
        ) else {
            proof {
                assert(Self::spec_manager_eq(self, old(self)));
            }
            return;
        };
        let now: u128 = timestamp_millis();
        let ghost req_snapshot = incoming_req;
        let admitted = self.admit_incoming_request(incoming_req, now);
        proof {
            if admitted {
                assert(Self::spec_admitted_change(old(self), self, &req_snapshot, now));
            } else {
                assert(Self::spec_manager_eq(self, old(self)));
            }
        }
    }

    /// Sends a message to a peer.  Refused, with the manager untouched,
    /// exactly when the peer is unknown, has no active session, the
    /// session's lag has reached the limit, or the sent ratchet ran out of
    /// local ids.  On success the found entry's session advances by one
    /// send and its outgoing timestamp is stamped; everything else is
    /// untouched.
    pub fn send_message(&mut self, peer_id: &UserId, message: &[u8]) -> (r: Option<
        SendOutgoingMessageOutput,
    >)
        requires
            old(self).wf(),
            message@.len() + 2 * PADDING_BLOCK_SIZE <= usize::MAX,
        ensures
            final(self).wf(),
            !old(self).spec_has_peer(peer_id@) ==> r is None,
            forall|i: int|
                0 <= i < old(self).peers@.len() && (#[trigger] old(self).peers@[i]).0@ == peer_id@
                    ==> match old(self).peers@[i].1.active_session {
                    Some(ref si) => {
                        &&& (si.session.agraphon_instance.spec_lag()
                            >= old(self).config.max_session_lag_length) ==> r is None
                        &&& (si.session.agraphon_instance.spec_lag()
                            < old(self).config.max_session_lag_length
                            && si.session.agraphon_instance.spec_back_id() < u64::MAX) ==> r
                            is Some
                    },
                    None => r is None,
                },
            match r {
                None => Self::spec_manager_eq(final(self), old(self)),
                Some(out) => exists|i: int|
                    #![trigger old(self).peers@[i]]
                    {
                        &&& 0 <= i < old(self).peers@.len()
                        &&& old(self).peers@[i].0@ == peer_id@
                        &&& (old(self).peers@[i].1.active_session matches Some(si)
                            && si.session.agraphon_instance.spec_lag()
                            < old(self).config.max_session_lag_length
                            && (final(self).peers@[i].1.active_session matches Some(si2)
                            && Session::spec_send_post(
                            &si.session,
                            &si2.session,
                            message@,
                            out.timestamp,
                            out.seeker@,
                            out.data@,
                        ) && si2.last_outgoing_message_timestamp == out.timestamp
                            && si2.last_incoming_message_timestamp
                            == si.last_incoming_message_timestamp))
                        &&& final(self).peers@[i].0@ == old(self).peers@[i].0@
                        &&& spec_opt_in_req_eq(
                            &final(self).peers@[i].1.latest_incoming_init_request,
                            &old(self).peers@[i].1.latest_incoming_init_request,
                        )
                        &&& spec_opt_out_req_eq(
                            &final(self).peers@[i].1.latest_outgoing_init_request,
                            &old(self).peers@[i].1.latest_outgoing_init_request,
                        )
                        &&& forall|j: int|
                            0 <= j < old(self).peers@.len() && j != i ==> spec_entry_eq(
                                #[trigger] &final(self).peers@[j],
                                &old(self).peers@[j],
                            )
                        &&& final(self).peers@.len() == old(self).peers@.len()
                        &&& final(self).config == old(self).config
                    },
            },
    {
        let found = self.find_peer(peer_id);
        let Some(i) = found else {
            proof {
                assert(Self::spec_manager_eq(self, old(self)));
            }
            return None;
        };
        let max_lag: u64 = self.config.max_session_lag_length;
        let info = &mut self.peers[i].1;
        match &mut info.active_session {
            Some(si) => {
                if si.session.lag_length() >= max_lag {
                    proof {
                        assert(Self::spec_manager_eq(self, old(self)));
                    }
                    return None;
                }
                if si.session.agraphon_instance.latest_local_id() == u64::MAX {
                    proof {
                        assert(Self::spec_manager_eq(self, old(self)));
                    }
                    return None;
                }
                let sent = si.session.send_outgoing_message(message);
                match sent {
                    Some(out) => {
                        si.last_outgoing_message_timestamp = out.timestamp;
                        Some(out)
                    },
                    None => None,
                }
            },
            None => {
                proof {
                    assert(Self::spec_manager_eq(self, old(self)));
                }
                None
            },
        }
    }

    /// What the board watch list holds, witnessed two ways: every listed
    /// key is the expected seeker of some peer's active session (source
    /// map `src`), and every active session's expected seeker is listed
    /// (position map `pos`).
    pub open spec fn spec_board_keys(
        m: &SessionManager,
        keys: Seq<Vec<u8>>,
        src: Seq<int>,
        pos: Seq<int>,
    ) -> bool {
        &&& src.len() == keys.len()
        &&& pos.len() == m.peers@.len()
        &&& forall|j: int|
            #![trigger src[j]]
            0 <= j < keys.len() ==> 0 <= src[j] < m.peers@.len()
                && (m.peers@[src[j]].1.active_session matches Some(si) && keys[j]@
                == spec_seeker_bytes(
                crate::secondary::sec_pubkey_of(si.session.peer_seeker_secret@),
            ))
        &&& forall|i: int|
            #![trigger pos[i]]
            0 <= i < m.peers@.len() ==> match m.peers@[i].1.active_session {
                Some(ref si) => 0 <= pos[i] < keys.len() && keys[pos[i]]@ == spec_seeker_bytes(
                    crate::secondary::sec_pubkey_of(si.session.peer_seeker_secret@),
                ),
                None => true,
            }
    }

    /// The board keys to watch: for every peer with an active session, the
    /// seeker of that session's next expected message, and nothing else.
    pub fn get_message_board_read_keys(&self) -> (r: Vec<Vec<u8>>)
        requires
            self.wf(),
        ensures
            exists|src: Seq<int>, pos: Seq<int>|
                #[trigger] Self::spec_board_keys(self, r@, src, pos),
    {
        let n: usize = self.peers.len();
        let mut out: Vec<Vec<u8>> = Vec::new();
        let ghost mut src: Seq<int> = Seq::empty();
        let ghost mut pos: Seq<int> = Seq::new(n as nat, |i: int| -1);
        let mut i: usize = 0;
        while i < n
            invariant
                i <= n,
                n == self.peers@.len(),
                self.wf(),
                src.len() == out@.len(),
                pos.len() == n,
                forall|j: int|
                    #![trigger src[j]]
                    0 <= j < out@.len() ==> 0 <= src[j] < n
                        && (self.peers@[src[j]].1.active_session matches Some(si) && out@[j]@
                        == spec_seeker_bytes(
                        crate::secondary::sec_pubkey_of(si.session.peer_seeker_secret@),
                    )),
                forall|k: int|
                    #![trigger pos[k]]
                    0 <= k < i ==> match self.peers@[k].1.active_session {
                        Some(ref si) => 0 <= pos[k] < out@.len() && out@[pos[k]]@
                            == spec_seeker_bytes(
                            crate::secondary::sec_pubkey_of(si.session.peer_seeker_secret@),
                        ),
                        None => true,
                    },
            decreases n - i,
        {
            match &self.peers[i].1.active_session {
                Some(si) => {
                    out.push(si.session.next_peer_message_seeker());
                    proof {
                        src = src.push(i as int);
                        pos = pos.update(i as int, out@.len() - 1);
                    }
                },
                None => {},
            }
            i = i + 1;
        }
        proof {
            assert(Self::spec_board_keys(self, out@, src, pos));
        }
        out
    }

    /// Whether the entry at index `t` has an active session whose next
    /// expected message is posted under `seeker`.
    pub open spec fn spec_expects_seeker(m: &SessionManager, t: int, seeker: Seq<u8>) -> bool {
        &&& 0 <= t < m.peers@.len()
        &&& m.peers@[t].1.active_session matches Some(si) && spec_seeker_bytes(
            crate::secondary::sec_pubkey_of(si.session.peer_seeker_secret@),
        ) == seeker
    }

    /// Feeds one board read.  The read is routed to the peer whose active
    /// session expects this seeker; on success that session consumed the
    /// bytes, the decoded timestamp is inside the freshness window at the
    /// read clock value and not behind the session's last accepted one,
    /// which it replaces; everything else is untouched.  On failure either
    /// no session expects the seeker and nothing changes, or the expecting
    /// session is torn down, since an expected seeker that cannot be
    /// consumed is an unrecoverable inconsistency.
    pub fn feed_incoming_message_board_read(
        &mut self,
        seeker: &[u8],
        bytes: &[u8],
        our_sk: &UserSecretKeys,
    ) -> (r: Option<FeedIncomingMessageOutput>)
        requires
            old(self).wf(),
            our_sk.kem_secret_key.wf(),
        ensures
            final(self).wf(),
            match r {
                Some(out) => exists|t: int, now: u128|
                    #![trigger old(self).peers@[t], spec_fresh(out.timestamp, now, old(self).config.max_incoming_message_age_millis, old(self).config.max_incoming_message_future_millis)]
                    {
                        &&& 0 <= t < old(self).peers@.len()
                        &&& (old(self).peers@[t].1.active_session matches Some(si)
                            && spec_seeker_bytes(
                            crate::secondary::sec_pubkey_of(si.session.peer_seeker_secret@),
                        ) == seeker@ && (final(self).peers@[t].1.active_session matches Some(si2)
                            && Session::spec_feed_post(
                            &si.session,
                            &si2.session,
                            our_sk.kem_secret_key@,
                            seeker@,
                            bytes@,
                            out.timestamp,
                            out.message@,
                            out.newly_acknowledged_self_seekers@,
                        ) && out.timestamp >= si.last_incoming_message_timestamp
                            && si2.last_incoming_message_timestamp == out.timestamp
                            && si2.last_outgoing_message_timestamp
                            == si.last_outgoing_message_timestamp))
                        &&& spec_fresh(
                            out.timestamp,
                            now,
                            old(self).config.max_incoming_message_age_millis,
                            old(self).config.max_incoming_message_future_millis,
                        )
                        &&& final(self).peers@[t].0@ == old(self).peers@[t].0@
                        &&& spec_opt_in_req_eq(
                            &final(self).peers@[t].1.latest_incoming_init_request,
                            &old(self).peers@[t].1.latest_incoming_init_request,
                        )
                        &&& spec_opt_out_req_eq(
                            &final(self).peers@[t].1.latest_outgoing_init_request,
                            &old(self).peers@[t].1.latest_outgoing_init_request,
                        )
                        &&& forall|j: int|
                            0 <= j < old(self).peers@.len() && j != t ==> spec_entry_eq(
                                #[trigger] &final(self).peers@[j],
                                &old(self).peers@[j],
                            )
                        &&& final(self).peers@.len() == old(self).peers@.len()
                        &&& final(self).config == old(self).config
                    },
                None => {
                    &&& (!(exists|t: int| Self::spec_expects_seeker(old(self), t, seeker@)))
                        ==> Self::spec_manager_eq(final(self), old(self))
                    &&& (exists|t: int| Self::spec_expects_seeker(old(self), t, seeker@))
                        ==> exists|t: int|
                        #![trigger old(self).peers@[t]]
                        {
                            &&& Self::spec_expects_seeker(old(self), t, seeker@)
                            &&& final(self).peers@[t].1.active_session is None
                            &&& final(self).peers@[t].0@ == old(self).peers@[t].0@
                            &&& spec_opt_in_req_eq(
                                &final(self).peers@[t].1.latest_incoming_init_request,
                                &old(self).peers@[t].1.latest_incoming_init_request,
                            )
                            &&& spec_opt_out_req_eq(
                                &final(self).peers@[t].1.latest_outgoing_init_request,
                                &old(self).peers@[t].1.latest_outgoing_init_request,
                            )
                            &&& forall|j: int|
                                0 <= j < old(self).peers@.len() && j != t ==> spec_entry_eq(
                                    #[trigger] &final(self).peers@[j],
                                    &old(self).peers@[j],
                                )
                            &&& final(self).peers@.len() == old(self).peers@.len()
                            &&& final(self).config == old(self).config
                        }
                },
            },
    {
        // route by expected seeker
        let n: usize = self.peers.len();
        let mut target: Option<usize> = None;
        let mut i: usize = 0;
        while i < n
            invariant
                i <= n,
                n == self.peers@.len(),
                self.wf(),
                Self::spec_manager_eq(self, old(self)),
                match target {
                    Some(t) => Self::spec_expects_seeker(old(self), t as int, seeker@),
                    None => forall|k: int|
                        0 <= k < i ==> !Self::spec_expects_seeker(old(self), k, seeker@),
                },
            decreases n - i,
        {
            match &self.peers[i].1.active_session {
                Some(si) => {
                    let expected = si.session.next_peer_message_seeker();
                    if crate::wire::eq_bytes(expected.as_slice(), seeker) {
                        target = Some(i);
                    }
                },
                None => {},
            }
            i = i + 1;
        }
        let Some(t) = target else {
            return None;
        };
        let now: u128 = timestamp_millis();
        let max_age: u128 = self.config.max_incoming_message_age_millis;
        let max_future: u128 = self.config.max_incoming_message_future_millis;
        let info = &mut self.peers[t].1;
        let mut verdict: Option<FeedIncomingMessageOutput> = None;
        match &mut info.active_session {
            Some(si) => {
                let fed = si.session.try_feed_incoming_message(our_sk, seeker, bytes);
                match fed {
                    Some(out) => {
                        if is_fresh(out.timestamp, now, max_age, max_future) && out.timestamp
                            >= si.last_incoming_message_timestamp {
                            si.last_incoming_message_timestamp = out.timestamp;
                            verdict = Some(out);
                        }
                    },
                    None => {},
                }
            },
            None => {},
        }
        if verdict.is_none() {
            let info2 = &mut self.peers[t].1;
            info2.active_session = None;
        }
        verdict
    }

    /// Decides whether `ts` lies more than `limit` before `now`.
    fn is_past(ts: u128, limit: u128, now: u128) -> (r: bool)
        ensures
            r == (ts + limit < now),
    {
        ts < now.saturating_sub(limit)
    }

    /// Whether a session record has been idle past the inactivity limit.
    pub open spec fn spec_session_expired(si: &SessionInfo, cfg: &SessionManagerConfig, now: u128)
        -> bool {
        si.last_incoming_message_timestamp + cfg.max_session_inactivity_millis < now
    }

    /// Whether a stored initiation request has aged out of the
    /// announcement window.
    pub open spec fn spec_request_expired(ts: u128, cfg: &SessionManagerConfig, now: u128)
        -> bool {
        ts + cfg.max_incoming_announcement_age_millis < now
    }

    /// Whether a surviving session is due a keep-alive send.
    pub open spec fn spec_keep_alive_due(si: &SessionInfo, cfg: &SessionManagerConfig, now: u128)
        -> bool {
        &&& !Self::spec_session_expired(si, cfg, now)
        &&& si.last_outgoing_message_timestamp + cfg.keep_alive_interval_millis < now
    }

    /// What maintenance at clock value `now` does to one peer record:
    /// expired sessions and aged-out requests are dropped, everything else
    /// stays as it was.
    pub open spec fn spec_refreshed_info(
        pre: &PeerInfo,
        post: &PeerInfo,
        cfg: &SessionManagerConfig,
        now: u128,
    ) -> bool {
        &&& match pre.active_session {
            Some(ref si) => if Self::spec_session_expired(si, cfg, now) {
                post.active_session is None
            } else {
                post.active_session matches Some(si2) && spec_sessinfo_eq(&si2, si)
            },
            None => post.active_session is None,
        }
        &&& match pre.latest_incoming_init_request {
            Some(ref req) => if Self::spec_request_expired(req.timestamp_millis, cfg, now) {
                post.latest_incoming_init_request is None
            } else {
                post.latest_incoming_init_request matches Some(r2)
                    && crate::session::spec_in_req_eq(&r2, req)
            },
            None => post.latest_incoming_init_request is None,
        }
        &&& match pre.latest_outgoing_init_request {
            Some(ref req) => if Self::spec_request_expired(req.timestamp_millis, cfg, now) {
                post.latest_outgoing_init_request is None
            } else {
                post.latest_outgoing_init_request matches Some(r2)
                    && crate::session::spec_out_req_eq(&r2, req)
            },
            None => post.latest_outgoing_init_request is None,
        }
    }

    /// What the keep-alive list of maintenance at `now` holds, witnessed
    /// two ways: every listed id is the id of a surviving, keep-alive-due
    /// entry (source map `src`), and every such entry is listed (position
    /// map `pos`).
    pub open spec fn spec_keep_alive_list(
        pre: &SessionManager,
        keep: Seq<UserId>,
        src: Seq<int>,
        pos: Seq<int>,
        now: u128,
    ) -> bool {
        &&& src.len() == keep.len()
        &&& pos.len() == pre.peers@.len()
        &&& forall|j: int|
            #![trigger src[j]]
            0 <= j < keep.len() ==> 0 <= src[j] < pre.peers@.len() && keep[j]@
                == pre.peers@[src[j]].0@ && (pre.peers@[src[j]].1.active_session matches Some(si)
                && Self::spec_keep_alive_due(&si, &pre.config, now))
        &&& forall|i: int|
            #![trigger pos[i]]
            0 <= i < pre.peers@.len() ==> match pre.peers@[i].1.active_session {
                Some(ref si) => Self::spec_keep_alive_due(si, &pre.config, now) ==> 0 <= pos[i]
                    < keep.len() && keep[pos[i]]@ == pre.peers@[i].0@,
                None => true,
            }
    }

    /// Everything maintenance at clock value `now` guarantees: the table
    /// transform per entry and the witnessed keep-alive list.
    pub open spec fn spec_refresh_post(
        pre: &SessionManager,
        post: &SessionManager,
        keep: Seq<UserId>,
        now: u128,
    ) -> bool {
        &&& post.peers@.len() == pre.peers@.len()
        &&& post.config == pre.config
        &&& forall|i: int|
            0 <= i < pre.peers@.len() ==> (#[trigger] post.peers@[i]).0@ == pre.peers@[i].0@
                && Self::spec_refreshed_info(
                &pre.peers@[i].1,
                &post.peers@[i].1,
                &pre.config,
                now,
            )
        &&& exists|src: Seq<int>, pos: Seq<int>|
            #[trigger] Self::spec_keep_alive_list(pre, keep, src, pos, now)
    }

    /// Periodic maintenance at an explicit clock value: drops sessions
    /// idle beyond the inactivity limit and initiation requests older than
    /// the announcement window, and returns the peers whose surviving
    /// sessions are due a keep-alive send.
    pub fn refresh_at(&mut self, now: u128) -> (r: Vec<UserId>)
        requires
            old(self).wf(),
        ensures
            final(self).wf(),
            final(self).peers@.len() == old(self).peers@.len(),
            final(self).config == old(self).config,
            forall|i: int|
                0 <= i < old(self).peers@.len() ==> (#[trigger] final(self).peers@[i]).0@ == old(
                    self,
                ).peers@[i].0@ && Self::spec_refreshed_info(
                    &old(self).peers@[i].1,
                    &final(self).peers@[i].1,
                    &old(self).config,
                    now,
                ),
            exists|src: Seq<int>, pos: Seq<int>|
                #[trigger] Self::spec_keep_alive_list(old(self), r@, src, pos, now),
    {
        let inactivity: u128 = self.config.max_session_inactivity_millis;
        let keep_alive_interval: u128 = self.config.keep_alive_interval_millis;
        let announcement_age: u128 = self.config.max_incoming_announcement_age_millis;
        let n: usize = self.peers.len();
        let mut keep_alive_needed: Vec<UserId> = Vec::new();
        let ghost mut src: Seq<int> = Seq::empty();
        let ghost mut pos: Seq<int> = Seq::new(n as nat, |i: int| -1);
        let mut i: usize = 0;
        while i < n
            invariant
                i <= n,
                n == self.peers@.len(),
                self.wf(),
                self.config == old(self).config,
                inactivity == old(self).config.max_session_inactivity_millis,
                keep_alive_interval == old(self).config.keep_alive_interval_millis,
                announcement_age == old(self).config.max_incoming_announcement_age_millis,
                src.len() == keep_alive_needed@.len(),
                pos.len() == n,
                forall|j: int| 0 <= j < self.peers@.len() ==> (#[trigger] self.peers@[j]).0@
                    == old(self).peers@[j].0@,
                forall|j: int|
                    0 <= j < i ==> Self::spec_refreshed_info(
                        &old(self).peers@[j].1,
                        (#[trigger] &self.peers@[j].1),
                        &old(self).config,
                        now,
                    ),
                forall|j: int|
                    i <= j < n ==> spec_entry_eq(#[trigger] &self.peers@[j], &old(self).peers@[j]),
                forall|j: int|
                    #![trigger src[j]]
                    0 <= j < keep_alive_needed@.len() ==> 0 <= src[j] < n
                        && keep_alive_needed@[j]@ == old(self).peers@[src[j]].0@ && (old(
                        self,
                    ).peers@[src[j]].1.active_session matches Some(si)
                        && Self::spec_keep_alive_due(&si, &old(self).config, now)),
                forall|j: int|
                    #![trigger pos[j]]
                    0 <= j < i ==> match old(self).peers@[j].1.active_session {
                        Some(ref si) => Self::spec_keep_alive_due(si, &old(self).config, now)
                            ==> 0 <= pos[j] < keep_alive_needed@.len()
                            && keep_alive_needed@[pos[j]]@ == old(self).peers@[j].0@,
                        None => true,
                    },
            decreases n - i,
        {
            let ghost entry_pre = self.peers@[i as int].1;
            proof {
                assert(spec_entry_eq(&self.peers@[i as int], &old(self).peers@[i as int]));
                assert(spec_peer_info_eq(&entry_pre, &old(self).peers@[i as int].1));
            }
            let peer_id_copy = self.peers[i].0.duplicate();
            let info = &mut self.peers[i].1;
            let mut drop_session: bool = false;
            match &info.active_session {
                Some(si) => {
                    if Self::is_past(si.last_incoming_message_timestamp, inactivity, now) {
                        drop_session = true;
                    }
                },
                None => {},
            }
            if drop_session {
                info.active_session = None;
            }
            let mut drop_incoming: bool = false;
            match &info.latest_incoming_init_request {
                Some(req) => {
                    if Self::is_past(req.timestamp_millis, announcement_age, now) {
                        drop_incoming = true;
                    }
                },
                None => {},
            }
            if drop_incoming {
                info.latest_incoming_init_request = None;
            }
            let mut drop_outgoing: bool = false;
            match &info.latest_outgoing_init_request {
                Some(req) => {
                    if Self::is_past(req.timestamp_millis, announcement_age, now) {
                        drop_outgoing = true;
                    }
                },
                None => {},
            }
            if drop_outgoing {
                info.latest_outgoing_init_request = None;
            }
            let mut due: bool = false;
            match &info.active_session {
                Some(si) => {
                    if Self::is_past(si.last_outgoing_message_timestamp, keep_alive_interval, now) {
                        due = true;
                    }
                },
                None => {},
            }
            if due {
                keep_alive_needed.push(peer_id_copy);
                proof {
                    src = src.push(i as int);
                    pos = pos.update(i as int, keep_alive_needed@.len() - 1);
                    assert(keep_alive_needed@.last()@ == old(self).peers@[i as int].0@);
                }
            }
            proof {
                let cfg = &old(self).config;
                let pre_info = &old(self).peers@[i as int].1;
                let post_info = &self.peers@[i as int].1;
                match pre_info.active_session {
                    Some(ref si) => {
                        match entry_pre.active_session {
                            Some(ref si_c) => {
                                assert(spec_sessinfo_eq(si_c, si));
                                if Self::spec_session_expired(si, cfg, now) {
                                    assert(post_info.active_session is None);
                                } else {
                                    assert(post_info.active_session
                                        == entry_pre.active_session);
                                    assert(spec_opt_sessinfo_eq(
                                        &post_info.active_session,
                                        &pre_info.active_session,
                                    ));
                                }
                            },
                            None => {
                                assert(false);
                            },
                        }
                    },
                    None => {
                        assert(post_info.active_session is None);
                    },
                }
                match pre_info.latest_incoming_init_request {
                    Some(ref req) => {
                        match entry_pre.latest_incoming_init_request {
                            Some(ref req_c) => {
                                assert(crate::session::spec_in_req_eq(req_c, req));
                                if Self::spec_request_expired(req.timestamp_millis, cfg, now) {
                                    assert(post_info.latest_incoming_init_request is None);
                                } else {
                                    assert(post_info.latest_incoming_init_request
                                        == entry_pre.latest_incoming_init_request);
                                    assert(spec_opt_in_req_eq(
                                        &post_info.latest_incoming_init_request,
                                        &pre_info.latest_incoming_init_request,
                                    ));
                                }
                            },
                            None => {
                                assert(false);
                            },
                        }
                    },
                    None => {
                        assert(post_info.latest_incoming_init_request is None);
                    },
                }
                match pre_info.latest_outgoing_init_request {
                    Some(ref req) => {
                        match entry_pre.latest_outgoing_init_request {
                            Some(ref req_c) => {
                                assert(crate::session::spec_out_req_eq(req_c, req));
                                if Self::spec_request_expired(req.timestamp_millis, cfg, now) {
                                    assert(post_info.latest_outgoing_init_request is None);
                                } else {
                                    assert(post_info.latest_outgoing_init_request
                                        == entry_pre.latest_outgoing_init_request);
                                    assert(spec_opt_out_req_eq(
                                        &post_info.latest_outgoing_init_request,
                                        &pre_info.latest_outgoing_init_request,
                                    ));
                                }
                            },
                            None => {
                                assert(false);
                            },
                        }
                    },
                    None => {
                        assert(post_info.latest_outgoing_init_request is None);
                    },
                }
                assert(Self::spec_refreshed_info(pre_info, post_info, cfg, now));
            }
            i = i + 1;
        }
        proof {
            assert(Self::spec_keep_alive_list(old(self), keep_alive_needed@, src, pos, now));
        }
        keep_alive_needed
    }

    /// Periodic maintenance at the current clock value; the host calls
    /// this at its own cadence.
    pub fn refresh(&mut self) -> (r: Vec<UserId>)
        requires
            old(self).wf(),
        ensures
            final(self).wf(),
            final(self).peers@.len() == old(self).peers@.len(),
            final(self).config == old(self).config,
            exists|now: u128| #[trigger] Self::spec_refresh_post(old(self), final(self), r@, now),
    {
        let now: u128 = timestamp_millis();
        let r = self.refresh_at(now);
        proof {
            assert(Self::spec_refresh_post(old(self), self, r@, now));
        }
        r
    }
}

/// Encoding of the configuration.
pub open spec fn spec_enc_config(c: &SessionManagerConfig) -> Seq<u8> {
    spec_u128_be(c.max_incoming_announcement_age_millis) + spec_u128_be(
        c.max_incoming_announcement_future_millis,
    ) + spec_u128_be(c.max_incoming_message_age_millis) + spec_u128_be(
        c.max_incoming_message_future_millis,
    ) + spec_u128_be(c.max_session_inactivity_millis) + spec_u128_be(c.keep_alive_interval_millis)
        + spec_u64_be(c.max_session_lag_length)
}

/// Encoding of an optional active session: a tag byte, then the session
/// and its two timestamps.
pub open spec fn spec_enc_opt_session(o: &Option<SessionInfo>) -> Seq<u8> {
    match o {
        None => seq![0u8],
        Some(si) => seq![1u8] + spec_enc_session(&si.session) + spec_u128_be(
            si.last_incoming_message_timestamp,
        ) + spec_u128_be(si.last_outgoing_message_timestamp),
    }
}

/// Encoding of an optional incoming initiation request.
pub open spec fn spec_enc_opt_in(o: &Option<IncomingInitiationRequest>) -> Seq<u8> {
    match o {
        None => seq![0u8],
        Some(req) => seq![1u8] + spec_enc_in_req(req),
    }
}

/// Encoding of an optional outgoing initiation request.
pub open spec fn spec_enc_opt_out(o: &Option<OutgoingInitiationRequest>) -> Seq<u8> {
    match o {
        None => seq![0u8],
        Some(req) => seq![1u8] + spec_enc_out_req(req),
    }
}

/// Encoding of one peer info: three tagged optional parts.
pub open spec fn spec_enc_peer_info(info: &PeerInfo) -> Seq<u8> {
    spec_enc_opt_session(&info.active_session) + spec_enc_opt_in(&info.latest_incoming_init_request)
        + spec_enc_opt_out(&info.latest_outgoing_init_request)
}

/// Encoding of one peer table entry.
pub open spec fn spec_enc_entry(entry: &(UserId, PeerInfo)) -> Seq<u8> {
    spec_framed(entry.0@) + spec_enc_peer_info(&entry.1)
}

/// Encoding of the peer table, in order.
pub open spec fn spec_enc_entries(entries: Seq<(UserId, PeerInfo)>) -> Seq<u8>
    decreases entries.len(),
{
    if entries.len() == 0 {
        Seq::<u8>::empty()
    } else {
        spec_enc_entry(&entries[0]) + spec_enc_entries(entries.drop_first())
    }
}

/// Appending one entry extends the encoding by that entry's encoding.
#[verifier::spinoff_prover]
pub proof fn lemma_enc_entries_push(entries: Seq<(UserId, PeerInfo)>, entry: (UserId, PeerInfo))
    ensures
        spec_enc_entries(entries.push(entry)) == spec_enc_entries(entries) + spec_enc_entry(&entry),
    decreases entries.len(),
{
    if entries.len() == 0 {
        assert(entries.push(entry).drop_first() =~= Seq::<(UserId, PeerInfo)>::empty());
        assert(entries.push(entry)[0] == entry);
        assert(spec_enc_entries(Seq::<(UserId, PeerInfo)>::empty()) == Seq::<u8>::empty());
        assert(spec_enc_entries(entries.push(entry)) == spec_enc_entry(&entry)
            + Seq::<u8>::empty());
        assert(spec_enc_entries(entries.push(entry)) =~= spec_enc_entries(entries)
            + spec_enc_entry(&entry));
    } else {
        assert(entries.push(entry).drop_first() =~= entries.drop_first().push(entry));
        assert(entries.push(entry)[0] == entries[0]);
        lemma_enc_entries_push(entries.drop_first(), entry);
        assert(spec_enc_entries(entries.push(entry)) == spec_enc_entry(&entries[0])
            + spec_enc_entries(entries.drop_first().push(entry)));
        assert(spec_enc_entries(entries) == spec_enc_entry(&entries[0]) + spec_enc_entries(
            entries.drop_first(),
        ));
        assert(spec_enc_entries(entries.push(entry)) =~= spec_enc_entries(entries)
            + spec_enc_entry(&entry));
    }
}


/// Appends a tagged optional active session.
#[verifier::rlimit(60)]
fn push_opt_session(out: &mut Vec<u8>, o: &Option<SessionInfo>)
    requires
        match o {
            Some(ref si) => si.session.wf(),
            None => true,
        },
    ensures
        final(out)@ == old(out)@ + spec_enc_opt_session(o),
{
    match o {
        None => {
            out.push(0u8);
            assert(out@ =~= old(out)@ + spec_enc_opt_session(o));
        },
        Some(si) => {
            out.push(1u8);
            push_session(out, &si.session);
            push_u128_be(out, si.last_incoming_message_timestamp);
            push_u128_be(out, si.last_outgoing_message_timestamp);
            assert(out@ =~= old(out)@ + spec_enc_opt_session(o));
        },
    }
}

/// Appends a tagged optional incoming initiation request.
fn push_opt_in(out: &mut Vec<u8>, o: &Option<IncomingInitiationRequest>)
    ensures
        final(out)@ == old(out)@ + spec_enc_opt_in(o),
{
    match o {
        None => {
            out.push(0u8);
            assert(out@ =~= old(out)@ + spec_enc_opt_in(o));
        },
        Some(req) => {
            out.push(1u8);
            push_in_req(out, req);
            assert(out@ =~= old(out)@ + spec_enc_opt_in(o));
        },
    }
}

/// Appends a tagged optional outgoing initiation request.
fn push_opt_out(out: &mut Vec<u8>, o: &Option<OutgoingInitiationRequest>)
    ensures
        final(out)@ == old(out)@ + spec_enc_opt_out(o),
{
    match o {
        None => {
            out.push(0u8);
            assert(out@ =~= old(out)@ + spec_enc_opt_out(o));
        },
        Some(req) => {
            out.push(1u8);
            push_out_req(out, req);
            assert(out@ =~= old(out)@ + spec_enc_opt_out(o));
        },
    }
}

/// Appends the encoding of one peer table entry.
#[verifier::rlimit(60)]
fn push_entry(out: &mut Vec<u8>, entry: &(UserId, PeerInfo))
    requires
        entry.1.wf(),
    ensures
        final(out)@ == old(out)@ + spec_enc_entry(entry),
{
    push_framed(out, entry.0.as_bytes());
    push_opt_session(out, &entry.1.active_session);
    push_opt_in(out, &entry.1.latest_incoming_init_request);
    push_opt_out(out, &entry.1.latest_outgoing_init_request);
    assert(out@ =~= old(out)@ + spec_enc_entry(entry));
}

/// Reads a tagged optional active session.
#[verifier::rlimit(60)]
fn read_opt_session(bytes: &[u8], at: usize) -> (r: Option<(Option<SessionInfo>, usize)>)
    ensures
        match r {
            Some((o, next)) => {
                &&& match o {
                    Some(ref si) => si.session.wf(),
                    None => true,
                }
                &&& at <= next <= bytes@.len()
                &&& spec_enc_opt_session(&o) =~= bytes@.subrange(at as int, next as int)
            },
            None => true,
        },
{
    if at >= bytes.len() {
        return None;
    }
    let tag: u8 = bytes[at];
    if tag == 0 {
        let o: Option<SessionInfo> = None;
        proof {
            assert(spec_enc_opt_session(&o) =~= bytes@.subrange(at as int, at + 1));
        }
        return Some((o, at + 1));
    }
    if tag != 1 {
        return None;
    }
    let Some((session, c2)) = read_session(bytes, at + 1) else {
        return None;
    };
    if bytes.len() - c2 < 32 {
        return None;
    }
    let last_in: u128 = read_u128_be(bytes, c2);
    let last_out: u128 = read_u128_be(bytes, c2 + 16);
    proof {
        crate::wire::lemma_u128_be_surjective(bytes@.subrange(c2 as int, c2 + 16));
        crate::wire::lemma_u128_be_surjective(bytes@.subrange(c2 + 16, c2 + 32));
    }
    let o: Option<SessionInfo> = Some(
        SessionInfo {
            session,
            last_incoming_message_timestamp: last_in,
            last_outgoing_message_timestamp: last_out,
        },
    );
    proof {
        assert(spec_enc_opt_session(&o) =~= bytes@.subrange(at as int, c2 + 32));
    }
    Some((o, c2 + 32))
}

/// Reads a tagged optional incoming initiation request.
#[verifier::rlimit(60)]
fn read_opt_in(bytes: &[u8], at: usize) -> (r: Option<(Option<IncomingInitiationRequest>, usize)>)
    ensures
        match r {
            Some((o, next)) => {
                &&& match o {
                    Some(ref req) => req.wf(),
                    None => true,
                }
                &&& at <= next <= bytes@.len()
                &&& spec_enc_opt_in(&o) =~= bytes@.subrange(at as int, next as int)
            },
            None => true,
        },
{
    if at >= bytes.len() {
        return None;
    }
    let tag: u8 = bytes[at];
    if tag == 0 {
        let o: Option<IncomingInitiationRequest> = None;
        proof {
            assert(spec_enc_opt_in(&o) =~= bytes@.subrange(at as int, at + 1));
        }
        return Some((o, at + 1));
    }
    if tag != 1 {
        return None;
    }
    let Some((req, c)) = read_in_req(bytes, at + 1) else {
        return None;
    };
    let o: Option<IncomingInitiationRequest> = Some(req);
    proof {
        assert(spec_enc_opt_in(&o) =~= bytes@.subrange(at as int, c as int));
    }
    Some((o, c))
}

/// Reads a tagged optional outgoing initiation request.
#[verifier::rlimit(60)]
fn read_opt_out(bytes: &[u8], at: usize) -> (r: Option<(Option<OutgoingInitiationRequest>, usize)>)
    ensures
        match r {
            Some((o, next)) => {
                &&& match o {
                    Some(ref req) => req.wf(),
                    None => true,
                }
                &&& at <= next <= bytes@.len()
                &&& spec_enc_opt_out(&o) =~= bytes@.subrange(at as int, next as int)
            },
            None => true,
        },
{
    if at >= bytes.len() {
        return None;
    }
    let tag: u8 = bytes[at];
    if tag == 0 {
        let o: Option<OutgoingInitiationRequest> = None;
        proof {
            assert(spec_enc_opt_out(&o) =~= bytes@.subrange(at as int, at + 1));
        }
        return Some((o, at + 1));
    }
    if tag != 1 {
        return None;
    }
    let Some((req, c)) = read_out_req(bytes, at + 1) else {
        return None;
    };
    let o: Option<OutgoingInitiationRequest> = Some(req);
    proof {
        assert(spec_enc_opt_out(&o) =~= bytes@.subrange(at as int, c as int));
    }
    Some((o, c))
}

/// Reads one peer table entry.
#[verifier::rlimit(60)]
fn read_entry(bytes: &[u8], at: usize) -> (r: Option<((UserId, PeerInfo), usize)>)
    ensures
        match r {
            Some((entry, next)) => {
                &&& entry.0.wf()
                &&& entry.1.wf()
                &&& at <= next <= bytes@.len()
                &&& spec_enc_entry(&entry) =~= bytes@.subrange(at as int, next as int)
            },
            None => true,
        },
{
    let Some((id_bytes, c_id)) = read_framed(bytes, at) else {
        return None;
    };
    if id_bytes.len() != USER_ID_SIZE {
        return None;
    }
    proof {
        crate::wire::lemma_u64_be_surjective(bytes@.subrange(at as int, at + 8));
    }
    let peer_id = UserId::from_bytes(id_bytes);
    proof {
        assert(bytes@.subrange(at as int, c_id as int) =~= spec_framed(peer_id@));
    }
    let Some((active_session, c_sess)) = read_opt_session(bytes, c_id) else {
        return None;
    };
    let Some((latest_incoming_init_request, c_in)) = read_opt_in(bytes, c_sess) else {
        return None;
    };
    let Some((latest_outgoing_init_request, c_out)) = read_opt_out(bytes, c_in) else {
        return None;
    };
    let entry: (UserId, PeerInfo) = (
        peer_id,
        PeerInfo { active_session, latest_incoming_init_request, latest_outgoing_init_request },
    );
    proof {
        assert(bytes@.subrange(at as int, c_out as int) =~= bytes@.subrange(at as int, c_id as int)
            + bytes@.subrange(c_id as int, c_sess as int) + bytes@.subrange(
            c_sess as int,
            c_in as int,
        ) + bytes@.subrange(c_in as int, c_out as int));
        assert(spec_enc_entry(&entry) == bytes@.subrange(at as int, c_id as int) + bytes@.subrange(
            c_id as int,
            c_sess as int,
        ) + bytes@.subrange(c_sess as int, c_in as int) + bytes@.subrange(
            c_in as int,
            c_out as int,
        ));
    }
    Some((entry, c_out))
}

/// The full at-rest encoding of a manager.
pub open spec fn spec_enc_manager(m: &SessionManager) -> Seq<u8> {
    spec_enc_config(&m.config) + spec_u64_be(m.peers@.len() as u64) + spec_enc_entries(m.peers@)
}

impl SessionManager {
    /// Serializes the manager state and seals it: a fresh random nonce
    /// followed by the AES-256-SIV encryption of the encoding under that
    /// nonce with empty associated data.
    #[verifier::rlimit(100)]
    #[verifier::spinoff_prover]
    pub fn to_encrypted_blob(&self, key: &aead::Key) -> (r: Option<Vec<u8>>)
        requires
            self.wf(),
            key.wf(),
        ensures
            r is Some,
            match r {
                Some(blob) => {
                    &&& blob@.len() >= aead::NONCE_SIZE
                    &&& blob@ == blob@.subrange(0, aead::NONCE_SIZE as int) + aead::siv_enc(
                        key@,
                        blob@.subrange(0, aead::NONCE_SIZE as int),
                        spec_enc_manager(self),
                        Seq::<u8>::empty(),
                    )
                },
                None => true,
            },
    {
        let mut state: Vec<u8> = Vec::new();
        push_u128_be(&mut state, self.config.max_incoming_announcement_age_millis);
        push_u128_be(&mut state, self.config.max_incoming_announcement_future_millis);
        push_u128_be(&mut state, self.config.max_incoming_message_age_millis);
        push_u128_be(&mut state, self.config.max_incoming_message_future_millis);
        push_u128_be(&mut state, self.config.max_session_inactivity_millis);
        push_u128_be(&mut state, self.config.keep_alive_interval_millis);
        push_u64_be(&mut state, self.config.max_session_lag_length);
        let count: usize = self.peers.len();
        push_u64_be(&mut state, count as u64);
        let ghost base = state@;
        let mut i: usize = 0;
        proof {
            assert(spec_enc_entries(self.peers@.subrange(0, 0)) =~= Seq::<u8>::empty());
            assert(state@ =~= base + spec_enc_entries(self.peers@.subrange(0, 0)));
        }
        while i < count
            invariant
                i <= count,
                count == self.peers@.len(),
                self.wf(),
                state@ == base + spec_enc_entries(self.peers@.subrange(0, i as int)),
            decreases count - i,
        {
            push_entry(&mut state, &self.peers[i]);
            proof {
                let prefix = self.peers@.subrange(0, i as int);
                assert(self.peers@.subrange(0, i + 1) =~= prefix.push(self.peers@[i as int]));
                lemma_enc_entries_push(prefix, self.peers@[i as int]);
                assert(state@ =~= base + spec_enc_entries(self.peers@.subrange(0, i + 1)));
            }
            i = i + 1;
        }
        proof {
            assert(self.peers@.subrange(0, count as int) =~= self.peers@);
            assert(state@ =~= spec_enc_manager(self));
        }
        let nonce_bytes = fill_random(aead::NONCE_SIZE);
        let ghost nonce_view = nonce_bytes@;
        let nonce = aead::Nonce::from_bytes(nonce_bytes);
        let empty_aad: Vec<u8> = Vec::new();
        let sealed = aead::encrypt(key, &nonce, state.as_slice(), empty_aad.as_slice());
        let mut blob: Vec<u8> = Vec::new();
        crate::wire::push_bytes(&mut blob, nonce.as_bytes());
        crate::wire::push_bytes(&mut blob, sealed.as_slice());
        proof {
            assert(empty_aad@ =~= Seq::<u8>::empty());
            assert(blob@.subrange(0, aead::NONCE_SIZE as int) =~= nonce_view);
            assert(blob@ =~= blob@.subrange(0, aead::NONCE_SIZE as int) + aead::siv_enc(
                key@,
                blob@.subrange(0, aead::NONCE_SIZE as int),
                spec_enc_manager(self),
                Seq::<u8>::empty(),
            ));
        }
        Some(blob)
    }

    /// Restores a manager from a sealed blob.  Returns nothing on any
    /// failure: a truncated blob, a failed authentication (wrong key,
    /// nonce or bytes), an encoding that does not parse to a sound state,
    /// or a table, history or posted-key list longer than
    /// [`crate::persist::MAX_DECODED_LIST`].  A returned manager is well
    /// formed and its encoding is exactly the authenticated plaintext, so
    /// loading what `to_encrypted_blob` sealed restores the sealed state.
    #[verifier::rlimit(100)]
    #[verifier::spinoff_prover]
    pub fn from_encrypted_blob(encrypted_blob: &[u8], key: &aead::Key) -> (r: Option<
        SessionManager,
    >)
        requires
            key.wf(),
        ensures
            match r {
                Some(m) => {
                    &&& m.wf()
                    &&& encrypted_blob@.len() >= aead::NONCE_SIZE
                    &&& encrypted_blob@ == encrypted_blob@.subrange(0, aead::NONCE_SIZE as int)
                        + aead::siv_enc(
                        key@,
                        encrypted_blob@.subrange(0, aead::NONCE_SIZE as int),
                        spec_enc_manager(&m),
                        Seq::<u8>::empty(),
                    )
                },
                None => true,
            },
    {
        let total: usize = encrypted_blob.len();
        if total < aead::NONCE_SIZE {
            return None;
        }
        let nonce_bytes = crate::wire::copy_range(encrypted_blob, 0, aead::NONCE_SIZE);
        let nonce = aead::Nonce::from_bytes(nonce_bytes);
        let sealed = crate::wire::copy_range(
            encrypted_blob,
            aead::NONCE_SIZE,
            total - aead::NONCE_SIZE,
        );
        let empty_aad: Vec<u8> = Vec::new();
        let Some(state) = aead::decrypt(key, &nonce, sealed.as_slice(), empty_aad.as_slice())
            else {
            return None;
        };
        let bytes: &[u8] = state.as_slice();
        if bytes.len() < 6 * 16 + 8 + 8 {
            return None;
        }
        let config = SessionManagerConfig {
            max_incoming_announcement_age_millis: read_u128_be(bytes, 0),
            max_incoming_announcement_future_millis: read_u128_be(bytes, 16),
            max_incoming_message_age_millis: read_u128_be(bytes, 32),
            max_incoming_message_future_millis: read_u128_be(bytes, 48),
            max_session_inactivity_millis: read_u128_be(bytes, 64),
            keep_alive_interval_millis: read_u128_be(bytes, 80),
            max_session_lag_length: read_u64_be(bytes, 96),
        };
        let count64: u64 = read_u64_be(bytes, 104);
        if count64 > crate::persist::MAX_DECODED_LIST {
            return None;
        }
        let count: usize = count64 as usize;
        let mut peers: Vec<(UserId, PeerInfo)> = Vec::new();
        let mut cursor: usize = 112;
        let mut i: usize = 0;
        proof {
            assert(spec_enc_entries(peers@) =~= Seq::<u8>::empty());
            assert(bytes@.subrange(112, cursor as int) =~= Seq::<u8>::empty());
        }
        while i < count
            invariant
                i <= count,
                peers@.len() == i,
                112 <= cursor <= bytes@.len(),
                spec_enc_entries(peers@) =~= bytes@.subrange(112, cursor as int),
                forall|j: int|
                    0 <= j < i ==> {
                        &&& (#[trigger] peers@[j]).0.wf()
                        &&& peers@[j].1.wf()
                    },
                forall|a: int, b: int|
                    0 <= a < b < i ==> (#[trigger] peers@[a]).0@ != (#[trigger] peers@[b]).0@,
            decreases count - i,
        {
            let Some((entry, next)) = read_entry(bytes, cursor) else {
                return None;
            };
            // reject duplicate peer ids
            let mut dup: bool = false;
            let mut j: usize = 0;
            while j < peers.len()
                invariant
                    j <= peers@.len(),
                    dup == exists|k: int|
                        0 <= k < j && (#[trigger] peers@[k]).0@ == entry.0@,
                decreases peers@.len() - j,
            {
                if crate::wire::eq_bytes(peers[j].0.as_bytes(), entry.0.as_bytes()) {
                    dup = true;
                }
                j = j + 1;
            }
            if dup {
                return None;
            }
            proof {
                lemma_enc_entries_push(peers@, entry);
            }
            cursor = next;
            peers.push(entry);
            proof {
                assert(spec_enc_entries(peers@) =~= bytes@.subrange(112, cursor as int));
            }
            i = i + 1;
        }
        if cursor != bytes.len() {
            return None;
        }
        let m = SessionManager { config, peers };
        proof {
            crate::wire::lemma_u128_be_surjective(bytes@.subrange(0, 16));
            crate::wire::lemma_u128_be_surjective(bytes@.subrange(16, 32));
            crate::wire::lemma_u128_be_surjective(bytes@.subrange(32, 48));
            crate::wire::lemma_u128_be_surjective(bytes@.subrange(48, 64));
            crate::wire::lemma_u128_be_surjective(bytes@.subrange(64, 80));
            crate::wire::lemma_u128_be_surjective(bytes@.subrange(80, 96));
            crate::wire::lemma_u64_be_surjective(bytes@.subrange(96, 104));
            crate::wire::lemma_u64_be_surjective(bytes@.subrange(104, 112));
            assert(spec_enc_manager(&m) =~= bytes@);
            assert(encrypted_blob@ =~= encrypted_blob@.subrange(0, aead::NONCE_SIZE as int)
                + sealed@);
        }
        Some(m)
    }
}

} // verus!
