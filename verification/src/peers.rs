//! Peer metadata: who is connected, in which direction, and how well each
//! peer has behaved.

use vstd::prelude::*;
use crate::channel::send_unbounded;
use crate::handle::NetworkHandleMessage;
use crate::primitives::PeerId;
use crate::shared::{new_table, read_table, share_table, write_table};

verus! {

/// The reputation a peer starts with.
pub const DEFAULT_REPUTATION: i32 = 0;

/// The step in which reputation is measured; a penalty is a multiple of it.
pub const REPUTATION_UNIT: i32 = -1024;

/// A peer whose reputation is at or below this value is banned.
pub const BANNED_REPUTATION: i32 = -51200;

/// Who opened the session.
#[derive(Clone, Copy, Debug, PartialEq, Eq, Structural)]
pub enum Direction {
    /// The peer connected to this node.
    Incoming,
    /// This node connected to the peer.
    Outgoing,
}

/// Why a peer's reputation changes.
#[derive(Clone, Copy, Debug, PartialEq, Eq, Structural)]
pub enum ReputationChangeKind {
    /// The peer sent a message that is not well formed.
    BadMessage,
    /// The peer sent a transaction that the pool found invalid.
    BadTransaction,
    /// The peer sent a transaction that was known already.
    AlreadySeenTransaction,
    /// The peer sent a data request while the request queue was full.
    RequestOverflow,
    /// The peer broke the protocol beyond repair.
    BadProtocol,
}

impl ReputationChangeKind {
    /// By how much a change of this kind moves a reputation.
    pub open spec fn weight_of(self) -> int {
        match self {
            ReputationChangeKind::BadMessage => 16 * REPUTATION_UNIT,
            ReputationChangeKind::BadTransaction => 16 * REPUTATION_UNIT,
            ReputationChangeKind::AlreadySeenTransaction => 0,
            ReputationChangeKind::RequestOverflow => 4 * REPUTATION_UNIT,
            ReputationChangeKind::BadProtocol => i32::MIN as int,
        }
    }

    /// By how much a change of this kind moves a reputation.
    pub fn weight(self) -> (r: i32)
        ensures
            r == self.weight_of(),
    {
        match self {
            ReputationChangeKind::BadMessage => -16384,
            ReputationChangeKind::BadTransaction => -16384,
            ReputationChangeKind::AlreadySeenTransaction => 0,
            ReputationChangeKind::RequestOverflow => -4096,
            ReputationChangeKind::BadProtocol => i32::MIN,
        }
    }
}

/// The reputation that results from moving `reputation` by `weight`, kept
/// within the range of `i32`.
pub open spec fn reputation_after(reputation: i32, weight: int) -> i32 {
    let sum = reputation + weight;
    if sum < i32::MIN {
        i32::MIN
    } else if sum > i32::MAX {
        i32::MAX
    } else {
        sum as i32
    }
}

/// Moves `reputation` by the weight of `kind`, saturating at the ends of the
/// range.
pub fn apply_reputation_change(reputation: i32, kind: ReputationChangeKind) -> (r: i32)
    ensures
        r == reputation_after(reputation, kind.weight_of()),
{
    let weight: i32 = kind.weight();
    let sum: i64 = reputation as i64 + weight as i64;
    if sum < i32::MIN as i64 {
        i32::MIN
    } else if sum > i32::MAX as i64 {
        i32::MAX
    } else {
        sum as i32
    }
}

/// Whether a peer of this reputation is banned.
pub open spec fn banned(reputation: i32) -> bool {
    reputation <= BANNED_REPUTATION
}

/// Tells whether a peer of this reputation is banned.
pub fn is_banned(reputation: i32) -> (r: bool)
    ensures
        r == banned(reputation),
{
    reputation <= BANNED_REPUTATION
}

/// What the network manager keeps of one active session.
#[derive(Clone, Copy, Debug, PartialEq, Eq, Structural)]
pub struct PeerSession {
    /// The peer at the other end.
    pub peer: PeerId,
    /// Who opened the session.
    pub direction: Direction,
    /// The protocol version both sides agreed on.
    pub eth_version: u8,
    /// How well the peer has behaved.
    pub reputation: i32,
}

/// Whether `sessions` holds a session with `peer`.
pub open spec fn connected(sessions: Seq<PeerSession>, peer: PeerId) -> bool {
    exists|i: int| 0 <= i < sessions.len() && (#[trigger] sessions[i]).peer == peer
}

/// Whether no two sessions of `sessions` are with the same peer.
pub open spec fn unique_peers(sessions: Seq<PeerSession>) -> bool {
    forall|i: int, j: int|
        0 <= i < j < sessions.len() ==> (#[trigger] sessions[i]).peer != (#[trigger] sessions[j]).peer
}

/// The place of the first session with `peer`, or the length of `sessions`
/// where there is none.
pub open spec fn position(sessions: Seq<PeerSession>, peer: PeerId) -> int
    decreases sessions.len(),
{
    if sessions.len() == 0 {
        0
    } else if sessions.first().peer == peer {
        0
    } else {
        1 + position(sessions.drop_first(), peer)
    }
}

/// `position` stays within the sequence, points at a session with `peer`
/// exactly when there is one, and no earlier session is with `peer`.
pub proof fn lemma_position(sessions: Seq<PeerSession>, peer: PeerId)
    ensures
        0 <= position(sessions, peer) <= sessions.len(),
        connected(sessions, peer) <==> position(sessions, peer) < sessions.len(),
        position(sessions, peer) < sessions.len() ==> sessions[position(sessions, peer)].peer == peer,
        forall|i: int| 0 <= i < position(sessions, peer) ==> (#[trigger] sessions[i]).peer != peer,
    decreases sessions.len(),
{
    if sessions.len() == 0 {
    } else if sessions.first().peer == peer {
        assert(sessions[0].peer == peer);
    } else {
        let rest = sessions.drop_first();
        lemma_position(rest, peer);
        assert forall|i: int| 0 <= i < position(sessions, peer) implies (#[trigger] sessions[i]).peer != peer by {
            if i > 0 {
                assert(rest[i - 1] == sessions[i]);
            }
        }
        if connected(sessions, peer) {
            let i = choose|i: int| 0 <= i < sessions.len() && (#[trigger] sessions[i]).peer == peer;
            assert(rest[i - 1] == sessions[i]);
        }
        if position(rest, peer) < rest.len() {
            assert(sessions[position(rest, peer) + 1] == rest[position(rest, peer)]);
        }
    }
}

/// Looks for the session with `peer`.
pub fn find_session(sessions: &Vec<PeerSession>, peer: PeerId) -> (r: Option<usize>)
    ensures
        r matches Some(i) ==> i == position(sessions@, peer) && i < sessions.len(),
        r is None ==> !connected(sessions@, peer),
        r is Some <==> connected(sessions@, peer),
{
    let mut i: usize = 0;
    while i < sessions.len()
        invariant
            i <= sessions.len(),
            forall|k: int| 0 <= k < i ==> (#[trigger] sessions@[k]).peer != peer,
        decreases sessions.len() - i,
    {
        if sessions[i].peer == peer {
            proof {
                lemma_position(sessions@, peer);
            }
            return Some(i);
        }
        i += 1;
    }
    proof {
        lemma_position(sessions@, peer);
    }
    None
}

/// `sessions` with the reputation of the first session with `peer` moved by
/// the weight of `kind`; `sessions` itself where there is no such session.
pub open spec fn with_reputation_change(
    sessions: Seq<PeerSession>,
    peer: PeerId,
    kind: ReputationChangeKind,
) -> Seq<PeerSession> {
    let i = position(sessions, peer);
    if i < sessions.len() {
        sessions.update(
            i,
            PeerSession { reputation: reputation_after(sessions[i].reputation, kind.weight_of()), ..sessions[i] },
        )
    } else {
        sessions
    }
}

/// A shareable accessor to the peer set of the network manager. Every
/// change is a command that the manager applies; what the manager knows of
/// its sessions it publishes in a table that every clone of the handle
/// reads.
#[derive(Debug)]
pub struct PeersHandle {
    pub(crate) to_manager: tokio::sync::mpsc::UnboundedSender<NetworkHandleMessage>,
    pub(crate) table: std::sync::Arc<std::sync::RwLock<Vec<PeerSession>>>,
}

impl PeersHandle {
    /// The sending end that carries this handle's commands.
    pub closed spec fn commands(&self) -> tokio::sync::mpsc::UnboundedSender<NetworkHandleMessage> {
        self.to_manager
    }

    /// A handle whose commands travel through `to_manager`, with a table of
    /// its own that holds no session.
    pub fn new(to_manager: tokio::sync::mpsc::UnboundedSender<NetworkHandleMessage>) -> (r: PeersHandle)
        ensures
            r.commands() == to_manager,
    {
        PeersHandle { to_manager, table: std::sync::Arc::new(new_table(Vec::new())) }
    }

    /// Asks the manager to change the reputation of `peer`. The command is
    /// handed back when the manager is gone.
    pub fn reputation_change(&self, peer: PeerId, kind: ReputationChangeKind) -> (r: Result<(), NetworkHandleMessage>)
        ensures
            r matches Err(m) ==> m == (NetworkHandleMessage::ReputationChange { peer, kind }),
    {
        send_unbounded(&self.to_manager, NetworkHandleMessage::ReputationChange { peer, kind })
    }

    /// Asks the manager to close the session with `peer`. The command is
    /// handed back when the manager is gone.
    pub fn disconnect_peer(&self, peer: PeerId) -> (r: Result<(), NetworkHandleMessage>)
        ensures
            r matches Err(m) ==> m == (NetworkHandleMessage::DisconnectPeer { peer }),
    {
        send_unbounded(&self.to_manager, NetworkHandleMessage::DisconnectPeer { peer })
    }

    /// The sessions as the manager published them last, oldest first.
    pub fn sessions(&self) -> (r: Vec<PeerSession>)
    {
        read_table(&self.table)
    }

    /// What the manager published last of the session with `peer`, where it
    /// published one: the first session with `peer` among
    /// [`PeersHandle::sessions`].
    pub fn session(&self, peer: PeerId) -> (r: Option<PeerSession>)
        ensures
            r matches Some(s) ==> s.peer == peer,
    {
        session_of(&self.sessions(), peer)
    }

    /// Puts `sessions` in the place of what was published before.
    pub(crate) fn publish(&self, sessions: Vec<PeerSession>)
    {
        write_table(&self.table, sessions)
    }
}

/// The first session with `peer` among `sessions`, where there is one.
pub fn session_of(sessions: &Vec<PeerSession>, peer: PeerId) -> (r: Option<PeerSession>)
    ensures
        match r {
            Some(s) => connected(sessions@, peer) && s == sessions@[position(sessions@, peer)] && s.peer == peer,
            None => !connected(sessions@, peer),
        },
{
    proof {
        lemma_position(sessions@, peer);
    }
    match find_session(sessions, peer) {
        Some(i) => Some(sessions[i]),
        None => None,
    }
}

impl Clone for PeersHandle {
    /// The clone sends its commands to the same manager and reads the same
    /// table.
    fn clone(&self) -> (r: Self)
        ensures
            r == *self,
    {
        PeersHandle {
            to_manager: crate::channel::clone_unbounded_sender(&self.to_manager),
            table: share_table(&self.table),
        }
    }
}

} // verus!
