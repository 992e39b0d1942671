//! The heartbeat scheduler: what a validating node decides at each height.
//!
//! The node first asks whether a heartbeat is due. If one is, it queries its
//! RPC endpoint for the peers it is connected to, and from the answer and a
//! random delay the scheduler composes the claim to sign and submit. The
//! query, the random seed, the signature and the submission are the caller's.

use crate::base58::{base58_bytes, decode};
use crate::bytes::views;
use crate::discovery::{HttpError, PeerInfo};
use crate::heartbeat::HeartBeatPayload;
use crate::registry::{Pallet, State};
use vstd::prelude::*;

verus! {

/// Upper bound, exclusive, of the random delay between a heartbeat and the
/// height from which the next one is due.
pub const JITTER_RANGE: u32 = 10;

/// The number that the first four bytes of a seed spell, lowest byte first.
pub open spec fn seed_word(seed: Seq<u8>) -> nat {
    (seed[0] + 256 * seed[1] + 65536 * seed[2] + 16777216 * seed[3]) as nat
}

/// The delay that a random seed gives: its leading number, reduced to the
/// range of delays.
pub open spec fn jitter_of(seed: Seq<u8>) -> nat {
    seed_word(seed) % (JITTER_RANGE as nat)
}

/// Draws the delay before the next heartbeat from a random seed. A delay of
/// 0 lets the node send again at the next height.
pub fn jitter(seed: &[u8; 32]) -> (delay: u32)
    ensures
        delay == jitter_of(seed@),
        delay < JITTER_RANGE,
{
    let word: u32 = seed[0] as u32 + 256 * (seed[1] as u32) + 65536 * (seed[2] as u32) + 16777216
        * (seed[3] as u32);
    word % JITTER_RANGE
}

/// What makes `payload` the claim a node composes at height `block_number`:
/// it is dated at that height, declares the key `public`, names `local` as
/// its sender, vouches for the sender and then for those of the `found`
/// peers that are registered, and proposes the height `rand` blocks later
/// for the sender's next heartbeat.
pub open spec fn composed(
    state: State,
    payload: HeartBeatPayload,
    block_number: u32,
    public: Seq<u8>,
    rand: u32,
    local: Seq<u8>,
    found: Seq<Seq<u8>>,
) -> bool {
    &&& payload.block_number == block_number
    &&& payload.public@ == public
    &&& payload.next_block_number == block_number + rand
    &&& payload.local_peer_id@ == local
    &&& payload.peers() == seq![local] + state.known(found)
}

/// What the node does next at a height.
#[derive(Debug, PartialEq, Eq)]
pub enum WorkerStep {
    /// Nothing: the node does not validate, or no heartbeat is due yet.
    Idle,
    /// Query the connected peers, then compose a heartbeat as `local_peer_id`.
    QueryPeers { local_peer_id: Vec<u8> },
}

/// The byte strings the peers' base-58 names stand for, if every name is base 58.
pub open spec fn decoded(peers: Seq<PeerInfo>) -> Option<Seq<Seq<u8>>> {
    if forall|i: int| 0 <= i < peers.len() ==> base58_bytes(#[trigger] peers[i].peer_id@).is_some() {
        Some(Seq::new(peers.len(), |i: int| base58_bytes(peers[i].peer_id@).unwrap()))
    } else {
        None
    }
}

/// A node's own peer identity: the identity its network layer reports,
/// without the leading byte.
pub fn local_peer_id(network_peer_id: Vec<u8>) -> (local: Vec<u8>)
    requires
        network_peer_id@.len() > 0,
    ensures
        local@ == network_peer_id@.drop_first(),
{
    let mut local = network_peer_id;
    local.remove(0);
    assert(local@ =~= network_peer_id@.drop_first());
    local
}

/// Reads the identities of the discovered peers from their base-58 names.
/// Fails if any name is not base 58.
pub fn decode_peers(peers: &Vec<PeerInfo>) -> (ids: Option<Vec<Vec<u8>>>)
    ensures
        match ids {
            Some(list) => decoded(peers@) == Some(views(list@)),
            None => decoded(peers@).is_none(),
        },
{
    let mut list: Vec<Vec<u8>> = Vec::new();
    let mut i: usize = 0;
    while i < peers.len()
        invariant
            i <= peers.len(),
            list@.len() == i,
            forall|j: int|
                0 <= j < i ==> base58_bytes(#[trigger] peers[j].peer_id@) == Some(list@[j]@),
        decreases peers.len() - i,
    {
        match decode(&peers[i].peer_id) {
            Some(id) => {
                list.push(id);
            },
            None => {
                return None;
            },
        }
        i += 1;
    }
    proof {
        assert(views(list@) =~= decoded(peers@).unwrap());
    }
    Some(list)
}

impl Pallet {
    /// Whether `local_peer_id` may send a heartbeat at height `block_number`.
    pub fn heartbeat_due(&self, local_peer_id: &Vec<u8>, block_number: u32) -> (due: bool)
        requires
            self.inv(),
        ensures
            due == self@.due(local_peer_id@, block_number),
    {
        block_number >= self.heartbeat_after(local_peer_id)
    }

    /// Decides what the node does at height `block_number`.
    ///
    /// A node that does not validate stays idle, and so does one whose next
    /// heartbeat is not due yet. Otherwise the node is to query its peers.
    pub fn offchain_worker(
        &self,
        is_validator: bool,
        block_number: u32,
        network_peer_id: Vec<u8>,
    ) -> (step: WorkerStep)
        requires
            self.inv(),
            is_validator ==> network_peer_id@.len() > 0,
        ensures
            match step {
                WorkerStep::Idle => !is_validator || !self@.due(
                    network_peer_id@.drop_first(),
                    block_number,
                ),
                WorkerStep::QueryPeers { local_peer_id } => {
                    &&& is_validator
                    &&& local_peer_id@ == network_peer_id@.drop_first()
                    &&& self@.due(local_peer_id@, block_number)
                },
            },
    {
        if !is_validator {
            return WorkerStep::Idle;
        }
        let local = local_peer_id(network_peer_id);
        if self.heartbeat_due(&local, block_number) {
            WorkerStep::QueryPeers { local_peer_id: local }
        } else {
            WorkerStep::Idle
        }
    }

    /// Lists the peers a heartbeat vouches for: the sender itself, then every
    /// discovered peer that is registered, in the order of discovery.
    pub fn believed_online(&self, local_peer_id: Vec<u8>, discovered: &Vec<Vec<u8>>) -> (list: Vec<
        Vec<u8>,
    >)
        requires
            self.inv(),
        ensures
            views(list@) == seq![local_peer_id@] + self@.known(views(discovered@)),
    {
        let ghost state = self@;
        let ghost found = views(discovered@);
        let ghost registered = |peer: Seq<u8>| state.registered().contains(peer);
        let mut list: Vec<Vec<u8>> = Vec::new();
        list.push(local_peer_id);
        let mut i: usize = 0;
        proof {
            reveal(Seq::filter);
            assert(found.take(0).filter(registered) =~= Seq::<Seq<u8>>::empty());
            assert(views(list@) =~= seq![local_peer_id@] + found.take(0).filter(registered));
        }
        while i < discovered.len()
            invariant
                self.inv(),
                state == self@,
                found == views(discovered@),
                registered == |peer: Seq<u8>| state.registered().contains(peer),
                i <= discovered.len(),
                views(list@) == seq![local_peer_id@] + found.take(i as int).filter(registered),
            decreases discovered.len() - i,
        {
            let ghost before = views(list@);
            proof {
                reveal(Seq::filter);
                assert(found.take(i as int + 1).drop_last() =~= found.take(i as int));
                assert(found.take(i as int + 1).last() == discovered@[i as int]@);
            }
            if self.contains(&discovered[i]) {
                let peer = discovered[i].clone();
                assert(peer@ == discovered@[i as int]@);
                list.push(peer);
                proof {
                    assert(views(list@) =~= before.push(discovered@[i as int]@));
                    assert(views(list@) =~= seq![local_peer_id@] + found.take(
                        i as int + 1,
                    ).filter(registered));
                }
            }
            i += 1;
        }
        proof {
            assert(found.take(i as int) =~= found);
        }
        list
    }

    /// Composes the heartbeat claim a node sends at height `block_number`.
    ///
    /// `discovery` is the outcome of the peer query, `rand` the random delay
    /// drawn for this height and `public` the key the claim will be signed
    /// with. No claim is composed if the query failed or if a discovered peer
    /// has a name that is not base 58: the node then stays silent at this
    /// height. Otherwise the claim vouches for the sender and for every
    /// discovered peer that is registered, and proposes `block_number + rand`
    /// as the height of the sender's next heartbeat.
    pub fn prepare_heartbeat(
        &self,
        block_number: u32,
        public: Vec<u8>,
        rand: u32,
        local_peer_id: Vec<u8>,
        discovery: &Result<Vec<PeerInfo>, HttpError>,
    ) -> (claim: Option<HeartBeatPayload>)
        requires
            self.inv(),
            block_number + rand <= u32::MAX,
        ensures
            match claim {
                Some(payload) => {
                    &&& discovery matches Ok(peers)
                    &&& decoded(peers@) matches Some(found)
                    &&& composed(
                        self@,
                        payload,
                        block_number,
                        public@,
                        rand,
                        local_peer_id@,
                        found,
                    )
                },
                None => discovery matches Ok(peers) ==> decoded(peers@).is_none(),
            },
    {
        let peers = match discovery {
            Ok(peers) => peers,
            Err(_) => {
                return None;
            },
        };
        let found = match decode_peers(peers) {
            Some(found) => found,
            None => {
                return None;
            },
        };
        let sender = local_peer_id.clone();
        assert(sender@ == local_peer_id@);
        let peer_id_vec = self.believed_online(sender, &found);
        Some(
            HeartBeatPayload {
                block_number,
                public,
                next_block_number: block_number + rand,
                local_peer_id,
                peer_id_vec,
            },
        )
    }
}

} // verus!
