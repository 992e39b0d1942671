//! The masternode registry: the bounded set of registered peers, the liveness
//! record of each, and the height from which each node may next send a
//! heartbeat. All of it is owned by one value and changed only through the
//! operations below.

use crate::base58::{base58_text, encode};
use crate::bytes::{lemma_ascending_distinct, sorted};
use crate::heartbeat::HeartBeatPayload;
use crate::peer_map::PeerMap;
use crate::status::{effective_status, is_stale, MasternodeDetails, MasternodeStatus};
use vstd::prelude::*;

verus! {

/// Blocks without a heartbeat after which a status query reports a node off line.
pub const DEFAULT_QUERY_THRESHOLD: u32 = 600;

/// Blocks without a heartbeat after which a sweep marks a stored record off line.
pub const DEFAULT_SWEEP_THRESHOLD: u32 = 120;

/// The limits and thresholds a registry works with.
#[derive(Clone, Copy, Debug, PartialEq, Eq, Structural)]
pub struct Config {
    /// The registry never holds more peers than this.
    pub max_masternodes: u32,
    /// A peer identity must be shorter than this many bytes.
    pub max_peer_id_length: u32,
    /// Staleness threshold applied when answering status queries.
    pub query_threshold: u32,
    /// Staleness threshold applied when sweeping stored records.
    pub sweep_threshold: u32,
}

/// Why a command was refused.
///
/// The registry itself refuses with `PeerIdTooLong`, `TooManyNodes`,
/// `AlreadyRegistered`, `NotExist` and `PermissionDenied`. The other kinds
/// are for a host to report what happens around the registry.
#[derive(Clone, Copy, Debug, PartialEq, Eq, Structural)]
pub enum Error {
    /// The peer identity is too long.
    PeerIdTooLong,
    /// A claim names a peer that is not a masternode.
    NotMasternode,
    /// The registry is full.
    TooManyNodes,
    /// The peer is registered already.
    AlreadyRegistered,
    /// The peer is not registered.
    NotExist,
    /// The caller does not own the node.
    NotOwner,
    /// The caller may not perform the operation.
    PermissionDenied,
    /// A heartbeat's signature does not verify.
    InvalidSignature,
    /// The balance does not cover the deposit. No deposit is taken yet.
    InsufficientFunds,
    /// An unsigned transaction could not be submitted.
    OffchainUnsignedTxError,
}

/// Who issues a command.
#[derive(Debug, PartialEq, Eq)]
pub enum Origin<A> {
    /// The privileged role that may remove any masternode.
    Root,
    /// An account that signed the command.
    Signed(A),
    /// Nobody: the command was submitted unsigned.
    Unsigned,
}

/// What a command that succeeded has done.
#[derive(Debug, PartialEq, Eq)]
pub enum Event<A> {
    /// The given masternode was registered.
    MasternodeRegistered { peer_id: Vec<u8>, who: A },
    /// The given masternode was unregistered.
    MasternodeUnregistered { peer_id: Vec<u8> },
    /// The given masternode was removed.
    MasternodeRemoved { peer_id: Vec<u8> },
    /// A heartbeat of the given masternode was executed. Executing a claim
    /// is silent for now; the variant is there for hosts that announce it.
    MasternodeHeartBeat { peer_id: Vec<u8>, block_number: u32 },
}

impl<A> Event<A> {
    /// The peer the event is about.
    pub open spec fn peer(self) -> Seq<u8> {
        match self {
            Event::MasternodeRegistered { peer_id, .. } => peer_id@,
            Event::MasternodeUnregistered { peer_id } => peer_id@,
            Event::MasternodeRemoved { peer_id } => peer_id@,
            Event::MasternodeHeartBeat { peer_id, .. } => peer_id@,
        }
    }
}

/// What the registry knows, as mathematical maps.
#[verifier::ext_equal]
pub struct State {
    pub config: Config,
    /// The liveness record of every registered peer.
    pub masternodes: Map<Seq<u8>, MasternodeDetails>,
    /// The height from which each node may send its next heartbeat.
    pub heartbeat_after: Map<Seq<u8>, u32>,
}

/// The record a peer gets when it registers at height `now`.
pub open spec fn fresh(now: u32) -> MasternodeDetails {
    MasternodeDetails {
        created_block_number: now,
        updated_block_number: now,
        status: MasternodeStatus::OnLine,
    }
}

/// A record after a heartbeat seen at `height`.
pub open spec fn refreshed(record: MasternodeDetails, height: u32) -> MasternodeDetails {
    MasternodeDetails {
        created_block_number: record.created_block_number,
        updated_block_number: height,
        status: MasternodeStatus::OnLine,
    }
}

/// A record as it is shown at `height`: its status is recomputed from the age
/// of its last heartbeat, whatever status is stored.
pub open spec fn shown(record: MasternodeDetails, height: u32, threshold: u32) -> MasternodeDetails {
    MasternodeDetails {
        created_block_number: record.created_block_number,
        updated_block_number: record.updated_block_number,
        status: if is_stale(record.updated_block_number, height, threshold) {
            MasternodeStatus::OffLine
        } else {
            MasternodeStatus::OnLine
        },
    }
}

/// A record after a sweep at `height`: marked off line if stale, untouched otherwise.
pub open spec fn swept(record: MasternodeDetails, height: u32, threshold: u32) -> MasternodeDetails {
    if is_stale(record.updated_block_number, height, threshold) {
        MasternodeDetails {
            created_block_number: record.created_block_number,
            updated_block_number: record.updated_block_number,
            status: MasternodeStatus::OffLine,
        }
    } else {
        record
    }
}

impl State {
    /// The registered peers.
    pub open spec fn registered(self) -> Set<Seq<u8>> {
        self.masternodes.dom()
    }

    /// Both maps are finite, the registered set respects its bound, and every
    /// registered identity is shorter than the length limit.
    pub open spec fn wf(self) -> bool {
        &&& self.masternodes.dom().finite()
        &&& self.heartbeat_after.dom().finite()
        &&& self.masternodes.dom().len() <= self.config.max_masternodes
        &&& forall|peer: Seq<u8>| #[trigger]
            self.masternodes.contains_key(peer) ==> peer.len() < self.config.max_peer_id_length
    }

    /// Whether `peer` may register: the identity must be short enough, the
    /// registry must have room, and the peer must not be registered yet. The
    /// first condition that fails names the error.
    pub open spec fn register_outcome(self, peer: Seq<u8>) -> Result<(), Error> {
        if peer.len() >= self.config.max_peer_id_length {
            Err(Error::PeerIdTooLong)
        } else if self.registered().len() >= self.config.max_masternodes {
            Err(Error::TooManyNodes)
        } else if self.registered().contains(peer) {
            Err(Error::AlreadyRegistered)
        } else {
            Ok(())
        }
    }

    /// The state after an attempt to register `peer` at height `now`: the peer
    /// gets a fresh record if it may register, and nothing changes if not.
    pub open spec fn register(self, peer: Seq<u8>, now: u32) -> State {
        if self.register_outcome(peer) is Ok {
            State { masternodes: self.masternodes.insert(peer, fresh(now)), ..self }
        } else {
            self
        }
    }

    /// Whether `peer` can be taken out of the registry.
    pub open spec fn remove_outcome(self, peer: Seq<u8>) -> Result<(), Error> {
        if self.registered().contains(peer) {
            Ok(())
        } else {
            Err(Error::NotExist)
        }
    }

    /// The state after an attempt to take `peer` out: its record is gone.
    /// Nothing changes if the peer was not registered.
    pub open spec fn remove(self, peer: Seq<u8>) -> State {
        State { masternodes: self.masternodes.remove(peer), ..self }
    }

    /// The state after a heartbeat for `peer` seen at `height`. A peer that is
    /// not registered is ignored.
    pub open spec fn apply_heartbeat(self, peer: Seq<u8>, height: u32) -> State {
        if self.masternodes.contains_key(peer) {
            State {
                masternodes: self.masternodes.insert(
                    peer,
                    refreshed(self.masternodes[peer], height),
                ),
                ..self
            }
        } else {
            self
        }
    }

    /// The stored record of `peer`, if it is registered.
    pub open spec fn get(self, peer: Seq<u8>) -> Option<MasternodeDetails> {
        if self.masternodes.contains_key(peer) {
            Some(self.masternodes[peer])
        } else {
            None
        }
    }

    /// The state after heartbeats, seen at `height`, for every peer in `peers`:
    /// the records of the registered ones among them are refreshed, and no
    /// other record changes.
    pub open spec fn apply_heartbeats(self, peers: Seq<Seq<u8>>, height: u32) -> State {
        State {
            masternodes: Map::new(
                |peer: Seq<u8>| self.masternodes.contains_key(peer),
                |peer: Seq<u8>|
                    if peers.contains(peer) {
                        refreshed(self.masternodes[peer], height)
                    } else {
                        self.masternodes[peer]
                    },
            ),
            ..self
        }
    }

    /// The state after an admitted heartbeat claim is executed: every peer the
    /// claim lists gets a heartbeat at the claim's height, and the sender may
    /// send again from the height the claim proposes.
    pub open spec fn execute_heartbeat(self, payload: HeartBeatPayload) -> State {
        State {
            heartbeat_after: self.heartbeat_after.insert(
                payload.local_peer_id@,
                payload.next_block_number,
            ),
            ..self.apply_heartbeats(payload.peers(), payload.block_number)
        }
    }

    /// The state after a sweep at `height`: every record that is stale by the
    /// sweep threshold is marked off line.
    pub open spec fn sweep(self, height: u32) -> State {
        State {
            masternodes: self.masternodes.map_values(
                |record: MasternodeDetails| swept(record, height, self.config.sweep_threshold),
            ),
            ..self
        }
    }

    /// The record of `peer` as a status query at `height` shows it.
    pub open spec fn status(self, peer: Seq<u8>, height: u32) -> Option<MasternodeDetails> {
        if self.masternodes.contains_key(peer) {
            Some(shown(self.masternodes[peer], height, self.config.query_threshold))
        } else {
            None
        }
    }

    /// The height from which `peer` may send its next heartbeat: 0 until one
    /// of its heartbeats has been executed.
    pub open spec fn next_heartbeat(self, peer: Seq<u8>) -> u32 {
        if self.heartbeat_after.contains_key(peer) {
            self.heartbeat_after[peer]
        } else {
            0
        }
    }

    /// Whether `peer` may send a heartbeat at `height`.
    pub open spec fn due(self, peer: Seq<u8>, height: u32) -> bool {
        height >= self.next_heartbeat(peer)
    }

    /// The registered peers that are among `candidates`, in the candidates' order.
    pub open spec fn known(self, candidates: Seq<Seq<u8>>) -> Seq<Seq<u8>> {
        candidates.filter(|peer: Seq<u8>| self.registered().contains(peer))
    }

    /// The full snapshot shown at `height`: every registered peer in ascending
    /// order of identity, named in base 58, with its record as a status query
    /// shows it.
    pub open spec fn info(self, height: u32) -> Seq<(Seq<char>, MasternodeDetails)> {
        let order = sorted(self.registered());
        Seq::new(
            order.len(),
            |i: int|
                (
                    base58_text(order[i]),
                    shown(self.masternodes[order[i]], height, self.config.query_threshold),
                ),
        )
    }
}

/// Heartbeats for the first `i + 1` peers of a list are heartbeats for the
/// first `i` followed by one for the next.
proof fn lemma_heartbeats_step(s: State, peers: Seq<Seq<u8>>, i: int, height: u32)
    requires
        0 <= i < peers.len(),
    ensures
        s.apply_heartbeats(peers.take(i), height).apply_heartbeat(peers[i], height)
            == s.apply_heartbeats(peers.take(i + 1), height),
{
    let mid = s.apply_heartbeats(peers.take(i), height);
    let left = mid.apply_heartbeat(peers[i], height);
    let right = s.apply_heartbeats(peers.take(i + 1), height);
    let head = peers.take(i);
    let more = peers.take(i + 1);
    assert(more =~= head.push(peers[i]));
    assert forall|k: Seq<u8>| left.masternodes.contains_key(k) implies #[trigger] left.masternodes[k]
        == right.masternodes[k] by {
        if k == peers[i] {
            assert(more[i] == k);
        } else if head.contains(k) {
            let j = head.index_of(k);
            assert(more[j] == k);
        } else if more.contains(k) {
            let j = more.index_of(k);
            assert(head[j] == k);
        }
    }
    assert(left.masternodes =~= right.masternodes);
}

/// One entry of a snapshot: a peer's base-58 name and its record.
pub type InfoEntry = (String, MasternodeDetails);

/// Number of entries whose record is on line.
pub open spec fn online_count(entries: Seq<(Seq<char>, MasternodeDetails)>) -> nat {
    entries.filter(
        |entry: (Seq<char>, MasternodeDetails)| entry.1.status == MasternodeStatus::OnLine,
    ).len()
}

/// A snapshot of the registry.
#[derive(Debug, PartialEq, Eq)]
pub struct MasternodeInfo {
    /// Number of registered peers.
    pub total_nums: u16,
    /// Number of peers shown as on line.
    pub online_nums: u16,
    /// Every peer's base-58 name and record.
    pub infos: Vec<InfoEntry>,
}

impl MasternodeInfo {
    /// The entries with their names as text.
    pub open spec fn entries(&self) -> Seq<(Seq<char>, MasternodeDetails)> {
        self.infos@.map_values(|entry: InfoEntry| (entry.0@, entry.1))
    }

    /// A snapshot of `total_nums` peers that lists none of them yet.
    pub fn new(total_nums: u16) -> (info: MasternodeInfo)
        ensures
            info.total_nums == total_nums,
            info.online_nums == 0,
            info.entries() == Seq::<(Seq<char>, MasternodeDetails)>::empty(),
    {
        MasternodeInfo { total_nums, online_nums: 0, infos: Vec::new() }
    }

    /// Adds the entry of one peer and counts it if it is on line.
    pub fn add(&mut self, peer_id: String, details: MasternodeDetails)
        requires
            old(self).online_nums < u16::MAX,
        ensures
            final(self).total_nums == old(self).total_nums,
            final(self).entries() == old(self).entries().push((peer_id@, details)),
            final(self).online_nums == old(self).online_nums + (if details.status
                == MasternodeStatus::OnLine {
                1int
            } else {
                0int
            }),
            online_count(final(self).entries()) == online_count(old(self).entries()) + (
            if details.status == MasternodeStatus::OnLine {
                1int
            } else {
                0int
            }),
    {
        let ghost before = self.entries();
        match details.status {
            MasternodeStatus::OnLine => {
                self.online_nums = self.online_nums + 1;
            },
            MasternodeStatus::OffLine => {},
        }
        self.infos.push((peer_id, details));
        proof {
            let after = before.push((peer_id@, details));
            assert(self.entries() =~= after);
            assert(after.drop_last() =~= before);
            reveal(Seq::filter);
        }
    }
}

/// The registry.
pub struct Pallet {
    config: Config,
    masternodes: PeerMap<MasternodeDetails>,
    heartbeat_after: PeerMap<u32>,
}

impl View for Pallet {
    type V = State;

    closed spec fn view(&self) -> State {
        State {
            config: self.config,
            masternodes: self.masternodes@,
            heartbeat_after: self.heartbeat_after@,
        }
    }
}

impl Pallet {
    /// The representation is sound, the registered set respects its bound, and
    /// every registered identity is shorter than the length limit.
    pub closed spec fn inv(&self) -> bool {
        &&& self.masternodes.inv()
        &&& self.heartbeat_after.inv()
        &&& self.masternodes@.dom().len() <= self.config.max_masternodes
        &&& forall|peer: Seq<u8>| #[trigger]
            self.masternodes@.contains_key(peer) ==> peer.len() < self.config.max_peer_id_length
    }

    /// A sound registry has a well-formed state.
    pub proof fn lemma_inv(&self)
        requires
            self.inv(),
        ensures
            self@.wf(),
    {
        self.masternodes.lemma_keys();
        self.heartbeat_after.lemma_keys();
    }

    /// An empty registry with the given limits.
    pub fn new(config: Config) -> (pallet: Pallet)
        ensures
            pallet.inv(),
            pallet@ == (State {
                config,
                masternodes: Map::<Seq<u8>, MasternodeDetails>::empty(),
                heartbeat_after: Map::<Seq<u8>, u32>::empty(),
            }),
    {
        Pallet { config, masternodes: PeerMap::new(), heartbeat_after: PeerMap::new() }
    }

    /// The limits and thresholds of this registry.
    pub fn config(&self) -> (config: Config)
        ensures
            config == self@.config,
    {
        self.config
    }

    /// Number of registered peers.
    pub fn len(&self) -> (n: usize)
        requires
            self.inv(),
        ensures
            n == self@.registered().len(),
            n <= self@.config.max_masternodes,
    {
        proof {
            self.lemma_inv();
        }
        self.masternodes.len()
    }

    /// Whether `peer_id` is registered.
    pub fn contains(&self, peer_id: &Vec<u8>) -> (present: bool)
        requires
            self.inv(),
        ensures
            present == self@.registered().contains(peer_id@),
    {
        self.masternodes.contains_key(peer_id)
    }

    /// The stored record of `peer_id`, if it is registered.
    pub fn get(&self, peer_id: &Vec<u8>) -> (record: Option<MasternodeDetails>)
        requires
            self.inv(),
        ensures
            record == self@.get(peer_id@),
    {
        match self.masternodes.get(peer_id) {
            Some(details) => Some(*details),
            None => None,
        }
    }

    /// Registers `peer_id` at height `block_number`.
    ///
    /// Fails with `PeerIdTooLong`, `TooManyNodes` or `AlreadyRegistered`, in
    /// that order of precedence, and then changes nothing.
    pub fn register(&mut self, peer_id: Vec<u8>, block_number: u32) -> (r: Result<(), Error>)
        requires
            old(self).inv(),
        ensures
            final(self).inv(),
            r == old(self)@.register_outcome(peer_id@),
            final(self)@ == old(self)@.register(peer_id@, block_number),
    {
        if peer_id.len() >= self.config.max_peer_id_length as usize {
            return Err(Error::PeerIdTooLong);
        }
        if self.masternodes.len() >= self.config.max_masternodes as usize {
            return Err(Error::TooManyNodes);
        }
        if self.masternodes.contains_key(&peer_id) {
            return Err(Error::AlreadyRegistered);
        }
        self.masternodes.insert(
            peer_id,
            MasternodeDetails {
                created_block_number: block_number,
                updated_block_number: block_number,
                status: MasternodeStatus::OnLine,
            },
        );
        Ok(())
    }

    /// Takes `peer_id` out of the registry on its own request.
    ///
    /// Fails with `NotExist` if the peer is not registered, and then changes nothing.
    pub fn unregister(&mut self, peer_id: &Vec<u8>) -> (r: Result<(), Error>)
        requires
            old(self).inv(),
        ensures
            final(self).inv(),
            r == old(self)@.remove_outcome(peer_id@),
            final(self)@ == old(self)@.remove(peer_id@),
    {
        self.remove(peer_id)
    }

    /// Takes `peer_id` out of the registry.
    ///
    /// Fails with `NotExist` if the peer is not registered, and then changes nothing.
    pub fn remove(&mut self, peer_id: &Vec<u8>) -> (r: Result<(), Error>)
        requires
            old(self).inv(),
        ensures
            final(self).inv(),
            r == old(self)@.remove_outcome(peer_id@),
            final(self)@ == old(self)@.remove(peer_id@),
    {
        proof {
            self.masternodes.lemma_keys();
        }
        match self.masternodes.remove(peer_id) {
            Some(_) => Ok(()),
            None => Err(Error::NotExist),
        }
    }

    /// Records a heartbeat for `peer_id` seen at `height`: the record is marked
    /// on line and its last update set to `height`. A peer that is not
    /// registered is ignored, so a heartbeat never registers anyone.
    pub fn apply_heartbeat(&mut self, peer_id: &Vec<u8>, height: u32)
        requires
            old(self).inv(),
        ensures
            final(self).inv(),
            final(self)@ == old(self)@.apply_heartbeat(peer_id@, height),
    {
        let created = match self.masternodes.get(peer_id) {
            Some(details) => details.created_block_number,
            None => {
                return ;
            },
        };
        proof {
            self.masternodes.lemma_keys();
        }
        self.masternodes.update(
            peer_id,
            MasternodeDetails {
                created_block_number: created,
                updated_block_number: height,
                status: MasternodeStatus::OnLine,
            },
        );
        proof {
            assert(self.masternodes@.dom() =~= old(self).masternodes@.dom());
        }
    }

    /// The height from which `peer_id` may send its next heartbeat.
    pub fn heartbeat_after(&self, peer_id: &Vec<u8>) -> (height: u32)
        requires
            self.inv(),
        ensures
            height == self@.next_heartbeat(peer_id@),
    {
        match self.heartbeat_after.get(peer_id) {
            Some(height) => *height,
            None => 0,
        }
    }

    /// The command by which an account registers `peer_id` at height `block_number`.
    ///
    /// Only a signed origin may register; any other is refused with
    /// `PermissionDenied`. A refused command changes nothing.
    pub fn register_masternode<A>(
        &mut self,
        origin: Origin<A>,
        peer_id: Vec<u8>,
        block_number: u32,
    ) -> (r: Result<Event<A>, Error>)
        requires
            old(self).inv(),
        ensures
            final(self).inv(),
            match origin {
                Origin::Signed(who) => {
                    &&& final(self)@ == old(self)@.register(peer_id@, block_number)
                    &&& match r {
                        Ok(event) => {
                            &&& old(self)@.register_outcome(peer_id@) is Ok
                            &&& event is MasternodeRegistered
                            &&& event.peer() == peer_id@
                            &&& event->who == who
                        },
                        Err(e) => old(self)@.register_outcome(peer_id@) == Err::<(), Error>(e),
                    }
                },
                _ => final(self)@ == old(self)@ && r == Err::<Event<A>, Error>(
                    Error::PermissionDenied,
                ),
            },
    {
        match origin {
            Origin::Signed(who) => {
                let key = peer_id.clone();
                assert(key@ == peer_id@);
                match self.register(key, block_number) {
                    Ok(()) => Ok(Event::MasternodeRegistered { peer_id, who }),
                    Err(e) => Err(e),
                }
            },
            _ => Err(Error::PermissionDenied),
        }
    }

    /// The command by which an account takes `peer_id` out of the registry.
    ///
    /// Only a signed origin may unregister; any other is refused with
    /// `PermissionDenied`. A refused command changes nothing.
    pub fn unregister_masternode<A>(&mut self, origin: Origin<A>, peer_id: Vec<u8>) -> (r: Result<
        Event<A>,
        Error,
    >)
        requires
            old(self).inv(),
        ensures
            final(self).inv(),
            match origin {
                Origin::Signed(_) => {
                    &&& final(self)@ == old(self)@.remove(peer_id@)
                    &&& match r {
                        Ok(event) => {
                            &&& old(self)@.remove_outcome(peer_id@) is Ok
                            &&& event is MasternodeUnregistered
                            &&& event.peer() == peer_id@
                        },
                        Err(e) => old(self)@.remove_outcome(peer_id@) == Err::<(), Error>(e),
                    }
                },
                _ => final(self)@ == old(self)@ && r == Err::<Event<A>, Error>(
                    Error::PermissionDenied,
                ),
            },
    {
        match origin {
            Origin::Signed(_) => match self.unregister(&peer_id) {
                Ok(()) => Ok(Event::MasternodeUnregistered { peer_id }),
                Err(e) => Err(e),
            },
            _ => Err(Error::PermissionDenied),
        }
    }

    /// The command by which the privileged role takes `peer_id` out of the registry.
    ///
    /// Only the root origin may remove; any other is refused with
    /// `PermissionDenied`. A refused command changes nothing.
    pub fn remove_masternode<A>(&mut self, origin: Origin<A>, peer_id: Vec<u8>) -> (r: Result<
        Event<A>,
        Error,
    >)
        requires
            old(self).inv(),
        ensures
            final(self).inv(),
            match origin {
                Origin::Root => {
                    &&& final(self)@ == old(self)@.remove(peer_id@)
                    &&& match r {
                        Ok(event) => {
                            &&& old(self)@.remove_outcome(peer_id@) is Ok
                            &&& event is MasternodeRemoved
                            &&& event.peer() == peer_id@
                        },
                        Err(e) => old(self)@.remove_outcome(peer_id@) == Err::<(), Error>(e),
                    }
                },
                _ => final(self)@ == old(self)@ && r == Err::<Event<A>, Error>(
                    Error::PermissionDenied,
                ),
            },
    {
        match origin {
            Origin::Root => match self.remove(&peer_id) {
                Ok(()) => Ok(Event::MasternodeRemoved { peer_id }),
                Err(e) => Err(e),
            },
            _ => Err(Error::PermissionDenied),
        }
    }

    /// Executes an admitted heartbeat claim.
    ///
    /// Every peer the claim lists gets a heartbeat at the claim's height, and
    /// the sender's next heartbeat is scheduled for the height the claim
    /// proposes. The signature is not looked at again: it was checked when
    /// the claim was admitted. Only an unsigned origin may submit a claim;
    /// any other is refused with `PermissionDenied` and changes nothing.
    pub fn send_masternode_heartbeat<A>(
        &mut self,
        origin: Origin<A>,
        heartbeat_payload: HeartBeatPayload,
        _signature: Vec<u8>,
    ) -> (r: Result<(), Error>)
        requires
            old(self).inv(),
        ensures
            final(self).inv(),
            match origin {
                Origin::Unsigned => r is Ok && final(self)@ == old(self)@.execute_heartbeat(
                    heartbeat_payload,
                ),
                _ => final(self)@ == old(self)@ && r == Err::<(), Error>(Error::PermissionDenied),
            },
    {
        match origin {
            Origin::Unsigned => {},
            _ => {
                return Err(Error::PermissionDenied);
            },
        }
        let ghost peers = heartbeat_payload.peers();
        let mut i: usize = 0;
        proof {
            assert(self@.masternodes =~= old(self)@.apply_heartbeats(
                peers.take(0),
                heartbeat_payload.block_number,
            ).masternodes);
        }
        while i < heartbeat_payload.peer_id_vec.len()
            invariant
                self.inv(),
                i <= heartbeat_payload.peer_id_vec.len(),
                peers == heartbeat_payload.peers(),
                self@ == old(self)@.apply_heartbeats(
                    peers.take(i as int),
                    heartbeat_payload.block_number,
                ),
            decreases heartbeat_payload.peer_id_vec.len() - i,
        {
            proof {
                lemma_heartbeats_step(
                    old(self)@,
                    peers,
                    i as int,
                    heartbeat_payload.block_number,
                );
            }
            self.apply_heartbeat(&heartbeat_payload.peer_id_vec[i], heartbeat_payload.block_number);
            i += 1;
        }
        proof {
            assert(peers.take(i as int) =~= peers);
        }
        self.heartbeat_after.insert(
            heartbeat_payload.local_peer_id,
            heartbeat_payload.next_block_number,
        );
        Ok(())
    }

    /// Marks every stored record off line that, at height `block_number`, is
    /// stale by the sweep threshold. No other record changes.
    pub fn update_masternode_state(&mut self, block_number: u32)
        requires
            old(self).inv(),
        ensures
            final(self).inv(),
            final(self)@ == old(self)@.sweep(block_number),
    {
        let n = self.masternodes.len();
        let threshold = self.config.sweep_threshold;
        let ghost before = self.masternodes@;
        let ghost order = sorted(before.dom());
        proof {
            self.masternodes.lemma_keys();
            lemma_ascending_distinct(order);
        }
        let mut i: usize = 0;
        while i < n
            invariant
                self.masternodes.inv(),
                self.heartbeat_after == old(self).heartbeat_after,
                self.config == old(self).config,
                threshold == self.config.sweep_threshold,
                before == old(self).masternodes@,
                self.masternodes@.dom() == before.dom(),
                order == sorted(before.dom()),
                order.no_duplicates(),
                order.len() == n,
                n == before.dom().len(),
                i <= n,
                forall|j: int|
                    0 <= j < i ==> self.masternodes@[#[trigger] order[j]] == swept(
                        before[order[j]],
                        block_number,
                        threshold,
                    ),
                forall|j: int| i <= j < n ==> self.masternodes@[#[trigger] order[j]] == before[order[j]],
            decreases n - i,
        {
            let details = *self.masternodes.value_at(i);
            match effective_status(&details, block_number, threshold) {
                MasternodeStatus::OffLine => {
                    self.masternodes.set_value_at(
                        i,
                        MasternodeDetails {
                            created_block_number: details.created_block_number,
                            updated_block_number: details.updated_block_number,
                            status: MasternodeStatus::OffLine,
                        },
                    );
                },
                MasternodeStatus::OnLine => {},
            }
            i += 1;
        }
        proof {
            old(self).masternodes.lemma_keys();
            let swept_all = old(self)@.sweep(block_number).masternodes;
            assert forall|k: Seq<u8>| before.contains_key(k) implies #[trigger] self.masternodes@[k]
                == swept_all[k] by {
                assert(order.to_set().contains(k));
                let j = order.index_of(k);
                assert(order[j] == k);
            }
            assert(self.masternodes@ =~= swept_all);
        }
    }

    /// Answers a status query at height `block_number`: the record of
    /// `peer_id` with its status recomputed by the query threshold, or nothing
    /// if the peer is not registered. The stored record is left as it is.
    pub fn get_status(&self, peer_id: &Vec<u8>, block_number: u32) -> (record: Option<
        MasternodeDetails,
    >)
        requires
            self.inv(),
        ensures
            record == self@.status(peer_id@, block_number),
    {
        match self.masternodes.get(peer_id) {
            Some(details) => Some(
                MasternodeDetails {
                    created_block_number: details.created_block_number,
                    updated_block_number: details.updated_block_number,
                    status: effective_status(details, block_number, self.config.query_threshold),
                },
            ),
            None => None,
        }
    }

    /// Takes a full snapshot at height `block_number`: the number of registered
    /// peers, the number of them shown as on line, and every peer's base-58
    /// name and record, in ascending order of identity.
    pub fn get_info(&self, block_number: u32) -> (info: MasternodeInfo)
        requires
            self.inv(),
            self@.registered().len() <= u16::MAX,
        ensures
            info.total_nums == self@.registered().len(),
            info.entries() == self@.info(block_number),
            info.online_nums == online_count(info.entries()),
    {
        let n = self.masternodes.len();
        let mut info = MasternodeInfo::new(n as u16);
        let ghost whole = self@.info(block_number);
        proof {
            self.masternodes.lemma_keys();
            reveal(Seq::filter);
        }
        let mut i: usize = 0;
        while i < n
            invariant
                self.inv(),
                n == self@.registered().len(),
                n <= u16::MAX,
                sorted(self@.registered()).len() == n,
                whole == self@.info(block_number),
                i <= n,
                info.total_nums == n,
                info.entries() == whole.take(i as int),
                info.online_nums == online_count(info.entries()),
                info.online_nums <= i,
            decreases n - i,
        {
            let key = self.masternodes.key_at(i);
            let details = self.masternodes.value_at(i);
            let entry = MasternodeDetails {
                created_block_number: details.created_block_number,
                updated_block_number: details.updated_block_number,
                status: effective_status(details, block_number, self.config.query_threshold),
            };
            let name = encode(key);
            info.add(name, entry);
            proof {
                assert(whole.take(i as int + 1) =~= whole.take(i as int).push(whole[i as int]));
            }
            i += 1;
        }
        proof {
            assert(whole.take(n as int) =~= whole);
        }
        info
    }
}

} // verus!
