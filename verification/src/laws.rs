//! What holds of the registry whatever its state: consequences of the
//! operations' definitions that callers may rely on.

use crate::base58::base58_text;
use crate::bytes::{ascending, lemma_sorted_lists, sorted};
use crate::heartbeat::{ruling, HeartBeatPayload, InvalidTransaction, ValidTransaction};
use crate::registry::{fresh, online_count, refreshed, Error, State};
use crate::scheduler::composed;
use crate::status::{MasternodeDetails, MasternodeStatus};
use vstd::prelude::*;

verus! {

/// A peer that has just registered cannot register again. The second attempt
/// is refused and changes nothing, so the record of the first registration
/// stays as it was. The refusal names the duplicate, unless the first
/// registration took the last free place: then it names the full registry.
pub proof fn lemma_second_registration_refused(s: State, peer: Seq<u8>, first: u32, second: u32)
    requires
        s.wf(),
        s.register_outcome(peer) is Ok,
    ensures
        s.register(peer, first).get(peer) == Some(fresh(first)),
        s.register(peer, first).register(peer, second) == s.register(peer, first),
        s.registered().len() + 1 < s.config.max_masternodes ==> s.register(
            peer,
            first,
        ).register_outcome(peer) == Err::<(), Error>(Error::AlreadyRegistered),
        s.registered().len() + 1 == s.config.max_masternodes ==> s.register(
            peer,
            first,
        ).register_outcome(peer) == Err::<(), Error>(Error::TooManyNodes),
{
}

/// No operation lets the registered set grow beyond its bound, and none lets
/// in an identity that reaches the length limit.
pub proof fn lemma_bound_kept(s: State, peer: Seq<u8>, peers: Seq<Seq<u8>>, height: u32)
    requires
        s.wf(),
    ensures
        s.register(peer, height).wf(),
        s.remove(peer).wf(),
        s.apply_heartbeat(peer, height).wf(),
        s.apply_heartbeats(peers, height).wf(),
        s.sweep(height).wf(),
{
    assert(s.apply_heartbeat(peer, height).masternodes.dom() =~= s.masternodes.dom());
    assert(s.apply_heartbeats(peers, height).masternodes.dom() =~= s.masternodes.dom());
    assert(s.sweep(height).masternodes.dom() =~= s.masternodes.dom());
}

/// A full registry refuses every further peer, whoever it is, and stays as it is.
pub proof fn lemma_full_registry_refuses(s: State, peer: Seq<u8>, height: u32)
    requires
        s.wf(),
        s.registered().len() == s.config.max_masternodes,
        peer.len() < s.config.max_peer_id_length,
    ensures
        s.register_outcome(peer) == Err::<(), Error>(Error::TooManyNodes),
        s.register(peer, height) == s,
{
}

/// A second heartbeat for the same peer at the same height changes nothing.
pub proof fn lemma_heartbeat_idempotent(s: State, peer: Seq<u8>, height: u32)
    ensures
        s.apply_heartbeat(peer, height).apply_heartbeat(peer, height) == s.apply_heartbeat(
            peer,
            height,
        ),
{
    let once = s.apply_heartbeat(peer, height);
    let twice = once.apply_heartbeat(peer, height);
    assert(twice.masternodes =~= once.masternodes);
}

/// A heartbeat never registers a peer and never removes one.
pub proof fn lemma_heartbeat_keeps_members(s: State, peer: Seq<u8>, height: u32)
    ensures
        s.apply_heartbeat(peer, height).registered() == s.registered(),
{
    assert(s.apply_heartbeat(peer, height).masternodes.dom() =~= s.masternodes.dom());
}

/// A status query shows a registered peer on line up to and including the
/// height at which its last heartbeat is as old as the query threshold, and
/// off line from the next height on.
pub proof fn lemma_status_by_age(s: State, peer: Seq<u8>, height: u32)
    requires
        s.registered().contains(peer),
    ensures
        s.status(peer, height) matches Some(record) && record.status == (if height
            <= s.masternodes[peer].updated_block_number + s.config.query_threshold {
            MasternodeStatus::OnLine
        } else {
            MasternodeStatus::OffLine
        }),
{
}

/// A status query and a heartbeat agree: right after a heartbeat at a height,
/// a query at that height shows the peer on line, whatever the threshold.
pub proof fn lemma_fresh_heartbeat_shows(s: State, peer: Seq<u8>, height: u32)
    requires
        s.registered().contains(peer),
    ensures
        s.apply_heartbeat(peer, height).status(peer, height) matches Some(record) && record
            == refreshed(s.masternodes[peer], height),
{
}

/// A snapshot lists every registered peer exactly once, in ascending order of
/// identity, each with its record as a status query shows it.
pub proof fn lemma_snapshot_lists_members(s: State, height: u32)
    requires
        s.wf(),
    ensures
        s.info(height).len() == s.registered().len(),
        ascending(sorted(s.registered())),
        sorted(s.registered()).no_duplicates(),
        sorted(s.registered()).to_set() == s.registered(),
        forall|i: int|
            0 <= i < s.info(height).len() ==> {
                let peer = #[trigger] sorted(s.registered())[i];
                &&& s.registered().contains(peer)
                &&& s.info(height)[i].0 == base58_text(peer)
                &&& s.status(peer, height) == Some(s.info(height)[i].1)
            },
        online_count(s.info(height)) <= s.registered().len(),
{
    lemma_sorted_lists(s.registered());
    let order = sorted(s.registered());
    assert forall|i: int| 0 <= i < order.len() implies s.registered().contains(
        #[trigger] order[i],
    ) by {
        assert(order.to_set().contains(order[i]));
    }
    s.info(height).lemma_filter_len(
        |entry: (Seq<char>, MasternodeDetails)| entry.1.status == MasternodeStatus::OnLine,
    );
}

/// Every peer of a list of registered peers is known.
proof fn lemma_registered_are_known(s: State, found: Seq<Seq<u8>>)
    requires
        forall|i: int| 0 <= i < found.len() ==> s.registered().contains(#[trigger] found[i]),
    ensures
        s.known(found) == found,
    decreases found.len(),
{
    reveal(Seq::filter);
    if found.len() > 0 {
        let front = found.drop_last();
        assert forall|i: int| 0 <= i < front.len() implies s.registered().contains(
            #[trigger] front[i],
        ) by {
            assert(front[i] == found[i]);
        }
        lemma_registered_are_known(s, front);
        assert(s.registered().contains(found[found.len() - 1]));
        assert(front.push(found.last()) =~= found);
    } else {
        assert(s.known(found) =~= found);
    }
}

/// A node that discovers registered peers only vouches for itself and then
/// for each of them, in the order of discovery. Once its claim is executed,
/// every one of them has been heard at the claim's height, the node is next
/// due at the height the claim proposes, and no other record has changed.
pub proof fn lemma_claim_refreshes_discovered_peers(
    s: State,
    payload: HeartBeatPayload,
    block_number: u32,
    public: Seq<u8>,
    rand: u32,
    local: Seq<u8>,
    found: Seq<Seq<u8>>,
)
    requires
        composed(s, payload, block_number, public, rand, local, found),
        forall|i: int| 0 <= i < found.len() ==> s.registered().contains(#[trigger] found[i]),
    ensures
        payload.peers() == seq![local] + found,
        forall|i: int|
            0 <= i < found.len() ==> s.execute_heartbeat(payload).get(#[trigger] found[i]) == Some(
                refreshed(s.masternodes[found[i]], block_number),
            ),
        forall|peer: Seq<u8>|
            peer != local && !found.contains(peer) ==> #[trigger] s.execute_heartbeat(payload).get(
                peer,
            ) == s.get(peer),
        s.execute_heartbeat(payload).next_heartbeat(local) == block_number + rand,
        s.execute_heartbeat(payload).due(local, block_number) <==> rand == 0,
        s.execute_heartbeat(payload).registered() == s.registered(),
{
    lemma_registered_are_known(s, found);
    let peers = payload.peers();
    assert forall|i: int| 0 <= i < found.len() implies peers.contains(#[trigger] found[i]) by {
        assert(peers[i + 1] == found[i]);
    }
    assert forall|peer: Seq<u8>| peer != local && !found.contains(peer) implies !peers.contains(
        peer,
    ) by {
        if peers.contains(peer) {
            let j = peers.index_of(peer);
            if j > 0 {
                assert(found[j - 1] == peer);
            }
        }
    }
    assert(s.execute_heartbeat(payload).masternodes.dom() =~= s.masternodes.dom());
}

/// Executing a claim schedules its sender and nobody else: from then on the
/// sender is due exactly from the height the claim proposes, and every other
/// node is due when it was due before.
pub proof fn lemma_claim_schedules_sender(
    s: State,
    payload: HeartBeatPayload,
    peer: Seq<u8>,
    height: u32,
)
    ensures
        s.execute_heartbeat(payload).due(payload.local_peer_id@, height) <==> height
            >= payload.next_block_number,
        peer != payload.local_peer_id@ ==> s.execute_heartbeat(payload).due(peer, height)
            == s.due(peer, height),
        s.execute_heartbeat(payload).registered() == s.registered(),
{
    assert(s.execute_heartbeat(payload).masternodes.dom() =~= s.masternodes.dom());
}

/// A heartbeat whose signature does not verify is never admitted: the ruling
/// on it is a refusal as badly proven, whatever it claims.
pub proof fn lemma_bad_signature_refused(r: Result<ValidTransaction, InvalidTransaction>)
    requires
        ruling(false, r),
    ensures
        r == Err::<ValidTransaction, InvalidTransaction>(InvalidTransaction::BadProof),
{
}

/// Taking out a peer that is not registered is refused and changes nothing.
pub proof fn lemma_remove_unregistered(s: State, peer: Seq<u8>)
    requires
        !s.registered().contains(peer),
    ensures
        s.remove_outcome(peer) == Err::<(), Error>(Error::NotExist),
        s.remove(peer) == s,
        s.remove(peer).registered().len() == s.registered().len(),
{
    assert(s.masternodes.remove(peer) =~= s.masternodes);
}

} // verus!
