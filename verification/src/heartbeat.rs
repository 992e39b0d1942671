//! Heartbeat claims and their admission: what a node asserts when it reports
//! peers as reachable, and the rule by which such a claim is let into the
//! pool of pending transactions.

use crate::bytes::views;
use vstd::prelude::*;

verus! {

/// Priority of an admitted heartbeat: the highest there is.
pub const HEARTBEAT_PRIORITY: u64 = 0xffff_ffff_ffff_ffff;

/// Number of blocks for which an admitted heartbeat stays valid.
pub const HEARTBEAT_LONGEVITY: u64 = 1;

/// A node's claim that it and the listed peers were reachable at a height.
#[derive(Debug, PartialEq, Eq)]
pub struct HeartBeatPayload {
    /// Height at which the peers were seen.
    pub block_number: u32,
    /// Public key of the authority that signs the claim.
    pub public: Vec<u8>,
    /// Height from which the sender may send its next heartbeat.
    pub next_block_number: u32,
    /// The sender's own peer identity.
    pub local_peer_id: Vec<u8>,
    /// The peers believed to be on line, the sender first.
    pub peer_id_vec: Vec<Vec<u8>>,
}

impl HeartBeatPayload {
    /// The peers believed to be on line, as byte strings.
    pub open spec fn peers(&self) -> Seq<Seq<u8>> {
        views(self.peer_id_vec@)
    }

    /// The public key the claim's signature must verify against.
    pub fn public(&self) -> (key: &Vec<u8>)
        ensures
            key == self.public,
    {
        &self.public
    }
}

/// The commands the registry accepts.
#[derive(Debug, PartialEq, Eq)]
pub enum Call {
    RegisterMasternode { peer_id: Vec<u8> },
    UnregisterMasternode { peer_id: Vec<u8> },
    RemoveMasternode { peer_id: Vec<u8> },
    SendMasternodeHeartbeat { heartbeat_payload: HeartBeatPayload, signature: Vec<u8> },
}

/// Where an unsigned transaction came from.
#[derive(Clone, Copy, Debug, PartialEq, Eq, Structural)]
pub enum TransactionSource {
    /// It is part of a block that is being imported.
    InBlock,
    /// The node itself produced it.
    Local,
    /// It arrived from the network.
    External,
}

/// Why an unsigned transaction is refused.
#[derive(Clone, Copy, Debug, PartialEq, Eq, Structural)]
pub enum InvalidTransaction {
    /// The call may not be submitted unsigned.
    Call,
    /// The signature carried by the call does not verify.
    BadProof,
}

/// The terms on which an unsigned transaction is admitted.
#[derive(Debug, PartialEq, Eq)]
pub struct ValidTransaction {
    /// Transactions of higher priority are included first.
    pub priority: u64,
    /// Tags that must be provided before this transaction can be included.
    pub requires_tags: Vec<Vec<u8>>,
    /// Tags this transaction provides.
    pub provides_tags: Vec<Vec<u8>>,
    /// Number of blocks for which the transaction stays valid.
    pub longevity: u64,
    /// Whether the transaction is passed on to other nodes.
    pub propagate: bool,
}

/// The terms on which every heartbeat is admitted: highest priority, valid for
/// one block, passed on to all nodes, depending on nothing.
pub open spec fn heartbeat_terms(terms: ValidTransaction) -> bool {
    &&& terms.priority == HEARTBEAT_PRIORITY
    &&& terms.longevity == HEARTBEAT_LONGEVITY
    &&& terms.propagate
    &&& terms.requires_tags@.len() == 0
    &&& terms.provides_tags@.len() == 0
}

/// The ruling on a heartbeat whose signature check came out as
/// `signature_valid`: admitted on the fixed terms if the signature verifies,
/// refused as badly proven if it does not.
pub open spec fn ruling(
    signature_valid: bool,
    r: Result<ValidTransaction, InvalidTransaction>,
) -> bool {
    match r {
        Ok(terms) => signature_valid && heartbeat_terms(terms),
        Err(e) => !signature_valid && e == InvalidTransaction::BadProof,
    }
}

/// Rules on a heartbeat once its signature has been checked.
pub fn admit_heartbeat(signature_valid: bool) -> (r: Result<ValidTransaction, InvalidTransaction>)
    ensures
        ruling(signature_valid, r),
{
    if !signature_valid {
        return Err(InvalidTransaction::BadProof);
    }
    Ok(
        ValidTransaction {
            priority: HEARTBEAT_PRIORITY,
            requires_tags: Vec::new(),
            provides_tags: Vec::new(),
            longevity: HEARTBEAT_LONGEVITY,
            propagate: true,
        },
    )
}

/// Decides whether an unsigned call is admitted to the pool.
///
/// Only a heartbeat may be submitted unsigned. Its signature is checked with
/// `verify`, the signature scheme of the claim's authority key: `verify` is
/// handed the claim, which declares the key, and the signature, and says
/// whether the signature is the key's over the claim. The heartbeat is
/// admitted if it is, and refused as badly proven if it is not. Every other
/// call is refused without looking at it. The source of the call makes no
/// difference.
pub fn validate_unsigned<V>(source: TransactionSource, call: &Call, verify: V) -> (r: Result<
    ValidTransaction,
    InvalidTransaction,
>) where V: Fn(&HeartBeatPayload, &Vec<u8>) -> bool
    requires
        call matches Call::SendMasternodeHeartbeat { heartbeat_payload, signature }
            ==> call_requires(verify, (&heartbeat_payload, &signature)),
    ensures
        match *call {
            Call::SendMasternodeHeartbeat { heartbeat_payload, signature } => exists|ok: bool|
                call_ensures(verify, (&heartbeat_payload, &signature), ok) && ruling(ok, r),
            _ => r == Err::<ValidTransaction, InvalidTransaction>(InvalidTransaction::Call),
        },
{
    match call {
        Call::SendMasternodeHeartbeat { heartbeat_payload, signature } => {
            let signature_valid = verify(heartbeat_payload, signature);
            admit_heartbeat(signature_valid)
        },
        _ => Err(InvalidTransaction::Call),
    }
}

} // verus!
