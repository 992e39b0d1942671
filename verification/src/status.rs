//! Deriving a node's effective status from the age of its last heartbeat.

use vstd::prelude::*;

verus! {

/// Whether a masternode is considered reachable.
#[derive(Clone, Copy, Debug, PartialEq, Eq, Structural)]
pub enum MasternodeStatus {
    OnLine,
    OffLine,
}

/// The liveness record kept for one registered masternode.
#[derive(Clone, Copy, Debug, PartialEq, Eq, Structural)]
pub struct MasternodeDetails {
    pub created_block_number: u32,
    pub updated_block_number: u32,
    pub status: MasternodeStatus,
}

/// A record is stale at `height` once more than `threshold` blocks have passed
/// since its last heartbeat.
pub open spec fn is_stale(updated: u32, height: u32, threshold: u32) -> bool {
    height > updated + threshold
}

/// The status a record has at `height`: off line once it is stale, on line otherwise.
pub open spec fn effective_status_spec(
    record: MasternodeDetails,
    height: u32,
    threshold: u32,
) -> MasternodeStatus {
    if is_stale(record.updated_block_number, height, threshold) {
        MasternodeStatus::OffLine
    } else {
        MasternodeStatus::OnLine
    }
}

/// Computes the status of `record` as seen from `current_height`.
pub fn effective_status(record: &MasternodeDetails, current_height: u32, threshold: u32) -> (status:
    MasternodeStatus)
    ensures
        status == effective_status_spec(*record, current_height, threshold),
{
    let deadline: u64 = record.updated_block_number as u64 + threshold as u64;
    if current_height as u64 > deadline {
        MasternodeStatus::OffLine
    } else {
        MasternodeStatus::OnLine
    }
}

} // verus!
