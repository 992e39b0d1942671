use masternode::heartbeat::{
    admit_heartbeat, validate_unsigned, Call, HeartBeatPayload, InvalidTransaction,
    TransactionSource, ValidTransaction, HEARTBEAT_LONGEVITY, HEARTBEAT_PRIORITY,
};
use std::cell::Cell;
use masternode::registry::{Config, Error, Origin, Pallet};
use masternode::status::{MasternodeDetails, MasternodeStatus};

fn config() -> Config {
    Config {
        max_masternodes: 8,
        max_peer_id_length: 64,
        query_threshold: 600,
        sweep_threshold: 120,
    }
}

fn record(created: u32, updated: u32, status: MasternodeStatus) -> MasternodeDetails {
    MasternodeDetails {
        created_block_number: created,
        updated_block_number: updated,
        status,
    }
}

fn claim(at: u32, next: u32, local: &[u8], peers: &[&[u8]]) -> HeartBeatPayload {
    HeartBeatPayload {
        block_number: at,
        public: vec![0xAA; 32],
        next_block_number: next,
        local_peer_id: local.to_vec(),
        peer_id_vec: peers.iter().map(|p| p.to_vec()).collect(),
    }
}

fn accept(_: &HeartBeatPayload, _: &Vec<u8>) -> bool {
    true
}

fn refuse(_: &HeartBeatPayload, _: &Vec<u8>) -> bool {
    false
}

fn heartbeat_call(at: u32) -> Call {
    Call::SendMasternodeHeartbeat {
        heartbeat_payload: claim(at, at + 3, b"local", &[b"local", b"a"]),
        signature: vec![0x55; 64],
    }
}

#[test]
fn heartbeat_with_a_valid_signature_is_admitted_on_fixed_terms() {
    let admitted = validate_unsigned(TransactionSource::External, &heartbeat_call(200), accept);
    assert_eq!(
        admitted,
        Ok(ValidTransaction {
            priority: u64::MAX,
            requires_tags: vec![],
            provides_tags: vec![],
            longevity: 1,
            propagate: true,
        })
    );
    assert_eq!(HEARTBEAT_PRIORITY, u64::MAX);
    assert_eq!(HEARTBEAT_LONGEVITY, 1);
}

#[test]
fn heartbeat_is_admitted_from_every_source() {
    for source in [
        TransactionSource::InBlock,
        TransactionSource::Local,
        TransactionSource::External,
    ] {
        assert!(validate_unsigned(source, &heartbeat_call(1), accept).is_ok());
        assert_eq!(
            validate_unsigned(source, &heartbeat_call(1), refuse),
            Err(InvalidTransaction::BadProof)
        );
    }
}

#[test]
fn heartbeat_with_a_bad_signature_is_refused() {
    assert_eq!(
        validate_unsigned(TransactionSource::Local, &heartbeat_call(200), refuse),
        Err(InvalidTransaction::BadProof)
    );
}

#[test]
fn the_signature_is_checked_against_the_claim_that_carries_it() {
    let call = heartbeat_call(200);
    let seen = Cell::new(false);
    let admitted = validate_unsigned(
        TransactionSource::External,
        &call,
        |payload: &HeartBeatPayload, signature: &Vec<u8>| {
            seen.set(true);
            payload.public() == &vec![0xAA; 32]
                && payload.block_number == 200
                && payload.local_peer_id == b"local".to_vec()
                && signature == &vec![0x55; 64]
        },
    );
    assert!(seen.get());
    assert!(admitted.is_ok());
    let refused = validate_unsigned(
        TransactionSource::External,
        &call,
        |_: &HeartBeatPayload, signature: &Vec<u8>| signature.len() == 65,
    );
    assert_eq!(refused, Err(InvalidTransaction::BadProof));
}

#[test]
fn no_signature_is_checked_for_other_calls() {
    let asked = Cell::new(false);
    let call = Call::RemoveMasternode { peer_id: vec![1] };
    let verdict = validate_unsigned(
        TransactionSource::Local,
        &call,
        |_: &HeartBeatPayload, _: &Vec<u8>| {
            asked.set(true);
            true
        },
    );
    assert_eq!(verdict, Err(InvalidTransaction::Call));
    assert!(!asked.get());
}

#[test]
fn a_checked_heartbeat_is_ruled_on_by_its_signature_alone() {
    assert_eq!(
        admit_heartbeat(true),
        Ok(ValidTransaction {
            priority: 18_446_744_073_709_551_615,
            requires_tags: vec![],
            provides_tags: vec![],
            longevity: 1,
            propagate: true,
        })
    );
    assert_eq!(admit_heartbeat(false), Err(InvalidTransaction::BadProof));
}

#[test]
fn other_calls_are_never_admitted_unsigned() {
    let calls = [
        Call::RegisterMasternode { peer_id: vec![1] },
        Call::UnregisterMasternode { peer_id: vec![1] },
        Call::RemoveMasternode { peer_id: vec![1] },
    ];
    for call in calls.iter() {
        assert_eq!(
            validate_unsigned(TransactionSource::Local, call, accept),
            Err(InvalidTransaction::Call)
        );
        assert_eq!(
            validate_unsigned(TransactionSource::External, call, refuse),
            Err(InvalidTransaction::Call)
        );
    }
}

#[test]
fn payload_names_its_signing_key() {
    let payload = claim(5, 9, b"local", &[b"local"]);
    assert_eq!(payload.public(), &vec![0xAA; 32]);
}

#[test]
fn executing_a_claim_refreshes_the_listed_peers_and_schedules_the_sender() {
    let mut pallet = Pallet::new(config());
    assert_eq!(pallet.register(b"a".to_vec(), 100), Ok(()));
    assert_eq!(pallet.register(b"b".to_vec(), 110), Ok(()));
    assert_eq!(pallet.register(b"c".to_vec(), 120), Ok(()));
    assert_eq!(pallet.heartbeat_after(&b"local".to_vec()), 0);
    let payload = claim(200, 207, b"local", &[b"local", b"a", b"b"]);
    assert_eq!(
        pallet.send_masternode_heartbeat(Origin::<u64>::Unsigned, payload, vec![1, 2, 3]),
        Ok(())
    );
    assert_eq!(pallet.get(&b"a".to_vec()), Some(record(100, 200, MasternodeStatus::OnLine)));
    assert_eq!(pallet.get(&b"b".to_vec()), Some(record(110, 200, MasternodeStatus::OnLine)));
    assert_eq!(pallet.get(&b"c".to_vec()), Some(record(120, 120, MasternodeStatus::OnLine)));
    assert_eq!(pallet.get(&b"local".to_vec()), None);
    assert_eq!(pallet.len(), 3);
    assert_eq!(pallet.heartbeat_after(&b"local".to_vec()), 207);
    assert_eq!(pallet.heartbeat_after(&b"a".to_vec()), 0);
}

#[test]
fn executing_a_claim_ignores_unregistered_peers() {
    let mut pallet = Pallet::new(config());
    assert_eq!(pallet.register(b"a".to_vec(), 100), Ok(()));
    let payload = claim(300, 300, b"local", &[b"local", b"ghost", b"a", b"ghost"]);
    assert_eq!(
        pallet.send_masternode_heartbeat(Origin::<u64>::Unsigned, payload, vec![]),
        Ok(())
    );
    assert_eq!(pallet.len(), 1);
    assert_eq!(pallet.get(&b"ghost".to_vec()), None);
    assert_eq!(pallet.get(&b"a".to_vec()), Some(record(100, 300, MasternodeStatus::OnLine)));
    assert_eq!(pallet.heartbeat_after(&b"local".to_vec()), 300);
}

#[test]
fn executing_a_claim_that_lists_a_peer_twice_refreshes_it_once() {
    let mut pallet = Pallet::new(config());
    assert_eq!(pallet.register(b"a".to_vec(), 100), Ok(()));
    let payload = claim(150, 160, b"a", &[b"a", b"a", b"a"]);
    assert_eq!(
        pallet.send_masternode_heartbeat(Origin::<u64>::Unsigned, payload, vec![]),
        Ok(())
    );
    assert_eq!(pallet.get(&b"a".to_vec()), Some(record(100, 150, MasternodeStatus::OnLine)));
    assert_eq!(pallet.heartbeat_after(&b"a".to_vec()), 160);
}

#[test]
fn executing_an_empty_claim_only_schedules_the_sender() {
    let mut pallet = Pallet::new(config());
    assert_eq!(pallet.register(b"a".to_vec(), 100), Ok(()));
    let payload = claim(150, 151, b"local", &[]);
    assert_eq!(
        pallet.send_masternode_heartbeat(Origin::<u64>::Unsigned, payload, vec![]),
        Ok(())
    );
    assert_eq!(pallet.get(&b"a".to_vec()), Some(record(100, 100, MasternodeStatus::OnLine)));
    assert_eq!(pallet.heartbeat_after(&b"local".to_vec()), 151);
}

#[test]
fn a_later_claim_replaces_the_senders_schedule() {
    let mut pallet = Pallet::new(config());
    let first = claim(10, 15, b"local", &[b"local"]);
    let second = claim(15, 15, b"local", &[b"local"]);
    assert_eq!(
        pallet.send_masternode_heartbeat(Origin::<u64>::Unsigned, first, vec![]),
        Ok(())
    );
    assert_eq!(pallet.heartbeat_after(&b"local".to_vec()), 15);
    assert_eq!(
        pallet.send_masternode_heartbeat(Origin::<u64>::Unsigned, second, vec![]),
        Ok(())
    );
    assert_eq!(pallet.heartbeat_after(&b"local".to_vec()), 15);
    assert!(!pallet.heartbeat_due(&b"local".to_vec(), 14));
    assert!(pallet.heartbeat_due(&b"local".to_vec(), 15));
}

#[test]
fn a_claim_is_executed_for_an_unsigned_origin_only() {
    let mut pallet = Pallet::new(config());
    assert_eq!(pallet.register(b"a".to_vec(), 100), Ok(()));
    assert_eq!(
        pallet.send_masternode_heartbeat(
            Origin::Signed(5u64),
            claim(200, 210, b"local", &[b"a"]),
            vec![]
        ),
        Err(Error::PermissionDenied)
    );
    assert_eq!(
        pallet.send_masternode_heartbeat(
            Origin::<u64>::Root,
            claim(200, 210, b"local", &[b"a"]),
            vec![]
        ),
        Err(Error::PermissionDenied)
    );
    assert_eq!(pallet.get(&b"a".to_vec()), Some(record(100, 100, MasternodeStatus::OnLine)));
    assert_eq!(pallet.heartbeat_after(&b"local".to_vec()), 0);
}

#[test]
fn a_refused_heartbeat_changes_no_record() {
    let mut pallet = Pallet::new(config());
    assert_eq!(pallet.register(b"a".to_vec(), 100), Ok(()));
    let call = Call::SendMasternodeHeartbeat {
        heartbeat_payload: claim(200, 210, b"local", &[b"local", b"a"]),
        signature: vec![0; 64],
    };
    let verdict = validate_unsigned(TransactionSource::External, &call, refuse);
    assert_eq!(verdict, Err(InvalidTransaction::BadProof));
    if verdict.is_ok() {
        if let Call::SendMasternodeHeartbeat { heartbeat_payload, signature } = call {
            let _ = pallet.send_masternode_heartbeat(
                Origin::<u64>::Unsigned,
                heartbeat_payload,
                signature,
            );
        }
    }
    assert_eq!(pallet.get(&b"a".to_vec()), Some(record(100, 100, MasternodeStatus::OnLine)));
    assert_eq!(pallet.heartbeat_after(&b"local".to_vec()), 0);
}
