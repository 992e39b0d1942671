use masternode::discovery::{get_peers, Exchange, HttpError, PeerInfo};
use masternode::heartbeat::HeartBeatPayload;
use masternode::registry::{Config, Origin, Pallet};
use masternode::scheduler::{decode_peers, jitter, local_peer_id, WorkerStep, JITTER_RANGE};
use masternode::status::{MasternodeDetails, MasternodeStatus};

fn config() -> Config {
    Config {
        max_masternodes: 8,
        max_peer_id_length: 64,
        query_threshold: 600,
        sweep_threshold: 120,
    }
}

fn record(created: u32, updated: u32, status: MasternodeStatus) -> MasternodeDetails {
    MasternodeDetails {
        created_block_number: created,
        updated_block_number: updated,
        status,
    }
}

fn peer(name: &str) -> PeerInfo {
    PeerInfo {
        peer_id: name.to_string(),
        roles: "AUTHORITY".to_string(),
        best_hash: "0x00".to_string(),
        best_number: 199,
    }
}

#[test]
fn local_identity_drops_the_leading_byte() {
    assert_eq!(local_peer_id(vec![0x00, 0x24, 0x08, 0x01]), vec![0x24, 0x08, 0x01]);
    assert_eq!(local_peer_id(vec![7]), Vec::<u8>::new());
}

#[test]
fn a_node_that_does_not_validate_stays_idle() {
    let pallet = Pallet::new(config());
    assert_eq!(pallet.offchain_worker(false, 200, vec![0, 1, 2]), WorkerStep::Idle);
    assert_eq!(pallet.offchain_worker(false, 200, vec![]), WorkerStep::Idle);
}

#[test]
fn a_validator_without_a_schedule_is_due_at_once() {
    let pallet = Pallet::new(config());
    assert_eq!(
        pallet.offchain_worker(true, 0, vec![0, 1, 2]),
        WorkerStep::QueryPeers { local_peer_id: vec![1, 2] }
    );
    assert!(pallet.heartbeat_due(&vec![1, 2], 0));
}

#[test]
fn a_validator_waits_for_its_scheduled_height() {
    let mut pallet = Pallet::new(config());
    let payload = HeartBeatPayload {
        block_number: 190,
        public: vec![],
        next_block_number: 200,
        local_peer_id: vec![1, 2],
        peer_id_vec: vec![vec![1, 2]],
    };
    assert_eq!(
        pallet.send_masternode_heartbeat(Origin::<u64>::Unsigned, payload, vec![]),
        Ok(())
    );
    assert_eq!(pallet.offchain_worker(true, 199, vec![0, 1, 2]), WorkerStep::Idle);
    assert_eq!(
        pallet.offchain_worker(true, 200, vec![0, 1, 2]),
        WorkerStep::QueryPeers { local_peer_id: vec![1, 2] }
    );
    assert_eq!(
        pallet.offchain_worker(true, 201, vec![0, 1, 2]),
        WorkerStep::QueryPeers { local_peer_id: vec![1, 2] }
    );
    assert_eq!(
        pallet.offchain_worker(true, 199, vec![0, 9, 9]),
        WorkerStep::QueryPeers { local_peer_id: vec![9, 9] }
    );
}

#[test]
fn peer_names_are_read_as_base_58() {
    let peers = vec![peer("2g"), peer("a3gV"), peer(""), peer("he11owor1d"), peer("1112g")];
    assert_eq!(
        decode_peers(&peers),
        Some(vec![
            vec![0x61],
            vec![0x62, 0x62, 0x62],
            vec![],
            vec![0x04, 0x30, 0x5e, 0x2b, 0x24, 0x73, 0xf0, 0x58],
            vec![0x00, 0x00, 0x00, 0x61],
        ])
    );
    assert_eq!(decode_peers(&vec![]), Some(vec![]));
}

#[test]
fn one_bad_peer_name_spoils_the_list() {
    assert_eq!(decode_peers(&vec![peer("2g"), peer("hello world")]), None);
    assert_eq!(decode_peers(&vec![peer("0")]), None);
    assert_eq!(decode_peers(&vec![peer("2g"), peer("he11o\u{1F1F3}")]), None);
}

#[test]
fn a_claim_vouches_for_the_sender_and_the_registered_peers() {
    let mut pallet = Pallet::new(config());
    assert_eq!(pallet.register(vec![3], 1), Ok(()));
    assert_eq!(pallet.register(vec![1], 1), Ok(()));
    let discovered = vec![vec![1], vec![2], vec![3], vec![1]];
    assert_eq!(
        pallet.believed_online(vec![9], &discovered),
        vec![vec![9], vec![1], vec![3], vec![1]]
    );
    assert_eq!(pallet.believed_online(vec![9], &vec![]), vec![vec![9]]);
    assert_eq!(pallet.believed_online(vec![1], &vec![vec![1]]), vec![vec![1], vec![1]]);
}

#[test]
fn no_claim_is_composed_when_discovery_fails() {
    let pallet = Pallet::new(config());
    for error in [HttpError::DeadlineReached, HttpError::IoError, HttpError::Unknown] {
        assert_eq!(
            pallet.prepare_heartbeat(200, vec![1], 5, vec![9], &Err(error)),
            None
        );
    }
}

#[test]
fn no_claim_is_composed_from_a_malformed_answer() {
    let mut pallet = Pallet::new(config());
    assert_eq!(pallet.register(vec![0x61], 1), Ok(()));
    let exchange = Exchange::Answered { code: 200, body: b"not-json".to_vec() };
    let discovery = get_peers(&exchange, |_: &str| None);
    assert_eq!(discovery, Err(HttpError::Unknown));
    assert_eq!(pallet.prepare_heartbeat(200, vec![1], 5, vec![9], &discovery), None);
    assert_eq!(pallet.heartbeat_after(&vec![9]), 0);
    assert_eq!(
        pallet.offchain_worker(true, 201, vec![0, 9]),
        WorkerStep::QueryPeers { local_peer_id: vec![9] }
    );
}

#[test]
fn the_delay_is_drawn_from_the_first_four_bytes_of_the_seed() {
    assert_eq!(JITTER_RANGE, 10);
    let mut seed = [0u8; 32];
    assert_eq!(jitter(&seed), 0);
    seed[0] = 7;
    assert_eq!(jitter(&seed), 7);
    seed[0] = 10;
    assert_eq!(jitter(&seed), 0);
    seed[0] = 0;
    seed[1] = 1;
    assert_eq!(jitter(&seed), 6);
    seed = [0xff; 32];
    assert_eq!(jitter(&seed), 5);
    seed = [0; 32];
    seed[0] = 0x78;
    seed[1] = 0x56;
    seed[2] = 0x34;
    seed[3] = 0x12;
    assert_eq!(jitter(&seed), 305419896 % 10);
    seed[4] = 9;
    seed[31] = 200;
    assert_eq!(jitter(&seed), 6);
}

#[test]
fn the_delay_is_always_below_its_range() {
    let mut state: u64 = 99;
    for _ in 0..2000 {
        let mut seed = [0u8; 32];
        for byte in seed.iter_mut() {
            state = state.wrapping_mul(6364136223846793005).wrapping_add(1442695040888963407);
            *byte = (state >> 40) as u8;
        }
        let word = u32::from_le_bytes([seed[0], seed[1], seed[2], seed[3]]);
        assert_eq!(jitter(&seed), word % 10);
        assert!(jitter(&seed) < JITTER_RANGE);
    }
}

#[test]
fn no_claim_is_composed_from_a_malformed_peer_name() {
    let mut pallet = Pallet::new(config());
    assert_eq!(pallet.register(vec![0x61], 1), Ok(()));
    assert_eq!(
        pallet.prepare_heartbeat(200, vec![1], 5, vec![9], &Ok(vec![peer("2g"), peer("l")])),
        None
    );
}

#[test]
fn a_claim_with_no_peers_discovered_lists_the_sender_alone() {
    let pallet = Pallet::new(config());
    assert_eq!(
        pallet.prepare_heartbeat(200, vec![7, 7], 0, vec![9], &Ok(vec![])),
        Some(HeartBeatPayload {
            block_number: 200,
            public: vec![7, 7],
            next_block_number: 200,
            local_peer_id: vec![9],
            peer_id_vec: vec![vec![9]],
        })
    );
}

#[test]
fn the_proposed_height_may_be_the_highest_there_is() {
    let pallet = Pallet::new(config());
    let claim = pallet.prepare_heartbeat(u32::MAX - 4, vec![], 4, vec![9], &Ok(vec![]));
    assert_eq!(claim.map(|c| c.next_block_number), Some(u32::MAX));
}

#[test]
fn scheduled_node_discovers_two_registered_peers_and_its_claim_is_executed() {
    let local = vec![0x6c, 0x6f, 0x63];
    let a = vec![0x62, 0x62, 0x62];
    let b = vec![0x63, 0x63, 0x63];
    let mut pallet = Pallet::new(config());
    assert_eq!(pallet.register(a.clone(), 100), Ok(()));
    assert_eq!(pallet.register(b.clone(), 120), Ok(()));
    let earlier = HeartBeatPayload {
        block_number: 150,
        public: vec![0xAA; 32],
        next_block_number: 200,
        local_peer_id: local.clone(),
        peer_id_vec: vec![local.clone()],
    };
    assert_eq!(
        pallet.send_masternode_heartbeat(Origin::<u64>::Unsigned, earlier, vec![]),
        Ok(())
    );
    assert_eq!(pallet.heartbeat_after(&local), 200);

    let mut network_id = vec![0x00];
    network_id.extend_from_slice(&local);
    let step = pallet.offchain_worker(true, 200, network_id);
    assert_eq!(step, WorkerStep::QueryPeers { local_peer_id: local.clone() });

    let jitter = 17;
    let discovery = Ok(vec![peer("a3gV"), peer("aPEr")]);
    let claim = pallet
        .prepare_heartbeat(200, vec![0xAA; 32], jitter, local.clone(), &discovery)
        .expect("both names are base 58");
    assert_eq!(
        claim,
        HeartBeatPayload {
            block_number: 200,
            public: vec![0xAA; 32],
            next_block_number: 217,
            local_peer_id: local.clone(),
            peer_id_vec: vec![local.clone(), a.clone(), b.clone()],
        }
    );

    assert_eq!(
        pallet.send_masternode_heartbeat(Origin::<u64>::Unsigned, claim, vec![0x55; 64]),
        Ok(())
    );
    assert_eq!(pallet.get(&a), Some(record(100, 200, MasternodeStatus::OnLine)));
    assert_eq!(pallet.get(&b), Some(record(120, 200, MasternodeStatus::OnLine)));
    assert_eq!(pallet.heartbeat_after(&local), 200 + jitter);
    assert_eq!(pallet.offchain_worker(true, 216, vec![0x00, 0x6c, 0x6f, 0x63]), WorkerStep::Idle);
}
