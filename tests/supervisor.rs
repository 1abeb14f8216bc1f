use casper_era::{
    Block, BlockContext, ConsensusMessage, ConsensusProtocol, DeployHash, Effect, EraId,
    EraParams, EraStatus, EraSupervisor, FinalizedBlock, HighwayConfig, Motes, NodeId,
    ProtoBlock, ProtocolError, ProtocolResult, PublicKey, Report, SecretKey, Signature,
    SupervisorError,
};

/// An instance that records what it was given and answers with a script.
struct Scripted {
    era_id: EraId,
    instance_id: [u8; 32],
    weights: Vec<(PublicKey, u64)>,
    total_weight: u64,
    finality_threshold: u128,
    start_timestamp: u64,
    validating: bool,
    calls: Vec<String>,
}

impl Scripted {
    fn answer(&mut self, call: &str) -> Result<Vec<ProtocolResult>, ProtocolError> {
        self.calls.push(call.to_string());
        match call {
            "timer 1000" => Ok(vec![ProtocolResult::ScheduleTimer(1005)]),
            "timer 1" => Err(ProtocolError { message: String::from("no round") }),
            "timer 3" => Ok(vec![ProtocolResult::InvalidIncomingMessage(
                vec![8],
                NodeId(6),
                ProtocolError { message: String::from("garbled") },
            )]),
            "timer 2" => Ok(vec![ProtocolResult::FinalizedBlock {
                value: switch_block(),
                new_equivocators: Vec::new(),
                rewards: Vec::new(),
                timestamp: 2000,
            }]),
            _ => Ok(Vec::new()),
        }
    }
}

impl ConsensusProtocol for Scripted {
    fn create(params: EraParams) -> (Self, Vec<ProtocolResult>) {
        let instance = Scripted {
            era_id: params.era_id,
            instance_id: params.instance_id,
            weights: params.validators.weights.clone(),
            total_weight: params.validators.total_weight,
            finality_threshold: params.finality_threshold,
            start_timestamp: params.start_timestamp,
            validating: true,
            calls: Vec::new(),
        };
        (instance, vec![ProtocolResult::CreatedGossipMessage(vec![params.era_id.0 as u8])])
    }

    fn handle_timer(&mut self, timestamp: u64) -> Result<Vec<ProtocolResult>, ProtocolError> {
        self.answer(&format!("timer {}", timestamp))
    }

    fn handle_message(
        &mut self,
        _sender: NodeId,
        payload: Vec<u8>,
    ) -> Result<Vec<ProtocolResult>, ProtocolError> {
        self.answer(&format!("message {:?}", payload))
    }

    fn propose(
        &mut self,
        _proto_block: ProtoBlock,
        block_context: BlockContext,
    ) -> Result<Vec<ProtocolResult>, ProtocolError> {
        self.answer(&format!("propose {}", block_context.timestamp))
    }

    fn resolve_validity(
        &mut self,
        _proto_block: &ProtoBlock,
        valid: bool,
    ) -> Result<Vec<ProtocolResult>, ProtocolError> {
        self.answer(&format!("valid {}", valid))
    }

    fn deactivate_validator(&mut self) {
        self.validating = false;
    }
}

fn key(b: u8) -> PublicKey {
    PublicKey([b; 32])
}

fn switch_block() -> ProtoBlock {
    ProtoBlock { deploys: vec![DeployHash([1; 32])], random_bit: false, switch_block: true }
}

fn plain_block() -> ProtoBlock {
    ProtoBlock { deploys: Vec::new(), random_bit: true, switch_block: false }
}

fn config() -> HighwayConfig {
    HighwayConfig { minimum_round_exponent: 12, finality_threshold_percent: 10 }
}

fn start() -> (EraSupervisor<Scripted>, Vec<Effect>) {
    let stakes = vec![(key(0xA), Motes::from_u64(100)), (key(0xB), Motes::from_u64(300))];
    let (s, r) = EraSupervisor::new(1000, 1000, SecretKey([7; 32]), stakes, &config());
    (s, r.unwrap())
}

#[test]
fn construction_builds_era_zero_from_the_stakes() {
    let (s, effects) = start();
    assert_eq!(s.current_era(), EraId(0));
    assert_eq!(s.active_eras(), vec![EraId(0)]);
    let era = s.era(EraId(0)).unwrap();
    assert_eq!(era.era_id, EraId(0));
    assert_eq!(era.instance_id, casper_era::instance_id(EraId(0)));
    assert_eq!(era.weights, vec![(key(0xA), 100), (key(0xB), 300)]);
    assert_eq!(era.total_weight, 400);
    assert_eq!(era.finality_threshold, 40);
    assert_eq!(era.start_timestamp, 1000);
    assert_eq!(
        effects,
        vec![Effect::Broadcast(ConsensusMessage { era_id: EraId(0), payload: vec![0] })]
    );
    let sk = casper_types::SecretKey::ed25519_from_bytes([7u8; 32]).unwrap();
    let expected = match casper_types::PublicKey::from(&sk) {
        casper_types::PublicKey::Ed25519(k) => k.to_bytes(),
        _ => panic!("not an Ed25519 key"),
    };
    assert_eq!(s.public_signing_key(), PublicKey(expected));
    assert_ne!(s.public_signing_key(), PublicKey([7; 32]));
    assert_eq!(s.validator_stakes().len(), 2);
}

#[test]
fn message_for_a_future_era_is_absorbed() {
    let (mut s, _) = start();
    assert_eq!(s.era_status(EraId(7)), EraStatus::Future);
    let msg = ConsensusMessage { era_id: EraId(7), payload: vec![1, 2, 3] };
    let effects = s.handle_message(NodeId(1), msg, 1000).unwrap();
    assert!(effects.is_empty());
    assert_eq!(s.active_eras(), vec![EraId(0)]);
    assert!(s.era(EraId(0)).unwrap().calls.is_empty());
}

#[test]
fn timer_for_an_unknown_era_is_absorbed() {
    let (mut s, _) = start();
    assert!(s.handle_timer(EraId(3), 5, 1000).unwrap().is_empty());
    assert!(s.handle_invalid_proto_block(EraId(3), NodeId(2), plain_block(), 1000).unwrap().is_empty());
    assert_eq!(s.era_status(EraId(0)), EraStatus::Live);
}

#[test]
fn message_for_a_live_era_reaches_its_instance() {
    let (mut s, _) = start();
    let msg = ConsensusMessage { era_id: EraId(0), payload: vec![4] };
    assert!(s.handle_message(NodeId(1), msg, 1000).unwrap().is_empty());
    assert_eq!(s.era(EraId(0)).unwrap().calls, vec![String::from("message [4]")]);
}

#[test]
fn scheduled_timer_gives_one_timeout() {
    let (mut s, _) = start();
    let effects = s.handle_timer(EraId(0), 1000, 1000).unwrap();
    assert_eq!(effects, vec![Effect::SetTimeout { duration: 5, era_id: EraId(0), timestamp: 1005 }]);
}

#[test]
fn instance_error_gives_no_effect_and_keeps_the_era() {
    let (mut s, _) = start();
    assert!(s.handle_timer(EraId(0), 1, 1000).unwrap().is_empty());
    assert_eq!(s.era_status(EraId(0)), EraStatus::Live);
    assert!(s.handle_timer(EraId(0), 1000, 1000).unwrap().len() == 1);
}

#[test]
fn switch_block_starts_the_next_era() {
    let (mut s, _) = start();
    let effects = s.handle_timer(EraId(0), 2, 1000).unwrap();
    assert_eq!(s.current_era(), EraId(1));
    assert_eq!(s.active_eras(), vec![EraId(0), EraId(1)]);
    assert!(!s.era(EraId(0)).unwrap().validating);
    assert!(s.era(EraId(1)).unwrap().validating);
    assert_ne!(s.era(EraId(1)).unwrap().instance_id, s.era(EraId(0)).unwrap().instance_id);
    assert_eq!(s.era(EraId(1)).unwrap().start_timestamp, 2000);
    assert_eq!(s.era(EraId(1)).unwrap().weights, vec![(key(0xA), 100), (key(0xB), 300)]);
    assert_eq!(
        effects,
        vec![
            Effect::AnnounceFinalizedProtoBlock(switch_block()),
            Effect::Broadcast(ConsensusMessage { era_id: EraId(1), payload: vec![1] }),
            Effect::ExecuteBlock {
                era_id: EraId(0),
                block: FinalizedBlock {
                    proto_block: switch_block(),
                    timestamp: 2000,
                    instructions: Vec::new(),
                },
            },
        ]
    );
    // Era 0 stays addressable after it was retired.
    assert_eq!(s.handle_timer(EraId(0), 1000, 1000).unwrap().len(), 1);
}

#[test]
fn switch_block_outside_the_current_era_is_refused() {
    let (mut s, _) = start();
    let _ = s.handle_timer(EraId(0), 2, 1000).unwrap();
    let r = s.handle_timer(EraId(0), 2, 1000);
    assert_eq!(
        r.unwrap_err(),
        SupervisorError::UnexpectedEra { era_id: EraId(0), current_era: EraId(1) }
    );
}

#[test]
fn results_are_translated_in_order() {
    let (mut s, _) = start();
    let effects = s
        .handle_results(
            EraId(0),
            vec![ProtocolResult::ScheduleTimer(1003), ProtocolResult::CreatedGossipMessage(vec![9])],
            1000,
        )
        .unwrap();
    assert_eq!(
        effects,
        vec![
            Effect::SetTimeout { duration: 3, era_id: EraId(0), timestamp: 1003 },
            Effect::Broadcast(ConsensusMessage { era_id: EraId(0), payload: vec![9] }),
        ]
    );
}

#[test]
fn new_proto_block_is_announced_then_proposed() {
    let (mut s, _) = start();
    let effects = s
        .handle_new_proto_block(EraId(0), plain_block(), BlockContext { timestamp: 33 }, 1000)
        .unwrap();
    assert_eq!(effects, vec![Effect::AnnounceProposedProtoBlock(plain_block())]);
    assert_eq!(s.era(EraId(0)).unwrap().calls, vec![String::from("propose 33")]);
}

#[test]
fn accepted_proto_block_is_resolved_then_announced() {
    let (mut s, _) = start();
    let effects = s.handle_accept_proto_block(EraId(0), plain_block(), 1000).unwrap();
    assert_eq!(effects, vec![Effect::AnnounceProposedProtoBlock(plain_block())]);
    assert_eq!(s.era(EraId(0)).unwrap().calls, vec![String::from("valid true")]);
    let _ = s.handle_invalid_proto_block(EraId(0), NodeId(3), plain_block(), 1000).unwrap();
    assert_eq!(s.era(EraId(0)).unwrap().calls[1], "valid false");
}

#[test]
fn executed_block_is_signed_and_stored() {
    let (s, _) = start();
    let fb = FinalizedBlock { proto_block: plain_block(), timestamp: 9, instructions: Vec::new() };
    let old = Signature([3; 64]);
    let block = Block { hash: [5; 32], finalized_block: fb, proofs: vec![old] };
    let effects = s.handle_executed_block(EraId(0), block);
    let sk = casper_types::SecretKey::ed25519_from_bytes([7u8; 32]).unwrap();
    let pk = casper_types::PublicKey::from(&sk);
    let sig = match casper_types::crypto::sign([5u8; 32], &sk, &pk) {
        casper_types::crypto::Signature::Ed25519(x) => Signature(x.to_bytes()),
        _ => panic!("not an Ed25519 signature"),
    };
    assert_ne!(sig, Signature([0; 64]));
    let expected = Block {
        hash: [5; 32],
        finalized_block: FinalizedBlock {
            proto_block: plain_block(),
            timestamp: 9,
            instructions: Vec::new(),
        },
        proofs: vec![old, sig],
    };
    assert_eq!(effects, vec![Effect::PutBlockToStorage(expected)]);
}

#[test]
fn signed_block_keeps_its_proofs() {
    let fb = FinalizedBlock { proto_block: plain_block(), timestamp: 1, instructions: Vec::new() };
    let block = Block { hash: [2; 32], finalized_block: fb, proofs: Vec::new() };
    let effects = casper_era::store_signed_block(block, Signature([4; 64]));
    match &effects[..] {
        [Effect::PutBlockToStorage(b)] => assert_eq!(b.proofs, vec![Signature([4; 64])]),
        _ => panic!("one storage effect expected"),
    }
}

#[test]
fn dropped_errors_are_reported() {
    let (mut s, _) = start();
    assert!(s.take_reports().is_empty());
    assert!(s.handle_timer(EraId(0), 1, 1000).unwrap().is_empty());
    assert!(s.handle_timer(EraId(0), 3, 1000).unwrap().is_empty());
    assert_eq!(
        s.take_reports(),
        vec![
            Report::InstanceError {
                era_id: EraId(0),
                error: ProtocolError { message: String::from("no round") },
            },
            Report::InvalidMessage {
                era_id: EraId(0),
                sender: NodeId(6),
                message: vec![8],
                error: ProtocolError { message: String::from("garbled") },
            },
        ]
    );
    assert!(s.take_reports().is_empty());
}

#[test]
fn unknown_era_leaves_no_report() {
    let (mut s, _) = start();
    assert!(s.handle_timer(EraId(9), 1, 1000).unwrap().is_empty());
    assert!(s.take_reports().is_empty());
}

#[test]
fn results_after_a_switch_block_follow_its_effects() {
    let (mut s, _) = start();
    let effects = s
        .handle_results(
            EraId(0),
            vec![
                ProtocolResult::FinalizedBlock {
                    value: switch_block(),
                    new_equivocators: Vec::new(),
                    rewards: Vec::new(),
                    timestamp: 3000,
                },
                ProtocolResult::CreatedGossipMessage(vec![4]),
            ],
            1000,
        )
        .unwrap();
    assert_eq!(effects.len(), 4);
    assert_eq!(
        effects[3],
        Effect::Broadcast(ConsensusMessage { era_id: EraId(0), payload: vec![4] })
    );
    assert_eq!(s.current_era(), EraId(1));
}

#[test]
fn second_switch_block_in_one_answer_is_refused() {
    let (mut s, _) = start();
    let finalize = || ProtocolResult::FinalizedBlock {
        value: switch_block(),
        new_equivocators: Vec::new(),
        rewards: Vec::new(),
        timestamp: 3000,
    };
    let r = s.handle_results(EraId(0), vec![finalize(), finalize()], 1000);
    assert_eq!(
        r.unwrap_err(),
        SupervisorError::UnexpectedEra { era_id: EraId(0), current_era: EraId(1) }
    );
    assert_eq!(s.current_era(), EraId(1));
    assert_eq!(s.active_eras(), vec![EraId(0), EraId(1)]);
}

#[test]
fn era_params_seed_the_instance() {
    let (s, _) = start();
    let p = s.era_params(EraId(4), 77);
    assert_eq!(p.era_id, EraId(4));
    assert_eq!(p.instance_id, casper_era::instance_id(EraId(4)));
    assert_eq!(p.validators.weights, vec![(key(0xA), 100), (key(0xB), 300)]);
    assert_eq!(p.finality_threshold, 40);
    assert_eq!(p.minimum_round_exponent, 12);
    assert_eq!(p.start_timestamp, 77);
    assert_eq!(p.public_key, s.public_signing_key());
    assert_eq!(p.secret_key, SecretKey([7; 32]));
}
