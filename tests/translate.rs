use casper_era::{
    build_instructions, translate_result, BlockContext, ConsensusMessage, DeployHash, Effect,
    EraId, FinalizedBlock, Instruction, NodeId, ProtoBlock, ProtocolError, ProtocolResult,
    PublicKey,
};

fn block(switch_block: bool) -> ProtoBlock {
    ProtoBlock { deploys: vec![DeployHash([9; 32])], random_bit: true, switch_block }
}

#[test]
fn successor_adds_one() {
    assert_eq!(EraId(0).successor(), EraId(1));
    assert_eq!(EraId(41).successor(), EraId(42));
    assert!(EraId(41).successor() > EraId(41));
}

#[test]
fn message_wraps_payload() {
    let m = EraId(3).message(vec![1, 2]);
    assert_eq!(m, ConsensusMessage { era_id: EraId(3), payload: vec![1, 2] });
}

#[test]
fn slashes_precede_rewards() {
    let a = PublicKey([1; 32]);
    let b = PublicKey([2; 32]);
    let c = PublicKey([3; 32]);
    let r = build_instructions(vec![a, b], vec![(c, 10)]);
    assert_eq!(
        r,
        vec![Instruction::Slash(a), Instruction::Slash(b), Instruction::Rewards(vec![(c, 10)])]
    );
}

#[test]
fn no_equivocators_and_no_rewards_give_no_instructions() {
    assert!(build_instructions(Vec::new(), Vec::new()).is_empty());
}

#[test]
fn equivocators_without_rewards_give_only_slashes() {
    let a = PublicKey([1; 32]);
    assert_eq!(build_instructions(vec![a], Vec::new()), vec![Instruction::Slash(a)]);
}

#[test]
fn invalid_message_gives_no_effect() {
    let r = ProtocolResult::InvalidIncomingMessage(
        vec![1],
        NodeId(4),
        ProtocolError { message: String::from("bad") },
    );
    assert!(translate_result(EraId(0), r, 10).is_empty());
}

#[test]
fn gossip_is_broadcast() {
    let r = translate_result(EraId(2), ProtocolResult::CreatedGossipMessage(vec![7]), 0);
    assert_eq!(r, vec![Effect::Broadcast(ConsensusMessage { era_id: EraId(2), payload: vec![7] })]);
}

#[test]
fn targeted_message_is_sent_to_its_peer() {
    let r = translate_result(EraId(2), ProtocolResult::CreatedTargetedMessage(vec![7], NodeId(5)), 0);
    assert_eq!(
        r,
        vec![Effect::SendMessage {
            peer: NodeId(5),
            message: ConsensusMessage { era_id: EraId(2), payload: vec![7] },
        }]
    );
}

#[test]
fn timer_waits_for_the_remaining_time() {
    let r = translate_result(EraId(0), ProtocolResult::ScheduleTimer(1005), 1000);
    assert_eq!(r, vec![Effect::SetTimeout { duration: 5, era_id: EraId(0), timestamp: 1005 }]);
}

#[test]
fn past_timer_fires_at_once() {
    let r = translate_result(EraId(0), ProtocolResult::ScheduleTimer(900), 1000);
    assert_eq!(r, vec![Effect::SetTimeout { duration: 0, era_id: EraId(0), timestamp: 900 }]);
}

#[test]
fn new_block_is_requested() {
    let ctx = BlockContext { timestamp: 77 };
    let r = translate_result(
        EraId(1),
        ProtocolResult::CreateNewBlock { block_context: ctx, opt_parent: None },
        0,
    );
    assert_eq!(
        r,
        vec![Effect::RequestProtoBlock { era_id: EraId(1), block_context: ctx, opt_parent: None }]
    );
}

#[test]
fn consensus_value_is_validated() {
    let r = translate_result(EraId(1), ProtocolResult::ValidateConsensusValue(NodeId(8), block(false)), 0);
    assert_eq!(
        r,
        vec![Effect::ValidateProtoBlock { era_id: EraId(1), sender: NodeId(8), proto_block: block(false) }]
    );
}

#[test]
fn finalized_block_is_announced_then_executed() {
    let a = PublicKey([1; 32]);
    let r = translate_result(
        EraId(1),
        ProtocolResult::FinalizedBlock {
            value: block(false),
            new_equivocators: vec![a],
            rewards: vec![(a, 3)],
            timestamp: 55,
        },
        0,
    );
    assert_eq!(
        r,
        vec![
            Effect::AnnounceFinalizedProtoBlock(block(false)),
            Effect::ExecuteBlock {
                era_id: EraId(1),
                block: FinalizedBlock {
                    proto_block: block(false),
                    timestamp: 55,
                    instructions: vec![Instruction::Slash(a), Instruction::Rewards(vec![(a, 3)])],
                },
            },
        ]
    );
}

#[test]
fn duplicate_equals_original() {
    let b = block(true);
    assert_eq!(b.duplicate(), b);
}
