//! Translation of protocol results into effects.

use crate::keys::PublicKey;
use crate::types::{
    BlockContext, ConsensusMessageView, Effect, EffectView, EraId, FinalizedBlock,
    FinalizedBlockView, Instruction, InstructionView, ProtoBlock, ProtocolResult, effects_view,
    opt_block_view,
};
use vstd::prelude::*;

verus! {

/// Whether `r` finalises a block that ends its era.
pub open spec fn is_switch_finalization(r: ProtocolResult) -> bool {
    match r {
        ProtocolResult::FinalizedBlock { value, .. } => value.switch_block,
        _ => false,
    }
}

/// Whether `r` finalises a block that ends its era.
pub fn switch_finalization(r: &ProtocolResult) -> (b: bool)
    ensures
        b == is_switch_finalization(*r),
{
    match r {
        ProtocolResult::FinalizedBlock { value, .. } => value.switch_block,
        _ => false,
    }
}

/// Whether no result of `rs` finalises a switch block.
pub open spec fn no_switch_finalization(rs: Seq<ProtocolResult>) -> bool {
    forall|i: int| 0 <= i < rs.len() ==> !is_switch_finalization(#[trigger] rs[i])
}

/// One `Slash` per equivocator in order, then one `Rewards` when there are
/// rewards to pay.
pub open spec fn instructions_view(
    equivocators: Seq<PublicKey>,
    rewards: Seq<(PublicKey, u64)>,
) -> Seq<InstructionView> {
    equivocators.map_values(|k: PublicKey| InstructionView::Slash(k)) + if rewards.len() > 0 {
        seq![InstructionView::Rewards(rewards)]
    } else {
        Seq::empty()
    }
}

/// Time left until `deadline` at time `now`, or 0 once it has passed.
pub open spec fn timeout_duration(deadline: u64, now: u64) -> u64 {
    if deadline > now {
        (deadline - now) as u64
    } else {
        0
    }
}

/// The announcement that opens the effects of a finalisation.
pub open spec fn finalized_announcement(value: ProtoBlock) -> EffectView {
    EffectView::AnnounceFinalizedProtoBlock(value@)
}

/// The execution request that closes the effects of a finalisation.
pub open spec fn execution_request(
    era_id: EraId,
    value: ProtoBlock,
    equivocators: Seq<PublicKey>,
    rewards: Seq<(PublicKey, u64)>,
    timestamp: u64,
) -> EffectView {
    EffectView::ExecuteBlock {
        era_id,
        block: FinalizedBlockView {
            proto_block: value@,
            timestamp,
            instructions: instructions_view(equivocators, rewards),
        },
    }
}

/// The effects of one result of the instance of `era_id` at time `now`,
/// where it does not end the era.
pub open spec fn result_effects(era_id: EraId, r: ProtocolResult, now: u64) -> Seq<EffectView> {
    match r {
        ProtocolResult::InvalidIncomingMessage(..) => Seq::empty(),
        ProtocolResult::CreatedGossipMessage(p) => seq![
            EffectView::Broadcast(ConsensusMessageView { era_id, payload: p@ }),
        ],
        ProtocolResult::CreatedTargetedMessage(p, to) => seq![
            EffectView::SendMessage {
                peer: to,
                message: ConsensusMessageView { era_id, payload: p@ },
            },
        ],
        ProtocolResult::ScheduleTimer(t) => seq![
            EffectView::SetTimeout { duration: timeout_duration(t, now), era_id, timestamp: t },
        ],
        ProtocolResult::CreateNewBlock { block_context, opt_parent } => seq![
            EffectView::RequestProtoBlock {
                era_id,
                block_context,
                opt_parent: opt_block_view(opt_parent),
            },
        ],
        ProtocolResult::FinalizedBlock { value, new_equivocators, rewards, timestamp } => seq![
            finalized_announcement(value),
            execution_request(era_id, value, new_equivocators@, rewards@, timestamp),
        ],
        ProtocolResult::ValidateConsensusValue(sender, p) => seq![
            EffectView::ValidateProtoBlock { era_id, sender, proto_block: p@ },
        ],
    }
}

/// The effects of a sequence of results, translated one by one in order.
pub open spec fn results_effects(era_id: EraId, rs: Seq<ProtocolResult>, now: u64) -> Seq<
    EffectView,
>
    decreases rs.len(),
{
    if rs.len() == 0 {
        Seq::empty()
    } else {
        results_effects(era_id, rs.drop_last(), now) + result_effects(era_id, rs.last(), now)
    }
}

pub proof fn lemma_results_effects_prefix(era_id: EraId, rs: Seq<ProtocolResult>, now: u64, i: int)
    requires
        0 <= i < rs.len(),
    ensures
        results_effects(era_id, rs.subrange(0, i + 1), now) == results_effects(
            era_id,
            rs.subrange(0, i),
            now,
        ) + result_effects(era_id, rs[i], now),
{
    assert(rs.subrange(0, i + 1).drop_last() =~= rs.subrange(0, i));
}

/// The instructions for a finalised block: a `Slash` for each equivocator,
/// in order, followed by a `Rewards` entry only when `rewards` is not empty.
pub fn build_instructions(new_equivocators: Vec<PublicKey>, rewards: Vec<(PublicKey, u64)>) -> (r:
    Vec<Instruction>)
    ensures
        r@.map_values(|i: Instruction| i@) == instructions_view(new_equivocators@, rewards@),
        r@.len() == new_equivocators@.len() + if rewards@.len() > 0 {
            1int
        } else {
            0int
        },
        forall|i: int|
            0 <= i < new_equivocators@.len() ==> #[trigger] r@[i] == Instruction::Slash(
                new_equivocators@[i],
            ),
        rewards@.len() > 0 ==> r@[new_equivocators@.len() as int] == Instruction::Rewards(rewards),
{
    let mut r: Vec<Instruction> = Vec::new();
    let mut i: usize = 0;
    while i < new_equivocators.len()
        invariant
            i <= new_equivocators@.len(),
            r@.len() == i,
            forall|j: int| 0 <= j < i ==> #[trigger] r@[j] == Instruction::Slash(new_equivocators@[j]),
        decreases new_equivocators@.len() - i,
    {
        r.push(Instruction::Slash(new_equivocators[i]));
        i = i + 1;
    }
    let ghost rv = rewards@;
    let ghost rew = rewards;
    if rewards.len() > 0 {
        r.push(Instruction::Rewards(rewards));
    }
    assert(r@.map_values(|i: Instruction| i@) =~= instructions_view(new_equivocators@, rv)) by {
        if rv.len() > 0 {
            assert(r@[new_equivocators@.len() as int] == Instruction::Rewards(rew));
        }
    }
    r
}

/// The effects that open and close the finalisation of `value`: its
/// announcement and the request to execute it with its instructions.
pub fn finalization_effects(
    era_id: EraId,
    value: ProtoBlock,
    new_equivocators: Vec<PublicKey>,
    rewards: Vec<(PublicKey, u64)>,
    timestamp: u64,
) -> (r: (Effect, Effect))
    ensures
        r.0@ == finalized_announcement(value),
        r.1@ == execution_request(era_id, value, new_equivocators@, rewards@, timestamp),
{
    let ghost v = value;
    let ghost eq = new_equivocators@;
    let ghost rw = rewards@;
    let announcement = Effect::AnnounceFinalizedProtoBlock(value.duplicate());
    let instructions = build_instructions(new_equivocators, rewards);
    let block = FinalizedBlock { proto_block: value, timestamp, instructions };
    assert(block@.instructions == instructions_view(eq, rw));
    (announcement, Effect::ExecuteBlock { era_id, block })
}

/// The effects of one result of the instance of `era_id` at time `now`,
/// for a result that does not end the era.
pub fn translate_result(era_id: EraId, result: ProtocolResult, now: u64) -> (r: Vec<Effect>)
    requires
        !is_switch_finalization(result),
    ensures
        effects_view(r@) == result_effects(era_id, result, now),
{
    let ghost res = result;
    let mut r: Vec<Effect> = Vec::new();
    match result {
        ProtocolResult::InvalidIncomingMessage(..) => {},
        ProtocolResult::CreatedGossipMessage(p) => {
            r.push(Effect::Broadcast(era_id.message(p)));
        },
        ProtocolResult::CreatedTargetedMessage(p, to) => {
            r.push(Effect::SendMessage { peer: to, message: era_id.message(p) });
        },
        ProtocolResult::ScheduleTimer(timestamp) => {
            let duration = if timestamp > now {
                timestamp - now
            } else {
                0
            };
            r.push(Effect::SetTimeout { duration, era_id, timestamp });
        },
        ProtocolResult::CreateNewBlock { block_context, opt_parent } => {
            r.push(Effect::RequestProtoBlock { era_id, block_context, opt_parent });
        },
        ProtocolResult::FinalizedBlock { value, new_equivocators, rewards, timestamp } => {
            let (announcement, execution) = finalization_effects(
                era_id,
                value,
                new_equivocators,
                rewards,
                timestamp,
            );
            r.push(announcement);
            r.push(execution);
        },
        ProtocolResult::ValidateConsensusValue(sender, proto_block) => {
            r.push(Effect::ValidateProtoBlock { era_id, sender, proto_block });
        },
    }
    assert(effects_view(r@) =~= result_effects(era_id, res, now));
    r
}

} // verus!
