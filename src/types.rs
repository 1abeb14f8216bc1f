//! Values that flow between the supervisor, its protocol instances and the
//! collaborators that carry out effects.

use crate::keys::{NodeId, PublicKey};
use crate::weights::Validators;
use crate::keys::SecretKey;
use vstd::prelude::*;

verus! {

/// Identifier of an era; eras are numbered from 0 upward.
#[derive(Clone, Copy, Debug, Hash, PartialEq, Eq, Structural, PartialOrd, Ord)]
pub struct EraId(pub u64);

impl EraId {
    /// Wraps `payload` into a message addressed to this era.
    pub fn message(self, payload: Vec<u8>) -> (r: ConsensusMessage)
        ensures
            r.era_id == self,
            r.payload == payload,
    {
        ConsensusMessage { era_id: self, payload }
    }

    /// The era that follows this one.
    pub fn successor(self) -> (r: EraId)
        requires
            self.0 < u64::MAX,
        ensures
            r.0 == self.0 + 1,
    {
        EraId(self.0 + 1)
    }
}

/// A message between the instances of one era on different nodes; the
/// payload is read only by that era's protocol instance.
#[derive(Debug, PartialEq, Eq)]
pub struct ConsensusMessage {
    pub era_id: EraId,
    pub payload: Vec<u8>,
}

/// Hash of a deploy carried in a block.
#[derive(Clone, Copy, Debug, PartialEq, Eq, Hash)]
pub struct DeployHash(pub [u8; 32]);

/// A proposed block body that awaits consensus.
#[derive(Debug, PartialEq, Eq)]
pub struct ProtoBlock {
    pub deploys: Vec<DeployHash>,
    pub random_bit: bool,
    /// Whether this block ends its era.
    pub switch_block: bool,
}

impl ProtoBlock {
    /// A second proto-block equal to this one.
    pub fn duplicate(&self) -> (r: ProtoBlock)
        ensures
            r@ == self@,
    {
        let mut deploys: Vec<DeployHash> = Vec::new();
        let mut i: usize = 0;
        while i < self.deploys.len()
            invariant
                i <= self.deploys@.len(),
                deploys@ == self.deploys@.subrange(0, i as int),
            decreases self.deploys@.len() - i,
        {
            deploys.push(self.deploys[i]);
            i = i + 1;
            assert(deploys@ =~= self.deploys@.subrange(0, i as int));
        }
        assert(deploys@ =~= self.deploys@);
        ProtoBlock { deploys, random_bit: self.random_bit, switch_block: self.switch_block }
    }
}

/// What a proposer needs to know to build a block.
#[derive(Clone, Copy, Debug, PartialEq, Eq)]
pub struct BlockContext {
    pub timestamp: u64,
}

/// A consequence of finalisation, for the execution collaborator.
#[derive(Debug, PartialEq, Eq)]
pub enum Instruction {
    /// Slash the stake of an equivocating validator.
    Slash(PublicKey),
    /// Pay out rewards, keyed by validator.
    Rewards(Vec<(PublicKey, u64)>),
}

/// A proto-block that consensus has finalised, ready for execution.
#[derive(Debug, PartialEq, Eq)]
pub struct FinalizedBlock {
    pub proto_block: ProtoBlock,
    pub timestamp: u64,
    pub instructions: Vec<Instruction>,
}

/// A signature over a block hash.
#[derive(Clone, Copy, Debug, PartialEq, Eq)]
pub struct Signature(pub [u8; 64]);

/// An executed block, which the supervisor signs and stores.
#[derive(Debug, PartialEq, Eq)]
pub struct Block {
    pub hash: [u8; 32],
    pub finalized_block: FinalizedBlock,
    pub proofs: Vec<Signature>,
}

/// Static parameters of the consensus protocol.
#[derive(Clone, Copy, Debug, PartialEq, Eq)]
pub struct HighwayConfig {
    pub minimum_round_exponent: u8,
    pub finality_threshold_percent: u8,
}

/// Everything a protocol instance for one era is seeded with.
pub struct EraParams {
    pub era_id: EraId,
    /// Unique to the era: the digest of a label that names it.
    pub instance_id: [u8; 32],
    pub validators: Validators,
    pub public_key: PublicKey,
    pub secret_key: SecretKey,
    pub minimum_round_exponent: u8,
    /// `total_weight * finality_threshold_percent / 100`.
    pub finality_threshold: u128,
    pub start_timestamp: u64,
}

/// An error reported by a protocol instance.
#[derive(Debug, PartialEq, Eq)]
pub struct ProtocolError {
    pub message: String,
}

/// An abstract outcome of one call into a protocol instance.
#[derive(Debug, PartialEq, Eq)]
pub enum ProtocolResult {
    InvalidIncomingMessage(Vec<u8>, NodeId, ProtocolError),
    CreatedGossipMessage(Vec<u8>),
    CreatedTargetedMessage(Vec<u8>, NodeId),
    ScheduleTimer(u64),
    CreateNewBlock { block_context: BlockContext, opt_parent: Option<ProtoBlock> },
    FinalizedBlock {
        value: ProtoBlock,
        new_equivocators: Vec<PublicKey>,
        rewards: Vec<(PublicKey, u64)>,
        timestamp: u64,
    },
    ValidateConsensusValue(NodeId, ProtoBlock),
}

/// A deferred side action for the collaborators, with the event that its
/// completion raises, if any.
#[derive(Debug, PartialEq, Eq)]
pub enum Effect {
    /// Send the message to all peers.
    Broadcast(ConsensusMessage),
    /// Send the message to one peer.
    SendMessage { peer: NodeId, message: ConsensusMessage },
    /// After `duration` raise a timer event for `era_id` at `timestamp`.
    SetTimeout { duration: u64, era_id: EraId, timestamp: u64 },
    /// Ask for a proto-block; its arrival raises a new-proto-block event.
    RequestProtoBlock {
        era_id: EraId,
        block_context: BlockContext,
        opt_parent: Option<ProtoBlock>,
    },
    /// Ask for validation; the answer raises an accept or an invalid event.
    ValidateProtoBlock { era_id: EraId, sender: NodeId, proto_block: ProtoBlock },
    AnnounceFinalizedProtoBlock(ProtoBlock),
    AnnounceProposedProtoBlock(ProtoBlock),
    /// Execute the block; completion raises an executed-block event.
    ExecuteBlock { era_id: EraId, block: FinalizedBlock },
    PutBlockToStorage(Block),
}


/// The mathematical content of a proto-block.
pub struct ProtoBlockView {
    pub deploys: Seq<DeployHash>,
    pub random_bit: bool,
    pub switch_block: bool,
}

impl View for ProtoBlock {
    type V = ProtoBlockView;

    open spec fn view(&self) -> ProtoBlockView {
        ProtoBlockView {
            deploys: self.deploys@,
            random_bit: self.random_bit,
            switch_block: self.switch_block,
        }
    }
}

/// The mathematical content of a message.
pub struct ConsensusMessageView {
    pub era_id: EraId,
    pub payload: Seq<u8>,
}

impl View for ConsensusMessage {
    type V = ConsensusMessageView;

    open spec fn view(&self) -> ConsensusMessageView {
        ConsensusMessageView { era_id: self.era_id, payload: self.payload@ }
    }
}

pub enum InstructionView {
    Slash(PublicKey),
    Rewards(Seq<(PublicKey, u64)>),
}

impl View for Instruction {
    type V = InstructionView;

    open spec fn view(&self) -> InstructionView {
        match self {
            Instruction::Slash(k) => InstructionView::Slash(*k),
            Instruction::Rewards(r) => InstructionView::Rewards(r@),
        }
    }
}

pub struct FinalizedBlockView {
    pub proto_block: ProtoBlockView,
    pub timestamp: u64,
    pub instructions: Seq<InstructionView>,
}

impl View for FinalizedBlock {
    type V = FinalizedBlockView;

    open spec fn view(&self) -> FinalizedBlockView {
        FinalizedBlockView {
            proto_block: self.proto_block@,
            timestamp: self.timestamp,
            instructions: self.instructions@.map_values(|i: Instruction| i@),
        }
    }
}

pub struct BlockView {
    pub hash: Seq<u8>,
    pub finalized_block: FinalizedBlockView,
    pub proofs: Seq<Signature>,
}

impl View for Block {
    type V = BlockView;

    open spec fn view(&self) -> BlockView {
        BlockView {
            hash: self.hash@,
            finalized_block: self.finalized_block@,
            proofs: self.proofs@,
        }
    }
}

pub open spec fn opt_block_view(b: Option<ProtoBlock>) -> Option<ProtoBlockView> {
    match b {
        Some(p) => Some(p@),
        None => None,
    }
}

/// The mathematical content of an effect.
pub enum EffectView {
    Broadcast(ConsensusMessageView),
    SendMessage { peer: NodeId, message: ConsensusMessageView },
    SetTimeout { duration: u64, era_id: EraId, timestamp: u64 },
    RequestProtoBlock {
        era_id: EraId,
        block_context: BlockContext,
        opt_parent: Option<ProtoBlockView>,
    },
    ValidateProtoBlock { era_id: EraId, sender: NodeId, proto_block: ProtoBlockView },
    AnnounceFinalizedProtoBlock(ProtoBlockView),
    AnnounceProposedProtoBlock(ProtoBlockView),
    ExecuteBlock { era_id: EraId, block: FinalizedBlockView },
    PutBlockToStorage(BlockView),
}

impl View for Effect {
    type V = EffectView;

    open spec fn view(&self) -> EffectView {
        match self {
            Effect::Broadcast(m) => EffectView::Broadcast(m@),
            Effect::SendMessage { peer, message } => EffectView::SendMessage {
                peer: *peer,
                message: message@,
            },
            Effect::SetTimeout { duration, era_id, timestamp } => EffectView::SetTimeout {
                duration: *duration,
                era_id: *era_id,
                timestamp: *timestamp,
            },
            Effect::RequestProtoBlock { era_id, block_context, opt_parent } =>
                EffectView::RequestProtoBlock {
                    era_id: *era_id,
                    block_context: *block_context,
                    opt_parent: opt_block_view(*opt_parent),
                },
            Effect::ValidateProtoBlock { era_id, sender, proto_block } =>
                EffectView::ValidateProtoBlock {
                    era_id: *era_id,
                    sender: *sender,
                    proto_block: proto_block@,
                },
            Effect::AnnounceFinalizedProtoBlock(p) => EffectView::AnnounceFinalizedProtoBlock(p@),
            Effect::AnnounceProposedProtoBlock(p) => EffectView::AnnounceProposedProtoBlock(p@),
            Effect::ExecuteBlock { era_id, block } => EffectView::ExecuteBlock {
                era_id: *era_id,
                block: block@,
            },
            Effect::PutBlockToStorage(b) => EffectView::PutBlockToStorage(b@),
        }
    }
}

/// The mathematical content of the seed of a protocol instance.
pub struct EraParamsView {
    pub era_id: EraId,
    pub instance_id: Seq<u8>,
    pub weights: Seq<(PublicKey, u64)>,
    pub total_weight: u64,
    pub public_key: PublicKey,
    pub secret_key: SecretKey,
    pub minimum_round_exponent: u8,
    pub finality_threshold: u128,
    pub start_timestamp: u64,
}

impl View for EraParams {
    type V = EraParamsView;

    open spec fn view(&self) -> EraParamsView {
        EraParamsView {
            era_id: self.era_id,
            instance_id: self.instance_id@,
            weights: self.validators.weights@,
            total_weight: self.validators.total_weight,
            public_key: self.public_key,
            secret_key: self.secret_key,
            minimum_round_exponent: self.minimum_round_exponent,
            finality_threshold: self.finality_threshold,
            start_timestamp: self.start_timestamp,
        }
    }
}

/// The views of a sequence of effects.
pub open spec fn effects_view(e: Seq<Effect>) -> Seq<EffectView> {
    e.map_values(|x: Effect| x@)
}

} // verus!
