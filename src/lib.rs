//! Era supervision for a Byzantine-fault-tolerant consensus node: stake
//! normalisation, era lifecycle, routing of events to per-era protocol
//! instances and translation of their results into effects.

mod instance;
mod keys;
mod motes;
mod signing;
mod supervisor;
mod translate;
mod types;
mod wasm_backend;
mod weights;

pub use instance::{blake2b_256, decimal, instance_id, instance_label, instance_label_bytes};
pub use keys::{NodeId, PublicKey, SecretKey};
pub use motes::{limb_radix, limbs_value, motes_bound, Motes};
pub use signing::{ed25519_public_key, ed25519_signature};
pub use supervisor::{
    after_request, effects_result_view, lemma_switch_never_overwrites, outcome_view, result_reports, results_applied,
    results_reports, routed, same_settings, seed,
    seed_of, store_signed_block, switch_applied, ConsensusProtocol, EraStatus, EraSupervisor, InstanceCall, Report,
    Request, RequestView, SupervisorError, SupervisorState,
};
pub use translate::{
    build_instructions, execution_request, finalization_effects, finalized_announcement,
    instructions_view, is_switch_finalization, no_switch_finalization,
    result_effects, results_effects, switch_finalization, timeout_duration, translate_result,
};
pub use types::{
    effects_view, opt_block_view, Block, BlockContext, BlockView, ConsensusMessage,
    ConsensusMessageView, DeployHash, Effect, EffectView, EraId, EraParams, EraParamsView,
    FinalizedBlock,
    FinalizedBlockView, HighwayConfig, Instruction, InstructionView, ProtoBlock, ProtoBlockView,
    ProtocolError, ProtocolResult, Signature,
};
pub use wasm_backend::{Address, Context, GasUsage, MeteringPoints, PreparationError};
pub use weights::{
    normalize_weights, normalized_weights, scale_divisor, stake_sum, weight_of, weight_sum, Validators,
    HALF_MAX_WEIGHT,
};
