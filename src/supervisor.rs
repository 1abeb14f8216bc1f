//! The era supervisor: one protocol instance per era, routing of events to
//! them, and succession of eras.

use crate::instance::{blake2b_256, instance_id, instance_label};
use crate::signing::{ed25519_public_key, ed25519_signature, public_key_of, sign_hash};
use crate::keys::{NodeId, PublicKey, SecretKey};
use crate::motes::{Motes, motes_bound};
use crate::translate::{
    execution_request, finalization_effects, finalized_announcement, is_switch_finalization,
    result_effects,
    lemma_results_effects_prefix, no_switch_finalization, results_effects, translate_result,
};
use crate::types::{
    Block, BlockContext, ConsensusMessage, Effect, EffectView, EraId, EraParams, EraParamsView,
    HighwayConfig, ProtoBlock, ProtoBlockView, ProtocolError, ProtocolResult, Signature,
    effects_view,
};
use crate::weights::{normalize_weights, normalized_weights, stake_sum, weight_sum};
use vstd::prelude::*;

verus! {

/// One era's instance of a consensus protocol. The supervisor addresses
/// every era through these calls; to run different protocols in different
/// eras, implement this on a type that can hold any of them.
pub trait ConsensusProtocol: Sized {
    /// A fresh instance for an era, with the results it starts with.
    fn create(params: EraParams) -> (Self, Vec<ProtocolResult>);

    fn handle_timer(&mut self, timestamp: u64) -> Result<Vec<ProtocolResult>, ProtocolError>;

    fn handle_message(&mut self, sender: NodeId, payload: Vec<u8>) -> Result<
        Vec<ProtocolResult>,
        ProtocolError,
    >;

    fn propose(&mut self, proto_block: ProtoBlock, block_context: BlockContext) -> Result<
        Vec<ProtocolResult>,
        ProtocolError,
    >;

    fn resolve_validity(&mut self, proto_block: &ProtoBlock, valid: bool) -> Result<
        Vec<ProtocolResult>,
        ProtocolError,
    >;

    /// Stops this instance from proposing and voting; it still handles
    /// messages and timers.
    fn deactivate_validator(&mut self);
}

/// A call to make on the instance of an era.
pub enum Request {
    Timer(u64),
    Message(NodeId, Vec<u8>),
    Propose(ProtoBlock, BlockContext),
    ResolveValidity(ProtoBlock, bool),
}

pub enum RequestView {
    Timer(u64),
    Message(NodeId, Seq<u8>),
    Propose(ProtoBlockView, BlockContext),
    ResolveValidity(ProtoBlockView, bool),
}

impl View for Request {
    type V = RequestView;

    open spec fn view(&self) -> RequestView {
        match self {
            Request::Timer(t) => RequestView::Timer(*t),
            Request::Message(s, p) => RequestView::Message(*s, p@),
            Request::Propose(b, c) => RequestView::Propose(b@, *c),
            Request::ResolveValidity(b, v) => RequestView::ResolveValidity(b@, *v),
        }
    }
}

/// A broken invariant of the era lifecycle. Such a value means a defect, and
/// the caller is to abort rather than go on.
#[derive(Debug, PartialEq, Eq)]
pub enum SupervisorError {
    /// A switch block was finalised in an era other than the current one.
    UnexpectedEra { era_id: EraId, current_era: EraId },
    /// The current era has the largest id there is and cannot be succeeded.
    EraLimit,
}

/// Something that was dropped on the way, kept for the node to log.
#[derive(Debug, PartialEq, Eq)]
pub enum Report {
    /// The instance of `era_id` found a message from `sender` invalid.
    InvalidMessage { era_id: EraId, sender: NodeId, message: Vec<u8>, error: ProtocolError },
    /// The instance of `era_id` failed on a request, which was dropped.
    InstanceError { era_id: EraId, error: ProtocolError },
}

/// What one result of the instance of `era_id` leaves to report.
pub open spec fn result_reports(era_id: EraId, r: ProtocolResult) -> Seq<Report> {
    match r {
        ProtocolResult::InvalidIncomingMessage(message, sender, error) => seq![
            Report::InvalidMessage { era_id, sender, message, error },
        ],
        _ => Seq::empty(),
    }
}

/// What a sequence of results of the instance of `era_id` leaves to report.
pub open spec fn results_reports(era_id: EraId, rs: Seq<ProtocolResult>) -> Seq<Report>
    decreases rs.len(),
{
    if rs.len() == 0 {
        Seq::empty()
    } else {
        results_reports(era_id, rs.drop_last()) + result_reports(era_id, rs.last())
    }
}

/// Where an era id stands with respect to the live eras.
#[derive(Clone, Copy, Debug, PartialEq, Eq)]
pub enum EraStatus {
    Live,
    Future,
    Obsolete,
}

/// One call that the supervisor made on a protocol instance.
pub enum InstanceCall<P> {
    /// The instance of `era_id` was built from `params` and started with
    /// the results `initial`.
    Created { era_id: EraId, params: EraParamsView, initial: Seq<ProtocolResult> },
    /// The instance of `era_id` got `request`, answered `outcome`, and then
    /// stood as `instance`.
    Requested {
        era_id: EraId,
        request: RequestView,
        outcome: Result<Seq<ProtocolResult>, ProtocolError>,
        instance: P,
    },
    /// The instance of `era_id` was told to stop validating, and then stood
    /// as `instance`.
    Deactivated { era_id: EraId, instance: P },
}

/// The results of a call into an instance, as values.
pub open spec fn outcome_view(o: Result<Vec<ProtocolResult>, ProtocolError>) -> Result<
    Seq<ProtocolResult>,
    ProtocolError,
> {
    match o {
        Ok(v) => Ok(v@),
        Err(e) => Err(e),
    }
}

/// The effects of a call into the supervisor, as values.
pub open spec fn effects_result_view(r: Result<Vec<Effect>, SupervisorError>) -> Result<
    Seq<EffectView>,
    SupervisorError,
> {
    match r {
        Ok(v) => Ok(effects_view(v@)),
        Err(e) => Err(e),
    }
}

/// Everything a supervisor holds, as values.
pub struct SupervisorState<P> {
    pub eras: Seq<P>,
    pub current: EraId,
    /// Every call made on an instance, in order.
    pub calls: Seq<InstanceCall<P>>,
    /// Ids of the eras whose instance was told to stop validating.
    pub deactivated: Set<u64>,
    pub stakes: Seq<(PublicKey, Motes)>,
    pub config: HighwayConfig,
    pub public_key: PublicKey,
    pub secret_key: SecretKey,
}

/// The effect that stores `block` with `signature` appended to its proofs.
pub fn store_signed_block(block: Block, signature: Signature) -> (r: Vec<Effect>)
    ensures
        r@.len() == 1,
        r@[0] matches Effect::PutBlockToStorage(b) && b.hash == block.hash && b.finalized_block
            == block.finalized_block && b.proofs@ == block.proofs@.push(signature),
{
    let mut block = block;
    block.proofs.push(signature);
    let mut effects: Vec<Effect> = Vec::new();
    effects.push(Effect::PutBlockToStorage(block));
    effects
}

/// Whether `a` and `b` agree on everything but the instances and the eras.
pub open spec fn same_settings<P>(a: SupervisorState<P>, b: SupervisorState<P>) -> bool {
    &&& a.stakes == b.stakes
    &&& a.config == b.config
    &&& a.public_key == b.public_key
    &&& a.secret_key == b.secret_key
}

/// What the instance of `era_id`, started at `timestamp`, is seeded with.
pub open spec fn seed_of(
    stakes: Seq<(PublicKey, Motes)>,
    config: HighwayConfig,
    public_key: PublicKey,
    secret_key: SecretKey,
    era_id: EraId,
    timestamp: u64,
) -> EraParamsView {
    let w = normalized_weights(stakes);
    EraParamsView {
        era_id,
        instance_id: blake2b_256(instance_label(era_id.0)),
        weights: w,
        total_weight: weight_sum(w) as u64,
        public_key,
        secret_key,
        minimum_round_exponent: config.minimum_round_exponent,
        finality_threshold: (weight_sum(w) * config.finality_threshold_percent / 100) as u128,
        start_timestamp: timestamp,
    }
}

pub open spec fn seed<P>(s: SupervisorState<P>, era_id: EraId, timestamp: u64) -> EraParamsView {
    seed_of(s.stakes, s.config, s.public_key, s.secret_key, era_id, timestamp)
}

/// `s` once the instance named in the request record `entry` has answered.
pub open spec fn after_request<P>(s: SupervisorState<P>, entry: InstanceCall<P>) -> SupervisorState<
    P,
> {
    match entry {
        InstanceCall::Requested { era_id, instance, .. } => SupervisorState {
            eras: s.eras.update(era_id.0 as int, instance),
            current: s.current,
            calls: s.calls.push(entry),
            deactivated: s.deactivated,
            stakes: s.stakes,
            config: s.config,
            public_key: s.public_key,
            secret_key: s.secret_key,
        },
        _ => s,
    }
}

/// What finalising a switch block in `result`, from the instance of
/// `era_id`, does to `before`, giving `after` and the effects `r`, where
/// `prefix` are the effects produced before it. Outside the current era
/// it is refused; in the current era the era is deactivated, its successor
/// is seeded and started and becomes current, and the effects are the
/// announcement, the successor's start and the execution request, followed
/// by the translation of `tail`, the results after it in the same answer; a
/// second switch block among them is refused.
pub open spec fn switch_applied<P>(
    before: SupervisorState<P>,
    after: SupervisorState<P>,
    era_id: EraId,
    result: ProtocolResult,
    now: u64,
    r: Result<Seq<EffectView>, SupervisorError>,
    prefix: Seq<EffectView>,
    tail: Seq<ProtocolResult>,
) -> bool {
    match result {
        ProtocolResult::FinalizedBlock { value, new_equivocators, rewards, timestamp } => {
            let n = before.calls.len();
            let succ = EraId((era_id.0 + 1) as u64);
            if era_id != before.current {
                &&& r == Err::<Seq<EffectView>, SupervisorError>(
                    SupervisorError::UnexpectedEra { era_id, current_era: before.current },
                )
                &&& after == before
            } else if era_id.0 == u64::MAX {
                &&& r == Err::<Seq<EffectView>, SupervisorError>(SupervisorError::EraLimit)
                &&& after == before
            } else {
                &&& after.current == succ
                &&& after.eras.len() == before.eras.len() + 1
                &&& after.eras.subrange(0, era_id.0 as int) == before.eras.subrange(0, era_id.0 as int)
                &&& after.deactivated == before.deactivated.insert(era_id.0)
                &&& same_settings(after, before)
                &&& after.calls.len() == n + 2
                &&& after.calls.subrange(0, n as int) == before.calls
                &&& after.calls[n as int] == InstanceCall::Deactivated {
                    era_id,
                    instance: after.eras[era_id.0 as int],
                }
                &&& match after.calls[n as int + 1] {
                    InstanceCall::Created { era_id: e, params, initial } => {
                        let full = prefix + seq![finalized_announcement(value)] + results_effects(
                            succ,
                            initial,
                            now,
                        ) + seq![
                            execution_request(
                                era_id,
                                value,
                                new_equivocators@,
                                rewards@,
                                timestamp,
                            ),
                        ];
                        &&& e == succ
                        &&& params == seed(before, succ, timestamp)
                        &&& no_switch_finalization(initial) && no_switch_finalization(tail) ==> r is Ok
                        &&& r is Err ==> !no_switch_finalization(initial) || !no_switch_finalization(
                            tail,
                        )
                        &&& r matches Err(x) ==> x == (SupervisorError::UnexpectedEra {
                            era_id: succ,
                            current_era: era_id,
                        }) || x == (SupervisorError::UnexpectedEra { era_id, current_era: succ })
                        &&& r matches Ok(eff) ==> no_switch_finalization(tail) && eff == full
                            + results_effects(era_id, tail, now)
                    },
                    _ => false,
                }
            }
        },
        _ => false,
    }
}

/// What applying the results `rs` of the instance of `era_id`, in order,
/// does: without a switch block they are translated and nothing else
/// changes; the first switch block acts as `switch_applied` says.
pub open spec fn results_applied<P>(
    before: SupervisorState<P>,
    after: SupervisorState<P>,
    era_id: EraId,
    rs: Seq<ProtocolResult>,
    now: u64,
    r: Result<Seq<EffectView>, SupervisorError>,
) -> bool {
    &&& no_switch_finalization(rs) ==> {
        &&& r == Ok::<Seq<EffectView>, SupervisorError>(results_effects(era_id, rs, now))
        &&& after == before
    }
    &&& forall|k: int|
        0 <= k < rs.len() && is_switch_finalization(#[trigger] rs[k]) && no_switch_finalization(
            rs.subrange(0, k),
        ) ==> switch_applied(
            before,
            after,
            era_id,
            rs[k],
            now,
            r,
            results_effects(era_id, rs.subrange(0, k), now),
            rs.subrange(k + 1, rs.len() as int),
        )
}

/// What a request to the instance of `era_id` does: an era without an
/// instance absorbs it; otherwise the request, the answer of the instance
/// of `era_id` and that instance afterwards are recorded, only that
/// instance changes before the answer is applied; an error gives no effect and changes nothing
/// more, results are applied as `results_applied` says.
pub open spec fn routed<P>(
    before: SupervisorState<P>,
    after: SupervisorState<P>,
    era_id: EraId,
    request: RequestView,
    now: u64,
    r: Result<Seq<EffectView>, SupervisorError>,
) -> bool {
    let n = before.calls.len();
    if era_id.0 >= before.eras.len() {
        &&& r == Ok::<Seq<EffectView>, SupervisorError>(Seq::empty())
        &&& after == before
    } else {
        &&& after.calls.len() > n
        &&& match after.calls[n as int] {
            InstanceCall::Requested { era_id: e, request: rq, outcome, instance } => {
                let mid = after_request(before, after.calls[n as int]);
                &&& e == era_id
                &&& rq == request
                &&& outcome is Err ==> {
                    &&& r == Ok::<Seq<EffectView>, SupervisorError>(Seq::empty())
                    &&& after == mid
                }
                &&& outcome matches Ok(rs) ==> results_applied(mid, after, era_id, rs, now, r)
            },
            _ => false,
        }
    }
}

/// Starting an era never overwrites one: when a switch block of the current
/// era is applied to a supervisor whose live eras are `0..=current`, the
/// successor had no instance before, every earlier instance is kept, and
/// exactly one era is added.
pub proof fn lemma_switch_never_overwrites<P>(
    before: SupervisorState<P>,
    after: SupervisorState<P>,
    era_id: EraId,
    result: ProtocolResult,
    now: u64,
    r: Result<Seq<EffectView>, SupervisorError>,
    prefix: Seq<EffectView>,
    tail: Seq<ProtocolResult>,
)
    requires
        before.eras.len() == before.current.0 + 1,
        is_switch_finalization(result),
        era_id == before.current,
        era_id.0 < u64::MAX,
        switch_applied(before, after, era_id, result, now, r, prefix, tail),
    ensures
        era_id.0 + 1 >= before.eras.len(),
        after.eras.len() == before.eras.len() + 1,
        after.eras.subrange(0, era_id.0 as int) == before.eras.subrange(0, era_id.0 as int),
        after.current.0 == era_id.0 + 1,
{
}

proof fn lemma_first_switch_unique(rs: Seq<ProtocolResult>, k1: int, k2: int)
    requires
        0 <= k1 < rs.len(),
        0 <= k2 < rs.len(),
        is_switch_finalization(rs[k1]),
        is_switch_finalization(rs[k2]),
        no_switch_finalization(rs.subrange(0, k1)),
        no_switch_finalization(rs.subrange(0, k2)),
    ensures
        k1 == k2,
{
    if k1 < k2 {
        assert(rs.subrange(0, k2)[k1] == rs[k1]);
    } else if k2 < k1 {
        assert(rs.subrange(0, k1)[k2] == rs[k2]);
    }
}

proof fn lemma_switch_weaken<P>(
    before: SupervisorState<P>,
    after: SupervisorState<P>,
    era_id: EraId,
    result: ProtocolResult,
    now: u64,
    r1: Result<Seq<EffectView>, SupervisorError>,
    r2: Result<Seq<EffectView>, SupervisorError>,
    prefix: Seq<EffectView>,
    tail: Seq<ProtocolResult>,
)
    requires
        switch_applied(before, after, era_id, result, now, r1, Seq::empty(), Seq::empty()),
        r1 is Err ==> r2 == r1,
        r1 matches Ok(x) ==> r2 == Ok::<Seq<EffectView>, SupervisorError>(prefix + x),
        r1 is Ok ==> tail == Seq::<ProtocolResult>::empty(),
    ensures
        switch_applied(before, after, era_id, result, now, r2, prefix, tail),
{
    match result {
        ProtocolResult::FinalizedBlock { value, new_equivocators, rewards, timestamp } => {
            if era_id == before.current && era_id.0 < u64::MAX {
                let n = before.calls.len();
                match after.calls[n as int + 1] {
                    InstanceCall::Created { era_id: e, params, initial } => {
                        let succ = EraId((era_id.0 + 1) as u64);
                        assert(results_effects(era_id, Seq::<ProtocolResult>::empty(), now)
                            =~= Seq::<EffectView>::empty());
                        if r1 is Ok {
                            let x = r1->Ok_0;
                            let body = seq![finalized_announcement(value)] + results_effects(
                                succ,
                                initial,
                                now,
                            ) + seq![
                                execution_request(
                                    era_id,
                                    value,
                                    new_equivocators@,
                                    rewards@,
                                    timestamp,
                                ),
                            ];
                            assert(Seq::<EffectView>::empty() + body + Seq::<EffectView>::empty()
                                =~= body);
                            assert(prefix + x =~= prefix + body + Seq::<EffectView>::empty());
                            assert(prefix + seq![finalized_announcement(value)] + results_effects(
                                succ,
                                initial,
                                now,
                            ) + seq![
                                execution_request(
                                    era_id,
                                    value,
                                    new_equivocators@,
                                    rewards@,
                                    timestamp,
                                ),
                            ] =~= prefix + body);
                        }
                    },
                    _ => {},
                }
            }
        },
        _ => {},
    }
}

proof fn lemma_switch_extend<P>(
    before: SupervisorState<P>,
    after: SupervisorState<P>,
    era_id: EraId,
    result: ProtocolResult,
    now: u64,
    x: Seq<EffectView>,
    prefix: Seq<EffectView>,
    tail: Seq<ProtocolResult>,
    next: ProtocolResult,
)
    requires
        switch_applied(
            before,
            after,
            era_id,
            result,
            now,
            Ok::<Seq<EffectView>, SupervisorError>(x),
            prefix,
            tail,
        ),
        !is_switch_finalization(next),
    ensures
        switch_applied(
            before,
            after,
            era_id,
            result,
            now,
            Ok::<Seq<EffectView>, SupervisorError>(x + result_effects(era_id, next, now)),
            prefix,
            tail.push(next),
        ),
{
    assert(tail.push(next).drop_last() =~= tail);
    assert(no_switch_finalization(tail.push(next))) by {
        assert forall|j: int| 0 <= j < tail.len() + 1 implies !is_switch_finalization(
            #[trigger] tail.push(next)[j],
        ) by {
            if j < tail.len() {
                assert(tail.push(next)[j] == tail[j]);
            }
        }
    }
    match result {
        ProtocolResult::FinalizedBlock { value, new_equivocators, rewards, timestamp } => {
            if era_id == before.current && era_id.0 < u64::MAX {
                let n = before.calls.len();
                match after.calls[n as int + 1] {
                    InstanceCall::Created { era_id: e, params, initial } => {
                        let succ = EraId((era_id.0 + 1) as u64);
                        let full = prefix + seq![finalized_announcement(value)] + results_effects(
                            succ,
                            initial,
                            now,
                        ) + seq![
                            execution_request(era_id, value, new_equivocators@, rewards@, timestamp),
                        ];
                        assert(x + result_effects(era_id, next, now) =~= full + results_effects(
                            era_id,
                            tail.push(next),
                            now,
                        ));
                    },
                    _ => {},
                }
            }
        },
        _ => {},
    }
}

proof fn lemma_switch_refuse<P>(
    before: SupervisorState<P>,
    after: SupervisorState<P>,
    era_id: EraId,
    result: ProtocolResult,
    now: u64,
    x: Seq<EffectView>,
    prefix: Seq<EffectView>,
    tail: Seq<ProtocolResult>,
    full_tail: Seq<ProtocolResult>,
)
    requires
        switch_applied(
            before,
            after,
            era_id,
            result,
            now,
            Ok::<Seq<EffectView>, SupervisorError>(x),
            prefix,
            tail,
        ),
        !no_switch_finalization(full_tail),
        after.current.0 == era_id.0 + 1,
    ensures
        switch_applied(
            before,
            after,
            era_id,
            result,
            now,
            Err::<Seq<EffectView>, SupervisorError>(
                SupervisorError::UnexpectedEra { era_id, current_era: after.current },
            ),
            prefix,
            full_tail,
        ),
{
}

/// Owns the live eras, routes events to them and starts each next era.
/// Eras are never removed: the instance of era `n` sits at index `n`, and
/// the live ids are exactly `0..=current_era`.
pub struct EraSupervisor<P> {
    active_eras: Vec<P>,
    calls: Ghost<Seq<InstanceCall<P>>>,
    deactivated: Ghost<Set<u64>>,
    secret_signing_key: SecretKey,
    public_signing_key: PublicKey,
    validator_stakes: Vec<(PublicKey, Motes)>,
    current_era: EraId,
    highway_config: HighwayConfig,
    reports: Vec<Report>,
}

impl<P: ConsensusProtocol> EraSupervisor<P> {
    /// What was dropped and not yet taken.
    pub closed spec fn spec_reports(&self) -> Seq<Report> {
        self.reports@
    }

    pub closed spec fn state(&self) -> SupervisorState<P> {
        SupervisorState {
            eras: self.active_eras@,
            current: self.current_era,
            calls: self.calls@,
            deactivated: self.deactivated@,
            stakes: self.validator_stakes@,
            config: self.highway_config,
            public_key: self.public_signing_key,
            secret_key: self.secret_signing_key,
        }
    }

    pub open spec fn spec_eras(&self) -> Seq<P> {
        self.state().eras
    }

    pub open spec fn spec_current_era(&self) -> EraId {
        self.state().current
    }

    pub open spec fn spec_calls(&self) -> Seq<InstanceCall<P>> {
        self.state().calls
    }

    pub open spec fn spec_deactivated(&self) -> Set<u64> {
        self.state().deactivated
    }

    pub closed spec fn wf(&self) -> bool {
        &&& self.active_eras@.len() == self.current_era.0 + 1
        &&& self.deactivated@ == Set::new(|i: u64| i < self.current_era.0)
        &&& stake_sum(self.validator_stakes@) < motes_bound()
    }

    /// The live eras are exactly those up to the current one, so the
    /// successor of the current era, the only era that is ever started
    /// after construction, never has an instance to be overwritten.
    pub proof fn lemma_live_eras(&self)
        requires
            self.wf(),
        ensures
            forall|e: EraId| #[trigger] self.has_era(e) <==> e.0 <= self.spec_current_era().0,
            self.spec_current_era().0 < u64::MAX ==> !self.has_era(
                EraId((self.spec_current_era().0 + 1) as u64),
            ),
    {
    }

    /// Whether `era_id` has a live instance.
    pub open spec fn has_era(&self, era_id: EraId) -> bool {
        era_id.0 < self.spec_eras().len()
    }

    /// A supervisor whose only era is era 0, started at `timestamp` with
    /// `validator_stakes`, together with the effects of era 0's start.
    pub fn new(
        timestamp: u64,
        now: u64,
        secret_signing_key: SecretKey,
        validator_stakes: Vec<(PublicKey, Motes)>,
        highway_config: &HighwayConfig,
    ) -> (r: (Self, Result<Vec<Effect>, SupervisorError>))
        requires
            stake_sum(validator_stakes@) < motes_bound(),
        ensures
            r.0.wf(),
            r.0.has_era(EraId(0)),
            r.0.state().stakes == validator_stakes@,
            r.0.state().config == *highway_config,
            r.0.state().public_key.0@ == ed25519_public_key(secret_signing_key.0@),
            r.0.state().secret_key == secret_signing_key,
            r.0.spec_calls().len() >= 1,
            r.0.spec_calls()[0] matches InstanceCall::Created { era_id, params, initial } && {
                &&& era_id == EraId(0)
                &&& params == seed_of(
                    validator_stakes@,
                    *highway_config,
                    r.0.state().public_key,
                    secret_signing_key,
                    EraId(0),
                    timestamp,
                )
                &&& no_switch_finalization(initial) ==> {
                    &&& r.1 matches Ok(e)
                    &&& effects_view(e@) == results_effects(EraId(0), initial, now)
                    &&& r.0.spec_current_era() == EraId(0)
                    &&& r.0.spec_eras().len() == 1
                    &&& r.0.spec_calls().len() == 1
                }
                &&& r.1 is Err ==> !no_switch_finalization(initial)
                &&& exists|started: SupervisorState<P>|
                    {
                        &&& started.current == EraId(0)
                        &&& started.eras.len() == 1
                        &&& started.calls == seq![r.0.spec_calls()[0]]
                        &&& started.deactivated == Set::<u64>::empty()
                        &&& same_settings(started, r.0.state())
                        &&& #[trigger] results_applied(
                            started,
                            r.0.state(),
                            EraId(0),
                            initial,
                            now,
                            effects_result_view(r.1),
                        )
                    }
            },
    {
        let public_signing_key = public_key_of(&secret_signing_key);
        let mut era_supervisor = EraSupervisor {
            active_eras: Vec::new(),
            calls: Ghost(Seq::empty()),
            deactivated: Ghost(Set::empty()),
            secret_signing_key,
            public_signing_key,
            validator_stakes,
            current_era: EraId(0),
            highway_config: *highway_config,
            reports: Vec::new(),
        };
        assert(era_supervisor.deactivated@ =~= Set::new(|i: u64| i < 0));
        let results = era_supervisor.new_era(EraId(0), timestamp);
        let ghost initial = results@;
        let ghost started = era_supervisor.state();
        let effects = era_supervisor.handle_results(EraId(0), results, now);
        proof {
            assert(era_supervisor.state().calls.subrange(0, 1) == started.calls);
            assert(started.calls[0] == era_supervisor.state().calls.subrange(0, 1)[0]);
            assert(started.calls =~= seq![era_supervisor.state().calls[0]]);
            assert(started.deactivated =~= Set::<u64>::empty());
            assert(same_settings(started, era_supervisor.state()));
            assert(started.eras.len() == 1);
            assert(results_applied(
                started,
                era_supervisor.state(),
                EraId(0),
                initial,
                now,
                effects_result_view(effects),
            ));
        }
        (era_supervisor, effects)
    }

    /// What the instance of `era_id`, started at `timestamp`, is seeded
    /// with: the weights of the stakes, the instance id of the era, this
    /// node's keys, the round exponent, and the finality threshold
    /// `total_weight * finality_threshold_percent / 100`.
    pub fn era_params(&self, era_id: EraId, timestamp: u64) -> (r: EraParams)
        requires
            stake_sum(self.state().stakes) < motes_bound(),
        ensures
            r@ == seed(self.state(), era_id, timestamp),
    {
        let validators = normalize_weights(&self.validator_stakes);
        let total = validators.total_weight as u128;
        let percent = self.highway_config.finality_threshold_percent as u128;
        assert(total * percent <= 18446744073709551615u128 * 255) by (nonlinear_arith)
            requires
                total <= 18446744073709551615u128,
                percent <= 255,
        ;
        let finality_threshold = total * percent / 100;
        let params = EraParams {
            era_id,
            instance_id: instance_id(era_id),
            validators,
            public_key: self.public_signing_key,
            secret_key: self.secret_signing_key,
            minimum_round_exponent: self.highway_config.minimum_round_exponent,
            finality_threshold,
            start_timestamp: timestamp,
        };
        assert(params@.weights =~= seed(self.state(), era_id, timestamp).weights);
        params
    }

    /// Starts the instance of `era_id`, which must be the next id without
    /// an instance, and returns the results it starts with.
    fn new_era(&mut self, era_id: EraId, timestamp: u64) -> (r: Vec<ProtocolResult>)
        requires
            era_id.0 == old(self).active_eras@.len(),
            stake_sum(old(self).validator_stakes@) < motes_bound(),
        ensures
            final(self).active_eras@.len() == old(self).active_eras@.len() + 1,
            final(self).active_eras@.subrange(0, era_id.0 as int) == old(self).active_eras@,
            final(self).current_era == old(self).current_era,
            final(self).deactivated == old(self).deactivated,
            final(self).validator_stakes == old(self).validator_stakes,
            final(self).highway_config == old(self).highway_config,
            final(self).public_signing_key == old(self).public_signing_key,
            final(self).secret_signing_key == old(self).secret_signing_key,
            final(self).reports == old(self).reports,
            final(self).calls@ == old(self).calls@.push(
                InstanceCall::Created {
                    era_id,
                    params: seed(old(self).state(), era_id, timestamp),
                    initial: r@,
                },
            ),
    {
        let params = self.era_params(era_id, timestamp);
        let (instance, results) = P::create(params);
        self.active_eras.push(instance);
        proof {
            self.calls@ = self.calls@.push(
                InstanceCall::Created {
                    era_id,
                    params: seed(old(self).state(), era_id, timestamp),
                    initial: results@,
                },
            );
        }
        assert(self.active_eras@.subrange(0, era_id.0 as int) =~= old(self).active_eras@);
        results
    }

    /// The effects of the results that a new instance of `era_id` starts
    /// with, where `era_id` is not the current era.
    fn translate_new_era_results(
        era_id: EraId,
        current_era: EraId,
        results: Vec<ProtocolResult>,
        now: u64,
    ) -> (r: Result<Vec<Effect>, SupervisorError>)
        requires
            era_id != current_era,
        ensures
            no_switch_finalization(results@) <==> r is Ok,
            r matches Ok(e) ==> effects_view(e@) == results_effects(era_id, results@, now),
            r matches Err(e) ==> e == (SupervisorError::UnexpectedEra { era_id, current_era }),
    {
        let ghost rs = results@;
        let n = results.len();
        let mut pending = results;
        let mut effects: Vec<Effect> = Vec::new();
        let mut i: usize = 0;
        while i < n
            invariant
                i <= n,
                n == rs.len(),
                rs == results@,
                pending@ == rs.subrange(i as int, rs.len() as int),
                no_switch_finalization(rs.subrange(0, i as int)),
                effects_view(effects@) == results_effects(era_id, rs.subrange(0, i as int), now),
            decreases pending@.len(),
        {
            let result = pending.remove(0);
            assert(result == rs[i as int]);
            if crate::translate::switch_finalization(&result) {
                assert(is_switch_finalization(rs[i as int]));
                return Err(SupervisorError::UnexpectedEra { era_id, current_era });
            }
            let mut more = translate_result(era_id, result, now);
            proof {
                lemma_results_effects_prefix(era_id, rs, now, i as int);
                assert(no_switch_finalization(rs.subrange(0, i as int + 1)));
            }
            let ghost before = effects@;
            let ghost added = more@;
            effects.append(&mut more);
            assert(effects@ =~= before + added);
            assert(effects_view(effects@) =~= effects_view(before) + effects_view(added));
            i = i + 1;
        }
        assert(rs.subrange(0, i as int) =~= rs);
        Ok(effects)
    }

    /// Hands out the instance of the current era.
    fn current_era_mut(&mut self) -> (r: &mut P)
        requires
            old(self).wf(),
        ensures
            *r == old(self).active_eras@[old(self).current_era.0 as int],
            final(self).active_eras@ == old(self).active_eras@.update(
                old(self).current_era.0 as int,
                *final(r),
            ),
            final(self).current_era == old(self).current_era,
            final(self).calls == old(self).calls,
            final(self).reports == old(self).reports,
            final(self).deactivated == old(self).deactivated,
            final(self).validator_stakes == old(self).validator_stakes,
            final(self).highway_config == old(self).highway_config,
            final(self).public_signing_key == old(self).public_signing_key,
            final(self).secret_signing_key == old(self).secret_signing_key,
    {
        let n = self.active_eras.len();
        assert(self.current_era.0 < n);
        let i = self.current_era.0 as usize;
        &mut self.active_eras[i]
    }

    /// Applies one result of the instance of `era_id`. A result that
    /// finalises a switch block of the current era retires that era as a
    /// validator and starts its successor, which becomes current.
    pub fn handle_consensus_result(&mut self, era_id: EraId, result: ProtocolResult, now: u64) -> (r:
        Result<Vec<Effect>, SupervisorError>)
        requires
            old(self).wf(),
            is_switch_finalization(result) ==> era_id == old(self).spec_current_era() && era_id.0
                < u64::MAX,
        ensures
            final(self).wf(),
            same_settings(final(self).state(), old(self).state()),
            final(self).spec_current_era().0 >= old(self).spec_current_era().0,
            final(self).spec_calls().len() >= old(self).spec_calls().len(),
            final(self).spec_calls().subrange(0, old(self).spec_calls().len() as int) == old(
                self,
            ).spec_calls(),
            !is_switch_finalization(result) ==> {
                &&& r matches Ok(e)
                &&& effects_view(e@) == result_effects(era_id, result, now)
                &&& final(self).state() == old(self).state()
            },
            is_switch_finalization(result) ==> switch_applied(
                old(self).state(),
                final(self).state(),
                era_id,
                result,
                now,
                effects_result_view(r),
                Seq::empty(),
                Seq::empty(),
            ),
            final(self).spec_reports() == old(self).spec_reports() + result_reports(era_id, result),
    {
        if !crate::translate::switch_finalization(&result) {
            let ghost res = result;
            let kept = match result {
                ProtocolResult::InvalidIncomingMessage(message, sender, error) => {
                    self.reports.push(Report::InvalidMessage { era_id, sender, message, error });
                    let r: Vec<Effect> = Vec::new();
                    assert(effects_view(r@) =~= result_effects(era_id, res, now));
                    assert(self.reports@ =~= old(self).reports@ + result_reports(era_id, res));
                    return Ok(r);
                },
                other => other,
            };
            assert(kept == res);
            assert(self.reports@ =~= old(self).reports@ + result_reports(era_id, res));
            return Ok(translate_result(era_id, kept, now));
        }
        assert(result_reports(era_id, result) =~= Seq::<Report>::empty());
        assert(self.reports@ =~= old(self).reports@ + result_reports(era_id, result));
        let ghost before = self.state();
        match result {
            ProtocolResult::FinalizedBlock { value, new_equivocators, rewards, timestamp } => {
                let ghost v = value;
                let ghost eqs = new_equivocators@;
                let ghost rws = rewards@;
                let (announcement, execution) = finalization_effects(
                    era_id,
                    value,
                    new_equivocators,
                    rewards,
                    timestamp,
                );
                let mut effects: Vec<Effect> = Vec::new();
                effects.push(announcement);
                self.current_era_mut().deactivate_validator();
                proof {
                    self.deactivated@ = self.deactivated@.insert(era_id.0);
                    self.calls@ = self.calls@.push(
                        InstanceCall::Deactivated {
                            era_id,
                            instance: self.active_eras@[era_id.0 as int],
                        },
                    );
                }
                let new_era_id = era_id.successor();
                let ghost deactivated_state = self.state();
                let results = self.new_era(new_era_id, timestamp);
                let ghost initial = results@;
                self.current_era = new_era_id;
                assert(self.deactivated@ =~= Set::new(|i: u64| i < self.current_era.0));
                assert(self.state().calls.subrange(0, before.calls.len() as int) =~= before.calls);
                assert(self.state().eras.subrange(0, era_id.0 as int) =~= before.eras.subrange(
                    0,
                    era_id.0 as int,
                ));
                assert(self.state().calls[before.calls.len() as int] == deactivated_state.calls[before.calls.len() as int]);
                let translated = Self::translate_new_era_results(new_era_id, era_id, results, now);
                match translated {
                    Ok(mut more) => {
                        let ghost added = more@;
                        effects.append(&mut more);
                        effects.push(execution);
                        assert(effects_view(effects@) =~= seq![finalized_announcement(v)]
                            + effects_view(added) + seq![
                            execution_request(era_id, v, eqs, rws, timestamp),
                        ]);
                        assert(results_effects(era_id, Seq::<ProtocolResult>::empty(), now)
                            =~= Seq::<EffectView>::empty());
                        assert(effects_view(effects@) =~= Seq::<EffectView>::empty() + seq![
                            finalized_announcement(v),
                        ] + results_effects(new_era_id, initial, now) + seq![
                            execution_request(era_id, v, eqs, rws, timestamp),
                        ] + results_effects(era_id, Seq::<ProtocolResult>::empty(), now));
                        Ok(effects)
                    },
                    Err(e) => Err(e),
                }
            },
            _ => Ok(Vec::new()),
        }
    }

    /// Applies the results of one call into the instance of `era_id`, in
    /// order; stops at the first broken invariant.
    pub fn handle_results(&mut self, era_id: EraId, results: Vec<ProtocolResult>, now: u64) -> (r:
        Result<Vec<Effect>, SupervisorError>)
        requires
            old(self).wf(),
        ensures
            final(self).wf(),
            same_settings(final(self).state(), old(self).state()),
            final(self).spec_current_era().0 >= old(self).spec_current_era().0,
            final(self).spec_calls().len() >= old(self).spec_calls().len(),
            final(self).spec_calls().subrange(0, old(self).spec_calls().len() as int) == old(
                self,
            ).spec_calls(),
            results_applied(
                old(self).state(),
                final(self).state(),
                era_id,
                results@,
                now,
                effects_result_view(r),
            ),
            no_switch_finalization(results@) ==> final(self).spec_reports() == old(
                self,
            ).spec_reports() + results_reports(era_id, results@),
    {
        let ghost rs = results@;
        let ghost before = self.state();
        let ghost before_reports = self.spec_reports();
        let n = results.len();
        let mut pending = results;
        let mut effects: Vec<Effect> = Vec::new();
        let mut i: usize = 0;
        let ghost mut k: int = -1;
        while i < n
            invariant
                n == rs.len(),
                i <= n,
                rs == results@,
                before == old(self).state(),
                pending@ == rs.subrange(i as int, n as int),
                self.wf(),
                same_settings(self.state(), before),
                self.spec_current_era().0 >= before.current.0,
                self.spec_calls().len() >= before.calls.len(),
                self.spec_calls().subrange(0, before.calls.len() as int) == before.calls,
                before_reports == old(self).spec_reports(),
                k == -1 ==> self.spec_reports() == before_reports + results_reports(
                    era_id,
                    rs.subrange(0, i as int),
                ),
                k == -1 ==> {
                    &&& no_switch_finalization(rs.subrange(0, i as int))
                    &&& effects_view(effects@) == results_effects(era_id, rs.subrange(0, i as int), now)
                    &&& self.state() == before
                },
                k != -1 ==> {
                    &&& 0 <= k < i
                    &&& is_switch_finalization(rs[k])
                    &&& no_switch_finalization(rs.subrange(0, k))
                    &&& switch_applied(
                        before,
                        self.state(),
                        era_id,
                        rs[k],
                        now,
                        Ok::<Seq<EffectView>, SupervisorError>(effects_view(effects@)),
                        results_effects(era_id, rs.subrange(0, k), now),
                        rs.subrange(k + 1, i as int),
                    )
                    &&& self.spec_current_era().0 == era_id.0 + 1
                },
            decreases n - i,
        {
            let result = pending.remove(0);
            assert(result == rs[i as int]);
            let ghost pre_state = self.state();
            let ghost pre_eff = effects_view(effects@);
            if crate::translate::switch_finalization(&result) && (era_id.0 != self.current_era.0
                || era_id.0 == u64::MAX) {
                let e = if era_id.0 != self.current_era.0 {
                    SupervisorError::UnexpectedEra { era_id, current_era: self.current_era }
                } else {
                    SupervisorError::EraLimit
                };
                proof {
                    if k == -1 {
                        assert(switch_applied(
                            before,
                            self.state(),
                            era_id,
                            rs[i as int],
                            now,
                            Err(e),
                            results_effects(era_id, rs.subrange(0, i as int), now),
                            rs.subrange(i as int + 1, n as int),
                        ));
                        assert forall|k2: int|
                            0 <= k2 < rs.len() && is_switch_finalization(#[trigger] rs[k2])
                                && no_switch_finalization(rs.subrange(0, k2)) implies k2 == i by {
                            lemma_first_switch_unique(rs, k2, i as int);
                        }
                    } else {
                        assert(rs.subrange(k + 1, n as int)[i - k - 1] == rs[i as int]);
                        lemma_switch_refuse(
                            before,
                            self.state(),
                            era_id,
                            rs[k],
                            now,
                            pre_eff,
                            results_effects(era_id, rs.subrange(0, k), now),
                            rs.subrange(k + 1, i as int),
                            rs.subrange(k + 1, n as int),
                        );
                        assert forall|k2: int|
                            0 <= k2 < rs.len() && is_switch_finalization(#[trigger] rs[k2])
                                && no_switch_finalization(rs.subrange(0, k2)) implies k2 == k by {
                            lemma_first_switch_unique(rs, k2, k);
                        }
                    }
                }
                return Err(e);
            }
            let outcome = self.handle_consensus_result(era_id, result, now);
            match outcome {
                Ok(mut more) => {
                    let ghost added = more@;
                    effects.append(&mut more);
                    assert(effects_view(effects@) =~= pre_eff + effects_view(added));
                    proof {
                        lemma_results_effects_prefix(era_id, rs, now, i as int);
                        assert(rs.subrange(0, i as int + 1).drop_last() =~= rs.subrange(0, i as int));
                        if k == -1 {
                            assert(self.spec_reports() =~= before_reports + results_reports(
                                era_id,
                                rs.subrange(0, i as int + 1),
                            ));
                            if is_switch_finalization(rs[i as int]) {
                                lemma_switch_weaken(
                                    before,
                                    self.state(),
                                    era_id,
                                    rs[i as int],
                                    now,
                                    Ok(effects_view(added)),
                                    Ok(effects_view(effects@)),
                                    pre_eff,
                                    Seq::empty(),
                                );
                                assert(rs.subrange(i as int + 1, i as int + 1) =~= Seq::<
                                    ProtocolResult,
                                >::empty());
                                k = i as int;
                            } else {
                                assert(no_switch_finalization(rs.subrange(0, i as int + 1))) by {
                                    assert forall|j: int| 0 <= j < i + 1 implies !is_switch_finalization(
                                        #[trigger] rs.subrange(0, i as int + 1)[j],
                                    ) by {
                                        if j < i {
                                            assert(rs.subrange(0, i as int + 1)[j] == rs.subrange(
                                                0,
                                                i as int,
                                            )[j]);
                                        }
                                    }
                                }
                            }
                        } else {
                            lemma_switch_extend(
                                before,
                                self.state(),
                                era_id,
                                rs[k],
                                now,
                                pre_eff,
                                results_effects(era_id, rs.subrange(0, k), now),
                                rs.subrange(k + 1, i as int),
                                rs[i as int],
                            );
                            assert(rs.subrange(k + 1, i as int).push(rs[i as int]) =~= rs.subrange(
                                k + 1,
                                i as int + 1,
                            ));
                        }
                    }
                },
                Err(e) => {
                    proof {
                        if k == -1 {
                            lemma_switch_weaken(
                                before,
                                self.state(),
                                era_id,
                                rs[i as int],
                                now,
                                Err(e),
                                Err(e),
                                pre_eff,
                                rs.subrange(i as int + 1, n as int),
                            );
                            assert forall|k2: int|
                                0 <= k2 < rs.len() && is_switch_finalization(#[trigger] rs[k2])
                                    && no_switch_finalization(rs.subrange(0, k2)) implies k2
                                == i by {
                                lemma_first_switch_unique(rs, k2, i as int);
                            }
                        } else {
                            assert(is_switch_finalization(rs[i as int]));
                        }
                    }
                    return Err(e);
                },
            }
            i = i + 1;
        }
        proof {
            assert(rs.subrange(0, n as int) =~= rs);
            if k != -1 {
                assert forall|k2: int|
                    0 <= k2 < rs.len() && is_switch_finalization(#[trigger] rs[k2])
                        && no_switch_finalization(rs.subrange(0, k2)) implies k2 == k by {
                    lemma_first_switch_unique(rs, k2, k);
                }
            }
        }
        Ok(effects)
    }

    /// Applies what the instance of `era_id` answered to a request: an
    /// error is dropped with no effect, results are applied in order.
    pub fn apply_outcome(
        &mut self,
        era_id: EraId,
        outcome: Result<Vec<ProtocolResult>, ProtocolError>,
        now: u64,
    ) -> (r: Result<Vec<Effect>, SupervisorError>)
        requires
            old(self).wf(),
        ensures
            final(self).wf(),
            same_settings(final(self).state(), old(self).state()),
            final(self).spec_current_era().0 >= old(self).spec_current_era().0,
            final(self).spec_calls().len() >= old(self).spec_calls().len(),
            final(self).spec_calls().subrange(0, old(self).spec_calls().len() as int) == old(
                self,
            ).spec_calls(),
            outcome is Err ==> {
                &&& effects_result_view(r) == Ok::<Seq<EffectView>, SupervisorError>(Seq::empty())
                &&& final(self).state() == old(self).state()
            },
            outcome matches Ok(rs) ==> results_applied(
                old(self).state(),
                final(self).state(),
                era_id,
                rs@,
                now,
                effects_result_view(r),
            ),
            outcome matches Err(error) ==> final(self).spec_reports() == old(
                self,
            ).spec_reports().push(Report::InstanceError { era_id, error }),
            outcome is Ok && no_switch_finalization(outcome->Ok_0@) ==> final(self).spec_reports()
                == old(self).spec_reports() + results_reports(era_id, outcome->Ok_0@),
    {
        match outcome {
            Ok(results) => self.handle_results(era_id, results, now),
            Err(error) => {
                self.reports.push(Report::InstanceError { era_id, error });
                let r: Vec<Effect> = Vec::new();
                assert(effects_view(r@) =~= Seq::empty());
                Ok(r)
            },
        }
    }
}

impl<P: ConsensusProtocol> EraSupervisor<P> {
    /// Whether `era_id` is live, or else ahead of or behind the current era.
    pub fn era_status(&self, era_id: EraId) -> (r: EraStatus)
        requires
            self.wf(),
        ensures
            r == EraStatus::Live <==> self.has_era(era_id),
            r == EraStatus::Future <==> !self.has_era(era_id) && era_id.0
                > self.spec_current_era().0,
            r == EraStatus::Obsolete <==> !self.has_era(era_id) && era_id.0
                <= self.spec_current_era().0,
    {
        if era_id.0 < self.active_eras.len() as u64 {
            EraStatus::Live
        } else if era_id.0 > self.current_era.0 {
            EraStatus::Future
        } else {
            EraStatus::Obsolete
        }
    }

    /// Makes `request` on the instance of `era_id` and applies the results.
    /// An era without an instance absorbs the request, and an error of the
    /// instance drops it: both give no effect.
    pub fn delegate_to_era(&mut self, era_id: EraId, request: Request, now: u64) -> (r: Result<
        Vec<Effect>,
        SupervisorError,
    >)
        requires
            old(self).wf(),
        ensures
            final(self).wf(),
            same_settings(final(self).state(), old(self).state()),
            final(self).spec_current_era().0 >= old(self).spec_current_era().0,
            final(self).spec_eras().len() >= old(self).spec_eras().len(),
            routed(
                old(self).state(),
                final(self).state(),
                era_id,
                request@,
                now,
                effects_result_view(r),
            ),
            !old(self).has_era(era_id) ==> final(self).spec_reports() == old(self).spec_reports(),
            old(self).has_era(era_id) ==> (final(self).spec_calls()[old(self).spec_calls().len() as int] matches InstanceCall::Requested { outcome, .. } && {
                &&& (outcome is Err) ==> (final(self).spec_reports() == old(self).spec_reports().push(
                    Report::InstanceError { era_id, error: outcome->Err_0 },
                ))
                &&& (outcome is Ok && no_switch_finalization(outcome->Ok_0)) ==> (final(self).spec_reports()
                    == old(self).spec_reports() + results_reports(era_id, outcome->Ok_0))
            }),
    {
        let n = self.active_eras.len();
        if era_id.0 >= n as u64 {
            let r: Vec<Effect> = Vec::new();
            assert(effects_view(r@) =~= Seq::empty());
            return Ok(r);
        }
        let i = era_id.0 as usize;
        let ghost rq = request@;
        let ghost before = self.state();
        let outcome = match request {
            Request::Timer(timestamp) => self.active_eras[i].handle_timer(timestamp),
            Request::Message(sender, payload) => self.active_eras[i].handle_message(
                sender,
                payload,
            ),
            Request::Propose(proto_block, block_context) => self.active_eras[i].propose(
                proto_block,
                block_context,
            ),
            Request::ResolveValidity(proto_block, valid) => self.active_eras[i].resolve_validity(
                &proto_block,
                valid,
            ),
        };
        let ghost entry = InstanceCall::Requested {
            era_id,
            request: rq,
            outcome: outcome_view(outcome),
            instance: self.active_eras@[i as int],
        };
        proof {
            self.calls@ = self.calls@.push(entry);
        }
        assert(self.state() == after_request(before, entry));
        let r = self.apply_outcome(era_id, outcome, now);
        assert(self.spec_calls().subrange(0, before.calls.len() as int + 1)[before.calls.len() as int]
            == self.spec_calls()[before.calls.len() as int]);
        r
    }

    /// A timer of `era_id` that was set for `timestamp` has fired.
    pub fn handle_timer(&mut self, era_id: EraId, timestamp: u64, now: u64) -> (r: Result<
        Vec<Effect>,
        SupervisorError,
    >)
        requires
            old(self).wf(),
        ensures
            final(self).wf(),
            same_settings(final(self).state(), old(self).state()),
            routed(
                old(self).state(),
                final(self).state(),
                era_id,
                RequestView::Timer(timestamp),
                now,
                effects_result_view(r),
            ),
    {
        self.delegate_to_era(era_id, Request::Timer(timestamp), now)
    }

    /// `sender` has sent `msg`; it goes to the era it names.
    pub fn handle_message(&mut self, sender: NodeId, msg: ConsensusMessage, now: u64) -> (r:
        Result<Vec<Effect>, SupervisorError>)
        requires
            old(self).wf(),
        ensures
            final(self).wf(),
            same_settings(final(self).state(), old(self).state()),
            routed(
                old(self).state(),
                final(self).state(),
                msg.era_id,
                RequestView::Message(sender, msg.payload@),
                now,
                effects_result_view(r),
            ),
    {
        let ConsensusMessage { era_id, payload } = msg;
        self.delegate_to_era(era_id, Request::Message(sender, payload), now)
    }

    /// A proto-block that was asked for has arrived: it is announced as
    /// proposed, then proposed to the instance of `era_id`.
    pub fn handle_new_proto_block(
        &mut self,
        era_id: EraId,
        proto_block: ProtoBlock,
        block_context: BlockContext,
        now: u64,
    ) -> (r: Result<Vec<Effect>, SupervisorError>)
        requires
            old(self).wf(),
        ensures
            final(self).wf(),
            same_settings(final(self).state(), old(self).state()),
            r matches Ok(e) ==> e@.len() >= 1 && e@[0]@ == EffectView::AnnounceProposedProtoBlock(
                proto_block@,
            ),
            routed(
                old(self).state(),
                final(self).state(),
                era_id,
                RequestView::Propose(proto_block@, block_context),
                now,
                match effects_result_view(r) {
                    Ok(e) => Ok(e.drop_first()),
                    Err(x) => Err(x),
                },
            ),
    {
        let mut effects: Vec<Effect> = Vec::new();
        effects.push(Effect::AnnounceProposedProtoBlock(proto_block.duplicate()));
        let outcome = self.delegate_to_era(era_id, Request::Propose(proto_block, block_context), now);
        match outcome {
            Ok(mut more) => {
                let ghost added = more@;
                effects.append(&mut more);
                assert(effects_view(effects@).drop_first() =~= effects_view(added));
                Ok(effects)
            },
            Err(e) => Err(e),
        }
    }

    /// A block has been executed: this node signs its hash and it is
    /// stored with the signature appended to its proofs.
    pub fn handle_executed_block(&self, era_id: EraId, block: Block) -> (r: Vec<Effect>)
        ensures
            r@.len() == 1,
            r@[0] matches Effect::PutBlockToStorage(b) && {
                &&& b.hash == block.hash
                &&& b.finalized_block == block.finalized_block
                &&& b.proofs@.len() == block.proofs@.len() + 1
                &&& b.proofs@.drop_last() == block.proofs@
                &&& b.proofs@.last().0@ == ed25519_signature(
                    block.hash@,
                    self.state().secret_key.0@,
                )
            },
    {
        let signature = sign_hash(&block.hash, &self.secret_signing_key);
        let r = store_signed_block(block, signature);
        assert(r@[0]->PutBlockToStorage_0.proofs@.drop_last() =~= block.proofs@);
        r
    }

    /// A proto-block was found valid: the instance of `era_id` learns it,
    /// then the block is announced as proposed.
    pub fn handle_accept_proto_block(&mut self, era_id: EraId, proto_block: ProtoBlock, now: u64) -> (r:
        Result<Vec<Effect>, SupervisorError>)
        requires
            old(self).wf(),
        ensures
            final(self).wf(),
            same_settings(final(self).state(), old(self).state()),
            r matches Ok(e) ==> e@.len() >= 1 && e@.last()@
                == EffectView::AnnounceProposedProtoBlock(proto_block@),
            routed(
                old(self).state(),
                final(self).state(),
                era_id,
                RequestView::ResolveValidity(proto_block@, true),
                now,
                match effects_result_view(r) {
                    Ok(e) => Ok(e.drop_last()),
                    Err(x) => Err(x),
                },
            ),
    {
        let copy = proto_block.duplicate();
        let outcome = self.delegate_to_era(era_id, Request::ResolveValidity(copy, true), now);
        match outcome {
            Ok(mut effects) => {
                let ghost before = effects@;
                effects.push(Effect::AnnounceProposedProtoBlock(proto_block));
                assert(effects_view(effects@).drop_last() =~= effects_view(before));
                Ok(effects)
            },
            Err(e) => Err(e),
        }
    }

    /// A proto-block was found invalid: the instance of `era_id` learns it.
    pub fn handle_invalid_proto_block(
        &mut self,
        era_id: EraId,
        sender: NodeId,
        proto_block: ProtoBlock,
        now: u64,
    ) -> (r: Result<Vec<Effect>, SupervisorError>)
        requires
            old(self).wf(),
        ensures
            final(self).wf(),
            same_settings(final(self).state(), old(self).state()),
            routed(
                old(self).state(),
                final(self).state(),
                era_id,
                RequestView::ResolveValidity(proto_block@, false),
                now,
                effects_result_view(r),
            ),
    {
        self.delegate_to_era(era_id, Request::ResolveValidity(proto_block, false), now)
    }

    /// Hands out, and forgets, what was dropped since the last call.
    pub fn take_reports(&mut self) -> (r: Vec<Report>)
        requires
            old(self).wf(),
        ensures
            r@ == old(self).spec_reports(),
            final(self).spec_reports().len() == 0,
            final(self).state() == old(self).state(),
            final(self).wf(),
    {
        let mut reports: Vec<Report> = Vec::new();
        std::mem::swap(&mut reports, &mut self.reports);
        reports
    }

    /// The ids of the live eras, in increasing order.
    pub fn active_eras(&self) -> (r: Vec<EraId>)
        requires
            self.wf(),
        ensures
            r@.len() == self.spec_eras().len(),
            forall|i: int| 0 <= i < r@.len() ==> (#[trigger] r@[i]).0 == i,
    {
        let n = self.active_eras.len();
        let mut r: Vec<EraId> = Vec::new();
        let mut i: usize = 0;
        while i < n
            invariant
                i <= n,
                n == self.spec_eras().len(),
                r@.len() == i,
                forall|j: int| 0 <= j < i ==> (#[trigger] r@[j]).0 == j,
            decreases n - i,
        {
            r.push(EraId(i as u64));
            i = i + 1;
        }
        r
    }

    /// The era that accepts new proposals.
    pub fn current_era(&self) -> (r: EraId)
        ensures
            r == self.spec_current_era(),
    {
        self.current_era
    }

    /// The instance of `era_id`, if it is live.
    pub fn era(&self, era_id: EraId) -> (r: Option<&P>)
        ensures
            self.has_era(era_id) <==> r is Some,
            r matches Some(p) ==> *p == self.spec_eras()[era_id.0 as int],
    {
        if era_id.0 < self.active_eras.len() as u64 {
            Some(&self.active_eras[era_id.0 as usize])
        } else {
            None
        }
    }

    /// The stakes that each new era is built from.
    pub fn validator_stakes(&self) -> (r: &Vec<(PublicKey, Motes)>)
        ensures
            r@ == self.state().stakes,
    {
        &self.validator_stakes
    }

    /// This node's public signing key.
    pub fn public_signing_key(&self) -> (r: PublicKey)
        ensures
            r == self.state().public_key,
    {
        self.public_signing_key
    }

    /// This node's secret signing key, for signing executed blocks.
    pub fn secret_signing_key(&self) -> (r: SecretKey)
        ensures
            r == self.state().secret_key,
    {
        self.secret_signing_key
    }
}

} // verus!
