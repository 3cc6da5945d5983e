//! The bounded unique-sampling loop, as a state machine: the caller draws one
//! artifact from its generator, hands it (by its canonical bytes) to the
//! sampler, and persists it when the sampler accepts it under a fresh ordinal.
use vstd::prelude::*;

verus! {

/// Where a sampling run stands.
#[derive(Debug, Clone, Copy, PartialEq, Eq, Structural)]
pub enum SamplerState {
    /// More attempts are to be made.
    Running,
    /// The target count of distinct artifacts was reached.
    Succeeded,
    /// The retry budget ran out before the target was reached.
    Exhausted,
}

/// What one attempt came to.
#[derive(Debug, Clone, Copy, PartialEq, Eq, Structural)]
pub enum AttemptOutcome {
    /// The generator produced nothing; one unit of budget was spent.
    Failed,
    /// The artifact had been accepted before; one unit of budget was spent.
    Duplicate,
    /// The artifact is new and is to be persisted under this ordinal.
    Accepted(u32),
}

/// The mathematical state of a run.
pub struct SamplerModel {
    /// Number of distinct artifacts wanted.
    pub target: nat,
    /// Retry budget the run started with.
    pub budget: nat,
    /// Retry budget still left.
    pub remaining: nat,
    /// Attempts made so far.
    pub attempts: nat,
    /// Accepted artifacts, by ordinal.
    pub accepted: Seq<Seq<u8>>,
    pub state: SamplerState,
}

/// No two entries of `s` are equal.
pub open spec fn all_distinct(s: Seq<Seq<u8>>) -> bool {
    forall|i: int, j: int| 0 <= i < j < s.len() ==> s[i] != s[j]
}

/// The state a run's bookkeeping implies.
pub open spec fn state_of(target: nat, produced: nat, remaining: nat) -> SamplerState {
    if produced >= target {
        SamplerState::Succeeded
    } else if remaining == 0 {
        SamplerState::Exhausted
    } else {
        SamplerState::Running
    }
}

impl SamplerModel {
    /// What holds of every state a run passes through: accepted artifacts are
    /// pairwise distinct, at most `target` of them, and every attempt either
    /// spent one unit of budget or produced one artifact.
    pub open spec fn inv(self) -> bool {
        &&& all_distinct(self.accepted)
        &&& self.accepted.len() <= self.target
        &&& self.remaining <= self.budget
        &&& self.attempts == (self.budget - self.remaining) + self.accepted.len()
        &&& self.state == state_of(self.target, self.accepted.len(), self.remaining)
    }
}

/// The state before any attempt.
pub open spec fn initial_model(target: nat, budget: nat) -> SamplerModel {
    SamplerModel {
        target,
        budget,
        remaining: budget,
        attempts: 0,
        accepted: Seq::empty(),
        state: state_of(target, 0, budget),
    }
}

/// Whether an attempt that produced `artifact` finds it new.
pub open spec fn is_novel(m: SamplerModel, artifact: Option<Seq<u8>>) -> bool {
    artifact matches Some(a) && !m.accepted.contains(a)
}

/// The outcome of one attempt that produced `artifact`.
pub open spec fn outcome_of(m: SamplerModel, artifact: Option<Seq<u8>>) -> AttemptOutcome {
    if is_novel(m, artifact) {
        AttemptOutcome::Accepted(m.accepted.len() as u32)
    } else if artifact is Some {
        AttemptOutcome::Duplicate
    } else {
        AttemptOutcome::Failed
    }
}

/// The state after one attempt that produced `artifact`.
pub open spec fn step(m: SamplerModel, artifact: Option<Seq<u8>>) -> SamplerModel {
    if is_novel(m, artifact) {
        let accepted = m.accepted.push(artifact->Some_0);
        SamplerModel {
            attempts: m.attempts + 1,
            accepted,
            state: state_of(m.target, accepted.len(), m.remaining),
            ..m
        }
    } else {
        let remaining = (m.remaining - 1) as nat;
        SamplerModel {
            remaining,
            attempts: m.attempts + 1,
            state: state_of(m.target, m.accepted.len(), remaining),
            ..m
        }
    }
}

/// The state after feeding `outputs` to a run in state `m`, one per attempt,
/// until the run stops or the outputs run out.
pub open spec fn run_from(m: SamplerModel, outputs: Seq<Option<Seq<u8>>>) -> SamplerModel
    decreases outputs.len(),
{
    if outputs.len() == 0 || m.state != SamplerState::Running {
        m
    } else {
        run_from(step(m, outputs[0]), outputs.drop_first())
    }
}

/// The bytes an optional artifact holds.
pub open spec fn bytes_of(artifact: Option<Vec<u8>>) -> Option<Seq<u8>> {
    match artifact {
        Some(v) => Some(v@),
        None => None,
    }
}

/// The outcomes of the attempts made while feeding `outputs` to a run in state `m`.
pub open spec fn outcomes_from(m: SamplerModel, outputs: Seq<Option<Seq<u8>>>) -> Seq<AttemptOutcome>
    decreases outputs.len(),
{
    if outputs.len() == 0 || m.state != SamplerState::Running {
        Seq::empty()
    } else {
        seq![outcome_of(m, outputs[0])] + outcomes_from(step(m, outputs[0]), outputs.drop_first())
    }
}

/// The generator outputs of a stub, as bytes.
pub open spec fn outputs_bytes(outputs: Seq<Option<Vec<u8>>>) -> Seq<Option<Seq<u8>>> {
    outputs.map_values(|o: Option<Vec<u8>>| bytes_of(o))
}

/// One attempt keeps the invariant and counts one more attempt.
pub proof fn lemma_step_keeps_inv(m: SamplerModel, artifact: Option<Seq<u8>>)
    requires
        m.inv(),
        m.state == SamplerState::Running,
    ensures
        step(m, artifact).inv(),
        step(m, artifact).attempts == m.attempts + 1,
{
    if is_novel(m, artifact) {
        let n = step(m, artifact);
        assert forall|i: int, j: int| 0 <= i < j < n.accepted.len() implies n.accepted[i] != n.accepted[j] by {
            if j == m.accepted.len() {
                assert(m.accepted[i] == n.accepted[i]);
            }
        }
    }
}

/// Every state a run reaches meets the invariant.
pub proof fn lemma_run_keeps_inv(m: SamplerModel, outputs: Seq<Option<Seq<u8>>>)
    requires
        m.inv(),
    ensures
        run_from(m, outputs).inv(),
        run_from(m, outputs).target == m.target,
        run_from(m, outputs).budget == m.budget,
        run_from(m, outputs).attempts == m.attempts + outcomes_from(m, outputs).len(),
    decreases outputs.len(),
{
    if outputs.len() > 0 && m.state == SamplerState::Running {
        lemma_step_keeps_inv(m, outputs[0]);
        lemma_run_keeps_inv(step(m, outputs[0]), outputs.drop_first());
    }
}

/// No two artifacts persisted in one run are equal.
pub proof fn lemma_persisted_distinct(target: nat, budget: nat, outputs: Seq<Option<Seq<u8>>>)
    ensures
        all_distinct(run_from(initial_model(target, budget), outputs).accepted),
{
    lemma_run_keeps_inv(initial_model(target, budget), outputs);
}

/// A run never produces more than its target, and each of its attempts either
/// spent one unit of the initial budget or produced one artifact, never both.
pub proof fn lemma_budget_accounting(target: nat, budget: nat, outputs: Seq<Option<Seq<u8>>>)
    ensures
        ({
            let r = run_from(initial_model(target, budget), outputs);
            &&& r.accepted.len() <= target
            &&& r.remaining <= budget
            &&& r.attempts == (budget - r.remaining) + r.accepted.len()
            &&& r.attempts <= budget + r.accepted.len()
        }),
{
    lemma_run_keeps_inv(initial_model(target, budget), outputs);
}

/// A run with a target of zero has succeeded before any attempt.
pub proof fn lemma_zero_target(budget: nat, outputs: Seq<Option<Seq<u8>>>)
    ensures
        run_from(initial_model(0, budget), outputs).state == SamplerState::Succeeded,
        run_from(initial_model(0, budget), outputs).attempts == 0,
        run_from(initial_model(0, budget), outputs).accepted.len() == 0,
{
    assert(run_from(initial_model(0, budget), outputs) == initial_model(0, budget));
}

/// A run with a positive target and no retry budget is exhausted before any
/// attempt, having produced nothing.
pub proof fn lemma_zero_budget(target: nat, outputs: Seq<Option<Seq<u8>>>)
    requires
        target > 0,
    ensures
        run_from(initial_model(target, 0), outputs).state == SamplerState::Exhausted,
        run_from(initial_model(target, 0), outputs).attempts == 0,
        run_from(initial_model(target, 0), outputs).accepted.len() == 0,
{
    assert(run_from(initial_model(target, 0), outputs) == initial_model(target, 0));
}

/// Two runs with the same target and budget, fed the same generator outputs,
/// end in the same state after the same outcomes.
pub proof fn lemma_runs_reproducible(
    target: nat,
    budget: nat,
    outputs1: Seq<Option<Seq<u8>>>,
    outputs2: Seq<Option<Seq<u8>>>,
)
    requires
        outputs1 == outputs2,
    ensures
        run_from(initial_model(target, budget), outputs1) == run_from(initial_model(target, budget), outputs2),
        outcomes_from(initial_model(target, budget), outputs1) == outcomes_from(initial_model(target, budget), outputs2),
{
}

/// Once a run has stopped, whatever the generator would have produced next
/// changes nothing.
pub proof fn lemma_run_ignores_later_outputs(
    m: SamplerModel,
    outputs: Seq<Option<Seq<u8>>>,
    later: Seq<Option<Seq<u8>>>,
)
    requires
        run_from(m, outputs).state != SamplerState::Running,
    ensures
        run_from(m, outputs + later) == run_from(m, outputs),
        outcomes_from(m, outputs + later) == outcomes_from(m, outputs),
    decreases outputs.len(),
{
    if outputs.len() > 0 && m.state == SamplerState::Running {
        assert((outputs + later).drop_first() =~= outputs.drop_first() + later);
        lemma_run_ignores_later_outputs(step(m, outputs[0]), outputs.drop_first(), later);
    }
}

/// Feeding one more output is one more step.
proof fn lemma_run_split(m: SamplerModel, outputs: Seq<Option<Seq<u8>>>, i: int)
    requires
        0 <= i < outputs.len(),
        m.state == SamplerState::Running,
    ensures
        run_from(m, outputs.subrange(i, outputs.len() as int))
            == run_from(step(m, outputs[i]), outputs.subrange(i + 1, outputs.len() as int)),
        outcomes_from(m, outputs.subrange(i, outputs.len() as int))
            == seq![outcome_of(m, outputs[i])] + outcomes_from(step(m, outputs[i]), outputs.subrange(i + 1, outputs.len() as int)),
{
    assert(outputs.subrange(i, outputs.len() as int).drop_first() =~= outputs.subrange(i + 1, outputs.len() as int));
}

/// Whether two byte strings are equal.
fn same_bytes(a: &Vec<u8>, b: &Vec<u8>) -> (r: bool)
    ensures
        r == (a@ == b@),
{
    if a.len() != b.len() {
        return false;
    }
    let mut i: usize = 0;
    while i < a.len()
        invariant
            a.len() == b.len(),
            0 <= i <= a.len(),
            forall|j: int| 0 <= j < i ==> a@[j] == b@[j],
        decreases a.len() - i,
    {
        if a[i] != b[i] {
            return false;
        }
        i = i + 1;
    }
    assert(a@ =~= b@);
    true
}

/// What a run came to.
#[derive(Debug)]
pub struct RunResult {
    /// Number of distinct artifacts accepted.
    pub produced_count: u32,
    /// Number of attempts made.
    pub attempts: u64,
    /// `Succeeded`, `Exhausted`, or `Running` where the outputs ran out first.
    pub termination: SamplerState,
    /// The accepted artifacts, by ordinal.
    pub persisted: Vec<Vec<u8>>,
    /// The outcome of each attempt, in order.
    pub outcomes: Vec<AttemptOutcome>,
}

/// Drives one run: holds the target, the retry budget and the set of
/// artifacts accepted so far.
#[derive(Debug)]
pub struct Sampler {
    target_count: u32,
    retry_budget: u32,
    remaining: u32,
    attempts: u64,
    accepted: Vec<Vec<u8>>,
    state: SamplerState,
}

impl View for Sampler {
    type V = SamplerModel;

    closed spec fn view(&self) -> SamplerModel {
        SamplerModel {
            target: self.target_count as nat,
            budget: self.retry_budget as nat,
            remaining: self.remaining as nat,
            attempts: self.attempts as nat,
            accepted: self.accepted@.map_values(|v: Vec<u8>| v@),
            state: self.state,
        }
    }
}

impl Sampler {
    /// The run's state meets the model's invariant.
    pub open spec fn wf(&self) -> bool {
        self@.inv()
    }

    /// A run that wants `target_count` distinct artifacts and tolerates
    /// `retry_budget` attempts that produce none. It has already succeeded
    /// when the target is zero, and is already exhausted when the target is
    /// positive and the budget zero: every attempt may fail, and a failed
    /// attempt needs a unit of budget.
    pub fn new(target_count: u32, retry_budget: u32) -> (r: Sampler)
        ensures
            r.wf(),
            r@ == initial_model(target_count as nat, retry_budget as nat),
    {
        let state = if target_count == 0 {
            SamplerState::Succeeded
        } else if retry_budget == 0 {
            SamplerState::Exhausted
        } else {
            SamplerState::Running
        };
        let r = Sampler {
            target_count,
            retry_budget,
            remaining: retry_budget,
            attempts: 0,
            accepted: Vec::new(),
            state,
        };
        assert(r@.accepted =~= Seq::<Seq<u8>>::empty());
        r
    }

    /// Whether `artifact` was accepted before.
    fn contains(&self, artifact: &Vec<u8>) -> (r: bool)
        ensures
            r == self@.accepted.contains(artifact@),
    {
        let mut i: usize = 0;
        while i < self.accepted.len()
            invariant
                0 <= i <= self.accepted.len(),
                forall|j: int| 0 <= j < i ==> self.accepted@[j]@ != artifact@,
            decreases self.accepted.len() - i,
        {
            if same_bytes(&self.accepted[i], artifact) {
                assert(self@.accepted[i as int] == artifact@);
                return true;
            }
            i = i + 1;
        }
        assert forall|j: int| 0 <= j < self@.accepted.len() implies self@.accepted[j] != artifact@ by {
            assert(self.accepted@[j]@ != artifact@);
        }
        false
    }

    /// The run's state.
    pub fn state(&self) -> (r: SamplerState)
        ensures
            r == self@.state,
    {
        self.state
    }

    /// Whether more attempts are to be made.
    pub fn is_running(&self) -> (r: bool)
        ensures
            r == (self@.state == SamplerState::Running),
    {
        self.state == SamplerState::Running
    }

    /// Number of distinct artifacts accepted so far.
    pub fn produced_count(&self) -> (r: u32)
        requires
            self.wf(),
        ensures
            r == self@.accepted.len(),
    {
        self.accepted.len() as u32
    }

    /// Number of attempts made so far.
    pub fn attempts(&self) -> (r: u64)
        ensures
            r == self@.attempts,
    {
        self.attempts
    }

    /// Retry budget still left.
    pub fn remaining_budget(&self) -> (r: u32)
        ensures
            r == self@.remaining,
    {
        self.remaining
    }

    /// Number of distinct artifacts wanted.
    pub fn target_count(&self) -> (r: u32)
        ensures
            r == self@.target,
    {
        self.target_count
    }

    /// The accepted artifacts, by ordinal; ends the run's bookkeeping.
    pub fn into_persisted(self) -> (r: Vec<Vec<u8>>)
        ensures
            r@.map_values(|v: Vec<u8>| v@) == self@.accepted,
    {
        self.accepted
    }

    /// Records one attempt whose generator call produced `artifact` (by its
    /// canonical bytes), or nothing. A new artifact is accepted under the next
    /// ordinal and spends no budget; nothing, or a duplicate, spends one unit.
    pub fn record_attempt(&mut self, artifact: Option<Vec<u8>>) -> (r: AttemptOutcome)
        requires
            old(self).wf(),
            old(self)@.state == SamplerState::Running,
        ensures
            final(self).wf(),
            final(self)@ == step(old(self)@, bytes_of(artifact)),
            r == outcome_of(old(self)@, bytes_of(artifact)),
    {
        let ghost m = self@;
        let ghost a = bytes_of(artifact);
        let novel = match &artifact {
            Some(v) => !self.contains(v),
            None => false,
        };
        if novel {
            let v = artifact.unwrap();
            let ordinal = self.accepted.len() as u32;
            self.accepted.push(v);
            self.attempts = self.attempts + 1;
            self.state = if self.accepted.len() as u64 >= self.target_count as u64 {
                SamplerState::Succeeded
            } else {
                SamplerState::Running
            };
            proof {
                assert(self@.accepted =~= m.accepted.push(a->Some_0));
                lemma_step_keeps_inv(m, a);
            }
            AttemptOutcome::Accepted(ordinal)
        } else {
            self.remaining = self.remaining - 1;
            self.attempts = self.attempts + 1;
            self.state = if self.remaining == 0 {
                SamplerState::Exhausted
            } else {
                SamplerState::Running
            };
            assert(self@.accepted =~= m.accepted);
            if artifact.is_some() {
                AttemptOutcome::Duplicate
            } else {
                AttemptOutcome::Failed
            }
        }
    }
}

/// Runs a sampler that wants `target_count` distinct artifacts with a retry
/// budget of `retry_budget`, taking the generator's results from `outputs`,
/// one per attempt, until the run stops or the outputs run out.
pub fn run_outputs(target_count: u32, retry_budget: u32, outputs: &Vec<Option<Vec<u8>>>) -> (r: RunResult)
    ensures
        ({
            let m = run_from(initial_model(target_count as nat, retry_budget as nat), outputs_bytes(outputs@));
            &&& r.produced_count == m.accepted.len()
            &&& r.attempts == m.attempts
            &&& r.termination == m.state
            &&& r.persisted@.map_values(|v: Vec<u8>| v@) == m.accepted
            &&& r.outcomes@ == outcomes_from(initial_model(target_count as nat, retry_budget as nat), outputs_bytes(outputs@))
        }),
{
    let ghost init = initial_model(target_count as nat, retry_budget as nat);
    let ghost all = outputs_bytes(outputs@);
    let mut sampler = Sampler::new(target_count, retry_budget);
    let mut outcomes: Vec<AttemptOutcome> = Vec::new();
    let mut i: usize = 0;
    assert(all.subrange(0, all.len() as int) =~= all);
    while i < outputs.len() && sampler.is_running()
        invariant
            0 <= i <= outputs.len(),
            all.len() == outputs.len(),
            all == outputs_bytes(outputs@),
            sampler.wf(),
            run_from(init, all) == run_from(sampler@, all.subrange(i as int, all.len() as int)),
            outcomes_from(init, all) == outcomes@ + outcomes_from(sampler@, all.subrange(i as int, all.len() as int)),
        decreases outputs.len() - i,
    {
        let artifact: Option<Vec<u8>> = match &outputs[i] {
            Some(v) => Some(v.clone()),
            None => None,
        };
        assert(bytes_of(artifact) == all[i as int]);
        proof {
            lemma_run_split(sampler@, all, i as int);
        }
        let ghost before = outcomes@;
        let outcome = sampler.record_attempt(artifact);
        outcomes.push(outcome);
        assert(outcomes@ =~= before + seq![outcome]);
        i = i + 1;
    }
    assert(run_from(sampler@, all.subrange(i as int, all.len() as int)) == sampler@);
    assert(outcomes_from(sampler@, all.subrange(i as int, all.len() as int)) =~= Seq::<AttemptOutcome>::empty());
    assert(outcomes@ =~= outcomes@ + Seq::<AttemptOutcome>::empty());
    let produced_count = sampler.produced_count();
    let attempts = sampler.attempts();
    let termination = sampler.state();
    let persisted = sampler.into_persisted();
    RunResult { produced_count, attempts, termination, persisted, outcomes }
}

} // verus!
