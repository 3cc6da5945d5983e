use interaction_sampler::config::{default_retry_budget, ConfigError, SamplingConfig};
use interaction_sampler::profile::{ProbabilityProfile, CAT_ACTION, CATEGORY_COUNT, WEIGHT_ONE};
use interaction_sampler::sampler::{run_outputs, AttemptOutcome, Sampler, SamplerState};

fn art(b: u8) -> Option<Vec<u8>> {
    Some(vec![b, b.wrapping_add(1)])
}

#[test]
fn zero_target_succeeds_without_attempts() {
    let s = Sampler::new(0, 10);
    assert_eq!(s.state(), SamplerState::Succeeded);
    assert_eq!(s.attempts(), 0);
    let r = run_outputs(0, 10, &vec![art(1), None]);
    assert_eq!(r.termination, SamplerState::Succeeded);
    assert_eq!(r.attempts, 0);
    assert_eq!(r.produced_count, 0);
    assert!(r.outcomes.is_empty());
}

#[test]
fn zero_target_zero_budget_succeeds() {
    assert_eq!(Sampler::new(0, 0).state(), SamplerState::Succeeded);
}

#[test]
fn zero_budget_is_exhausted_at_once() {
    let r = run_outputs(4, 0, &vec![None, None, None]);
    assert_eq!(r.termination, SamplerState::Exhausted);
    assert_eq!(r.produced_count, 0);
    assert_eq!(r.attempts, 0);
}

#[test]
fn custom_action_profile_three_distinct() {
    let mut w = vec![0u32; CATEGORY_COUNT];
    w[CAT_ACTION] = WEIGHT_ONE;
    let profile = ProbabilityProfile::select("custom", w).unwrap();
    assert_eq!(profile.weight(CAT_ACTION), WEIGHT_ONE);
    let config =
        SamplingConfig::resolve(Some(3), None, None, Some(100), Some(42)).unwrap();
    assert_eq!(config.seed, 42);
    let outputs = vec![art(1), art(2), art(3), art(4)];
    let r = run_outputs(config.target_count, config.retry_budget, &outputs);
    assert_eq!(r.produced_count, 3);
    assert_eq!(r.termination, SamplerState::Succeeded);
    assert_eq!(r.attempts, 3);
    assert_eq!(
        r.outcomes,
        vec![
            AttemptOutcome::Accepted(0),
            AttemptOutcome::Accepted(1),
            AttemptOutcome::Accepted(2)
        ]
    );
    assert_eq!(r.persisted, vec![vec![1, 2], vec![2, 3], vec![3, 4]]);
}

#[test]
fn same_artifact_always_exhausts() {
    let outputs = vec![art(7); 20];
    let r = run_outputs(5, 3, &outputs);
    assert_eq!(r.produced_count, 1);
    assert_eq!(r.termination, SamplerState::Exhausted);
    assert_eq!(r.attempts, 4);
    assert_eq!(
        r.outcomes,
        vec![
            AttemptOutcome::Accepted(0),
            AttemptOutcome::Duplicate,
            AttemptOutcome::Duplicate,
            AttemptOutcome::Duplicate
        ]
    );
}

#[test]
fn runs_are_reproducible() {
    let outputs = vec![art(1), None, art(1), art(2), None, art(3), art(2), art(4)];
    let a = run_outputs(3, 5, &outputs);
    let b = run_outputs(3, 5, &outputs);
    assert_eq!(a.produced_count, b.produced_count);
    assert_eq!(a.attempts, b.attempts);
    assert_eq!(a.termination, b.termination);
    assert_eq!(a.outcomes, b.outcomes);
    assert_eq!(a.persisted, b.persisted);
}

#[test]
fn persisted_artifacts_are_distinct() {
    let outputs = vec![art(1), art(2), art(1), art(2), art(3), art(1), art(4)];
    let r = run_outputs(10, 50, &outputs);
    assert_eq!(r.persisted, vec![vec![1, 2], vec![2, 3], vec![3, 4], vec![4, 5]]);
    for i in 0..r.persisted.len() {
        for j in i + 1..r.persisted.len() {
            assert_ne!(r.persisted[i], r.persisted[j]);
        }
    }
    assert_eq!(r.termination, SamplerState::Running);
}

#[test]
fn budget_accounting_holds() {
    let outputs = vec![None, art(1), art(1), None, art(2), None, art(3)];
    let r = run_outputs(5, 4, &outputs);
    assert!(r.produced_count <= 5);
    assert!(r.attempts <= 4 + r.produced_count as u64);
    assert_eq!(r.termination, SamplerState::Exhausted);
    assert_eq!(r.produced_count, 2);
    assert_eq!(r.attempts, 6);
}

#[test]
fn success_on_last_unit_of_budget() {
    let outputs = vec![None, art(1), None];
    let r = run_outputs(1, 1, &outputs);
    assert_eq!(r.termination, SamplerState::Exhausted);
    assert_eq!(r.attempts, 1);
    let outputs = vec![art(1)];
    let r = run_outputs(1, 1, &outputs);
    assert_eq!(r.termination, SamplerState::Succeeded);
    let outputs = vec![art(1), None, art(2)];
    let r = run_outputs(2, 1, &outputs);
    assert_eq!(r.termination, SamplerState::Exhausted);
    assert_eq!(r.produced_count, 1);
}

#[test]
fn stops_once_target_reached() {
    let outputs = vec![art(1), art(2), None, None];
    let r = run_outputs(2, 1, &outputs);
    assert_eq!(r.termination, SamplerState::Succeeded);
    assert_eq!(r.attempts, 2);
}

#[test]
fn record_attempt_step_by_step() {
    let mut s = Sampler::new(2, 2);
    assert!(s.is_running());
    assert_eq!(s.record_attempt(None), AttemptOutcome::Failed);
    assert_eq!(s.remaining_budget(), 1);
    assert_eq!(s.record_attempt(art(9)), AttemptOutcome::Accepted(0));
    assert_eq!(s.remaining_budget(), 1);
    assert_eq!(s.produced_count(), 1);
    assert_eq!(s.record_attempt(art(8)), AttemptOutcome::Accepted(1));
    assert_eq!(s.state(), SamplerState::Succeeded);
    assert_eq!(s.attempts(), 3);
    assert_eq!(s.target_count(), 2);
    assert_eq!(s.into_persisted(), vec![vec![9, 10], vec![8, 9]]);
}

#[test]
fn duplicate_differs_in_one_byte_only() {
    let mut s = Sampler::new(3, 2);
    assert_eq!(s.record_attempt(Some(vec![1, 2, 3])), AttemptOutcome::Accepted(0));
    assert_eq!(s.record_attempt(Some(vec![1, 2, 4])), AttemptOutcome::Accepted(1));
    assert_eq!(s.record_attempt(Some(vec![1, 2])), AttemptOutcome::Accepted(2));
    assert_eq!(s.state(), SamplerState::Succeeded);
}

#[test]
fn duplicate_then_exhausted() {
    let mut s = Sampler::new(3, 1);
    assert_eq!(s.record_attempt(Some(vec![])), AttemptOutcome::Accepted(0));
    assert_eq!(s.record_attempt(Some(vec![])), AttemptOutcome::Duplicate);
    assert_eq!(s.state(), SamplerState::Exhausted);
    assert_eq!(s.produced_count(), 1);
}

#[test]
fn config_defaults() {
    let c = SamplingConfig::resolve(None, None, None, None, None).unwrap();
    assert_eq!(c.target_count, 350);
    assert_eq!(c.max_depth, 10);
    assert_eq!(c.min_symbols, 100);
    assert_eq!(c.retry_budget, 3_500_000);
    assert_eq!(c.seed, 0);
    let s = c.sampler();
    assert_eq!(s.remaining_budget(), 3_500_000);
    assert_eq!(s.target_count(), 350);
}

#[test]
fn config_default_budget_from_given_values() {
    let c = SamplingConfig::resolve(Some(3), Some(4), Some(7), None, Some(9)).unwrap();
    assert_eq!(c.retry_budget, 2_100);
    assert_eq!(c.max_depth, 4);
    assert_eq!(c.seed, 9);
}

#[test]
fn config_budget_overflow() {
    assert_eq!(
        SamplingConfig::resolve(Some(u32::MAX), None, None, None, None),
        Err(ConfigError::RetryBudgetOverflow)
    );
    assert!(SamplingConfig::resolve(Some(u32::MAX), None, None, Some(5), None).is_ok());
}

#[test]
fn default_budget_edges() {
    assert_eq!(default_retry_budget(0, 100), Some(0));
    assert_eq!(default_retry_budget(u32::MAX, 0), Some(0));
    assert_eq!(default_retry_budget(42_949_672, 1), Some(4_294_967_200));
    assert_eq!(default_retry_budget(42_949_673, 1), None);
    assert_eq!(default_retry_budget(2, 3), Some(600));
}
