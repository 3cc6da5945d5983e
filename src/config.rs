//! A run's configuration, with its defaults spelled out.
use vstd::prelude::*;
use crate::sampler::{initial_model, Sampler};

verus! {

/// Distinct artifacts wanted when none is configured.
pub const DEFAULT_TARGET_COUNT: u32 = 350;

/// Structural depth bound handed to the generator when none is configured.
pub const DEFAULT_MAX_DEPTH: u32 = 10;

/// Minimum number of symbols handed to the generator when none is configured.
pub const DEFAULT_MIN_SYMBOLS: u32 = 100;

/// Seed of the pseudo-random source when none is configured.
pub const DEFAULT_SEED: u64 = 0;

/// Attempts allowed per wanted artifact and per required symbol when the
/// retry budget is not configured.
pub const RETRY_MULTIPLIER: u32 = 100;

/// The retry budget a run gets when none is configured.
pub open spec fn default_budget(target_count: nat, min_symbols: nat) -> int {
    target_count * RETRY_MULTIPLIER * min_symbols
}

/// Why a configuration could not be resolved.
#[derive(Debug, Clone, Copy, PartialEq, Eq, Structural)]
pub enum ConfigError {
    /// The default retry budget does not fit in 32 bits.
    RetryBudgetOverflow,
}

/// The default retry budget, `target_count * RETRY_MULTIPLIER * min_symbols`,
/// or `None` where it does not fit in 32 bits.
pub fn default_retry_budget(target_count: u32, min_symbols: u32) -> (r: Option<u32>)
    ensures
        r is Some <==> default_budget(target_count as nat, min_symbols as nat) <= u32::MAX,
        r matches Some(b) ==> b == default_budget(target_count as nat, min_symbols as nat),
{
    match target_count.checked_mul(RETRY_MULTIPLIER) {
        Some(per_symbol) => per_symbol.checked_mul(min_symbols),
        None => {
            if min_symbols == 0 {
                assert(target_count * RETRY_MULTIPLIER * 0 == 0) by (nonlinear_arith);
                Some(0)
            } else {
                let ghost p = target_count * RETRY_MULTIPLIER;
                assert(p * min_symbols >= p) by (nonlinear_arith)
                    requires
                        min_symbols >= 1,
                        p >= 0,
                ;
                None
            }
        },
    }
}

/// What one run is configured with.
#[derive(Debug, Clone, Copy, PartialEq, Eq, Structural)]
pub struct SamplingConfig {
    /// Number of distinct artifacts wanted.
    pub target_count: u32,
    /// Structural depth bound, passed to the generator.
    pub max_depth: u32,
    /// Minimum number of symbols, passed to the generator.
    pub min_symbols: u32,
    /// Attempts that may produce nothing new before the run gives up.
    pub retry_budget: u32,
    /// Seed of the pseudo-random source.
    pub seed: u64,
}

impl SamplingConfig {
    /// The configuration with each unset value at its default; the default
    /// retry budget is computed from the resolved target and minimum symbol
    /// count, and fails with `RetryBudgetOverflow` where it does not fit.
    pub fn resolve(
        target_count: Option<u32>,
        max_depth: Option<u32>,
        min_symbols: Option<u32>,
        retry_budget: Option<u32>,
        seed: Option<u64>,
    ) -> (r: Result<SamplingConfig, ConfigError>)
        ensures
            ({
                let t: u32 = match target_count { Some(v) => v, None => DEFAULT_TARGET_COUNT };
                let d: u32 = match max_depth { Some(v) => v, None => DEFAULT_MAX_DEPTH };
                let s: u32 = match min_symbols { Some(v) => v, None => DEFAULT_MIN_SYMBOLS };
                let k: u64 = match seed { Some(v) => v, None => DEFAULT_SEED };
                &&& r.is_err() <==> (retry_budget is None && default_budget(t as nat, s as nat) > u32::MAX)
                &&& r matches Ok(c) ==> {
                    &&& c.target_count == t
                    &&& c.max_depth == d
                    &&& c.min_symbols == s
                    &&& c.seed == k
                    &&& c.retry_budget == match retry_budget {
                        Some(b) => b as int,
                        None => default_budget(t as nat, s as nat),
                    }
                }
                &&& r matches Err(e) ==> e == ConfigError::RetryBudgetOverflow
            }),
    {
        let target_count = match target_count {
            Some(v) => v,
            None => DEFAULT_TARGET_COUNT,
        };
        let max_depth = match max_depth {
            Some(v) => v,
            None => DEFAULT_MAX_DEPTH,
        };
        let min_symbols = match min_symbols {
            Some(v) => v,
            None => DEFAULT_MIN_SYMBOLS,
        };
        let seed = match seed {
            Some(v) => v,
            None => DEFAULT_SEED,
        };
        let retry_budget = match retry_budget {
            Some(b) => b,
            None => match default_retry_budget(target_count, min_symbols) {
                Some(b) => b,
                None => {
                    return Err(ConfigError::RetryBudgetOverflow);
                },
            },
        };
        Ok(SamplingConfig { target_count, max_depth, min_symbols, retry_budget, seed })
    }

    /// A fresh sampler for a run with this configuration.
    pub fn sampler(&self) -> (r: Sampler)
        ensures
            r.wf(),
            r@ == initial_model(self.target_count as nat, self.retry_budget as nat),
    {
        Sampler::new(self.target_count, self.retry_budget)
    }
}

} // verus!
